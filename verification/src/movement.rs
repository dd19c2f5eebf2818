//! The player's movement: keys become a direction, the direction
//! accelerates the ship, and the ship slows down once the keys are let go.

use vstd::prelude::*;
use crate::fixed::SCALE;
use crate::vector::{unit, Vec3};

verus! {

/// The acceleration of the player's ship: thirty units a second, every
/// second.
pub const ACCELERATION: i64 = 30_000;

/// What is left of the velocity after a tick without a key: `0.9` of it.
pub const DAMPING: i64 = 900;

/// Which of the keys that steer the ship are down.
#[derive(Clone, Copy, PartialEq, Eq, Structural, Debug)]
pub struct Keys {
    pub w: bool,
    pub a: bool,
    pub s: bool,
    pub d: bool,
    pub q: bool,
    pub e: bool,
    pub arrow_up: bool,
    pub arrow_down: bool,
    pub arrow_left: bool,
    pub arrow_right: bool,
}

/// Where the camera looks, and what is to its right.
#[derive(Clone, Copy, PartialEq, Eq, Structural, Debug)]
pub struct Camera {
    pub forward: Vec3,
    pub right: Vec3,
}

/// The wish to move the player's ship in a direction.
#[derive(Clone, Copy, PartialEq, Eq, Structural, Debug)]
pub struct TranslationEvent {
    value: Vec3,
}

impl View for TranslationEvent {
    type V = Vec3;

    closed spec fn view(&self) -> Vec3 {
        self.value
    }
}

impl TranslationEvent {
    pub fn new(value: &Vec3) -> (event: TranslationEvent)
        ensures
            event@ == *value,
    {
        TranslationEvent { value: *value }
    }

    /// The direction that the event asks for.
    pub fn value(&self) -> (value: Vec3)
        ensures
            value == self@,
    {
        self.value
    }
}

impl Keys {
    /// One of the letter keys that move the ship is down.
    pub open spec fn any_letter(self) -> bool {
        self.w || self.a || self.s || self.d || self.q || self.e
    }

    /// Whether one of the letter keys that move the ship is down.
    pub fn any_letter_pressed(&self) -> (pressed: bool)
        ensures
            pressed == self.any_letter(),
    {
        self.w || self.a || self.s || self.d || self.q || self.e
    }
}

/// What a pair of opposite keys asks for along their axis: one step forth,
/// one step back, or, with both or neither down, nothing.
pub open spec fn signal(forth: bool, back: bool) -> int {
    (if forth {
        1int
    } else {
        0int
    }) - (if back {
        1int
    } else {
        0int
    })
}

/// What a pair of opposite keys asks for along their axis.
pub fn axis_signal(forth: bool, back: bool) -> (step: i64)
    ensures
        step == signal(forth, back),
{
    let ahead: i64 = if forth {
        1
    } else {
        0
    };
    let behind: i64 = if back {
        1
    } else {
        0
    };
    ahead - behind
}

/// The direction of `heading` in the horizontal plane, as a vector of length
/// one.
pub open spec fn level(heading: Vec3) -> Vec3 {
    unit(Vec3 { x: heading.x, y: 0, z: heading.z })
}

/// The direction that the keys ask for, seen from the camera: forward and
/// back along the camera's view, left and right across it, both kept level,
/// and up and down along the vertical. It is no longer than one.
pub open spec fn input_direction(keys: Keys, camera: Camera) -> Vec3 {
    let forward = level(camera.forward).spec_scaled(
        signal(keys.w || keys.arrow_up, keys.s || keys.arrow_down),
        1,
    );
    let right = level(camera.right).spec_scaled(
        signal(keys.d || keys.arrow_right, keys.a || keys.arrow_left),
        1,
    );
    let up = (Vec3 { x: 0, y: SCALE as i32, z: 0 }).spec_scaled(signal(keys.e, keys.q), 1);
    forward.spec_plus(right).spec_plus(up).spec_clamp_length_max(SCALE as int)
}

/// Turns the keys that are down into the wish to move. There is none while
/// no letter key is down, without a camera, and where the keys cancel each
/// other out.
pub fn handle_keyboard_input(keys: &Keys, camera: Option<Camera>) -> (event: Option<
    TranslationEvent,
>)
    ensures
        match event {
            Some(wish) => keys.any_letter() && camera is Some && wish@ == input_direction(
                *keys,
                camera.unwrap(),
            ) && wish@ != (Vec3 { x: 0, y: 0, z: 0 }),
            None => !keys.any_letter() || camera is None || input_direction(*keys, camera.unwrap())
                == (Vec3 { x: 0, y: 0, z: 0 }),
        },
{
    if !keys.any_letter_pressed() {
        return None;
    }
    let view: Camera = match camera {
        Some(view) => view,
        None => {
            return None;
        },
    };
    let forward: Vec3 = Vec3::new(view.forward.x, 0, view.forward.z).normalized();
    let right: Vec3 = Vec3::new(view.right.x, 0, view.right.z).normalized();
    let up: Vec3 = Vec3::new(0, SCALE as i32, 0);
    let forward_signal: i64 = axis_signal(keys.w || keys.arrow_up, keys.s || keys.arrow_down);
    let right_signal: i64 = axis_signal(keys.d || keys.arrow_right, keys.a || keys.arrow_left);
    let up_signal: i64 = axis_signal(keys.e, keys.q);
    let direction: Vec3 = forward.scaled_by(forward_signal, 1).plus(
        right.scaled_by(right_signal, 1),
    ).plus(up.scaled_by(up_signal, 1)).clamp_length_max(SCALE);
    if direction.is_zero() {
        None
    } else {
        Some(TranslationEvent::new(&direction))
    }
}

/// The velocity after the wishes have accelerated it, each for `elapsed`
/// milliseconds, one after another.
pub open spec fn accelerated(velocity: Vec3, wishes: Seq<TranslationEvent>, elapsed: int) -> Vec3
    decreases wishes.len(),
{
    if wishes.len() == 0 {
        velocity
    } else {
        accelerated(velocity, wishes.drop_last(), elapsed).spec_plus(
            wishes.last()@.spec_scaled(ACCELERATION * elapsed, SCALE * SCALE),
        )
    }
}

/// Accelerates the player's ship along every wish to move, for `elapsed`
/// milliseconds each.
pub fn translate_player(velocity: &mut Vec3, wishes: &Vec<TranslationEvent>, elapsed: u32)
    ensures
        *final(velocity) == accelerated(*old(velocity), wishes@, elapsed as int),
{
    assert(ACCELERATION * elapsed == 30_000 * elapsed);
    let gain: i64 = ACCELERATION * (elapsed as i64);
    let mut k: usize = 0;
    while k < wishes.len()
        invariant
            0 <= k <= wishes.len(),
            gain == ACCELERATION * elapsed,
            *velocity == accelerated(*old(velocity), wishes@.subrange(0, k as int), elapsed as int),
        decreases wishes.len() - k,
    {
        assert(wishes@.subrange(0, k + 1).drop_last() =~= wishes@.subrange(0, k as int));
        *velocity = velocity.plus(wishes[k].value().scaled_by(gain, SCALE * SCALE));
        k += 1;
    }
    assert(wishes@.subrange(0, k as int) =~= wishes@);
}

/// Slows the player's ship down while no letter key is down: a tenth of its
/// velocity goes. While a key is down the velocity stays.
pub fn dampen_movement(velocity: &mut Vec3, keys: &Keys)
    ensures
        *final(velocity) == if keys.any_letter() {
            *old(velocity)
        } else {
            old(velocity).spec_scaled(DAMPING as int, SCALE as int)
        },
{
    if keys.any_letter_pressed() {
        return ;
    }
    *velocity = velocity.scaled_by(DAMPING, SCALE);
}

} // verus!
