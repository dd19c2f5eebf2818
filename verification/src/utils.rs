//! Random starting values: the targets of a scene and the aim offsets of the
//! ships that approach them.

use rand::Rng;
use vstd::prelude::*;
use crate::vector::Vec3;

verus! {

/// The least `x` and `y` of a generated target: twenty units below zero.
pub const SPAWN_LOW: i32 = -20_000;

/// The bound that `x`, `y` and `z` of a generated target stay below.
pub const SPAWN_HIGH: i32 = 20_000;

/// The bound that `z` of a generated target stays below: all targets are in
/// front of the camera.
pub const SPAWN_NEAR: i32 = -1_000;

/// A colour, by its red, green and blue part.
#[derive(Clone, Copy, PartialEq, Eq, Structural, Debug)]
pub struct Rgb {
    pub r: u8,
    pub g: u8,
    pub b: u8,
}

/// The digit for a number below ten.
pub open spec fn digit(d: nat) -> char {
    if d == 0 {
        '0'
    } else if d == 1 {
        '1'
    } else if d == 2 {
        '2'
    } else if d == 3 {
        '3'
    } else if d == 4 {
        '4'
    } else if d == 5 {
        '5'
    } else if d == 6 {
        '6'
    } else if d == 7 {
        '7'
    } else if d == 8 {
        '8'
    } else {
        '9'
    }
}

/// A number written in decimal digits.
pub open spec fn decimal(n: nat) -> Seq<char>
    decreases n,
{
    if n < 10 {
        seq![digit(n)]
    } else {
        decimal(n / 10).push(digit(n % 10))
    }
}

/// The name of the target with the given number.
pub open spec fn target_name_of(index: nat) -> Seq<char> {
    "Target #"@ + decimal(index)
}

/// The position is one that a generated target can have.
pub open spec fn in_spawn_volume(position: Vec3) -> bool {
    &&& SPAWN_LOW <= position.x < SPAWN_HIGH
    &&& SPAWN_LOW <= position.y < SPAWN_HIGH
    &&& SPAWN_LOW <= position.z < SPAWN_NEAR
}

/// A random coordinate from `low` up to, but not including, `high`.
///
/// This is `Rng::gen_range` of the `rand` crate on the thread's generator,
/// with the range `low..high`. The contract takes from it that the value
/// lies in that range, and nothing about which value it is. `gen_range`
/// panics on an empty range, which the precondition rules out.
#[verifier::external_body]
fn random_coordinate(low: i32, high: i32) -> (value: i32)
    requires
        low < high,
    ensures
        low <= value < high,
{
    rand::thread_rng().gen_range(low..high)
}

/// A random part of a colour.
///
/// This is `Rng::gen` of the `rand` crate on the thread's generator, for a
/// `u8`. Nothing is claimed of the value.
#[verifier::external_body]
fn random_channel() -> u8 {
    rand::thread_rng().gen()
}

/// The name of the target with the given number: `Target #`, then the number.
///
/// This is `format!` with `{}` for a `usize`, which writes the number in
/// decimal digits without a sign and without leading zeros.
#[verifier::external_body]
fn target_name(index: usize) -> (name: String)
    ensures
        name@ == target_name_of(index as nat),
{
    format!("Target #{}", index)
}

/// The starting values of `len` targets: each has a random position in
/// front of the camera, a random colour, and its number in its name.
pub fn generate_targets(len: usize) -> (targets: Vec<(Vec3, Rgb, String)>)
    ensures
        targets.len() == len,
        forall|i: int|
            0 <= i < len ==> {
                let target = #[trigger] targets[i];
                in_spawn_volume(target.0) && target.2@ == target_name_of(i as nat)
            },
{
    let mut targets: Vec<(Vec3, Rgb, String)> = Vec::new();
    let mut i: usize = 0;
    while i < len
        invariant
            0 <= i <= len,
            targets.len() == i,
            forall|j: int|
                0 <= j < i ==> {
                    let target = #[trigger] targets[j];
                    in_spawn_volume(target.0) && target.2@ == target_name_of(j as nat)
                },
        decreases len - i,
    {
        let position = Vec3::new(
            random_coordinate(SPAWN_LOW, SPAWN_HIGH),
            random_coordinate(SPAWN_LOW, SPAWN_HIGH),
            random_coordinate(SPAWN_LOW, SPAWN_NEAR),
        );
        let color = Rgb { r: random_channel(), g: random_channel(), b: random_channel() };
        let name: String = target_name(i);
        targets.push((position, color, name));
        i += 1;
    }
    targets
}

/// A random aim offset for an approaching ship: the point of the horizontal
/// plane at a random angle and at a random distance of at most `spread` from
/// zero. A spread below zero counts as zero.
pub fn random_aim_offset(spread: i32) -> (offset: Vec3)
    ensures
        crate::angle::is_aim_offset(offset, spread as int),
        offset.y == 0,
        spread >= 0 ==> offset.len_sq() <= spread * spread,
        spread <= 0 ==> offset == (Vec3 { x: 0, y: 0, z: 0 }),
{
    let radius: i32 = if spread <= 0 {
        0
    } else if spread == i32::MAX {
        random_coordinate(0, i32::MAX)
    } else {
        random_coordinate(0, spread + 1)
    };
    let angle: i32 = random_coordinate(0, crate::angle::FULL_TURN as i32);
    let offset: Vec3 = crate::angle::aim_offset(angle, radius);
    proof {
        crate::angle::lemma_polar_in_disc(angle as int, radius as int);
        if spread >= 0 {
            assert(radius * radius <= spread * spread) by (nonlinear_arith)
                requires
                    0 <= radius <= spread,
            ;
        }
        if spread <= 0 {
            assert(radius * radius == 0);
            crate::vector::lemma_len_sq_zero(offset);
        }
    }
    offset
}

} // verus!
