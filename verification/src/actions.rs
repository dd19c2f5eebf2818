//! The executors of the three actions. Each is a small state machine that a
//! tick moves on: a requested action starts executing, an executing action
//! does its work until it succeeds or fails, and a cancelled action fails.

use vstd::prelude::*;
use crate::common::Actor;
use crate::fixed::{
    ceil_sqrt, floor_sqrt, is_floor_sqrt, lemma_ceil_sqrt, lemma_floor_sqrt_exists,
    lemma_floor_sqrt_unique, lemma_scaled_exact, lemma_scaled_sign, lemma_scaled_within, scale,
    scaled, SCALE,
};
use crate::grid::{placed, GridEntry, SeparationGrid};
use crate::projectile::{Bullet, Missile, Projectile, BULLET_POWER, BULLET_SPEED, MISSILE_POWER};
use crate::scorers::{find_position, position_of};
use crate::vector::{toward, Vec3};

verus! {

/// Where an action stands.
#[derive(Clone, Copy, PartialEq, Eq, Structural, Debug)]
pub enum ActionState {
    Init,
    Requested,
    Executing,
    Cancelled,
    Success,
    Failure,
}

/// The part of the smoothed velocity that a tick takes from the velocity it
/// wants: `0.18`.
pub const SMOOTHING: i64 = 180;

/// How a ship moves: where it is, how fast it moves, in thousandths of a
/// unit a second, and where its nose points, as a vector of length one.
#[derive(Clone, Copy, PartialEq, Eq, Structural, Debug)]
pub struct Body {
    pub position: Vec3,
    pub velocity: Vec3,
    pub facing: Vec3,
}

/// The approach of a ship to its target.
///
/// The ship does not fly at the target itself but at its own aim point, the
/// target's position plus `aim_offset`, so that ships after the same target
/// do not end up in one place. The offset is chosen once, when the ship is
/// given the action.
#[derive(Clone, Copy, PartialEq, Eq, Structural, Debug)]
pub struct Approach {
    /// The approach has succeeded once the aim point is this near.
    pub until_distance: i64,
    /// The length of the step that the ship wants to take toward the aim
    /// point.
    pub speed: i64,
    /// Neighbours nearer than this push the ship away.
    pub separation_radius: i64,
    /// The push of a neighbour at distance zero, and the most that all
    /// neighbours together can push.
    pub separation_strength: i64,
    /// The factor, in thousandths, that turns the wanted step into a
    /// velocity.
    pub movement_multiplier: i64,
    /// The part of the wanted velocity, in thousandths, that a tick takes
    /// over into the ship's velocity.
    pub smoothing: i64,
    pub aim_offset: Vec3,
}

/// What a tick of an approach leaves: the state of the action and the ship's
/// movement.
#[derive(Clone, Copy, PartialEq, Eq, Structural, Debug)]
pub struct ApproachStep {
    pub state: ActionState,
    pub body: Body,
}

/// The push that a ship at `me` gets from a neighbour at `other`: away from
/// the neighbour, and the stronger the nearer the neighbour is. It is
/// `strength` times the share of the radius that the neighbour has come
/// inside it. A neighbour at the radius or beyond does not push, and neither
/// does one at the very same point, from which no direction leads away.
pub open spec fn repulsion(me: Vec3, other: Vec3, radius: int, strength: int) -> Vec3 {
    if other != me && other.closer_than(me, radius) {
        toward(other, me, scaled(strength, radius - floor_sqrt(other.dist_sq(me)), radius))
    } else {
        Vec3 { x: 0, y: 0, z: 0 }
    }
}

/// The pushes of all the neighbours but the ship itself, added up.
pub open spec fn separation_sum(
    me: u64,
    position: Vec3,
    neighbors: Seq<GridEntry>,
    radius: int,
    strength: int,
) -> Vec3
    decreases neighbors.len(),
{
    if neighbors.len() == 0 {
        Vec3 { x: 0, y: 0, z: 0 }
    } else {
        let before = separation_sum(me, position, neighbors.drop_last(), radius, strength);
        if neighbors.last().actor == me {
            before
        } else {
            before.spec_plus(repulsion(position, neighbors.last().position, radius, strength))
        }
    }
}

/// The separation vector of a ship: the sum of its neighbours' pushes, no
/// longer than `strength`.
pub open spec fn separation_of(
    me: u64,
    position: Vec3,
    neighbors: Seq<GridEntry>,
    radius: int,
    strength: int,
) -> Vec3 {
    separation_sum(me, position, neighbors, radius, strength).spec_clamp_length_max(strength)
}

/// A neighbour inside the radius that is not at the ship's own point is,
/// with the distance rounded down, at least one thousandth away and less
/// than the radius.
proof fn lemma_inside_radius(me: Vec3, other: Vec3, radius: int)
    requires
        other != me,
        other.closer_than(me, radius),
    ensures
        1 <= floor_sqrt(other.dist_sq(me)) < radius,
{
    let squared = other.dist_sq(me);
    let distance = floor_sqrt(squared);
    crate::vector::lemma_distance_zero(other, me);
    lemma_floor_sqrt_exists(squared);
    assert(is_floor_sqrt(squared, distance));
    if distance >= radius {
        assert(distance * distance >= radius * radius) by (nonlinear_arith)
            requires
                distance >= radius,
                radius > 0,
        ;
    }
}

/// A push points away from the neighbour: along every axis it has the sign
/// of the way from the neighbour to the ship, or is zero.
pub proof fn lemma_repulsion_points_away(me: Vec3, other: Vec3, radius: int, strength: int)
    requires
        strength >= 0,
    ensures
        ({
            let push = repulsion(me, other, radius, strength);
            &&& me.x >= other.x ==> push.x >= 0
            &&& me.x <= other.x ==> push.x <= 0
            &&& me.y >= other.y ==> push.y >= 0
            &&& me.y <= other.y ==> push.y <= 0
            &&& me.z >= other.z ==> push.z >= 0
            &&& me.z <= other.z ==> push.z <= 0
        }),
{
    if other != me && other.closer_than(me, radius) {
        lemma_inside_radius(me, other, radius);
        let distance = floor_sqrt(other.dist_sq(me));
        let magnitude = scaled(strength, radius - distance, radius);
        lemma_scaled_within(strength, radius - distance, radius);
        let rounded_up = ceil_sqrt(other.dist_sq(me));
        crate::vector::lemma_distance_zero(other, me);
        lemma_ceil_sqrt(other.dist_sq(me));
        lemma_scaled_sign(me.x - other.x, magnitude, rounded_up);
        lemma_scaled_sign(me.y - other.y, magnitude, rounded_up);
        lemma_scaled_sign(me.z - other.z, magnitude, rounded_up);
    }
}

/// The push of a neighbour that stands `gap` along the `x` axis from the
/// ship, inside the radius: it points straight back along the axis, and its
/// length is the strength times the share of the radius that the neighbour
/// has come inside it, `strength * (radius - gap) / radius`.
pub proof fn lemma_repulsion_along_axis(me: Vec3, other: Vec3, radius: int, strength: int)
    requires
        me.y == other.y,
        me.z == other.z,
        0 < other.x - me.x < radius,
    ensures
        repulsion(me, other, radius, strength) == crate::vector::saturated(
            -scaled(strength, radius - (other.x - me.x), radius),
            0,
            0,
        ),
{
    let gap = other.x - me.x;
    assert(other.dist_sq(me) == gap * gap) by (nonlinear_arith)
        requires
            gap == other.x - me.x,
            other.dist_sq(me) == (other.x - me.x) * (other.x - me.x) + (other.y - me.y) * (other.y
                - me.y) + (other.z - me.z) * (other.z - me.z),
            me.y == other.y,
            me.z == other.z,
    ;
    assert(gap * gap < radius * radius && gap * gap < (gap + 1) * (gap + 1)) by (nonlinear_arith)
        requires
            0 < gap < radius,
    ;
    lemma_floor_sqrt_unique(gap * gap, gap);
    let magnitude = scaled(strength, radius - gap, radius);
    lemma_scaled_exact(-1, magnitude, gap);
    assert(scaled(me.x - other.x, magnitude, gap) == -magnitude) by {
        assert(me.x - other.x == -1 * gap);
        assert(-1 * magnitude == -magnitude);
    }
    lemma_scaled_exact(0, magnitude, gap);
    assert(scaled(0, magnitude, gap) == 0) by {
        assert(0 * gap == 0);
        assert(0 * magnitude == 0);
    }
}

/// All the neighbours together push with no more than the strength, however
/// many they are and however near.
pub proof fn lemma_separation_bounded(
    me: u64,
    position: Vec3,
    neighbors: Seq<GridEntry>,
    radius: int,
    strength: int,
)
    ensures
        strength >= 0 ==> separation_of(me, position, neighbors, radius, strength).len_sq()
            <= strength * strength,
        strength < 0 ==> separation_of(me, position, neighbors, radius, strength) == (Vec3 {
            x: 0,
            y: 0,
            z: 0,
        }),
{
    crate::vector::lemma_clamp_length_max(
        separation_sum(me, position, neighbors, radius, strength),
        strength,
    );
}

/// The push that a ship at `me` gets from a neighbour at `other`.
pub fn push_from(me: Vec3, other: Vec3, radius: i64, strength: i64) -> (push: Vec3)
    ensures
        push == repulsion(me, other, radius as int, strength as int),
{
    if other == me || !other.is_closer_than(me, radius) {
        return Vec3::zero();
    }
    let distance: i64 = other.distance(me);
    proof {
        lemma_inside_radius(me, other, radius as int);
    }
    let magnitude: i128 = scale(strength, radius - distance, radius);
    other.step_toward(me, magnitude as i64)
}

/// The separation vector of the ship `me` at `position` among `neighbors`:
/// every neighbour nearer than `radius` pushes the ship away from itself,
/// and the pushes together count for no more than `strength`. The ship
/// itself, which a query of the grid returns with the others, is passed
/// over.
pub fn separation(me: u64, position: Vec3, neighbors: &Vec<GridEntry>, radius: i64, strength: i64) -> (push:
    Vec3)
    ensures
        push == separation_of(me, position, neighbors@, radius as int, strength as int),
{
    let mut total: Vec3 = Vec3::zero();
    let mut k: usize = 0;
    while k < neighbors.len()
        invariant
            0 <= k <= neighbors.len(),
            total == separation_sum(
                me,
                position,
                neighbors@.subrange(0, k as int),
                radius as int,
                strength as int,
            ),
        decreases neighbors.len() - k,
    {
        assert(neighbors@.subrange(0, k + 1).drop_last() =~= neighbors@.subrange(0, k as int));
        if neighbors[k].actor != me {
            total = total.plus(push_from(position, neighbors[k].position, radius, strength));
        }
        k += 1;
    }
    assert(neighbors@.subrange(0, k as int) =~= neighbors@);
    total.clamp_length_max(strength)
}

/// The direction from `from` to `to` as a vector of length one, and
/// `otherwise` where the two are the same point.
pub open spec fn facing_toward(from: Vec3, to: Vec3, otherwise: Vec3) -> Vec3 {
    if from == to {
        otherwise
    } else {
        toward(from, to, SCALE as int)
    }
}

/// The movement of an approaching ship after a tick of `elapsed`
/// milliseconds. The ship wants to step toward the aim point and to give way
/// to `push`; that, as a velocity, is blended into the velocity it has, and
/// the blend carries the ship on. Its nose turns to the aim point.
pub open spec fn approach_move(approach: Approach, body: Body, aim: Vec3, push: Vec3, elapsed: int) -> Body {
    let desired = toward(body.position, aim, approach.speed as int).spec_plus(push);
    let wanted = desired.spec_scaled(approach.movement_multiplier as int, SCALE as int);
    let velocity = body.velocity.spec_plus(
        wanted.spec_minus(body.velocity).spec_scaled(approach.smoothing as int, SCALE as int),
    );
    Body {
        position: body.position.spec_plus(velocity.spec_scaled(elapsed, SCALE as int)),
        velocity,
        facing: facing_toward(body.position, aim, body.facing),
    }
}

/// What a tick does to an approach. A requested approach starts executing
/// and a cancelled one fails. An executing approach fails if its target is
/// gone, succeeds without moving once the aim point is no farther than
/// `until_distance`, and moves on otherwise. An approach that has not been
/// requested, or has ended, is left alone.
pub open spec fn approach_step(
    state: ActionState,
    approach: Approach,
    me: u64,
    body: Body,
    target: Option<Vec3>,
    neighbors: Seq<GridEntry>,
    elapsed: int,
) -> ApproachStep {
    match state {
        ActionState::Requested => ApproachStep { state: ActionState::Executing, body },
        ActionState::Cancelled => ApproachStep { state: ActionState::Failure, body },
        ActionState::Executing => match target {
            None => ApproachStep { state: ActionState::Failure, body },
            Some(at) => {
                let aim = at.spec_plus(approach.aim_offset);
                if body.position.within(aim, approach.until_distance as int) {
                    ApproachStep { state: ActionState::Success, body }
                } else {
                    ApproachStep {
                        state: ActionState::Executing,
                        body: approach_move(
                            approach,
                            body,
                            aim,
                            separation_of(
                                me,
                                body.position,
                                neighbors,
                                approach.separation_radius as int,
                                approach.separation_strength as int,
                            ),
                            elapsed,
                        ),
                    }
                }
            },
        },
        _ => ApproachStep { state, body },
    }
}

/// One tick of the approach of ship `me`. `target` is where the target is
/// now, or `None` if it no longer exists; `neighbors` is what the grid
/// returned for the ship's position; `elapsed` is the time since the last
/// tick, in milliseconds.
pub fn approach_tick(
    state: ActionState,
    approach: &Approach,
    me: u64,
    body: Body,
    target: Option<Vec3>,
    neighbors: &Vec<GridEntry>,
    elapsed: u32,
) -> (next: ApproachStep)
    ensures
        next == approach_step(state, *approach, me, body, target, neighbors@, elapsed as int),
        next.state == ActionState::Success <==> state == ActionState::Success || (state
            == ActionState::Executing && target is Some && body.position.within(
            target.unwrap().spec_plus(approach.aim_offset),
            approach.until_distance as int,
        )),
{
    match state {
        ActionState::Requested => ApproachStep { state: ActionState::Executing, body },
        ActionState::Cancelled => ApproachStep { state: ActionState::Failure, body },
        ActionState::Executing => match target {
            None => ApproachStep { state: ActionState::Failure, body },
            Some(at) => {
                let aim: Vec3 = at.plus(approach.aim_offset);
                if body.position.is_within(aim, approach.until_distance) {
                    ApproachStep { state: ActionState::Success, body }
                } else {
                    let push: Vec3 = separation(
                        me,
                        body.position,
                        neighbors,
                        approach.separation_radius,
                        approach.separation_strength,
                    );
                    let desired: Vec3 = body.position.step_toward(aim, approach.speed).plus(push);
                    let wanted: Vec3 = desired.scaled_by(approach.movement_multiplier, SCALE);
                    let velocity: Vec3 = body.velocity.plus(
                        wanted.minus(body.velocity).scaled_by(approach.smoothing, SCALE),
                    );
                    let facing: Vec3 = if body.position == aim {
                        body.facing
                    } else {
                        body.position.step_toward(aim, SCALE)
                    };
                    ApproachStep {
                        state: ActionState::Executing,
                        body: Body {
                            position: body.position.plus(velocity.scaled_by(elapsed as i64, SCALE)),
                            velocity,
                            facing,
                        },
                    }
                }
            },
        },
        _ => ApproachStep { state, body },
    }
}

/// A ship that approaches a target: who it is, how it moves, where its
/// approach stands, and what it is after.
#[derive(Clone, Copy, PartialEq, Eq, Structural, Debug)]
pub struct Pursuer {
    pub id: u64,
    pub body: Body,
    pub state: ActionState,
    pub target: u64,
    pub approach: Approach,
}

/// The pursuer as the grid sees it.
pub open spec fn as_actor(pursuer: Pursuer) -> Actor {
    Actor { id: pursuer.id, position: pursuer.body.position }
}

/// The pursuers as the grid sees them, in their order.
pub open spec fn as_actors(pursuers: Seq<Pursuer>) -> Seq<Actor> {
    Seq::new(pursuers.len(), |i: int| as_actor(pursuers[i]))
}

/// The pursuer after a tick of its approach, with its target looked up among
/// `actors` and `neighbors` around it.
pub open spec fn pursued(
    pursuer: Pursuer,
    actors: Seq<Actor>,
    neighbors: Seq<GridEntry>,
    elapsed: int,
) -> Pursuer {
    let next = approach_step(
        pursuer.state,
        pursuer.approach,
        pursuer.id,
        pursuer.body,
        position_of(actors, pursuer.target),
        neighbors,
        elapsed,
    );
    Pursuer {
        id: pursuer.id,
        body: next.body,
        state: next.state,
        target: pursuer.target,
        approach: pursuer.approach,
    }
}

/// The approach stage of a tick. The grid is first made the snapshot of
/// where the pursuers are now; then every pursuer takes one tick of its
/// approach. Each gives way to the neighbours that the snapshot holds, so a
/// pursuer that moves early in the stage does not change what a later one
/// sees. `actors` is where the targets are looked up.
pub fn approach_system(
    pursuers: &mut Vec<Pursuer>,
    actors: &Vec<Actor>,
    grid: &mut SeparationGrid,
    elapsed: u32,
)
    requires
        old(grid).wf(),
    ensures
        final(grid).wf(),
        final(grid).cell_size() == old(grid).cell_size(),
        forall|cx: int, cz: int| #[trigger]
            final(grid).bucket(cx, cz) == placed(
                as_actors(old(pursuers)@),
                old(grid).cell_size(),
                cx,
                cz,
            ),
        final(pursuers).len() == old(pursuers).len(),
        forall|i: int|
            0 <= i < old(pursuers).len() ==> #[trigger] final(pursuers)[i] == pursued(
                old(pursuers)[i],
                actors@,
                final(grid).neighborhood(old(pursuers)[i].body.position),
                elapsed as int,
            ),
{
    let mut snapshot: Vec<Actor> = Vec::new();
    let mut k: usize = 0;
    while k < pursuers.len()
        invariant
            0 <= k <= pursuers.len(),
            pursuers@ == old(pursuers)@,
            snapshot@ == as_actors(pursuers@.subrange(0, k as int)),
        decreases pursuers.len() - k,
    {
        snapshot.push(Actor { id: pursuers[k].id, position: pursuers[k].body.position });
        assert(snapshot@ =~= as_actors(pursuers@.subrange(0, k + 1)));
        k += 1;
    }
    assert(pursuers@.subrange(0, k as int) =~= pursuers@);
    grid.rebuild(&snapshot);
    let mut k: usize = 0;
    while k < pursuers.len()
        invariant
            0 <= k <= pursuers.len(),
            pursuers.len() == old(pursuers).len(),
            grid.wf(),
            forall|i: int| k <= i < pursuers.len() ==> #[trigger] pursuers[i] == old(pursuers)[i],
            forall|i: int|
                0 <= i < k ==> #[trigger] pursuers[i] == pursued(
                    old(pursuers)[i],
                    actors@,
                    grid.neighborhood(old(pursuers)[i].body.position),
                    elapsed as int,
                ),
        decreases pursuers.len() - k,
    {
        let pursuer: Pursuer = pursuers[k];
        let neighbors: Vec<GridEntry> = grid.neighbors(pursuer.body.position);
        let target: Option<Vec3> = find_position(actors, pursuer.target);
        let next: ApproachStep = approach_tick(
            pursuer.state,
            &pursuer.approach,
            pursuer.id,
            pursuer.body,
            target,
            &neighbors,
            elapsed,
        );
        pursuers[k].body = next.body;
        pursuers[k].state = next.state;
        k += 1;
    }
}

/// Direct fire at a target that is no farther than `min_distance`.
#[derive(Clone, Copy, PartialEq, Eq, Structural, Debug)]
pub struct Attack {
    pub min_distance: i64,
}

/// What a tick of an attack did.
#[derive(Clone, Copy, PartialEq, Eq, Structural, Debug)]
pub enum AttackOutcome {
    /// Nothing: the action is not executing, or it waits for its timer.
    Held,
    /// The target is out of range and the ship holds its fire.
    TooFar,
    /// A bullet was fired and is to be put into the world.
    Fired(Bullet),
}

/// What a tick of an attack leaves: the state of the action and what it
/// did.
#[derive(Clone, Copy, PartialEq, Eq, Structural, Debug)]
pub struct AttackStep {
    pub state: ActionState,
    pub outcome: AttackOutcome,
}

/// The bullet that a ship at `shooter` fires at a target at `target`: it
/// starts at the ship and flies at bullet speed to where the target is now.
pub open spec fn shot_at(shooter: Vec3, target: Vec3) -> Bullet {
    Bullet {
        position: shooter,
        projectile: Projectile {
            velocity: toward(shooter, target, BULLET_SPEED as int),
            power: BULLET_POWER,
        },
    }
}

/// What a tick does to an attack. A requested attack starts executing and a
/// cancelled one fails. An executing attack fails if its target is gone. It
/// holds its fire, and goes on executing, while the target is farther than
/// `min_distance`. In range it fires one bullet whenever its timer has run
/// out.
pub open spec fn attack_step(
    state: ActionState,
    attack: Attack,
    shooter: Vec3,
    target: Option<Vec3>,
    timer_finished: bool,
) -> AttackStep {
    match state {
        ActionState::Requested => AttackStep {
            state: ActionState::Executing,
            outcome: AttackOutcome::Held,
        },
        ActionState::Cancelled => AttackStep {
            state: ActionState::Failure,
            outcome: AttackOutcome::Held,
        },
        ActionState::Executing => match target {
            None => AttackStep { state: ActionState::Failure, outcome: AttackOutcome::Held },
            Some(at) => AttackStep {
                state: ActionState::Executing,
                outcome: if !shooter.within(at, attack.min_distance as int) {
                    AttackOutcome::TooFar
                } else if timer_finished {
                    AttackOutcome::Fired(shot_at(shooter, at))
                } else {
                    AttackOutcome::Held
                },
            },
        },
        _ => AttackStep { state, outcome: AttackOutcome::Held },
    }
}

/// One tick of an attack. `target` is where the target is now, or `None` if
/// it no longer exists; `timer_finished` says whether the fire timer has run
/// out in this tick.
pub fn attack_tick(
    state: ActionState,
    attack: &Attack,
    shooter: Vec3,
    target: Option<Vec3>,
    timer_finished: bool,
) -> (next: AttackStep)
    ensures
        next == attack_step(state, *attack, shooter, target, timer_finished),
{
    match state {
        ActionState::Requested => AttackStep {
            state: ActionState::Executing,
            outcome: AttackOutcome::Held,
        },
        ActionState::Cancelled => AttackStep {
            state: ActionState::Failure,
            outcome: AttackOutcome::Held,
        },
        ActionState::Executing => match target {
            None => AttackStep { state: ActionState::Failure, outcome: AttackOutcome::Held },
            Some(at) => {
                let outcome: AttackOutcome = if !shooter.is_within(at, attack.min_distance) {
                    AttackOutcome::TooFar
                } else if timer_finished {
                    AttackOutcome::Fired(
                        Bullet {
                            position: shooter,
                            projectile: Projectile {
                                velocity: shooter.step_toward(at, BULLET_SPEED),
                                power: BULLET_POWER,
                            },
                        },
                    )
                } else {
                    AttackOutcome::Held
                };
                AttackStep { state: ActionState::Executing, outcome }
            },
        },
        _ => AttackStep { state, outcome: AttackOutcome::Held },
    }
}

/// The missiles that a ship has left.
#[derive(Clone, Copy, PartialEq, Eq, Structural, Debug)]
pub struct MissileLoadout {
    pub ammo: u32,
}

impl MissileLoadout {
    /// Takes one missile out of the loadout. An empty loadout gives none and
    /// stays empty.
    pub fn fire(&mut self) -> (fired: bool)
        ensures
            fired == (old(self).ammo > 0),
            final(self).ammo == if old(self).ammo > 0 {
                old(self).ammo - 1
            } else {
                0
            },
            final(self).ammo <= old(self).ammo,
    {
        if self.ammo > 0 {
            self.ammo = self.ammo - 1;
            true
        } else {
            false
        }
    }

    pub fn is_exhausted(&self) -> (empty: bool)
        ensures
            empty == (self.ammo == 0),
    {
        self.ammo == 0
    }
}

/// A missile attack on a target that is no farther than `min_distance`.
#[derive(Clone, Copy, PartialEq, Eq, Structural, Debug)]
pub struct MissileAttack {
    pub min_distance: i64,
}

/// What a tick of a missile attack did.
#[derive(Clone, Copy, PartialEq, Eq, Structural, Debug)]
pub enum MissileOutcome {
    /// Nothing: the action is not executing, it has just ended, or it waits
    /// for its timer.
    Held,
    /// A missile was launched and is to be put into the world.
    Launched(Missile),
}

/// What a tick of a missile attack leaves: the state of the action, the
/// missiles that the ship has left, and what the tick did.
#[derive(Clone, Copy, PartialEq, Eq, Structural, Debug)]
pub struct MissileStep {
    pub state: ActionState,
    pub ammo: u32,
    pub outcome: MissileOutcome,
}

/// The missile that a ship at `shooter` launches at the target: it starts at
/// the ship with its nose to the target.
pub open spec fn missile_at(shooter: Vec3, target_id: u64, target: Vec3) -> Missile {
    Missile {
        position: shooter,
        facing: toward(shooter, target, SCALE as int),
        target: target_id,
        power: MISSILE_POWER,
    }
}

/// What a tick does to a missile attack. A requested attack starts executing
/// and a cancelled one fails. An executing attack fails if its target is
/// gone, and succeeds once the target is farther than `min_distance` or no
/// missile is left. Otherwise it launches one missile whenever its timer has
/// run out, which leaves the ship with one missile less.
pub open spec fn missile_step(
    state: ActionState,
    attack: MissileAttack,
    ammo: u32,
    shooter: Vec3,
    target_id: u64,
    target: Option<Vec3>,
    timer_finished: bool,
) -> MissileStep {
    match state {
        ActionState::Requested => MissileStep {
            state: ActionState::Executing,
            ammo,
            outcome: MissileOutcome::Held,
        },
        ActionState::Cancelled => MissileStep {
            state: ActionState::Failure,
            ammo,
            outcome: MissileOutcome::Held,
        },
        ActionState::Executing => match target {
            None => MissileStep { state: ActionState::Failure, ammo, outcome: MissileOutcome::Held },
            Some(at) => if ammo == 0 || !shooter.within(at, attack.min_distance as int) {
                MissileStep { state: ActionState::Success, ammo, outcome: MissileOutcome::Held }
            } else if timer_finished {
                MissileStep {
                    state: ActionState::Executing,
                    ammo: (ammo - 1) as u32,
                    outcome: MissileOutcome::Launched(missile_at(shooter, target_id, at)),
                }
            } else {
                MissileStep { state: ActionState::Executing, ammo, outcome: MissileOutcome::Held }
            },
        },
        _ => MissileStep { state, ammo, outcome: MissileOutcome::Held },
    }
}

/// One tick of a missile attack. `target` is where the target is now, or
/// `None` if it no longer exists; `timer_finished` says whether the launch
/// timer has run out in this tick. A launch takes exactly one missile out
/// of the loadout, and nothing else changes the loadout.
pub fn missile_tick(
    state: ActionState,
    attack: &MissileAttack,
    loadout: &mut MissileLoadout,
    shooter: Vec3,
    target_id: u64,
    target: Option<Vec3>,
    timer_finished: bool,
) -> (next: MissileStep)
    ensures
        next == missile_step(
            state,
            *attack,
            old(loadout).ammo,
            shooter,
            target_id,
            target,
            timer_finished,
        ),
        final(loadout).ammo == next.ammo,
        final(loadout).ammo <= old(loadout).ammo,
        next.outcome is Launched ==> old(loadout).ammo > 0 && final(loadout).ammo == old(
            loadout,
        ).ammo - 1,
        !(next.outcome is Launched) ==> final(loadout).ammo == old(loadout).ammo,
{
    match state {
        ActionState::Requested => MissileStep {
            state: ActionState::Executing,
            ammo: loadout.ammo,
            outcome: MissileOutcome::Held,
        },
        ActionState::Cancelled => MissileStep {
            state: ActionState::Failure,
            ammo: loadout.ammo,
            outcome: MissileOutcome::Held,
        },
        ActionState::Executing => match target {
            None => MissileStep {
                state: ActionState::Failure,
                ammo: loadout.ammo,
                outcome: MissileOutcome::Held,
            },
            Some(at) => {
                if loadout.is_exhausted() || !shooter.is_within(at, attack.min_distance) {
                    MissileStep {
                        state: ActionState::Success,
                        ammo: loadout.ammo,
                        outcome: MissileOutcome::Held,
                    }
                } else if timer_finished {
                    loadout.fire();
                    MissileStep {
                        state: ActionState::Executing,
                        ammo: loadout.ammo,
                        outcome: MissileOutcome::Launched(
                            Missile {
                                position: shooter,
                                facing: shooter.step_toward(at, SCALE),
                                target: target_id,
                                power: MISSILE_POWER,
                            },
                        ),
                    }
                } else {
                    MissileStep {
                        state: ActionState::Executing,
                        ammo: loadout.ammo,
                        outcome: MissileOutcome::Held,
                    }
                }
            },
        },
        _ => MissileStep { state, ammo: loadout.ammo, outcome: MissileOutcome::Held },
    }
}

} // verus!
