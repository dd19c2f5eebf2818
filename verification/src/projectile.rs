//! Projectiles: bullets that fly straight until they hit or leave the
//! player's surroundings, and missiles that home in on a target.

use vstd::prelude::*;
use crate::common::Enemy;
use crate::fixed::{saturate_to_wide, saturate_wide, SCALE};
use crate::vector::{toward, unit, Vec3};

verus! {

/// How far from the player a bullet may get before it is removed: ten
/// thousand units.
pub const MAX_DISTANCE: i64 = 10_000_000;

/// The speed of a bullet: two hundred units a second.
pub const BULLET_SPEED: i64 = 200_000;

/// The time between two bullets while the trigger is held, in milliseconds.
pub const FIRE_RATE: u32 = 20;

/// How far in front of the player a bullet starts: ten units.
pub const MUZZLE_DISTANCE: i64 = 10_000;

/// What a bullet takes from the health of what it hits: one point.
pub const BULLET_POWER: i64 = 1000;

/// What a missile takes from the health of what it hits: five points.
pub const MISSILE_POWER: i64 = 5000;

/// A projectile is a hit once it is less than this from a target: one unit.
pub const HIT_RADIUS: i64 = 1000;

/// What flies: a velocity, in thousandths of a unit a second, and the damage
/// done on a hit.
#[derive(Clone, Copy, PartialEq, Eq, Structural, Debug)]
pub struct Projectile {
    pub velocity: Vec3,
    pub power: i64,
}

/// A projectile in flight.
#[derive(Clone, Copy, PartialEq, Eq, Structural, Debug)]
pub struct Bullet {
    pub position: Vec3,
    pub projectile: Projectile,
}

/// Something that a projectile can hit.
#[derive(Clone, Copy, PartialEq, Eq, Structural, Debug)]
pub struct Target {
    pub position: Vec3,
    pub enemy: Enemy,
}

/// What a bullet did to the targets: which one it hit, and whether that one's
/// health was used up by it.
#[derive(Clone, Copy, PartialEq, Eq, Structural, Debug)]
pub struct Hit {
    pub target: usize,
    pub killed: bool,
}

/// The bullet that a player at `player` fires along `heading`: it starts a
/// little ahead of the player and flies along the heading at bullet speed.
pub open spec fn bullet_from(player: Vec3, heading: Vec3) -> Bullet {
    Bullet {
        position: player.spec_plus(unit(heading).spec_scaled(MUZZLE_DISTANCE as int, SCALE as int)),
        projectile: Projectile {
            velocity: unit(heading).spec_scaled(BULLET_SPEED as int, SCALE as int),
            power: BULLET_POWER,
        },
    }
}

/// Fires a bullet where the trigger is held and the fire timer has just run
/// out, and nothing otherwise.
pub fn fire_bullet(trigger_held: bool, timer_finished: bool, player: Vec3, heading: Vec3) -> (fired:
    Option<Bullet>)
    ensures
        fired == if trigger_held && timer_finished {
            Some(bullet_from(player, heading))
        } else {
            None
        },
{
    if !(trigger_held && timer_finished) {
        return None;
    }
    let direction: Vec3 = heading.normalized();
    Some(
        Bullet {
            position: player.plus(direction.scaled_by(MUZZLE_DISTANCE, SCALE)),
            projectile: Projectile {
                velocity: direction.scaled_by(BULLET_SPEED, SCALE),
                power: BULLET_POWER,
            },
        },
    )
}

/// The bullet after `elapsed` milliseconds of straight flight.
pub open spec fn advanced(bullet: Bullet, elapsed: int) -> Bullet {
    Bullet {
        position: bullet.position.spec_plus(bullet.projectile.velocity.spec_scaled(elapsed, SCALE as int)),
        projectile: bullet.projectile,
    }
}

/// The position is farther from the player than a bullet may get.
pub open spec fn out_of_range(player: Vec3, position: Vec3) -> bool {
    !player.within(position, MAX_DISTANCE as int)
}

/// Moves every bullet along its velocity for `elapsed` milliseconds and says
/// of each whether it is now out of range and has to be removed. Without a
/// player there is nothing to measure the range from: no bullet moves and
/// none is removed.
pub fn update_bullet(bullets: &mut Vec<Bullet>, elapsed: u32, player: Option<Vec3>) -> (remove: Vec<
    bool,
>)
    ensures
        final(bullets).len() == old(bullets).len(),
        remove.len() == old(bullets).len(),
        forall|i: int|
            0 <= i < old(bullets).len() ==> match player {
                Some(center) => {
                    &&& #[trigger] final(bullets)[i] == advanced(old(bullets)[i], elapsed as int)
                    &&& remove[i] == out_of_range(center, final(bullets)[i].position)
                },
                None => #[trigger] final(bullets)[i] == old(bullets)[i] && !remove[i],
            },
{
    let mut remove: Vec<bool> = Vec::new();
    let mut k: usize = 0;
    while k < bullets.len()
        invariant
            0 <= k <= bullets.len(),
            bullets.len() == old(bullets).len(),
            remove.len() == k,
            forall|i: int| k <= i < bullets.len() ==> #[trigger] bullets[i] == old(bullets)[i],
            forall|i: int|
                0 <= i < k ==> match player {
                    Some(center) => {
                        &&& #[trigger] bullets[i] == advanced(old(bullets)[i], elapsed as int)
                        &&& remove[i] == out_of_range(center, bullets[i].position)
                    },
                    None => #[trigger] bullets[i] == old(bullets)[i] && !remove[i],
                },
        decreases bullets.len() - k,
    {
        match player {
            Some(center) => {
                let bullet: Bullet = bullets[k];
                let position: Vec3 = bullet.position.plus(
                    bullet.projectile.velocity.scaled_by(elapsed as i64, SCALE),
                );
                bullets[k].position = position;
                remove.push(!center.is_within(position, MAX_DISTANCE));
            },
            None => {
                remove.push(false);
            },
        }
        k += 1;
    }
    remove
}

/// `targets[j]` is the first target that a projectile at `position` is
/// within the hit radius of.
pub open spec fn is_first_hit(position: Vec3, targets: Seq<Target>, j: int) -> bool {
    &&& 0 <= j < targets.len()
    &&& position.closer_than(targets[j].position, HIT_RADIUS as int)
    &&& forall|i: int|
        0 <= i < j ==> !position.closer_than((#[trigger] targets[i]).position, HIT_RADIUS as int)
}

/// A projectile at `position` is within the hit radius of no target.
pub open spec fn hits_nothing(position: Vec3, targets: Seq<Target>) -> bool {
    forall|i: int|
        0 <= i < targets.len() ==> !position.closer_than(
            (#[trigger] targets[i]).position,
            HIT_RADIUS as int,
        )
}

/// The index of the first target that a projectile at `position` hits.
pub open spec fn first_hit(position: Vec3, targets: Seq<Target>) -> Option<int> {
    if hits_nothing(position, targets) {
        None
    } else {
        Some(choose|j: int| is_first_hit(position, targets, j))
    }
}

/// The target after a hit of the given power: its health is lower by the
/// power, and stops at the end of the range of `i64`.
pub open spec fn struck(target: Target, power: int) -> Target {
    Target {
        position: target.position,
        enemy: Enemy { health: saturate_wide(target.enemy.health - power) as i64 },
    }
}

/// What one bullet does to the targets: it hits the first one that it is
/// within the hit radius of, and that one alone.
pub open spec fn resolved(bullet: Bullet, targets: Seq<Target>) -> Seq<Target> {
    match first_hit(bullet.position, targets) {
        Some(j) => targets.update(j, struck(targets[j], bullet.projectile.power as int)),
        None => targets,
    }
}

/// What one bullet reports: the target it hit, and whether the hit left that
/// target without health.
pub open spec fn resolution(bullet: Bullet, targets: Seq<Target>) -> Option<Hit> {
    match first_hit(bullet.position, targets) {
        Some(j) => Some(
            Hit {
                target: j as usize,
                killed: struck(targets[j], bullet.projectile.power as int).enemy.health <= 0,
            },
        ),
        None => None,
    }
}

/// The targets after the bullets have been resolved one after another, each
/// against the targets as the bullets before it left them. A target stays
/// where it is for the whole pass, whatever its health.
pub open spec fn targets_after(bullets: Seq<Bullet>, targets: Seq<Target>) -> Seq<Target>
    decreases bullets.len(),
{
    if bullets.len() == 0 {
        targets
    } else {
        resolved(bullets.last(), targets_after(bullets.drop_last(), targets))
    }
}

/// At most one index is the first hit.
pub proof fn lemma_first_hit_unique(position: Vec3, targets: Seq<Target>, j: int)
    requires
        is_first_hit(position, targets, j),
    ensures
        first_hit(position, targets) == Some(j),
{
    assert(!hits_nothing(position, targets));
    let c = choose|c: int| is_first_hit(position, targets, c);
    assert(is_first_hit(position, targets, c));
    if c < j {
        assert(!position.closer_than(targets[c].position, HIT_RADIUS as int));
    } else if j < c {
        assert(!position.closer_than(targets[j].position, HIT_RADIUS as int));
    }
}

/// Among the targets up to `t`, where `targets[t]` is within the hit radius,
/// one is the first to be so.
proof fn lemma_first_hit_exists(position: Vec3, targets: Seq<Target>, t: int) -> (j: int)
    requires
        0 <= t < targets.len(),
        position.closer_than(targets[t].position, HIT_RADIUS as int),
    ensures
        is_first_hit(position, targets, j),
        j <= t,
    decreases t,
{
    if exists|i: int| 0 <= i < t && position.closer_than((#[trigger] targets[i]).position, HIT_RADIUS as int) {
        let i = choose|i: int|
            0 <= i < t && position.closer_than((#[trigger] targets[i]).position, HIT_RADIUS as int);
        lemma_first_hit_exists(position, targets, i)
    } else {
        t
    }
}

/// A bullet that is within the hit radius of some target hits: it is
/// reported and so removed, whatever its velocity. It takes its power from
/// the health of exactly one target, the first within the radius, and takes
/// it once; every other target is left as it was.
pub proof fn lemma_hit_takes_power_once(bullet: Bullet, targets: Seq<Target>, t: int)
    requires
        0 <= t < targets.len(),
        bullet.position.closer_than(targets[t].position, HIT_RADIUS as int),
    ensures
        resolution(bullet, targets) is Some,
        first_hit(bullet.position, targets) is Some,
        ({
            let j = first_hit(bullet.position, targets).unwrap();
            let after = resolved(bullet, targets);
            &&& is_first_hit(bullet.position, targets, j)
            &&& resolution(bullet, targets).unwrap().target == j as usize
            &&& after.len() == targets.len()
            &&& after[j].enemy.health == saturate_wide(
                targets[j].enemy.health - bullet.projectile.power,
            )
            &&& after[j].position == targets[j].position
            &&& forall|i: int| 0 <= i < targets.len() && i != j ==> after[i] == targets[i]
        }),
{
    let j = lemma_first_hit_exists(bullet.position, targets, t);
    lemma_first_hit_unique(bullet.position, targets, j);
}

/// Resolves the bullets against the targets, one bullet after another. A
/// bullet hits the first target that it is less than the hit radius from:
/// that target's health goes down by the bullet's power, and the bullet is
/// reported with the target it hit and with whether the target's health is
/// used up. A bullet that is reported has to be removed, and so has a target
/// that is reported as killed; a bullet near no target is not reported.
pub fn detect_collisions(bullets: &Vec<Bullet>, targets: &mut Vec<Target>) -> (hits: Vec<
    Option<Hit>,
>)
    ensures
        hits.len() == bullets.len(),
        final(targets)@ == targets_after(bullets@, old(targets)@),
        final(targets).len() == old(targets).len(),
        forall|i: int|
            0 <= i < bullets.len() ==> #[trigger] hits[i] == resolution(
                bullets[i],
                targets_after(bullets@.subrange(0, i), old(targets)@),
            ),
{
    let mut hits: Vec<Option<Hit>> = Vec::new();
    let mut k: usize = 0;
    while k < bullets.len()
        invariant
            0 <= k <= bullets.len(),
            hits.len() == k,
            targets.len() == old(targets).len(),
            targets@ == targets_after(bullets@.subrange(0, k as int), old(targets)@),
            forall|i: int|
                0 <= i < k ==> #[trigger] hits[i] == resolution(
                    bullets[i],
                    targets_after(bullets@.subrange(0, i), old(targets)@),
                ),
        decreases bullets.len() - k,
    {
        let bullet: Bullet = bullets[k];
        let ghost before = targets@;
        let mut found: Option<Hit> = None;
        let mut j: usize = 0;
        while j < targets.len()
            invariant_except_break
                found is None,
                targets@ == before,
                forall|i: int|
                    0 <= i < j ==> !bullet.position.closer_than(
                        (#[trigger] targets[i]).position,
                        HIT_RADIUS as int,
                    ),
            invariant
                0 <= j <= targets.len(),
                targets.len() == before.len(),
            ensures
                found == resolution(bullet, before),
                targets@ == resolved(bullet, before),
            decreases targets.len() - j,
        {
            if bullet.position.is_closer_than(targets[j].position, HIT_RADIUS) {
                proof {
                    lemma_first_hit_unique(bullet.position, before, j as int);
                }
                let health: i64 = saturate_to_wide(
                    targets[j].enemy.health as i128 - bullet.projectile.power as i128,
                );
                targets[j].enemy.health = health;
                found = Some(Hit { target: j, killed: health <= 0 });
                assert(targets@ =~= resolved(bullet, before));
                break ;
            }
            j += 1;
        }
        proof {
            assert(bullets@.subrange(0, k + 1).drop_last() =~= bullets@.subrange(0, k as int));
            assert(bullets@.subrange(0, k + 1).last() == bullet);
        }
        hits.push(found);
        k += 1;
    }
    assert(bullets@.subrange(0, k as int) =~= bullets@);
    hits
}

/// A missile in flight: where it is, where its nose points, what it is
/// after, and the damage it does.
#[derive(Clone, Copy, PartialEq, Eq, Structural, Debug)]
pub struct Missile {
    pub position: Vec3,
    pub facing: Vec3,
    pub target: u64,
    pub power: i64,
}

/// What a tick does to a missile: where it is afterwards, and whether it has
/// reached its target and is to be removed as a hit.
#[derive(Clone, Copy, PartialEq, Eq, Structural, Debug)]
pub struct Flight {
    pub missile: Missile,
    pub hit: bool,
}

/// The missile after one step of length `step` straight at `target`, its
/// nose turned to the target. A missile that is at the target already keeps
/// its facing.
pub open spec fn homed(missile: Missile, target: Vec3, step: int) -> Missile {
    Missile {
        position: missile.position.spec_plus(toward(missile.position, target, step)),
        facing: if missile.position == target {
            missile.facing
        } else {
            toward(missile.position, target, SCALE as int)
        },
        target: missile.target,
        power: missile.power,
    }
}

/// One tick of a homing missile: it finds the direction to where its target
/// is now, moves one step of length `step` along it and turns to face the
/// target. It is a hit once it is then less than `hit_distance` from the
/// target. A missile whose target cannot be found stays as it is.
pub fn update_missile(missile: Missile, target: Option<Vec3>, step: i64, hit_distance: i64) -> (next:
    Flight)
    ensures
        next == match target {
            Some(at) => Flight {
                missile: homed(missile, at, step as int),
                hit: homed(missile, at, step as int).position.closer_than(at, hit_distance as int),
            },
            None => Flight { missile, hit: false },
        },
{
    match target {
        Some(at) => {
            let position: Vec3 = missile.position.plus(missile.position.step_toward(at, step));
            let facing: Vec3 = if missile.position == at {
                missile.facing
            } else {
                missile.position.step_toward(at, SCALE)
            };
            let moved = Missile { position, facing, target: missile.target, power: missile.power };
            Flight { missile: moved, hit: position.is_closer_than(at, hit_distance) }
        },
        None => Flight { missile, hit: false },
    }
}

} // verus!
