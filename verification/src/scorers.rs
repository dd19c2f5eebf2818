//! The scorers of the three actions that a ship takes against its target:
//! approaching it, firing at it, and launching missiles at it. Each reads the
//! distance to the target, which a ship keeps with its reference to the
//! target and measures anew every tick.

use vstd::prelude::*;
use crate::common::Actor;
use crate::fixed::{clamp_to_unit, clamp_unit, floor_div, floor_sqrt, SCALE};
use crate::vector::Vec3;

verus! {

/// The score of approaching while the target is too far away: `0.5`.
pub const APPROACH_SCORE: i64 = 500;

/// The score of attacking while the target is near enough: `0.6`.
pub const ATTACK_SCORE: i64 = 600;

/// A ship's reference to its target: the target's identifier, which may
/// outlive the target, and the distance that was last measured to it.
#[derive(Clone, Copy, PartialEq, Eq, Structural, Debug)]
pub struct TargetRef {
    pub target: u64,
    pub distance: i64,
}

/// The distances that decide the three actions: approaching is wanted
/// beyond `approach`, attacking within `attack`, and a missile is the more
/// wanted the nearer the target is within twice `missile`.
#[derive(Clone, Copy, PartialEq, Eq, Structural, Debug)]
pub struct Envelope {
    pub approach: i64,
    pub attack: i64,
    pub missile: i64,
}

/// The scores of the three actions, each in thousandths of the unit
/// interval.
#[derive(Clone, Copy, PartialEq, Eq, Structural, Debug)]
pub struct Scores {
    pub approach: i64,
    pub attack: i64,
    pub missile: i64,
}

/// No actor has the identifier.
pub open spec fn is_absent(actors: Seq<Actor>, id: u64) -> bool {
    forall|i: int| 0 <= i < actors.len() ==> (#[trigger] actors[i]).id != id
}

/// `actors[i]` is the first actor with the identifier.
pub open spec fn is_first_with(actors: Seq<Actor>, id: u64, i: int) -> bool {
    &&& 0 <= i < actors.len()
    &&& actors[i].id == id
    &&& forall|j: int| 0 <= j < i ==> (#[trigger] actors[j]).id != id
}

/// Where the actor with the identifier is, if there is one.
pub open spec fn position_of(actors: Seq<Actor>, id: u64) -> Option<Vec3> {
    if is_absent(actors, id) {
        None
    } else {
        Some(actors[choose|i: int| is_first_with(actors, id, i)].position)
    }
}

/// Only one actor is the first with an identifier.
pub proof fn lemma_first_with_unique(actors: Seq<Actor>, id: u64, i: int)
    requires
        is_first_with(actors, id, i),
    ensures
        position_of(actors, id) == Some(actors[i].position),
{
    assert(!is_absent(actors, id));
    let c = choose|c: int| is_first_with(actors, id, c);
    assert(is_first_with(actors, id, c));
    if c < i {
        assert(actors[c].id != id);
    } else if i < c {
        assert(actors[i].id != id);
    }
}

/// Where the actor with the identifier is; `None` if there is no such actor
/// any more.
pub fn find_position(actors: &Vec<Actor>, id: u64) -> (found: Option<Vec3>)
    ensures
        found == position_of(actors@, id),
{
    let mut k: usize = 0;
    while k < actors.len()
        invariant
            0 <= k <= actors.len(),
            forall|j: int| 0 <= j < k ==> (#[trigger] actors@[j]).id != id,
        decreases actors.len() - k,
    {
        if actors[k].id == id {
            proof {
                lemma_first_with_unique(actors@, id, k as int);
            }
            return Some(actors[k].position);
        }
        k += 1;
    }
    None
}

impl TargetRef {
    /// Measures the distance to the target anew. Where the target no longer
    /// exists the last distance stays, and the result is `false`.
    pub fn recalculate_distance(&mut self, own: Vec3, actors: &Vec<Actor>) -> (resolved: bool)
        ensures
            final(self).target == old(self).target,
            match position_of(actors@, old(self).target) {
                Some(at) => resolved && final(self).distance == floor_sqrt(own.dist_sq(at)),
                None => !resolved && final(self).distance == old(self).distance,
            },
    {
        match find_position(actors, self.target) {
            Some(at) => {
                self.distance = own.distance(at);
                true
            },
            None => false,
        }
    }
}

/// How much a ship wants to approach: all while the target is farther than
/// `min_distance`, nothing once it is not.
pub open spec fn approach_desirability_of(distance: int, min_distance: int) -> int {
    if distance > min_distance {
        APPROACH_SCORE as int
    } else {
        0
    }
}

/// How much a ship wants to attack: all while the target is no farther than
/// `min_distance`, nothing beyond.
pub open spec fn attack_desirability_of(distance: int, min_distance: int) -> int {
    if distance <= min_distance {
        ATTACK_SCORE as int
    } else {
        0
    }
}

/// How much a ship wants to launch a missile: one at distance zero, falling
/// to zero at twice `min_distance`. It is zero for a ship without missiles,
/// and where `min_distance` is not positive.
pub open spec fn missile_desirability_of(distance: int, min_distance: int, ammo: int) -> int {
    if ammo == 0 || min_distance <= 0 {
        0
    } else {
        clamp_unit(SCALE - distance * SCALE / (2 * min_distance))
    }
}

/// How much a ship wants to approach a target at `distance`.
pub fn approach_desirability(distance: i64, min_distance: i64) -> (score: i64)
    ensures
        score == approach_desirability_of(distance as int, min_distance as int),
        0 <= score <= SCALE,
{
    if distance > min_distance {
        APPROACH_SCORE
    } else {
        0
    }
}

/// How much a ship wants to attack a target at `distance`.
pub fn attack_desirability(distance: i64, min_distance: i64) -> (score: i64)
    ensures
        score == attack_desirability_of(distance as int, min_distance as int),
        0 <= score <= SCALE,
{
    if distance <= min_distance {
        ATTACK_SCORE
    } else {
        0
    }
}

/// How much a ship with `ammo` missiles wants to launch one at a target at
/// `distance`.
pub fn missile_desirability(distance: i64, min_distance: i64, ammo: u32) -> (score: i64)
    ensures
        score == missile_desirability_of(distance as int, min_distance as int, ammo as int),
        0 <= score <= SCALE,
        ammo == 0 ==> score == 0,
{
    if ammo == 0 || min_distance <= 0 {
        return 0;
    }
    let span: i128 = 2 * (min_distance as i128);
    assert(distance * SCALE == distance * 1000);
    let share: i128 = floor_div(distance as i128 * SCALE as i128, span);
    clamp_to_unit(SCALE as i128 - share)
}

/// The three scores for a target at `distance`.
pub open spec fn scores_at(distance: int, envelope: Envelope, ammo: int) -> Scores {
    Scores {
        approach: approach_desirability_of(distance, envelope.approach as int) as i64,
        attack: attack_desirability_of(distance, envelope.attack as int) as i64,
        missile: missile_desirability_of(distance, envelope.missile as int, ammo) as i64,
    }
}

/// One pass of the scorers for one ship: measures the distance to the
/// target and scores the three actions from it. Where the target no longer
/// exists, the distance and the scores stay as they were.
pub fn rescore(
    scores: &mut Scores,
    target: &mut TargetRef,
    own: Vec3,
    actors: &Vec<Actor>,
    envelope: &Envelope,
    ammo: u32,
)
    ensures
        final(target).target == old(target).target,
        match position_of(actors@, old(target).target) {
            Some(at) => {
                &&& final(target).distance == floor_sqrt(own.dist_sq(at))
                &&& *final(scores) == scores_at(floor_sqrt(own.dist_sq(at)), *envelope, ammo as int)
            },
            None => *final(target) == *old(target) && *final(scores) == *old(scores),
        },
{
    if target.recalculate_distance(own, actors) {
        scores.approach = approach_desirability(target.distance, envelope.approach);
        scores.attack = attack_desirability(target.distance, envelope.attack);
        scores.missile = missile_desirability(target.distance, envelope.missile, ammo);
    }
}

/// Every score is in the unit interval, whatever the distance and the
/// thresholds are, negative ones and zero included.
pub proof fn lemma_desirability_in_unit_interval(distance: int, envelope: Envelope, ammo: int)
    ensures
        0 <= approach_desirability_of(distance, envelope.approach as int) <= SCALE,
        0 <= attack_desirability_of(distance, envelope.attack as int) <= SCALE,
        0 <= missile_desirability_of(distance, envelope.missile as int, ammo) <= SCALE,
{
}

/// A ship without missiles never wants to launch one.
pub proof fn lemma_no_missiles_no_desire(distance: int, min_distance: int)
    ensures
        missile_desirability_of(distance, min_distance, 0) == 0,
{
}

} // verus!
