//! The utility-AI decision loop of a ship: two proximity scorers, the picker
//! that turns their scores into an action, and the state that a ship keeps
//! between ticks.

use vstd::prelude::*;
use crate::fixed::{clamp_to_unit, clamp_unit, floor_div, floor_sqrt, SCALE};
use crate::picker::{is_pick, pick, Pick};
use crate::vector::Vec3;

verus! {

/// The distance at which an enemy stops being a threat: a hundred units.
pub const THREAT_HORIZON: i64 = 100_000;

/// The highest threat score: `0.6`.
pub const THREAT_WEIGHT: i64 = 600;

/// The distance within which an enemy is in range: fifty units.
pub const ENGAGEMENT_RADIUS: i64 = 50_000;

/// The range score while an enemy is in range: `0.4`.
pub const IN_RANGE_SCORE: i64 = 400;

/// The score that staying idle always has: `0.2`.
pub const IDLE_SCORE: i64 = 200;

/// The share of the threat score in the score of seeking: `0.7`.
pub const SEEK_THREAT_WEIGHT: i64 = 700;

/// The share of the range score in the score of seeking: `0.3`.
pub const SEEK_RANGE_WEIGHT: i64 = 300;

/// The factor by which evading outweighs the threat score: `1.2`.
pub const EVADE_URGENCY: i64 = 1200;

/// What a ship can be doing.
#[derive(Clone, Copy, PartialEq, Eq, Structural, Debug)]
pub enum AiAction {
    Idle,
    SeekTarget,
    Evade,
    Fire,
}

impl Default for AiAction {
    fn default() -> (action: AiAction)
        ensures
            action == AiAction::Idle,
    {
        AiAction::Idle
    }
}

impl AiAction {
    /// The place of the action in a score vector.
    pub open spec fn position(self) -> int {
        match self {
            AiAction::Idle => 0,
            AiAction::SeekTarget => 1,
            AiAction::Evade => 2,
            AiAction::Fire => 3,
        }
    }

    /// The action at a place of a score vector; a place that no action has
    /// stands for `Idle`.
    pub open spec fn at(index: int) -> AiAction {
        if index == 1 {
            AiAction::SeekTarget
        } else if index == 2 {
            AiAction::Evade
        } else if index == 3 {
            AiAction::Fire
        } else {
            AiAction::Idle
        }
    }

    /// The place of the action in a score vector.
    pub fn index(self) -> (i: usize)
        ensures
            i == self.position(),
            AiAction::at(i as int) == self,
    {
        match self {
            AiAction::Idle => 0,
            AiAction::SeekTarget => 1,
            AiAction::Evade => 2,
            AiAction::Fire => 3,
        }
    }

    /// The action at a place of a score vector; a place that no action has
    /// gives `Idle`.
    pub fn from_index(index: usize) -> (action: AiAction)
        ensures
            action == AiAction::at(index as int),
    {
        if index == 1 {
            AiAction::SeekTarget
        } else if index == 2 {
            AiAction::Evade
        } else if index == 3 {
            AiAction::Fire
        } else {
            AiAction::Idle
        }
    }
}

/// How threatened a ship is, in thousandths of the unit interval.
#[derive(Clone, Copy, PartialEq, Eq, Structural, Debug)]
pub struct ThreatScore(pub i64);

/// Whether a ship has an enemy in range, as a score in thousandths.
#[derive(Clone, Copy, PartialEq, Eq, Structural, Debug)]
pub struct RangeScore(pub i64);

impl Default for ThreatScore {
    fn default() -> (score: ThreatScore)
        ensures
            score.0 == 0,
    {
        ThreatScore(0)
    }
}

impl Default for RangeScore {
    fn default() -> (score: RangeScore)
        ensures
            score.0 == 0,
    {
        RangeScore(0)
    }
}

/// Marks a ship that decides for itself.
#[derive(Clone, Copy, PartialEq, Eq, Structural, Debug)]
pub struct AiMarker;

/// A ship: where it is and how much health it has left of how much.
#[derive(Clone, Copy, PartialEq, Eq, Structural, Debug)]
pub struct Ship {
    pub position: Vec3,
    pub health: i64,
    pub max_health: i64,
}

/// What a deciding ship regards as its enemy.
#[derive(Clone, Copy, PartialEq, Eq, Structural, Debug)]
pub struct AiEnemy {
    pub position: Vec3,
}

/// The three stages of a tick, in the order in which they run: every scorer
/// has finished before a picker starts, and every picker before an action.
#[derive(Clone, Copy, PartialEq, Eq, Structural, Debug, Hash)]
pub enum AiSet {
    Scorers,
    Pickers,
    Actions,
}

/// Whether the debug drawing of the deciding ships is switched on.
#[derive(Clone, Copy, PartialEq, Eq, Structural, Debug)]
pub struct DebugAiViz(pub bool);

impl Default for DebugAiViz {
    fn default() -> (viz: DebugAiViz)
        ensures
            viz.0 == false,
    {
        DebugAiViz(false)
    }
}

impl DebugAiViz {
    /// Switches the drawing on where it was off, and off where it was on.
    pub fn toggle(&mut self)
        ensures
            final(self).0 == !old(self).0,
    {
        self.0 = !self.0;
    }
}

/// `others[i]` is the nearest of `others` to `position`, and the first of
/// them where several are equally near.
pub open spec fn is_nearest(position: Vec3, others: Seq<Vec3>, i: int) -> bool {
    &&& 0 <= i < others.len()
    &&& forall|j: int|
        0 <= j < others.len() ==> position.dist_sq(others[i]) <= position.dist_sq(
            #[trigger] others[j],
        )
    &&& forall|j: int|
        0 <= j < i ==> position.dist_sq(others[i]) < position.dist_sq(#[trigger] others[j])
}

/// The index of the nearest of `others`; meaningful where there is one.
pub open spec fn nearest(position: Vec3, others: Seq<Vec3>) -> int {
    choose|i: int| is_nearest(position, others, i)
}

/// No two indices are both the nearest.
pub proof fn lemma_nearest_unique(position: Vec3, others: Seq<Vec3>, i: int)
    requires
        is_nearest(position, others, i),
    ensures
        i == nearest(position, others),
{
    let n = nearest(position, others);
    assert(is_nearest(position, others, n));
    if n < i {
        assert(position.dist_sq(others[i]) < position.dist_sq(others[n]));
        assert(position.dist_sq(others[n]) <= position.dist_sq(others[i]));
    } else if i < n {
        assert(position.dist_sq(others[n]) < position.dist_sq(others[i]));
        assert(position.dist_sq(others[i]) <= position.dist_sq(others[n]));
    }
}

/// The index of the nearest of `others` to `position`, the first of them
/// where several are equally near; `None` where there are none.
pub fn nearest_index(position: Vec3, others: &Vec<Vec3>) -> (found: Option<usize>)
    ensures
        found is None <==> others.len() == 0,
        found matches Some(i) ==> is_nearest(position, others@, i as int) && i == nearest(
            position,
            others@,
        ),
{
    if others.len() == 0 {
        return None;
    }
    let mut best: usize = 0;
    let mut best_squared: u128 = position.distance_squared(others[0]);
    let mut k: usize = 1;
    while k < others.len()
        invariant
            1 <= k <= others.len(),
            0 <= best < k,
            best_squared == position.dist_sq(others@[best as int]),
            forall|j: int|
                0 <= j < k ==> position.dist_sq(others@[best as int]) <= position.dist_sq(
                    #[trigger] others@[j],
                ),
            forall|j: int|
                0 <= j < best ==> position.dist_sq(others@[best as int]) < position.dist_sq(
                    #[trigger] others@[j],
                ),
        decreases others.len() - k,
    {
        let squared: u128 = position.distance_squared(others[k]);
        if squared < best_squared {
            best = k;
            best_squared = squared;
        }
        k += 1;
    }
    proof {
        lemma_nearest_unique(position, others@, best as int);
    }
    Some(best)
}

/// How near an enemy at `distance` is: one at distance zero, falling to zero
/// at the threat horizon and beyond.
pub open spec fn closeness(distance: int) -> int {
    SCALE - clamp_unit(distance * SCALE / (THREAT_HORIZON as int))
}

/// The share of its health that a ship has lost. It is negative for a ship
/// with more health than its maximum and above one for a ship whose health
/// is negative.
pub open spec fn damage(health: int, max_health: int) -> int {
    if max_health > 0 {
        SCALE - (health * SCALE) / max_health
    } else {
        SCALE - (-health * SCALE) / (-max_health)
    }
}

/// The threat that the nearest enemy, at `distance`, is to a ship: its
/// closeness times the ship's damage times the threat weight, limited to the
/// unit interval. A ship whose maximum health is zero has no share of health
/// to lose and is never threatened.
pub open spec fn threat_of(distance: int, health: int, max_health: int) -> int {
    if max_health == 0 {
        0
    } else {
        clamp_unit(
            closeness(distance) * damage(health, max_health) * THREAT_WEIGHT / (SCALE * SCALE),
        )
    }
}

/// The threat score of a ship among `enemies`: zero where there are none,
/// else the threat of the nearest.
pub open spec fn threat_among(ship: Ship, enemies: Seq<Vec3>) -> int {
    if enemies.len() == 0 {
        0
    } else {
        threat_of(
            floor_sqrt(ship.position.dist_sq(enemies[nearest(ship.position, enemies)])),
            ship.health as int,
            ship.max_health as int,
        )
    }
}

/// The threat score never leaves the unit interval, whatever the distance
/// and the health are: negative, zero, or beyond any bound.
pub proof fn lemma_threat_in_unit_interval(distance: int, health: int, max_health: int)
    ensures
        0 <= threat_of(distance, health, max_health) <= SCALE,
{
}

/// The threat does not fall as the enemy closes in.
pub proof fn lemma_threat_rises_as_enemy_closes(near: int, far: int, health: int, max_health: int)
    requires
        near <= far,
    ensures
        threat_of(near, health, max_health) >= threat_of(far, health, max_health),
{
    if max_health != 0 {
        let lost = damage(health, max_health);
        let close = closeness(near);
        let distant = closeness(far);
        assert(0 <= distant <= close);
        lemma_weighted_is_ordered(distant, close, lost);
    }
}

/// The threat does not fall as the ship loses health.
pub proof fn lemma_threat_rises_as_health_drops(distance: int, low: int, high: int, max_health: int)
    requires
        low <= high,
        max_health > 0,
    ensures
        threat_of(distance, low, max_health) >= threat_of(distance, high, max_health),
{
    let close = closeness(distance);
    assert(low * SCALE <= high * SCALE);
    vstd::arithmetic::div_mod::lemma_div_is_ordered(low * SCALE, high * SCALE, max_health);
    let more = damage(low, max_health);
    let less = damage(high, max_health);
    assert(more >= less);
    lemma_weighted_is_ordered(less, more, close);
    assert(close * more == more * close && close * less == less * close) by (nonlinear_arith);
}

/// The weighted product of two factors, as a score, does not fall when one
/// factor grows from `small` to `large` while the other, `factor`, is not
/// negative; under a negative factor it is zero throughout.
proof fn lemma_weighted_is_ordered(small: int, large: int, factor: int)
    requires
        small <= large,
        factor >= 0 || 0 <= small,
    ensures
        clamp_unit(large * factor * THREAT_WEIGHT / (SCALE * SCALE)) >= clamp_unit(
            small * factor * THREAT_WEIGHT / (SCALE * SCALE),
        ),
{
    let upper = large * factor * 600;
    let lower = small * factor * 600;
    assert(large * factor * THREAT_WEIGHT == upper);
    assert(small * factor * THREAT_WEIGHT == lower);
    assert(SCALE * SCALE == 1_000_000);
    if factor >= 0 {
        assert(lower <= upper) by (nonlinear_arith)
            requires
                small <= large,
                factor >= 0,
                upper == large * factor * 600,
                lower == small * factor * 600,
        ;
        vstd::arithmetic::div_mod::lemma_div_is_ordered(lower, upper, 1_000_000);
    } else {
        assert(lower <= 0 && upper <= 0) by (nonlinear_arith)
            requires
                0 <= small <= large,
                factor < 0,
                upper == large * factor * 600,
                lower == small * factor * 600,
        ;
        vstd::arithmetic::div_mod::lemma_div_is_ordered(lower, 0, 1_000_000);
        vstd::arithmetic::div_mod::lemma_div_is_ordered(upper, 0, 1_000_000);
    }
}

/// The threat that the nearest enemy, at `distance`, is to a ship with the
/// given health.
pub fn threat_at(distance: i64, health: i64, max_health: i64) -> (score: i64)
    ensures
        score == threat_of(distance as int, health as int, max_health as int),
        0 <= score <= SCALE,
{
    if max_health == 0 {
        return 0;
    }
    proof {
        assert(distance * SCALE == distance * 1000);
        assert(health * SCALE == health * 1000);
        assert(-health * SCALE == -health * 1000);
        assert(SCALE * SCALE == 1_000_000);
    }
    let near: i128 = SCALE as i128 - clamp_to_unit(
        floor_div(distance as i128 * SCALE as i128, THREAT_HORIZON as i128),
    ) as i128;
    let lost: i128 = if max_health > 0 {
        SCALE as i128 - floor_div(health as i128 * SCALE as i128, max_health as i128)
    } else {
        SCALE as i128 - floor_div(-(health as i128) * SCALE as i128, -(max_health as i128))
    };
    assert(-0x10_0000_0000_0000_0000_0000 <= near * lost <= 0x10_0000_0000_0000_0000_0000)
        by (nonlinear_arith)
        requires
            0 <= near <= 1000,
            -0x400_0000_0000_0000_0000 <= lost <= 0x400_0000_0000_0000_0000,
    ;
    assert(near * lost * THREAT_WEIGHT == near * lost * 600);
    let weighted: i128 = near * lost * THREAT_WEIGHT as i128;
    clamp_to_unit(floor_div(weighted, SCALE as i128 * SCALE as i128))
}

/// The threat score of a ship among `enemies`.
pub fn threat_score(ship: &Ship, enemies: &Vec<Vec3>) -> (score: ThreatScore)
    ensures
        score.0 == threat_among(*ship, enemies@),
        0 <= score.0 <= SCALE,
{
    match nearest_index(ship.position, enemies) {
        None => ThreatScore(0),
        Some(i) => {
            let distance: i64 = ship.position.distance(enemies[i]);
            ThreatScore(threat_at(distance, ship.health, ship.max_health))
        },
    }
}

/// Some enemy is no farther from `position` than `radius`.
pub open spec fn any_within(position: Vec3, enemies: Seq<Vec3>, radius: int) -> bool {
    exists|j: int| 0 <= j < enemies.len() && position.within(#[trigger] enemies[j], radius)
}

/// The range score of a ship among `enemies`: all or nothing.
pub open spec fn range_among(ship: Ship, enemies: Seq<Vec3>) -> int {
    if any_within(ship.position, enemies, ENGAGEMENT_RADIUS as int) {
        IN_RANGE_SCORE as int
    } else {
        0
    }
}

/// The range score of a ship among `enemies`: `0.4` while any of them is
/// within the engagement radius, else zero.
pub fn range_score(ship: &Ship, enemies: &Vec<Vec3>) -> (score: RangeScore)
    ensures
        score.0 == range_among(*ship, enemies@),
        0 <= score.0 <= SCALE,
{
    let mut k: usize = 0;
    while k < enemies.len()
        invariant
            0 <= k <= enemies.len(),
            forall|j: int|
                0 <= j < k ==> !ship.position.within(
                    #[trigger] enemies@[j],
                    ENGAGEMENT_RADIUS as int,
                ),
        decreases enemies.len() - k,
    {
        if ship.position.is_within(enemies[k], ENGAGEMENT_RADIUS) {
            return RangeScore(IN_RANGE_SCORE);
        }
        k += 1;
    }
    RangeScore(0)
}

/// The score of seeking the target: the weighted sum of threat and range.
pub open spec fn seek_score(threat: int, range: int) -> int {
    clamp_unit((threat * SEEK_THREAT_WEIGHT + range * SEEK_RANGE_WEIGHT) / (SCALE as int))
}

/// The score of evading: the threat, made more urgent.
pub open spec fn evade_score(threat: int) -> int {
    clamp_unit(threat * EVADE_URGENCY / (SCALE as int))
}

/// The score of firing: the range score.
pub open spec fn fire_score(range: int) -> int {
    clamp_unit(range)
}

/// The score of each action, at the action's place, for a threat score and
/// a range score.
pub open spec fn action_scores(threat: int, range: int) -> Seq<i64> {
    seq![
        IDLE_SCORE,
        seek_score(threat, range) as i64,
        evade_score(threat) as i64,
        fire_score(range) as i64,
    ]
}

/// The scores of a ship among any enemies, and the scores of its actions for
/// any two scores, are all in the unit interval.
pub proof fn lemma_scores_in_unit_interval(ship: Ship, enemies: Seq<Vec3>, threat: int, range: int)
    ensures
        0 <= threat_among(ship, enemies) <= SCALE,
        0 <= range_among(ship, enemies) <= SCALE,
        action_scores(threat, range).len() == 4,
        forall|i: int| 0 <= i < 4 ==> 0 <= #[trigger] action_scores(threat, range)[i] <= SCALE,
{
}

/// The score of each action, at the action's place. Each is in the unit
/// interval whatever the two scores are.
pub fn score_actions(threat: ThreatScore, range: RangeScore) -> (scores: Vec<i64>)
    ensures
        scores@ == action_scores(threat.0 as int, range.0 as int),
        forall|i: int| 0 <= i < scores.len() ==> 0 <= #[trigger] scores[i] <= SCALE,
{
    let t: i128 = threat.0 as i128;
    let r: i128 = range.0 as i128;
    proof {
        assert(t * SEEK_THREAT_WEIGHT == t * 700);
        assert(r * SEEK_RANGE_WEIGHT == r * 300);
        assert(t * EVADE_URGENCY == t * 1200);
    }
    let seek: i64 = clamp_to_unit(
        floor_div(t * SEEK_THREAT_WEIGHT as i128 + r * SEEK_RANGE_WEIGHT as i128, SCALE as i128),
    );
    let evade: i64 = clamp_to_unit(floor_div(t * EVADE_URGENCY as i128, SCALE as i128));
    let fire: i64 = clamp_to_unit(r);
    let mut scores: Vec<i64> = Vec::new();
    scores.push(IDLE_SCORE);
    scores.push(seek);
    scores.push(evade);
    scores.push(fire);
    assert(scores@ =~= action_scores(threat.0 as int, range.0 as int));
    scores
}

/// What a ship remembers of its decisions: the action it is in, the scores
/// that last made it change its action, and the threshold that a score has
/// to exceed to win.
#[derive(Debug)]
pub struct Thinker {
    pub scores: Vec<i64>,
    pub current_action: AiAction,
    pub threshold: i64,
}

impl Default for Thinker {
    fn default() -> (thinker: Thinker)
        ensures
            thinker.scores@ == Seq::<i64>::empty(),
            thinker.current_action == AiAction::Idle,
            thinker.threshold == 0,
    {
        Thinker { scores: Vec::new(), current_action: AiAction::Idle, threshold: 0 }
    }
}

/// The outcome of one decision: the action chosen, the score it won with
/// (the threshold, where nothing won), and whether the ship changed its
/// action.
#[derive(Clone, Copy, PartialEq, Eq, Structural, Debug)]
pub struct Decision {
    pub action: AiAction,
    pub best_score: i64,
    pub switched: bool,
}

impl Thinker {
    /// An idle thinker with the given threshold.
    pub fn new(threshold: i64) -> (thinker: Thinker)
        ensures
            thinker.scores@ == Seq::<i64>::empty(),
            thinker.current_action == AiAction::Idle,
            thinker.threshold == threshold,
    {
        Thinker { scores: Vec::new(), current_action: AiAction::Idle, threshold }
    }

    /// Decides anew from the two scores: the action with the highest score
    /// above the threshold, the first of them where several tie, and `Idle`
    /// where none is above it. Where the action changes, the scores that
    /// decided are kept for inspection; where it does not, nothing changes.
    pub fn decide(&mut self, threat: ThreatScore, range: RangeScore) -> (decision: Decision)
        ensures
            is_pick(
                action_scores(threat.0 as int, range.0 as int),
                old(self).threshold,
                decision.action.position(),
                decision.best_score as int,
            ),
            decision.switched == (decision.action != old(self).current_action),
            final(self).current_action == decision.action,
            final(self).threshold == old(self).threshold,
            final(self).scores@ == if decision.switched {
                action_scores(threat.0 as int, range.0 as int)
            } else {
                old(self).scores@
            },
    {
        let scores: Vec<i64> = score_actions(threat, range);
        let choice: Pick = pick(&scores, self.threshold);
        let action: AiAction = AiAction::from_index(choice.index);
        let switched: bool = action != self.current_action;
        if switched {
            self.current_action = action;
            self.scores = scores;
        }
        Decision { action, best_score: choice.score, switched }
    }
}

/// A deciding ship with everything that a tick reads and writes of it.
#[derive(Debug)]
pub struct Agent {
    pub ship: Ship,
    pub threat: ThreatScore,
    pub range: RangeScore,
    pub thinker: Thinker,
}

/// The positions of `enemies`, in their order.
pub open spec fn positions_of(enemies: Seq<AiEnemy>) -> Seq<Vec3> {
    Seq::new(enemies.len(), |i: int| enemies[i].position)
}

/// The positions of `enemies`, in their order.
pub fn enemy_positions(enemies: &Vec<AiEnemy>) -> (positions: Vec<Vec3>)
    ensures
        positions@ == positions_of(enemies@),
{
    let mut positions: Vec<Vec3> = Vec::new();
    let mut k: usize = 0;
    while k < enemies.len()
        invariant
            0 <= k <= enemies.len(),
            positions@ == positions_of(enemies@.subrange(0, k as int)),
        decreases enemies.len() - k,
    {
        positions.push(enemies[k].position);
        assert(positions@ =~= positions_of(enemies@.subrange(0, k + 1)));
        k += 1;
    }
    assert(enemies@.subrange(0, k as int) =~= enemies@);
    positions
}

/// The scorer stage for threat: gives every agent the threat score that its
/// ship has among the enemies, and changes nothing else.
pub fn threat_scorer_system(agents: &mut Vec<Agent>, enemies: &Vec<AiEnemy>)
    ensures
        final(agents).len() == old(agents).len(),
        forall|i: int|
            0 <= i < old(agents).len() ==> {
                let before = old(agents)[i];
                let after = #[trigger] final(agents)[i];
                &&& after.threat.0 == threat_among(before.ship, positions_of(enemies@))
                &&& after.ship == before.ship
                &&& after.range == before.range
                &&& after.thinker == before.thinker
            },
{
    let positions: Vec<Vec3> = enemy_positions(enemies);
    let mut k: usize = 0;
    while k < agents.len()
        invariant
            0 <= k <= agents.len(),
            agents.len() == old(agents).len(),
            positions@ == positions_of(enemies@),
            forall|i: int| k <= i < agents.len() ==> #[trigger] agents[i] == old(agents)[i],
            forall|i: int|
                0 <= i < k ==> {
                    let before = old(agents)[i];
                    let after = #[trigger] agents[i];
                    &&& after.threat.0 == threat_among(before.ship, positions_of(enemies@))
                    &&& after.ship == before.ship
                    &&& after.range == before.range
                    &&& after.thinker == before.thinker
                },
        decreases agents.len() - k,
    {
        let score: ThreatScore = threat_score(&agents[k].ship, &positions);
        agents[k].threat = score;
        k += 1;
    }
}

/// The scorer stage for range: gives every agent the range score that its
/// ship has among the enemies, and changes nothing else.
pub fn range_scorer_system(agents: &mut Vec<Agent>, enemies: &Vec<AiEnemy>)
    ensures
        final(agents).len() == old(agents).len(),
        forall|i: int|
            0 <= i < old(agents).len() ==> {
                let before = old(agents)[i];
                let after = #[trigger] final(agents)[i];
                &&& after.range.0 == range_among(before.ship, positions_of(enemies@))
                &&& after.ship == before.ship
                &&& after.threat == before.threat
                &&& after.thinker == before.thinker
            },
{
    let positions: Vec<Vec3> = enemy_positions(enemies);
    let mut k: usize = 0;
    while k < agents.len()
        invariant
            0 <= k <= agents.len(),
            agents.len() == old(agents).len(),
            positions@ == positions_of(enemies@),
            forall|i: int| k <= i < agents.len() ==> #[trigger] agents[i] == old(agents)[i],
            forall|i: int|
                0 <= i < k ==> {
                    let before = old(agents)[i];
                    let after = #[trigger] agents[i];
                    &&& after.range.0 == range_among(before.ship, positions_of(enemies@))
                    &&& after.ship == before.ship
                    &&& after.threat == before.threat
                    &&& after.thinker == before.thinker
                },
        decreases agents.len() - k,
    {
        let score: RangeScore = range_score(&agents[k].ship, &positions);
        agents[k].range = score;
        k += 1;
    }
}

/// What one decision does to an agent: `after` is `before` once its thinker
/// has decided from its two scores, with `decision` as the outcome.
pub open spec fn decided(before: Agent, after: Agent, decision: Decision) -> bool {
    &&& is_pick(
        action_scores(before.threat.0 as int, before.range.0 as int),
        before.thinker.threshold,
        decision.action.position(),
        decision.best_score as int,
    )
    &&& decision.switched == (decision.action != before.thinker.current_action)
    &&& after.thinker.current_action == decision.action
    &&& after.thinker.threshold == before.thinker.threshold
    &&& after.thinker.scores@ == if decision.switched {
        action_scores(before.threat.0 as int, before.range.0 as int)
    } else {
        before.thinker.scores@
    }
    &&& after.ship == before.ship
    &&& after.threat == before.threat
    &&& after.range == before.range
}

/// The picker stage: every agent decides from its two scores. The outcomes
/// come back in the agents' order.
pub fn picker_system(agents: &mut Vec<Agent>) -> (decisions: Vec<Decision>)
    ensures
        final(agents).len() == old(agents).len(),
        decisions.len() == old(agents).len(),
        forall|i: int|
            0 <= i < old(agents).len() ==> decided(
                old(agents)[i],
                #[trigger] final(agents)[i],
                decisions[i],
            ),
{
    let mut decisions: Vec<Decision> = Vec::new();
    let mut k: usize = 0;
    while k < agents.len()
        invariant
            0 <= k <= agents.len(),
            agents.len() == old(agents).len(),
            decisions.len() == k,
            forall|i: int| k <= i < agents.len() ==> #[trigger] agents[i] == old(agents)[i],
            forall|i: int|
                0 <= i < k ==> decided(old(agents)[i], #[trigger] agents[i], decisions[i]),
        decreases agents.len() - k,
    {
        let threat: ThreatScore = agents[k].threat;
        let range: RangeScore = agents[k].range;
        let decision: Decision = agents[k].thinker.decide(threat, range);
        decisions.push(decision);
        k += 1;
    }
    decisions
}

/// The agent once the scorers have scored its ship among the enemies.
pub open spec fn scored(agent: Agent, enemies: Seq<AiEnemy>) -> Agent {
    Agent {
        ship: agent.ship,
        threat: ThreatScore(threat_among(agent.ship, positions_of(enemies)) as i64),
        range: RangeScore(range_among(agent.ship, positions_of(enemies)) as i64),
        thinker: agent.thinker,
    }
}

/// The deciding part of a tick, in its order: first every scorer runs for
/// every agent, then every agent picks its action from the scores of this
/// tick. No agent decides on a score of the tick before.
pub fn decision_phase(agents: &mut Vec<Agent>, enemies: &Vec<AiEnemy>) -> (decisions: Vec<Decision>)
    ensures
        final(agents).len() == old(agents).len(),
        decisions.len() == old(agents).len(),
        forall|i: int|
            0 <= i < old(agents).len() ==> decided(
                scored(old(agents)[i], enemies@),
                #[trigger] final(agents)[i],
                decisions[i],
            ),
{
    threat_scorer_system(agents, enemies);
    range_scorer_system(agents, enemies);
    let ghost after_scorers = agents@;
    assert forall|i: int| 0 <= i < agents.len() implies #[trigger] after_scorers[i] == scored(
        old(agents)[i],
        enemies@,
    ) by {
        let agent = after_scorers[i];
        assert(agent.threat.0 == scored(old(agents)[i], enemies@).threat.0);
        assert(agent.range.0 == scored(old(agents)[i], enemies@).range.0);
    }
    picker_system(agents)
}

} // verus!
