use space::combat::{
    decision_phase, enemy_positions, nearest_index, picker_system, range_score,
    range_scorer_system, score_actions, threat_at, threat_score, threat_scorer_system, Agent,
    AiAction, AiEnemy, AiSet, DebugAiViz, Decision, RangeScore, Ship, Thinker, ThreatScore,
    ENGAGEMENT_RADIUS, IDLE_SCORE, IN_RANGE_SCORE, THREAT_HORIZON, THREAT_WEIGHT,
};
use space::vector::Vec3;

fn ship(z: i32, health: i64, max_health: i64) -> Ship {
    Ship { position: Vec3::new(0, 0, z), health, max_health }
}

fn agent(z: i32, health: i64, threshold: i64) -> Agent {
    Agent {
        ship: ship(z, health, 100_000),
        threat: ThreatScore::default(),
        range: RangeScore::default(),
        thinker: Thinker::new(threshold),
    }
}

#[test]
fn constants_are_in_thousandths() {
    assert_eq!(THREAT_HORIZON, 100_000);
    assert_eq!(THREAT_WEIGHT, 600);
    assert_eq!(ENGAGEMENT_RADIUS, 50_000);
    assert_eq!(IN_RANGE_SCORE, 400);
    assert_eq!(IDLE_SCORE, 200);
}

#[test]
fn default_action_is_idle() {
    assert_eq!(AiAction::default(), AiAction::Idle);
    let thinker = Thinker::default();
    assert_eq!(thinker.current_action, AiAction::Idle);
    assert!(thinker.scores.is_empty());
    assert_eq!(thinker.threshold, 0);
    assert_eq!(ThreatScore::default(), ThreatScore(0));
    assert_eq!(RangeScore::default(), RangeScore(0));
}

#[test]
fn actions_and_places_correspond() {
    let all = [AiAction::Idle, AiAction::SeekTarget, AiAction::Evade, AiAction::Fire];
    for (place, action) in all.iter().enumerate() {
        assert_eq!(action.index(), place);
        assert_eq!(AiAction::from_index(place), *action);
    }
}

#[test]
fn a_place_without_an_action_is_idle() {
    assert_eq!(AiAction::from_index(4), AiAction::Idle);
    assert_eq!(AiAction::from_index(255), AiAction::Idle);
    assert_eq!(AiAction::from_index(usize::MAX), AiAction::Idle);
}

#[test]
fn stages_are_distinct() {
    assert_ne!(AiSet::Scorers, AiSet::Pickers);
    assert_ne!(AiSet::Pickers, AiSet::Actions);
    assert_ne!(AiSet::Scorers, AiSet::Actions);
}

#[test]
fn debug_drawing_toggles() {
    let mut viz = DebugAiViz::default();
    assert_eq!(viz, DebugAiViz(false));
    viz.toggle();
    assert_eq!(viz, DebugAiViz(true));
    viz.toggle();
    assert_eq!(viz, DebugAiViz(false));
}

#[test]
fn nearest_index_takes_the_first_of_the_nearest() {
    let here = Vec3::new(0, 0, 0);
    let others = vec![
        Vec3::new(5000, 0, 0),
        Vec3::new(0, 3000, 0),
        Vec3::new(0, 0, -3000),
        Vec3::new(9000, 0, 0),
    ];
    assert_eq!(nearest_index(here, &others), Some(1));
    assert_eq!(nearest_index(here, &Vec::new()), None);
    assert_eq!(nearest_index(here, &vec![here]), Some(0));
}

#[test]
fn threat_is_zero_without_enemies() {
    let hurt = ship(0, 1, 100_000);
    assert_eq!(threat_score(&hurt, &Vec::new()), ThreatScore(0));
}

#[test]
fn threat_of_a_half_dead_ship_at_half_the_horizon() {
    let hurt = ship(0, 50_000, 100_000);
    let enemies = vec![Vec3::new(50_000, 0, 0)];
    assert_eq!(threat_score(&hurt, &enemies), ThreatScore(150));
    assert_eq!(threat_at(50_000, 50_000, 100_000), 150);
}

#[test]
fn threat_is_at_most_the_weight_for_a_ship_with_health_left() {
    assert_eq!(threat_at(0, 0, 100_000), 600);
    assert_eq!(threat_at(0, 1, 100_000), 600);
    assert_eq!(threat_at(0, 100, 100_000), 599);
    assert_eq!(threat_at(100, 0, 100_000), 599);
}

#[test]
fn threat_rounds_down() {
    assert_eq!(threat_at(33_333, 33_333, 100_000), 266);
}

#[test]
fn threat_is_zero_at_full_health_and_beyond_the_horizon() {
    assert_eq!(threat_at(0, 100_000, 100_000), 0);
    assert_eq!(threat_at(100_000, 0, 100_000), 0);
    assert_eq!(threat_at(250_000, 0, 100_000), 0);
    assert_eq!(threat_at(i64::MAX, i64::MIN, 1), 0);
}

#[test]
fn threat_stays_in_the_unit_interval() {
    assert_eq!(threat_at(0, -100_000, 100_000), 1000);
    assert_eq!(threat_at(0, i64::MIN, 1), 1000);
    assert_eq!(threat_at(0, 200_000, 100_000), 0);
    assert_eq!(threat_at(0, i64::MAX, 1), 0);
    assert_eq!(threat_at(-5, 0, 100_000), 600);
    assert_eq!(threat_at(i64::MIN, 0, 100_000), 600);
    assert_eq!(threat_at(0, 50_000, -100_000), 900);
    assert_eq!(threat_at(0, i64::MIN, -1), 0);
}

#[test]
fn threat_of_a_ship_without_health_capacity_is_zero() {
    assert_eq!(threat_at(0, 0, 0), 0);
    assert_eq!(threat_at(0, -5, 0), 0);
    assert_eq!(threat_at(10, 5, 0), 0);
}

#[test]
fn threat_counts_the_nearest_enemy() {
    let hurt = ship(0, 0, 100_000);
    let enemies = vec![Vec3::new(0, 0, 90_000), Vec3::new(0, 30_000, 40_000), Vec3::new(80_000, 0, 0)];
    assert_eq!(threat_score(&hurt, &enemies), ThreatScore(300));
}

#[test]
fn range_score_is_all_or_nothing() {
    let here = ship(0, 100_000, 100_000);
    assert_eq!(range_score(&here, &Vec::new()), RangeScore(0));
    assert_eq!(range_score(&here, &vec![Vec3::new(0, 0, 50_000)]), RangeScore(400));
    assert_eq!(range_score(&here, &vec![Vec3::new(1, 0, 50_000)]), RangeScore(0));
    assert_eq!(
        range_score(&here, &vec![Vec3::new(90_000, 0, 0), Vec3::new(0, -49_999, 0)]),
        RangeScore(400)
    );
    assert_eq!(range_score(&here, &vec![here.position]), RangeScore(400));
}

#[test]
fn action_scores_are_weighted_and_clamped() {
    assert_eq!(score_actions(ThreatScore(600), RangeScore(400)), vec![200, 540, 720, 400]);
    assert_eq!(score_actions(ThreatScore(0), RangeScore(400)), vec![200, 120, 0, 400]);
    assert_eq!(score_actions(ThreatScore(1000), RangeScore(1000)), vec![200, 1000, 1000, 1000]);
    assert_eq!(score_actions(ThreatScore(-50), RangeScore(-1)), vec![200, 0, 0, 0]);
    assert_eq!(score_actions(ThreatScore(999), RangeScore(1)), vec![200, 699, 1000, 1]);
    assert_eq!(
        score_actions(ThreatScore(i64::MAX), RangeScore(i64::MIN)),
        vec![200, 1000, 1000, 0]
    );
    assert_eq!(
        score_actions(ThreatScore(i64::MIN), RangeScore(i64::MAX)),
        vec![200, 0, 0, 1000]
    );
}

#[test]
fn healthy_ship_with_an_enemy_in_range_fires() {
    let mut thinker = Thinker::new(300);
    let here = ship(-10_000, 100_000, 100_000);
    let enemies = vec![Vec3::new(0, 0, 0)];
    let threat = threat_score(&here, &enemies);
    let range = range_score(&here, &enemies);
    assert_eq!(threat, ThreatScore(0));
    assert_eq!(range, RangeScore(400));
    let decision = thinker.decide(threat, range);
    assert_eq!(decision, Decision { action: AiAction::Fire, best_score: 400, switched: true });
    assert_eq!(thinker.current_action, AiAction::Fire);
    assert_eq!(thinker.scores, vec![200, 120, 0, 400]);
    assert_eq!(thinker.threshold, 300);
}

#[test]
fn decision_without_a_change_keeps_the_cached_scores() {
    let mut thinker = Thinker::new(300);
    thinker.decide(ThreatScore(0), RangeScore(400));
    let again = thinker.decide(ThreatScore(100), RangeScore(400));
    assert_eq!(again, Decision { action: AiAction::Fire, best_score: 400, switched: false });
    assert_eq!(thinker.scores, vec![200, 120, 0, 400]);
}

#[test]
fn nothing_above_the_threshold_means_idle() {
    let mut thinker = Thinker::new(300);
    thinker.current_action = AiAction::Evade;
    thinker.scores = vec![1, 2, 3, 4];
    let decision = thinker.decide(ThreatScore(0), RangeScore(0));
    assert_eq!(decision, Decision { action: AiAction::Idle, best_score: 300, switched: true });
    assert_eq!(thinker.current_action, AiAction::Idle);
    assert_eq!(thinker.scores, vec![200, 0, 0, 0]);
}

#[test]
fn badly_hurt_ship_under_threat_evades() {
    let mut thinker = Thinker::new(300);
    let decision = thinker.decide(ThreatScore(600), RangeScore(400));
    assert_eq!(decision, Decision { action: AiAction::Evade, best_score: 720, switched: true });
}

#[test]
fn seeking_wins_a_tie_with_evading_and_firing() {
    let mut thinker = Thinker::new(300);
    let decision = thinker.decide(ThreatScore(1000), RangeScore(1000));
    assert_eq!(
        decision,
        Decision { action: AiAction::SeekTarget, best_score: 1000, switched: true }
    );
}

#[test]
fn enemy_positions_keeps_the_order() {
    let enemies = vec![
        AiEnemy { position: Vec3::new(1, 2, 3) },
        AiEnemy { position: Vec3::new(-4, -5, -6) },
    ];
    assert_eq!(enemy_positions(&enemies), vec![Vec3::new(1, 2, 3), Vec3::new(-4, -5, -6)]);
    assert!(enemy_positions(&Vec::new()).is_empty());
}

#[test]
fn scorer_systems_score_every_agent() {
    let mut agents = vec![agent(-10_000, 100_000, 300), agent(-50_000, 50_000, 300), agent(-200_000, 0, 300)];
    let enemies = vec![AiEnemy { position: Vec3::new(0, 0, 0) }];
    threat_scorer_system(&mut agents, &enemies);
    range_scorer_system(&mut agents, &enemies);
    let threats: Vec<i64> = agents.iter().map(|a| a.threat.0).collect();
    let ranges: Vec<i64> = agents.iter().map(|a| a.range.0).collect();
    assert_eq!(threats, vec![0, 150, 0]);
    assert_eq!(ranges, vec![400, 400, 0]);
    assert_eq!(agents[1].ship, ship(-50_000, 50_000, 100_000));
    assert_eq!(agents[1].thinker.current_action, AiAction::Idle);
}

#[test]
fn scorer_systems_without_enemies_give_zero() {
    let mut agents = vec![agent(0, 1, 300)];
    agents[0].threat = ThreatScore(777);
    agents[0].range = RangeScore(400);
    threat_scorer_system(&mut agents, &Vec::new());
    range_scorer_system(&mut agents, &Vec::new());
    assert_eq!(agents[0].threat, ThreatScore(0));
    assert_eq!(agents[0].range, RangeScore(0));
}

#[test]
fn picker_system_decides_for_every_agent() {
    let mut agents = vec![agent(0, 100_000, 300), agent(0, 100_000, 300), agent(0, 100_000, 900)];
    agents[0].range = RangeScore(400);
    agents[1].threat = ThreatScore(600);
    agents[2].threat = ThreatScore(600);
    let decisions = picker_system(&mut agents);
    assert_eq!(
        decisions,
        vec![
            Decision { action: AiAction::Fire, best_score: 400, switched: true },
            Decision { action: AiAction::Evade, best_score: 720, switched: true },
            Decision { action: AiAction::Idle, best_score: 900, switched: false },
        ]
    );
    assert_eq!(agents[0].thinker.current_action, AiAction::Fire);
    assert_eq!(agents[1].thinker.scores, vec![200, 420, 720, 0]);
    assert!(agents[2].thinker.scores.is_empty());
}

#[test]
fn decision_phase_scores_before_it_picks() {
    let mut agents = vec![agent(-10_000, 100_000, 300), agent(-200_000, 0, 300)];
    agents[0].threat = ThreatScore(1000);
    agents[1].range = RangeScore(1000);
    let enemies = vec![AiEnemy { position: Vec3::new(0, 0, 0) }];
    let decisions = decision_phase(&mut agents, &enemies);
    assert_eq!(
        decisions,
        vec![
            Decision { action: AiAction::Fire, best_score: 400, switched: true },
            Decision { action: AiAction::Idle, best_score: 300, switched: false },
        ]
    );
    assert_eq!(agents[0].threat, ThreatScore(0));
    assert_eq!(agents[1].range, RangeScore(0));
}
