use space::common::{Actor, Enemy, Player, ENEMY_HEALTH};
use space::history::{MetricsHistory, HISTORY_POINTS};
use space::utils::{generate_targets, random_aim_offset, Rgb, SPAWN_HIGH, SPAWN_LOW, SPAWN_NEAR};
use space::vector::Vec3;

#[test]
fn player_is_a_marker() {
    assert_eq!(Player, Player);
}

#[test]
fn enemy_starts_with_a_hundred_points_of_health() {
    assert_eq!(ENEMY_HEALTH, 100_000);
    assert_eq!(Enemy::default(), Enemy { health: 100_000 });
}

#[test]
fn actor_holds_identifier_and_position() {
    let actor = Actor { id: 5, position: Vec3::new(1, 2, 3) };
    assert_eq!(actor.id, 5);
    assert_eq!(actor.position, Vec3::new(1, 2, 3));
}

#[test]
fn generates_as_many_targets_as_asked() {
    assert!(generate_targets(0).is_empty());
    assert_eq!(generate_targets(1).len(), 1);
    assert_eq!(generate_targets(37).len(), 37);
}

#[test]
fn generated_targets_are_named_by_their_number() {
    let targets = generate_targets(12);
    let names: Vec<&str> = targets.iter().map(|target| target.2.as_str()).collect();
    assert_eq!(
        names,
        vec![
            "Target #0",
            "Target #1",
            "Target #2",
            "Target #3",
            "Target #4",
            "Target #5",
            "Target #6",
            "Target #7",
            "Target #8",
            "Target #9",
            "Target #10",
            "Target #11",
        ]
    );
}

#[test]
fn generated_targets_are_in_front_of_the_camera() {
    assert_eq!((SPAWN_LOW, SPAWN_HIGH, SPAWN_NEAR), (-20_000, 20_000, -1000));
    for (position, color, _) in generate_targets(500) {
        assert!(-20_000 <= position.x && position.x < 20_000);
        assert!(-20_000 <= position.y && position.y < 20_000);
        assert!(-20_000 <= position.z && position.z < -1000);
        assert_eq!(color, Rgb { r: color.r, g: color.g, b: color.b });
    }
}

#[test]
fn generated_targets_differ() {
    let targets = generate_targets(200);
    let first = targets[0].0;
    assert!(targets.iter().any(|target| target.0 != first));
    let shade = targets[0].1;
    assert!(targets.iter().any(|target| target.1 != shade));
}

#[test]
fn aim_offset_is_level_and_within_the_spread() {
    let mut seen = Vec::new();
    for _ in 0..500 {
        let offset = random_aim_offset(3000);
        assert_eq!(offset.y, 0);
        assert!(offset.distance_squared(Vec3::zero()) <= 3000 * 3000);
        assert!(-3000 <= offset.x && offset.x <= 3000);
        assert!(-3000 <= offset.z && offset.z <= 3000);
        seen.push(offset);
    }
    assert!(seen.iter().any(|offset| *offset != seen[0]));
    assert!(seen.iter().any(|offset| offset.x < 0));
    assert!(seen.iter().any(|offset| offset.x > 0));
    assert!(seen.iter().any(|offset| offset.z < 0));
    assert!(seen.iter().any(|offset| offset.z > 0));
}

#[test]
fn aim_offset_without_spread_is_zero() {
    assert_eq!(random_aim_offset(0), Vec3::zero());
    assert_eq!(random_aim_offset(-3000), Vec3::zero());
    assert_eq!(random_aim_offset(i32::MIN), Vec3::zero());
}

#[test]
fn aim_offset_with_the_widest_spread() {
    let offset = random_aim_offset(i32::MAX);
    assert_eq!(offset.y, 0);
    let widest = (i32::MAX as u128) * (i32::MAX as u128);
    assert!(offset.distance_squared(Vec3::zero()) <= widest);
}

#[test]
fn history_starts_empty() {
    let history = MetricsHistory::new();
    assert!(history.threat_history.is_empty());
    assert_eq!(history.max_points, 100);
    assert_eq!(HISTORY_POINTS, 100);
}

#[test]
fn default_history_keeps_nothing() {
    let mut history = MetricsHistory::default();
    assert_eq!(history.max_points, 0);
    history.record(5, 50);
    assert!(history.threat_history.is_empty());
}

#[test]
fn history_keeps_the_newest_points() {
    let mut history = MetricsHistory::new();
    for tick in 0..100u64 {
        history.record(tick * 16, tick as i64);
    }
    assert_eq!(history.threat_history.len(), 100);
    assert_eq!(history.threat_history[0], (0, 0));
    history.record(1600, 100);
    assert_eq!(history.threat_history.len(), 100);
    assert_eq!(history.threat_history[0], (16, 1));
    assert_eq!(history.threat_history[99], (1600, 100));
}

#[test]
fn history_drops_one_point_at_a_time() {
    let mut history = MetricsHistory { threat_history: vec![(1, 10), (2, 20), (3, 30)], max_points: 1 };
    history.record(4, 40);
    assert_eq!(history.threat_history, vec![(2, 20), (3, 30), (4, 40)]);
    let mut none = MetricsHistory { threat_history: Vec::new(), max_points: 0 };
    none.record(1, 10);
    assert!(none.threat_history.is_empty());
}
