use space::common::Actor;
use space::scorers::{
    approach_desirability, attack_desirability, find_position, missile_desirability, rescore,
    Envelope, Scores, TargetRef, APPROACH_SCORE, ATTACK_SCORE,
};
use space::vector::Vec3;

fn actors() -> Vec<Actor> {
    vec![
        Actor { id: 10, position: Vec3::new(0, 0, 0) },
        Actor { id: 20, position: Vec3::new(30_000, 0, 40_000) },
        Actor { id: 20, position: Vec3::new(1, 1, 1) },
    ]
}

#[test]
fn approach_is_wanted_beyond_the_minimum_distance() {
    assert_eq!(APPROACH_SCORE, 500);
    assert_eq!(approach_desirability(20_001, 20_000), 500);
    assert_eq!(approach_desirability(20_000, 20_000), 0);
    assert_eq!(approach_desirability(0, 20_000), 0);
    assert_eq!(approach_desirability(-1, -2), 500);
    assert_eq!(approach_desirability(i64::MIN, i64::MAX), 0);
}

#[test]
fn attack_is_wanted_within_the_minimum_distance() {
    assert_eq!(ATTACK_SCORE, 600);
    assert_eq!(attack_desirability(20_001, 20_000), 0);
    assert_eq!(attack_desirability(20_000, 20_000), 600);
    assert_eq!(attack_desirability(0, 20_000), 600);
    assert_eq!(attack_desirability(-7, 0), 600);
    assert_eq!(attack_desirability(i64::MAX, i64::MIN), 0);
}

#[test]
fn missile_is_wanted_the_more_the_nearer_the_target() {
    assert_eq!(missile_desirability(0, 60_000, 5), 1000);
    assert_eq!(missile_desirability(30_000, 60_000, 5), 750);
    assert_eq!(missile_desirability(60_000, 60_000, 5), 500);
    assert_eq!(missile_desirability(120_000, 60_000, 5), 0);
    assert_eq!(missile_desirability(500_000, 60_000, 5), 0);
    assert_eq!(missile_desirability(1, 60_000, 1), 1000);
    assert_eq!(missile_desirability(120, 60_000, 1), 999);
    assert_eq!(missile_desirability(119_999, 60_000, 1), 1);
}

#[test]
fn missile_score_stays_in_the_unit_interval() {
    assert_eq!(missile_desirability(-30_000, 60_000, 5), 1000);
    assert_eq!(missile_desirability(i64::MIN, 1, 5), 1000);
    assert_eq!(missile_desirability(i64::MAX, 1, 5), 0);
    assert_eq!(missile_desirability(i64::MAX, i64::MAX, u32::MAX), 500);
    assert_eq!(missile_desirability(10, 0, 5), 0);
    assert_eq!(missile_desirability(10, -60_000, 5), 0);
}

#[test]
fn missile_score_is_zero_without_ammo() {
    assert_eq!(missile_desirability(0, 60_000, 0), 0);
    assert_eq!(missile_desirability(30_000, 60_000, 0), 0);
    assert_eq!(missile_desirability(-1, 60_000, 0), 0);
    assert_eq!(missile_desirability(i64::MAX, i64::MAX, 0), 0);
}

#[test]
fn find_position_takes_the_first_actor_with_the_identifier() {
    assert_eq!(find_position(&actors(), 20), Some(Vec3::new(30_000, 0, 40_000)));
    assert_eq!(find_position(&actors(), 10), Some(Vec3::new(0, 0, 0)));
    assert_eq!(find_position(&actors(), 30), None);
    assert_eq!(find_position(&Vec::new(), 10), None);
}

#[test]
fn distance_is_measured_to_a_target_that_exists() {
    let mut target = TargetRef { target: 20, distance: 7 };
    assert!(target.recalculate_distance(Vec3::new(0, 0, 0), &actors()));
    assert_eq!(target, TargetRef { target: 20, distance: 50_000 });
}

#[test]
fn distance_stays_when_the_target_is_gone() {
    let mut target = TargetRef { target: 99, distance: 7 };
    assert!(!target.recalculate_distance(Vec3::new(0, 0, 0), &actors()));
    assert_eq!(target, TargetRef { target: 99, distance: 7 });
}

#[test]
fn rescore_scores_all_three_actions() {
    let envelope = Envelope { approach: 20_000, attack: 30_000, missile: 60_000 };
    let mut scores = Scores { approach: 0, attack: 0, missile: 0 };
    let mut target = TargetRef { target: 20, distance: 0 };
    rescore(&mut scores, &mut target, Vec3::new(0, 0, 0), &actors(), &envelope, 20);
    assert_eq!(target.distance, 50_000);
    assert_eq!(scores, Scores { approach: 500, attack: 0, missile: 584 });
    rescore(&mut scores, &mut target, Vec3::new(30_000, 0, 30_000), &actors(), &envelope, 0);
    assert_eq!(target.distance, 10_000);
    assert_eq!(scores, Scores { approach: 0, attack: 600, missile: 0 });
}

#[test]
fn rescore_leaves_the_scores_when_the_target_is_gone() {
    let envelope = Envelope { approach: 20_000, attack: 30_000, missile: 60_000 };
    let mut scores = Scores { approach: 123, attack: 456, missile: 789 };
    let mut target = TargetRef { target: 99, distance: 5 };
    rescore(&mut scores, &mut target, Vec3::new(0, 0, 0), &actors(), &envelope, 20);
    assert_eq!(scores, Scores { approach: 123, attack: 456, missile: 789 });
    assert_eq!(target, TargetRef { target: 99, distance: 5 });
}
