use space::actions::{
    approach_system, approach_tick, attack_tick, missile_tick, push_from, separation, ActionState,
    Approach, ApproachStep, Attack, AttackOutcome, AttackStep, Body, MissileAttack,
    MissileLoadout, MissileOutcome, MissileStep, Pursuer, SMOOTHING,
};
use space::common::Actor;
use space::grid::{GridEntry, SeparationGrid};
use space::projectile::{Bullet, Missile, Projectile};
use space::vector::Vec3;

fn at(x: i32, y: i32, z: i32) -> Vec3 {
    Vec3::new(x, y, z)
}

fn neighbor(actor: u64, x: i32, y: i32, z: i32) -> GridEntry {
    GridEntry { actor, position: at(x, y, z) }
}

fn resting(position: Vec3) -> Body {
    Body { position, velocity: Vec3::zero(), facing: at(0, 0, -1000) }
}

fn plain_approach() -> Approach {
    Approach {
        until_distance: 20_000,
        speed: 5000,
        separation_radius: 4000,
        separation_strength: 3000,
        movement_multiplier: 1000,
        smoothing: 1000,
        aim_offset: Vec3::zero(),
    }
}

#[test]
fn push_between_two_actors_three_units_apart() {
    let a = at(0, 0, 0);
    let b = at(3000, 0, 0);
    assert_eq!(push_from(a, b, 4000, 3000), at(-750, 0, 0));
    assert_eq!(push_from(b, a, 4000, 3000), at(750, 0, 0));
}

#[test]
fn separation_of_two_actors_three_units_apart() {
    let neighbors = vec![neighbor(1, 0, 0, 0), neighbor(2, 3000, 0, 0)];
    assert_eq!(separation(1, at(0, 0, 0), &neighbors, 4000, 3000), at(-750, 0, 0));
    assert_eq!(separation(2, at(3000, 0, 0), &neighbors, 4000, 3000), at(750, 0, 0));
}

#[test]
fn separation_through_the_grid() {
    let mut grid = SeparationGrid::for_radius(4000);
    grid.insert(1, at(0, 0, 0));
    grid.insert(2, at(3000, 0, 0));
    grid.insert(3, at(50_000, 0, 0));
    let found = grid.neighbors(at(0, 0, 0));
    assert_eq!(found.len(), 2);
    assert_eq!(separation(1, at(0, 0, 0), &found, 4000, 3000), at(-750, 0, 0));
}

#[test]
fn push_points_away_in_every_coordinate() {
    assert_eq!(push_from(at(0, 0, 0), at(1000, 2000, -2000), 4000, 3000), at(-250, -500, 500));
}

#[test]
fn no_push_from_the_radius_and_beyond() {
    assert_eq!(push_from(at(0, 0, 0), at(4000, 0, 0), 4000, 3000), Vec3::zero());
    assert_eq!(push_from(at(0, 0, 0), at(0, 9000, 0), 4000, 3000), Vec3::zero());
    assert_eq!(push_from(at(0, 0, 0), at(3999, 0, 0), 4000, 3000), Vec3::zero());
    assert_eq!(push_from(at(0, 0, 0), at(3998, 0, 0), 4000, 3000), at(-1, 0, 0));
}

#[test]
fn no_push_from_the_same_point_or_with_no_radius() {
    assert_eq!(push_from(at(5, 5, 5), at(5, 5, 5), 4000, 3000), Vec3::zero());
    assert_eq!(push_from(at(0, 0, 0), at(1, 0, 0), 0, 3000), Vec3::zero());
    assert_eq!(push_from(at(0, 0, 0), at(1, 0, 0), -4000, 3000), Vec3::zero());
}

#[test]
fn pushes_add_up() {
    let neighbors = vec![neighbor(2, 1000, 0, 0), neighbor(3, 0, 0, 1000), neighbor(4, -500, 0, 0)];
    assert_eq!(separation(1, at(0, 0, 0), &neighbors, 4000, 3000), at(375, 0, -2250));
}

#[test]
fn separation_is_no_longer_than_the_strength() {
    let neighbors = vec![neighbor(2, 1000, 0, 0), neighbor(3, 0, 0, 1000), neighbor(4, 0, 500, 0)];
    let push = separation(1, at(0, 0, 0), &neighbors, 4000, 3000);
    assert_eq!(push, at(-1636, -1909, -1636));
    assert!(push.length() <= 3000);
}

#[test]
fn separation_passes_over_the_ship_itself() {
    let neighbors = vec![neighbor(1, 1000, 0, 0), neighbor(1, 0, 0, 0)];
    assert_eq!(separation(1, at(0, 0, 0), &neighbors, 4000, 3000), Vec3::zero());
    assert_eq!(separation(1, at(0, 0, 0), &Vec::new(), 4000, 3000), Vec3::zero());
}

#[test]
fn requested_approach_starts_executing() {
    let body = resting(at(0, 0, 0));
    let next = approach_tick(
        ActionState::Requested,
        &plain_approach(),
        1,
        body,
        Some(at(100_000, 0, 0)),
        &Vec::new(),
        1000,
    );
    assert_eq!(next, ApproachStep { state: ActionState::Executing, body });
}

#[test]
fn cancelled_approach_fails() {
    let body = resting(at(0, 0, 0));
    let next = approach_tick(
        ActionState::Cancelled,
        &plain_approach(),
        1,
        body,
        Some(at(100_000, 0, 0)),
        &Vec::new(),
        1000,
    );
    assert_eq!(next, ApproachStep { state: ActionState::Failure, body });
}

#[test]
fn approach_fails_when_the_target_is_gone() {
    let body = resting(at(0, 0, 0));
    let next =
        approach_tick(ActionState::Executing, &plain_approach(), 1, body, None, &Vec::new(), 1000);
    assert_eq!(next, ApproachStep { state: ActionState::Failure, body });
}

#[test]
fn ended_approach_is_left_alone() {
    let body = resting(at(0, 0, 0));
    for state in [ActionState::Init, ActionState::Success, ActionState::Failure] {
        let next = approach_tick(state, &plain_approach(), 1, body, None, &Vec::new(), 1000);
        assert_eq!(next, ApproachStep { state, body });
    }
}

#[test]
fn approach_succeeds_exactly_once_the_distance_is_twenty() {
    let approach = plain_approach();
    let target = at(100_000, 0, 0);
    let mut state = ActionState::Requested;
    let mut body = resting(at(0, 0, 0));
    let first = approach_tick(state, &approach, 1, body, Some(target), &Vec::new(), 1000);
    state = first.state;
    body = first.body;
    assert_eq!(state, ActionState::Executing);
    assert_eq!(body.position.distance(target), 100_000);
    let mut steps = 0;
    loop {
        let before = body.position.distance(target);
        let next = approach_tick(state, &approach, 1, body, Some(target), &Vec::new(), 1000);
        if next.state == ActionState::Success {
            assert!(before <= 20_000);
            assert_eq!(next.body, body);
            break;
        }
        assert_eq!(next.state, ActionState::Executing);
        assert!(before > 20_000);
        assert_eq!(next.body.position.distance(target), before - 5000);
        state = next.state;
        body = next.body;
        steps += 1;
        assert!(steps <= 16);
    }
    assert_eq!(steps, 16);
    assert_eq!(body.position, at(80_000, 0, 0));
    let after = approach_tick(ActionState::Success, &approach, 1, body, Some(target), &Vec::new(), 1000);
    assert_eq!(after, ApproachStep { state: ActionState::Success, body });
}

#[test]
fn approach_does_not_succeed_just_outside_the_distance() {
    let approach = Approach { speed: 0, ..plain_approach() };
    let body = resting(at(0, 0, 0));
    let near = approach_tick(
        ActionState::Executing,
        &approach,
        1,
        body,
        Some(at(20_000, 0, 0)),
        &Vec::new(),
        16,
    );
    assert_eq!(near.state, ActionState::Success);
    let far = approach_tick(
        ActionState::Executing,
        &approach,
        1,
        body,
        Some(at(20_000, 1, 0)),
        &Vec::new(),
        16,
    );
    assert_eq!(far.state, ActionState::Executing);
}

#[test]
fn smoothed_approach_speeds_up_and_arrives() {
    assert_eq!(SMOOTHING, 180);
    let approach = Approach { smoothing: SMOOTHING, ..plain_approach() };
    let target = at(100_000, 0, 0);
    let mut body = resting(at(0, 0, 0));
    let mut trail = Vec::new();
    let mut steps = 0;
    loop {
        let next =
            approach_tick(ActionState::Executing, &approach, 1, body, Some(target), &Vec::new(), 1000);
        if next.state == ActionState::Success {
            break;
        }
        body = next.body;
        steps += 1;
        if steps <= 3 {
            trail.push((body.position.x, body.velocity.x));
        }
        assert!(steps <= 21);
    }
    assert_eq!(trail, vec![(900, 900), (2538, 1638), (4781, 2243)]);
    assert_eq!(steps, 21);
    assert_eq!(body.position, at(82_529, 0, 0));
    assert_eq!(body.velocity, at(4920, 0, 0));
    assert_eq!(body.facing, at(1000, 0, 0));
}

#[test]
fn approach_blends_step_and_separation() {
    let approach = Approach {
        until_distance: 20_000,
        speed: 2000,
        separation_radius: 4000,
        separation_strength: 3000,
        movement_multiplier: 60_000,
        smoothing: SMOOTHING,
        aim_offset: at(10_000, 0, 0),
    };
    let neighbors = vec![neighbor(1, 0, 0, 0), neighbor(2, 3000, 0, 0)];
    let next = approach_tick(
        ActionState::Executing,
        &approach,
        1,
        resting(at(0, 0, 0)),
        Some(at(20_000, 0, 40_000)),
        &neighbors,
        16,
    );
    assert_eq!(
        next,
        ApproachStep {
            state: ActionState::Executing,
            body: Body {
                position: at(77, 0, 276),
                velocity: at(4860, 0, 17_280),
                facing: at(600, 0, 800),
            },
        }
    );
}

#[test]
fn attack_states() {
    let attack = Attack { min_distance: 30_000 };
    let here = at(0, 0, 0);
    let there = Some(at(0, 0, -10_000));
    let held = AttackOutcome::Held;
    assert_eq!(
        attack_tick(ActionState::Requested, &attack, here, there, true),
        AttackStep { state: ActionState::Executing, outcome: held }
    );
    assert_eq!(
        attack_tick(ActionState::Cancelled, &attack, here, there, true),
        AttackStep { state: ActionState::Failure, outcome: held }
    );
    assert_eq!(
        attack_tick(ActionState::Executing, &attack, here, None, true),
        AttackStep { state: ActionState::Failure, outcome: held }
    );
    for state in [ActionState::Init, ActionState::Success, ActionState::Failure] {
        assert_eq!(
            attack_tick(state, &attack, here, there, true),
            AttackStep { state, outcome: held }
        );
    }
}

#[test]
fn attack_fires_on_the_timer_while_in_range() {
    let attack = Attack { min_distance: 30_000 };
    let here = at(1000, 2000, 3000);
    let there = at(1000, 2000, -27_000);
    let waiting = attack_tick(ActionState::Executing, &attack, here, Some(there), false);
    assert_eq!(waiting, AttackStep { state: ActionState::Executing, outcome: AttackOutcome::Held });
    let firing = attack_tick(ActionState::Executing, &attack, here, Some(there), true);
    assert_eq!(
        firing,
        AttackStep {
            state: ActionState::Executing,
            outcome: AttackOutcome::Fired(Bullet {
                position: here,
                projectile: Projectile { velocity: at(0, 0, -200_000), power: 1000 },
            }),
        }
    );
}

#[test]
fn attack_holds_its_fire_out_of_range() {
    let attack = Attack { min_distance: 30_000 };
    let here = at(0, 0, 0);
    let next = attack_tick(ActionState::Executing, &attack, here, Some(at(0, 1, -30_000)), true);
    assert_eq!(next, AttackStep { state: ActionState::Executing, outcome: AttackOutcome::TooFar });
}

#[test]
fn firing_once_takes_one_missile() {
    let mut loadout = MissileLoadout { ammo: 20 };
    assert!(loadout.fire());
    assert_eq!(loadout.ammo, 19);
    assert!(!loadout.is_exhausted());
}

#[test]
fn ammo_never_goes_below_zero() {
    let mut loadout = MissileLoadout { ammo: 1 };
    assert!(loadout.fire());
    assert_eq!(loadout.ammo, 0);
    assert!(loadout.is_exhausted());
    assert!(!loadout.fire());
    assert_eq!(loadout.ammo, 0);
}

#[test]
fn missile_attack_states() {
    let attack = MissileAttack { min_distance: 60_000 };
    let here = at(0, 0, 0);
    let there = Some(at(0, 0, -10_000));
    let mut loadout = MissileLoadout { ammo: 3 };
    let held = MissileOutcome::Held;
    assert_eq!(
        missile_tick(ActionState::Requested, &attack, &mut loadout, here, 7, there, true),
        MissileStep { state: ActionState::Executing, ammo: 3, outcome: held }
    );
    assert_eq!(
        missile_tick(ActionState::Cancelled, &attack, &mut loadout, here, 7, there, true),
        MissileStep { state: ActionState::Failure, ammo: 3, outcome: held }
    );
    assert_eq!(
        missile_tick(ActionState::Executing, &attack, &mut loadout, here, 7, None, true),
        MissileStep { state: ActionState::Failure, ammo: 3, outcome: held }
    );
    for state in [ActionState::Init, ActionState::Success, ActionState::Failure] {
        assert_eq!(
            missile_tick(state, &attack, &mut loadout, here, 7, there, true),
            MissileStep { state, ammo: 3, outcome: held }
        );
    }
    assert_eq!(loadout.ammo, 3);
}

#[test]
fn missile_attack_launches_on_the_timer() {
    let attack = MissileAttack { min_distance: 60_000 };
    let here = at(0, 0, 0);
    let there = at(30_000, 0, 40_000);
    let mut loadout = MissileLoadout { ammo: 2 };
    let waiting = missile_tick(ActionState::Executing, &attack, &mut loadout, here, 7, Some(there), false);
    assert_eq!(
        waiting,
        MissileStep { state: ActionState::Executing, ammo: 2, outcome: MissileOutcome::Held }
    );
    assert_eq!(loadout.ammo, 2);
    let launch = missile_tick(ActionState::Executing, &attack, &mut loadout, here, 7, Some(there), true);
    assert_eq!(
        launch,
        MissileStep {
            state: ActionState::Executing,
            ammo: 1,
            outcome: MissileOutcome::Launched(Missile {
                position: here,
                facing: at(600, 0, 800),
                target: 7,
                power: 5000,
            }),
        }
    );
    assert_eq!(loadout.ammo, 1);
}

#[test]
fn missile_attack_ends_out_of_ammo() {
    let attack = MissileAttack { min_distance: 60_000 };
    let here = at(0, 0, 0);
    let there = Some(at(0, 0, -10_000));
    let mut loadout = MissileLoadout { ammo: 1 };
    let launch = missile_tick(ActionState::Executing, &attack, &mut loadout, here, 7, there, true);
    assert_eq!(launch.state, ActionState::Executing);
    assert_eq!(loadout.ammo, 0);
    let end = missile_tick(ActionState::Executing, &attack, &mut loadout, here, 7, there, true);
    assert_eq!(end, MissileStep { state: ActionState::Success, ammo: 0, outcome: MissileOutcome::Held });
    assert_eq!(loadout.ammo, 0);
}

#[test]
fn missile_attack_ends_out_of_range() {
    let attack = MissileAttack { min_distance: 60_000 };
    let mut loadout = MissileLoadout { ammo: 5 };
    let end = missile_tick(
        ActionState::Executing,
        &attack,
        &mut loadout,
        at(0, 0, 0),
        7,
        Some(at(0, 0, -60_001)),
        true,
    );
    assert_eq!(end, MissileStep { state: ActionState::Success, ammo: 5, outcome: MissileOutcome::Held });
    assert_eq!(loadout.ammo, 5);
}

fn pursuer(id: u64, x: i32, state: ActionState, target: u64) -> Pursuer {
    Pursuer {
        id,
        body: resting(at(x, 0, 0)),
        state,
        target,
        approach: Approach { speed: 1000, ..plain_approach() },
    }
}

#[test]
fn approach_system_moves_every_pursuer_on_the_snapshot() {
    let actors = vec![Actor { id: 100, position: at(0, 0, 100_000) }];
    let mut pursuers = vec![
        pursuer(1, 0, ActionState::Executing, 100),
        pursuer(2, 3000, ActionState::Executing, 100),
        pursuer(3, 50_000, ActionState::Requested, 100),
        pursuer(4, 60_000, ActionState::Executing, 999),
    ];
    let mut grid = SeparationGrid::for_radius(4000);
    grid.insert(77, at(1000, 0, 0));
    approach_system(&mut pursuers, &actors, &mut grid, 1000);

    assert_eq!(pursuers[0].state, ActionState::Executing);
    assert_eq!(pursuers[0].body.position, at(-750, 0, 1000));
    assert_eq!(pursuers[0].body.velocity, at(-750, 0, 1000));
    assert_eq!(pursuers[0].body.facing, at(0, 0, 1000));
    assert_eq!(pursuers[1].state, ActionState::Executing);
    assert_eq!(pursuers[1].body.position, at(3721, 0, 999));
    assert_eq!(pursuers[2].state, ActionState::Executing);
    assert_eq!(pursuers[2].body, resting(at(50_000, 0, 0)));
    assert_eq!(pursuers[3].state, ActionState::Failure);
    assert_eq!(pursuers[3].body, resting(at(60_000, 0, 0)));

    let snapshot: Vec<u64> = grid.neighbors(at(0, 0, 0)).iter().map(|e| e.actor).collect();
    assert_eq!(snapshot, vec![1, 2]);
}

#[test]
fn approach_system_without_pursuers_empties_the_grid() {
    let mut grid = SeparationGrid::for_radius(4000);
    grid.insert(77, at(1000, 0, 0));
    let mut pursuers = Vec::new();
    approach_system(&mut pursuers, &Vec::new(), &mut grid, 16);
    assert!(pursuers.is_empty());
    assert!(grid.neighbors(at(0, 0, 0)).is_empty());
}
