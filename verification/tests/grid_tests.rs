use space::common::Actor;
use space::grid::{cell_index, GridEntry, SeparationGrid};
use space::vector::Vec3;

fn entry(actor: u64, x: i32, z: i32) -> GridEntry {
    GridEntry { actor, position: Vec3::new(x, 0, z) }
}

#[test]
fn empty_grid_has_no_neighbors() {
    let grid = SeparationGrid::new(6000);
    assert!(grid.neighbors(Vec3::new(0, 0, 0)).is_empty());
}

#[test]
fn inserted_actor_is_found_from_its_own_cell() {
    let mut grid = SeparationGrid::new(6000);
    grid.insert(7, Vec3::new(1000, 0, 1000));
    let found = grid.neighbors(Vec3::new(5999, 0, 0));
    assert_eq!(found, vec![entry(7, 1000, 1000)]);
}

#[test]
fn an_actor_finds_itself() {
    let mut grid = SeparationGrid::new(6000);
    let position = Vec3::new(-2500, 40, 8100);
    grid.insert(3, position);
    assert_eq!(grid.neighbors(position), vec![GridEntry { actor: 3, position }]);
}

#[test]
fn inserted_actor_is_found_from_every_adjacent_cell() {
    let size = 1000;
    let mut grid = SeparationGrid::new(size);
    grid.insert(1, Vec3::new(5 * size + 10, 0, 5 * size + 10));
    for cx in 4..=6 {
        for cz in 4..=6 {
            let found = grid.neighbors(Vec3::new(cx * size, 0, cz * size + 999));
            assert_eq!(found.len(), 1);
            assert_eq!(found[0].actor, 1);
        }
    }
}

#[test]
fn actor_two_cells_away_is_not_found() {
    let size = 1000;
    let mut grid = SeparationGrid::new(size);
    grid.insert(1, Vec3::new(5 * size, 0, 5 * size));
    assert!(grid.neighbors(Vec3::new(7 * size, 0, 5 * size)).is_empty());
    assert!(grid.neighbors(Vec3::new(5 * size, 0, 3 * size + 999)).is_empty());
    assert!(grid.neighbors(Vec3::new(3 * size + 999, 0, 7 * size)).is_empty());
}

#[test]
fn actor_in_cell_five_five_is_not_found_from_ten_ten() {
    let size = 1500;
    let mut grid = SeparationGrid::new(size);
    grid.insert(9, Vec3::new(5 * size + 1, 0, 5 * size + 1));
    assert!(grid.neighbors(Vec3::new(10 * size + 1, 0, 10 * size + 1)).is_empty());
}

#[test]
fn cells_round_down_below_zero() {
    assert_eq!(cell_index(0, 1500), 0);
    assert_eq!(cell_index(1499, 1500), 0);
    assert_eq!(cell_index(1500, 1500), 1);
    assert_eq!(cell_index(-1, 1500), -1);
    assert_eq!(cell_index(-1500, 1500), -1);
    assert_eq!(cell_index(-1501, 1500), -2);
    assert_eq!(cell_index(i32::MIN, 1), i32::MIN);
    assert_eq!(cell_index(i32::MAX, 1), i32::MAX);
    assert_eq!(cell_index(i32::MIN, i32::MAX), -2);
}

#[test]
fn cells_on_both_sides_of_zero_are_neighbors() {
    let mut grid = SeparationGrid::new(1000);
    grid.insert(1, Vec3::new(-1, 0, -1));
    grid.insert(2, Vec3::new(0, 0, 0));
    grid.insert(3, Vec3::new(-1001, 0, 0));
    let found = grid.neighbors(Vec3::new(500, 0, 500));
    assert_eq!(found, vec![entry(1, -1, -1), entry(2, 0, 0)]);
}

#[test]
fn neighbors_come_column_by_column_and_in_insertion_order() {
    let mut grid = SeparationGrid::new(1000);
    grid.insert(1, Vec3::new(1500, 0, 500));
    grid.insert(2, Vec3::new(500, 0, 500));
    grid.insert(3, Vec3::new(-500, 0, 1500));
    grid.insert(4, Vec3::new(500, 0, 600));
    grid.insert(5, Vec3::new(-500, 0, -500));
    grid.insert(6, Vec3::new(500, 0, -500));
    let found: Vec<u64> = grid.neighbors(Vec3::new(1, 0, 1)).iter().map(|e| e.actor).collect();
    assert_eq!(found, vec![5, 3, 6, 2, 4, 1]);
}

#[test]
fn same_actor_inserted_twice_is_found_twice() {
    let mut grid = SeparationGrid::new(1000);
    grid.insert(1, Vec3::new(10, 0, 10));
    grid.insert(1, Vec3::new(10, 0, 10));
    assert_eq!(grid.neighbors(Vec3::new(0, 0, 0)).len(), 2);
}

#[test]
fn clear_empties_the_grid() {
    let mut grid = SeparationGrid::new(1000);
    grid.insert(1, Vec3::new(10, 0, 10));
    grid.insert(2, Vec3::new(-10, 0, 2010));
    grid.clear();
    assert!(grid.neighbors(Vec3::new(0, 0, 0)).is_empty());
    assert!(grid.neighbors(Vec3::new(0, 0, 2000)).is_empty());
    assert_eq!(grid.cell_side(), 1000);
}

#[test]
fn rebuild_replaces_the_snapshot() {
    let mut grid = SeparationGrid::new(1000);
    grid.insert(1, Vec3::new(10, 0, 10));
    let actors = vec![
        Actor { id: 2, position: Vec3::new(900, 5, 900) },
        Actor { id: 3, position: Vec3::new(5000, 0, 5000) },
        Actor { id: 4, position: Vec3::new(100, -5, 100) },
    ];
    grid.rebuild(&actors);
    let near: Vec<u64> = grid.neighbors(Vec3::new(0, 0, 0)).iter().map(|e| e.actor).collect();
    assert_eq!(near, vec![2, 4]);
    let far: Vec<u64> = grid.neighbors(Vec3::new(5999, 0, 4000)).iter().map(|e| e.actor).collect();
    assert_eq!(far, vec![3]);
}

#[test]
fn neighbors_at_the_edge_of_space() {
    let mut grid = SeparationGrid::new(1);
    let corner = Vec3::new(i32::MAX, 0, i32::MIN);
    grid.insert(1, corner);
    assert_eq!(grid.neighbors(corner), vec![GridEntry { actor: 1, position: corner }]);
    assert_eq!(grid.neighbors(Vec3::new(i32::MAX - 1, 9, i32::MIN + 1)).len(), 1);
    assert!(grid.neighbors(Vec3::new(i32::MAX - 2, 0, i32::MIN)).is_empty());
}

#[test]
fn cell_size_is_at_least_one() {
    assert_eq!(SeparationGrid::new(0).cell_side(), 1);
    assert_eq!(SeparationGrid::new(-7).cell_side(), 1);
    assert_eq!(SeparationGrid::new(1500).cell_side(), 1500);
}

#[test]
fn cell_size_for_a_radius_is_one_and_a_half_radii() {
    assert_eq!(SeparationGrid::for_radius(4000).cell_side(), 6000);
    assert_eq!(SeparationGrid::for_radius(3).cell_side(), 4);
    assert_eq!(SeparationGrid::for_radius(0).cell_side(), 1);
    assert_eq!(SeparationGrid::for_radius(-4000).cell_side(), 1);
    assert_eq!(SeparationGrid::for_radius(i32::MAX).cell_side(), i32::MAX);
}
