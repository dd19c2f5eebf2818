//! What every part of the simulation knows of the things in it.

use vstd::prelude::*;
use crate::vector::Vec3;

verus! {

/// Marks the ship that the player flies.
#[derive(Clone, Copy, PartialEq, Eq, Structural, Debug)]
pub struct Player;

/// An actor as a tick sees it: who it is, by an identifier that is its own
/// for as long as the tick lasts, and where it is.
#[derive(Clone, Copy, PartialEq, Eq, Structural, Debug)]
pub struct Actor {
    pub id: u64,
    pub position: Vec3,
}

/// The health that an enemy starts with: a hundred points.
pub const ENEMY_HEALTH: i64 = 100_000;

/// A ship that projectiles can hit; it is destroyed once its health is no
/// longer positive.
#[derive(Clone, Copy, PartialEq, Eq, Structural, Debug)]
pub struct Enemy {
    pub health: i64,
}

impl Default for Enemy {
    fn default() -> (enemy: Enemy)
        ensures
            enemy.health == ENEMY_HEALTH,
    {
        Enemy { health: ENEMY_HEALTH }
    }
}

} // verus!
