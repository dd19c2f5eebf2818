//! Decision core of a small space-combat simulation: a spatial grid for
//! separation steering, proximity scorers, an action picker, action
//! executors and projectile resolution.
//!
//! Every quantity is an integer in thousandths: a length of `1500` is one and
//! a half world units, a score of `400` is `0.4`, and a time step of `16` is
//! sixteen milliseconds.

pub mod actions;
pub mod angle;
pub mod combat;
pub mod common;
pub mod fixed;
pub mod grid;
pub mod history;
pub mod movement;
pub mod picker;
pub mod projectile;
pub mod scorers;
pub mod utils;
pub mod vector;
