//! Core simulation and flow-control library for a top-down tile-based
//! avoidance game: level parsing, wall autotiling, pursuit math, spawner
//! and projectile timing, axis-aligned collision detection, and the
//! application-level flow state machine.

pub mod collision;
pub mod geom;
pub mod pursue;
pub mod sim;
pub mod enemy;
pub mod flow;
pub mod player;
pub mod upgrades;
pub mod world;

pub use collision::CollisionRect;
pub use geom::Vec2;
