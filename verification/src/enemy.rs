//! Projectile kinds and live enemy entities.
//!
//! A spawner emits one of two projectile kinds. A missile pursues the
//! player's current position every tick; a laser travels along a heading
//! fixed at spawn time. Both carry an axis-aligned collision shape sized to
//! their sprite, active from the moment they spawn.

use vstd::prelude::*;
use crate::collision::CollisionRect;
use crate::geom::Vec2;

verus! {

/// Fixed-point scale of angles: one radian is `ANGLE_SCALE` stored units,
/// so angles are kept in microradians.
pub const ANGLE_SCALE: i64 = 1_000_000;

/// The kind of projectile a spawner emits. A laser carries its fixed launch
/// angle in microradians.
#[derive(Clone, Copy, PartialEq, Eq, Structural, Debug)]
pub enum Projectile {
    Missile,
    Laser { angle: i64 },
}

impl Projectile {
    /// Sprite width and height of a missile, in world units.
    pub const MISSILE_WIDTH: i64 = 24;

    pub const MISSILE_HEIGHT: i64 = 24;

    /// Missile speed in world units per second.
    pub const MISSILE_VELOCITY: i64 = 400;

    /// Time between two missile launches from one spawner.
    pub const MISSILE_COOLDOWN_MS: u64 = 1000;

    /// Sprite width and height of a laser, in world units.
    pub const LASER_WIDTH: i64 = 12;

    pub const LASER_HEIGHT: i64 = 24;

    /// Laser speed in world units per second.
    pub const LASER_VELOCITY: i64 = 300;

    /// Time between two laser launches from one spawner.
    pub const LASER_COOLDOWN_MS: u64 = 100;

    /// The repeating spawn period of this projectile kind: missiles have the
    /// longer period, lasers the short one.
    pub open spec fn spec_cooldown_ms(self) -> u64 {
        match self {
            Projectile::Missile => Self::MISSILE_COOLDOWN_MS,
            Projectile::Laser { .. } => Self::LASER_COOLDOWN_MS,
        }
    }

    pub fn cooldown_ms(&self) -> (c: u64)
        ensures
            c == self.spec_cooldown_ms(),
    {
        match self {
            Projectile::Missile => Self::MISSILE_COOLDOWN_MS,
            Projectile::Laser { .. } => Self::LASER_COOLDOWN_MS,
        }
    }

    /// The enemy entity this projectile kind creates when it is launched at
    /// `spawn_position`. For a laser, `heading` is the unit-scaled direction
    /// of its fixed launch angle, supplied by the caller and fixed for the
    /// projectile's whole life; a missile ignores it.
    pub fn spawn(&self, spawn_position: Vec2, heading: Vec2) -> (e: Enemy)
        requires
            spawn_position.wf(),
            heading.wf(),
        ensures
            e == self.spec_spawn(spawn_position, heading),
            e.pos == spawn_position,
    {
        match self {
            Projectile::Missile => Enemy {
                projectile: *self,
                pos: spawn_position,
                strategy: Strategy::Pursuer { velocity: Self::MISSILE_VELOCITY },
                half_w: Self::MISSILE_WIDTH / 2,
                half_h: Self::MISSILE_HEIGHT / 2,
            },
            Projectile::Laser { .. } => Enemy {
                projectile: *self,
                pos: spawn_position,
                strategy: Strategy::Bullet { velocity: Self::LASER_VELOCITY, heading },
                half_w: Self::LASER_WIDTH / 2,
                half_h: Self::LASER_HEIGHT / 2,
            },
        }
    }

    /// What `spawn` creates.
    pub open spec fn spec_spawn(self, spawn_position: Vec2, heading: Vec2) -> Enemy {
        match self {
            Projectile::Missile => Enemy {
                projectile: self,
                pos: spawn_position,
                strategy: Strategy::Pursuer { velocity: Self::MISSILE_VELOCITY },
                half_w: 12,
                half_h: 12,
            },
            Projectile::Laser { .. } => Enemy {
                projectile: self,
                pos: spawn_position,
                strategy: Strategy::Bullet { velocity: Self::LASER_VELOCITY, heading },
                half_w: 6,
                half_h: 12,
            },
        }
    }
}

/// How a live projectile moves: a pursuer re-aims at the player every tick;
/// a bullet keeps the heading fixed at spawn.
#[derive(Clone, Copy, PartialEq, Eq, Structural, Debug)]
pub enum Strategy {
    Pursuer { velocity: i64 },
    Bullet { velocity: i64, heading: Vec2 },
}

/// A live hazard entity: a projectile in flight.
#[derive(Clone, Copy, PartialEq, Eq, Structural, Debug)]
pub struct Enemy {
    pub projectile: Projectile,
    pub pos: Vec2,
    pub strategy: Strategy,
    pub half_w: i64,
    pub half_h: i64,
}

impl Enemy {
    /// Position within world bounds and a sane speed, preserved by every
    /// tick of the simulation.
    pub open spec fn wf(self) -> bool {
        &&& self.pos.wf()
        &&& 0 <= self.half_w <= 12
        &&& 0 <= self.half_h <= 12
        &&& match self.strategy {
            Strategy::Pursuer { velocity } => 0 <= velocity <= crate::pursue::SPEED_LIMIT,
            Strategy::Bullet { velocity, heading } => 0 <= velocity <= crate::pursue::SPEED_LIMIT
                && heading.wf(),
        }
    }

    /// The collision rectangle synchronised to the entity's position.
    pub fn shape(&self) -> (r: CollisionRect)
        requires
            self.wf(),
        ensures
            r == (CollisionRect {
                cx: self.pos.x,
                cy: self.pos.y,
                half_w: self.half_w,
                half_h: self.half_h,
            }),
            r.wf(),
    {
        CollisionRect { cx: self.pos.x, cy: self.pos.y, half_w: self.half_w, half_h: self.half_h }
    }
}

} // verus!
