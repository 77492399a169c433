//! The player entity: position, collision extents (halved under the shrink
//! modifier), motion integration from the sampled input velocity, the
//! teleport modifier, and the invincibility countdown that starts at level
//! entry and blocks collision resolution until it elapses once.

use vstd::prelude::*;
use crate::collision::CollisionRect;
use crate::geom::{Vec2, WORLD_LIMIT};
use crate::upgrades::{Upgrade, UpgradeTracker};

verus! {

/// Side length of the player's sprite and collision square, in world units.
pub const PLAYER_SIZE: i64 = 24;

/// Full player speed in world units per second, reached when the cursor is
/// at or beyond the input magnitude cap.
pub const PLAYER_VELOCITY: i64 = 500;

/// How long the player cannot be killed after entering a level.
pub const INVINCIBILITY_MS: u64 = 200;

/// A tick's elapsed time never exceeds this, so one step of motion stays in
/// bounds.
pub const TICK_LIMIT_MS: u64 = 1000;

/// The one-shot countdown that gates collision resolution at level entry.
#[derive(Clone, Copy, PartialEq, Eq, Structural, Debug)]
pub struct InvincibilityTimer {
    pub remaining_ms: u64,
}

impl Default for InvincibilityTimer {
    /// A fresh timer holds the full invincibility window.
    fn default() -> (t: InvincibilityTimer)
        ensures
            t.remaining_ms == INVINCIBILITY_MS,
    {
        InvincibilityTimer { remaining_ms: INVINCIBILITY_MS }
    }
}

impl InvincibilityTimer {
    /// Count down by the elapsed time, stopping at zero.
    pub fn tick(&mut self, dt_ms: u64)
        ensures
            final(self).remaining_ms == (if old(self).remaining_ms >= dt_ms {
                old(self).remaining_ms - dt_ms
            } else {
                0int
            }),
    {
        if self.remaining_ms >= dt_ms {
            self.remaining_ms = self.remaining_ms - dt_ms;
        } else {
            self.remaining_ms = 0;
        }
    }

    /// The window has elapsed: collisions count from now on.
    pub fn finished(&self) -> (r: bool)
        ensures
            r == (self.remaining_ms == 0),
    {
        self.remaining_ms == 0
    }
}

/// The controllable character.
#[derive(Clone, Copy, PartialEq, Eq, Structural, Debug)]
pub struct Player {
    pub pos: Vec2,
    pub half_w: i64,
    pub half_h: i64,
}

impl Player {
    /// Position within world bounds, extents at most the full sprite's.
    pub open spec fn wf(self) -> bool {
        &&& self.pos.wf()
        &&& 0 <= self.half_w <= 12
        &&& 0 <= self.half_h <= 12
    }

    /// The collision rectangle synchronised to the player's position.
    pub fn shape(&self) -> (r: CollisionRect)
        requires
            self.wf(),
        ensures
            r == (CollisionRect {
                cx: self.pos.x,
                cy: self.pos.y,
                half_w: self.half_w,
                half_h: self.half_h,
            }),
            r.wf(),
    {
        CollisionRect { cx: self.pos.x, cy: self.pos.y, half_w: self.half_w, half_h: self.half_h }
    }
}

/// What `spawn_player` creates: the player at the start location, with half
/// extents when the shrink modifier is equipped.
pub open spec fn spec_spawn_player(start_location: Vec2, shrunk: bool) -> Player {
    Player {
        pos: start_location,
        half_w: if shrunk {
            6
        } else {
            12
        },
        half_h: if shrunk {
            6
        } else {
            12
        },
    }
}

/// Create the player at the level's start location. The shrink modifier
/// halves the sprite and the collision shape alike.
pub fn spawn_player(upgrades: &UpgradeTracker, start_location: Vec2) -> (p: Player)
    requires
        start_location.wf(),
    ensures
        p == spec_spawn_player(start_location, upgrades.spec_has_upgrade(Upgrade::Shrink)),
        p.wf(),
{
    let half = if upgrades.has_upgrade(Upgrade::Shrink) {
        PLAYER_SIZE / 4
    } else {
        PLAYER_SIZE / 2
    };
    Player { pos: start_location, half_w: half, half_h: half }
}

/// Keep a coordinate inside the finite world.
pub open spec fn spec_clamp(x: int) -> int {
    if x > WORLD_LIMIT as int {
        WORLD_LIMIT as int
    } else if x < -(WORLD_LIMIT as int) {
        -(WORLD_LIMIT as int)
    } else {
        x
    }
}

/// Division rounding toward zero, as position integration rounds: a step
/// never overshoots in either direction.
pub open spec fn div_trunc(a: int, b: int) -> int
    recommends
        b > 0,
{
    if a >= 0 {
        a / b
    } else {
        -((-a) / b)
    }
}

/// One coordinate of a step of motion: the velocity integrated over the
/// elapsed milliseconds, added to the position, kept inside the world.
pub open spec fn spec_step(pos: int, vel: int, dt_ms: int) -> int {
    spec_clamp(pos + div_trunc(vel * dt_ms, 1000))
}

/// Clamp a coordinate to the world bounds.
pub(crate) fn clamp_coord(x: i64) -> (r: i64)
    ensures
        r == spec_clamp(x as int),
{
    if x > WORLD_LIMIT {
        WORLD_LIMIT
    } else if x < -WORLD_LIMIT {
        -WORLD_LIMIT
    } else {
        x
    }
}

/// The distance one coordinate travels in `dt_ms` milliseconds at `vel`
/// units per second, rounded toward zero.
fn scaled_delta(vel: i64, dt_ms: u64) -> (d: i64)
    requires
        -0x20_0000 <= vel <= 0x20_0000,
        dt_ms <= TICK_LIMIT_MS,
    ensures
        d == div_trunc(vel * dt_ms, 1000),
        -0x20_0000 * 1000 <= d <= 0x20_0000 * 1000,
{
    proof {
        let mag: int = if vel >= 0 {
            vel as int
        } else {
            -(vel as int)
        };
        assert(0 <= mag * dt_ms <= 0x20_0000 * 1000) by (nonlinear_arith)
            requires
                0 <= mag <= 0x20_0000,
                0 <= dt_ms <= 1000,
        ;
        vstd::arithmetic::div_mod::lemma_div_pos_is_pos(mag * dt_ms, 1000);
        vstd::arithmetic::div_mod::lemma_div_is_ordered(mag * dt_ms, 0x20_0000int * 1000, 1000);
        vstd::arithmetic::div_mod::lemma_div_of0(1000);
        if vel >= 0 {
            assert((vel as int) * dt_ms >= 0 && (vel as int) * dt_ms == mag * dt_ms)
                by (nonlinear_arith)
                requires
                    vel >= 0,
                    dt_ms >= 0,
                    mag == vel,
            ;
        } else {
            assert((vel as int) * dt_ms <= 0 && -((vel as int) * dt_ms) == mag * dt_ms)
                by (nonlinear_arith)
                requires
                    vel < 0,
                    dt_ms >= 0,
                    mag == -(vel as int),
            ;
        }
    }
    if vel >= 0 {
        ((vel as u64) * dt_ms / 1000) as i64
    } else {
        -((((-vel) as u64) * dt_ms / 1000) as i64)
    }
}

/// Advance a position by a velocity over `dt_ms` milliseconds.
pub fn integrate(pos: Vec2, vel: Vec2, dt_ms: u64) -> (p: Vec2)
    requires
        pos.wf(),
        -0x20_0000 <= vel.x <= 0x20_0000,
        -0x20_0000 <= vel.y <= 0x20_0000,
        dt_ms <= TICK_LIMIT_MS,
    ensures
        p.x == spec_step(pos.x as int, vel.x as int, dt_ms as int),
        p.y == spec_step(pos.y as int, vel.y as int, dt_ms as int),
        p.wf(),
{
    let dx = scaled_delta(vel.x, dt_ms);
    let dy = scaled_delta(vel.y, dt_ms);
    let x = clamp_coord(pos.x + dx);
    let y = clamp_coord(pos.y + dy);
    Vec2 { x, y }
}

/// Move the player by the velocity sampled from the input device this tick,
/// doubled under the double-speed modifier, integrated over the elapsed
/// time.
pub fn move_player(player: &mut Player, velocity: Vec2, dt_ms: u64, upgrades: &UpgradeTracker)
    requires
        old(player).wf(),
        -PLAYER_VELOCITY <= velocity.x <= PLAYER_VELOCITY,
        -PLAYER_VELOCITY <= velocity.y <= PLAYER_VELOCITY,
        dt_ms <= TICK_LIMIT_MS,
    ensures
        ({
            let vx = if upgrades.spec_has_upgrade(Upgrade::DoubleSpeed) {
                2 * velocity.x as int
            } else {
                velocity.x as int
            };
            let vy = if upgrades.spec_has_upgrade(Upgrade::DoubleSpeed) {
                2 * velocity.y as int
            } else {
                velocity.y as int
            };
            &&& final(player).pos.x == spec_step(old(player).pos.x as int, vx, dt_ms as int)
            &&& final(player).pos.y == spec_step(old(player).pos.y as int, vy, dt_ms as int)
        }),
        final(player).half_w == old(player).half_w,
        final(player).half_h == old(player).half_h,
        final(player).wf(),
{
    let vel = if upgrades.has_upgrade(Upgrade::DoubleSpeed) {
        Vec2 { x: velocity.x * 2, y: velocity.y * 2 }
    } else {
        velocity
    };
    player.pos = integrate(player.pos, vel, dt_ms);
}

/// Teleport: when the teleport modifier sits in a slot whose activation
/// input was pressed this tick and the cursor is inside the window, the
/// player jumps to the cursor's world position; otherwise nothing changes.
pub fn teleport(
    player: &mut Player,
    upgrades: &UpgradeTracker,
    primary_pressed: bool,
    secondary_pressed: bool,
    cursor_world: Option<Vec2>,
)
    requires
        old(player).wf(),
    ensures
        ({
            let activated = (upgrades.primary == Some(Upgrade::Teleport) && primary_pressed) || (
            upgrades.secondary == Some(Upgrade::Teleport) && secondary_pressed);
            if activated && cursor_world is Some {
                final(player).pos.x == spec_clamp(cursor_world.unwrap().x as int)
                    && final(player).pos.y == spec_clamp(cursor_world.unwrap().y as int)
            } else {
                final(player).pos == old(player).pos
            }
        }),
        final(player).half_w == old(player).half_w,
        final(player).half_h == old(player).half_h,
        final(player).wf(),
{
    if upgrades.was_upgrade_activated(primary_pressed, secondary_pressed, Upgrade::Teleport) {
        match cursor_world {
            Some(c) => {
                let x = clamp_coord(c.x);
                let y = clamp_coord(c.y);
                player.pos = Vec2 { x, y };
            },
            None => {},
        }
    }
}

} // verus!
