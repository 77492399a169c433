//! The per-tick encounter simulation: spawner cooldown timers, projectile
//! creation and motion, collision-shape synchronisation and the overlap
//! tests between the player and every hazard and the goal.
//!
//! One `Sim` holds all entities spawned for a level. Each tick runs the
//! phases in a fixed order: player motion (from the sampled input), the
//! teleport modifier, the invincibility countdown, spawner timers and
//! projectile creation, projectile motion, and last the collision tests,
//! whose outcome is handed to the flow state machine.

use vstd::prelude::*;
use vstd::arithmetic::div_mod::{
    lemma_div_is_ordered, lemma_div_multiples_vanish, lemma_div_pos_is_pos,
    lemma_fundamental_div_mod, lemma_mod_division_less_than_divisor,
};
use crate::collision::CollisionRect;
use crate::enemy::{Enemy, Projectile, Strategy};
use crate::geom::{abs_int, isqrt_spec, lemma_isqrt_bounds, sign_int, Vec2, TILE_SIZE};
use crate::player::{
    clamp_coord, div_trunc, spec_clamp, spec_spawn_player, spec_step, spawn_player,
    InvincibilityTimer, Player, TICK_LIMIT_MS, PLAYER_VELOCITY,
};
use crate::pursue::{ballistic, lemma_component_le_norm, pursue, spec_heading};
use crate::upgrades::{Upgrade, UpgradeTracker};
use crate::world::{GameWorld, Spawner, Tile};

verus! {

/// Grid coordinates stay within this bound so tile world positions stay in
/// `WORLD_LIMIT`.
pub const MAX_GRID_COORD: usize = 40000;

/// A repeating countdown: it elapses, fires, and resets to its period,
/// keeping the overshoot beyond whole periods.
#[derive(Clone, Copy, PartialEq, Eq, Structural, Debug)]
pub struct RepeatTimer {
    pub period_ms: u64,
    pub remaining_ms: u64,
}

impl RepeatTimer {
    pub open spec fn wf(self) -> bool {
        0 < self.period_ms && 0 < self.remaining_ms <= self.period_ms
    }

    pub fn new(period_ms: u64) -> (t: RepeatTimer)
        requires
            period_ms > 0,
        ensures
            t == (RepeatTimer { period_ms, remaining_ms: period_ms }),
            t.wf(),
    {
        RepeatTimer { period_ms, remaining_ms: period_ms }
    }

    /// One tick: fires exactly when the elapsed time reaches the remaining
    /// countdown, then starts the next period less the overshoot.
    pub open spec fn spec_tick(self, dt_ms: u64) -> (RepeatTimer, bool) {
        if dt_ms >= self.remaining_ms {
            (
                RepeatTimer {
                    period_ms: self.period_ms,
                    remaining_ms: (self.period_ms - ((dt_ms - self.remaining_ms) % (
                    self.period_ms as int))) as u64,
                },
                true,
            )
        } else {
            (
                RepeatTimer {
                    period_ms: self.period_ms,
                    remaining_ms: (self.remaining_ms - dt_ms) as u64,
                },
                false,
            )
        }
    }

    /// Advance the timer; the result says whether it fired this tick.
    pub fn tick(&mut self, dt_ms: u64) -> (fired: bool)
        requires
            old(self).wf(),
        ensures
            (*final(self), fired) == old(self).spec_tick(dt_ms),
            final(self).wf(),
    {
        if dt_ms >= self.remaining_ms {
            let over = dt_ms - self.remaining_ms;
            let rem = over % self.period_ms;
            self.remaining_ms = self.period_ms - rem;
            true
        } else {
            self.remaining_ms = self.remaining_ms - dt_ms;
            false
        }
    }
}

/// A live spawner entity: its world position, the projectile kind it emits,
/// the heading a laser launches along (set once after world spawn from the
/// laser's fixed angle; unused for missiles), and its repeating timer.
#[derive(Clone, Copy, PartialEq, Eq, Structural, Debug)]
pub struct SpawnerEntity {
    pub pos: Vec2,
    pub projectile: Projectile,
    pub heading: Vec2,
    pub timer: RepeatTimer,
}

impl SpawnerEntity {
    pub open spec fn wf(self) -> bool {
        &&& self.pos.wf()
        &&& self.heading.wf()
        &&& self.timer.wf()
    }
}

/// Which overlap a tick's collision test found.
#[derive(Clone, Copy, PartialEq, Eq, Structural, Debug)]
pub enum CollisionEvent {
    HitHazard,
    ReachedGoal,
}

/// The repeat period a spawner's timer runs with: its configured cooldown,
/// lifted to one millisecond when zero so the timer can run.
pub open spec fn spawn_period(s: Spawner) -> u64 {
    if s.cooldown_ms == 0 {
        1u64
    } else {
        s.cooldown_ms
    }
}

/// The world position of the grid cell `(col, row)`.
pub open spec fn spec_tile_pos(col: int, row: int) -> Vec2 {
    Vec2 { x: (col * TILE_SIZE) as i64, y: (-(row * TILE_SIZE)) as i64 }
}

/// The entities a level's tiles give rise to, in row-major order.
pub struct WorldEntities {
    pub walls: Seq<Vec2>,
    pub traps: Seq<Vec2>,
    pub goals: Seq<Vec2>,
    pub spawners: Seq<(Vec2, Spawner)>,
}

pub open spec fn empty_entities() -> WorldEntities {
    WorldEntities {
        walls: Seq::empty(),
        traps: Seq::empty(),
        goals: Seq::empty(),
        spawners: Seq::empty(),
    }
}

/// Add one cell's entity, if any.
pub open spec fn ents_of_cell(e: WorldEntities, tile: Option<Tile>, col: int, row: int) -> WorldEntities {
    match tile {
        None => e,
        Some(Tile::Wall) => WorldEntities { walls: e.walls.push(spec_tile_pos(col, row)), ..e },
        Some(Tile::Trap) => WorldEntities { traps: e.traps.push(spec_tile_pos(col, row)), ..e },
        Some(Tile::Goal) => WorldEntities { goals: e.goals.push(spec_tile_pos(col, row)), ..e },
        Some(Tile::Spawner(s)) => WorldEntities {
            spawners: e.spawners.push((spec_tile_pos(col, row), s)),
            ..e
        },
    }
}

/// Fold the first `upto` cells of row `rowi` onto `e`.
pub open spec fn ents_of_row(
    e: WorldEntities,
    row: Seq<Option<Tile>>,
    rowi: int,
    upto: int,
) -> WorldEntities
    decreases upto,
{
    if upto <= 0 {
        e
    } else {
        ents_of_cell(ents_of_row(e, row, rowi, upto - 1), row[upto - 1], upto - 1, rowi)
    }
}

/// Fold the first `upto` rows of the layout.
pub open spec fn ents_of_grid(layout: Seq<Vec<Option<Tile>>>, upto: int) -> WorldEntities
    decreases upto,
{
    if upto <= 0 {
        empty_entities()
    } else {
        ents_of_row(
            ents_of_grid(layout, upto - 1),
            layout[upto - 1]@,
            upto - 1,
            layout[upto - 1]@.len() as int,
        )
    }
}

/// The whole simulation state for one level.
pub struct Sim {
    pub spawners: Vec<SpawnerEntity>,
    pub enemies: Vec<Enemy>,
    pub player: Option<Player>,
    pub walls: Vec<Vec2>,
    pub traps: Vec<Vec2>,
    pub goals: Vec<Vec2>,
    pub invincibility: InvincibilityTimer,
}

impl Sim {
    pub open spec fn wf(self) -> bool {
        &&& forall|k: int| 0 <= k < self.spawners@.len() ==> (#[trigger] self.spawners@[k]).wf()
        &&& forall|k: int| 0 <= k < self.enemies@.len() ==> (#[trigger] self.enemies@[k]).wf()
        &&& self.player is Some ==> self.player.unwrap().wf()
        &&& forall|k: int| 0 <= k < self.walls@.len() ==> (#[trigger] self.walls@[k]).wf()
        &&& forall|k: int| 0 <= k < self.traps@.len() ==> (#[trigger] self.traps@[k]).wf()
        &&& forall|k: int| 0 <= k < self.goals@.len() ==> (#[trigger] self.goals@[k]).wf()
    }

    /// Build the world from a parsed level: one entity per wall, trap, goal
    /// and spawner tile in row-major order, the player at the level's start
    /// coordinate (shrunk under the shrink modifier), and a fresh
    /// invincibility window. Laser headings start at zero and are set
    /// afterwards from each laser's fixed angle.
    pub fn spawn_world(world: &GameWorld, upgrades: &UpgradeTracker) -> (sim: Sim)
        requires
            world.layout@.len() <= MAX_GRID_COORD,
            forall|i: int|
                0 <= i < world.layout@.len() ==> (#[trigger] world.layout@[i])@.len()
                    <= MAX_GRID_COORD,
            world.player_start_coordinates.0 <= MAX_GRID_COORD,
            world.player_start_coordinates.1 <= MAX_GRID_COORD,
        ensures
            ({
                let ents = ents_of_grid(world.layout@, world.layout@.len() as int);
                &&& sim.walls@ == ents.walls
                &&& sim.traps@ == ents.traps
                &&& sim.goals@ == ents.goals
                &&& sim.spawners@.len() == ents.spawners.len()
                &&& forall|k: int|
                    0 <= k < ents.spawners.len() ==> (#[trigger] sim.spawners@[k]) == (
                    SpawnerEntity {
                        pos: ents.spawners[k].0,
                        projectile: ents.spawners[k].1.projectile,
                        heading: Vec2 { x: 0, y: 0 },
                        timer: RepeatTimer {
                            period_ms: spawn_period(ents.spawners[k].1),
                            remaining_ms: spawn_period(ents.spawners[k].1),
                        },
                    })
                &&& sim.player == Some(
                    spec_spawn_player(
                        spec_tile_pos(
                            world.player_start_coordinates.0 as int,
                            world.player_start_coordinates.1 as int,
                        ),
                        upgrades.spec_has_upgrade(Upgrade::Shrink),
                    ),
                )
                &&& sim.invincibility.remaining_ms == crate::player::INVINCIBILITY_MS
                &&& sim.enemies@.len() == 0
                &&& sim.wf()
            }),
    {
        let ghost layout = world.layout@;
        let mut walls: Vec<Vec2> = Vec::new();
        let mut traps: Vec<Vec2> = Vec::new();
        let mut goals: Vec<Vec2> = Vec::new();
        let mut spawners: Vec<SpawnerEntity> = Vec::new();
        let mut i: usize = 0;
        while i < world.layout.len()
            invariant
                0 <= i <= layout.len(),
                layout == world.layout@,
                layout.len() <= MAX_GRID_COORD,
                forall|r: int|
                    0 <= r < layout.len() ==> (#[trigger] layout[r])@.len() <= MAX_GRID_COORD,
                ({
                    let ents = ents_of_grid(layout, i as int);
                    &&& walls@ == ents.walls
                    &&& traps@ == ents.traps
                    &&& goals@ == ents.goals
                    &&& spawners@.len() == ents.spawners.len()
                    &&& forall|k: int|
                        0 <= k < ents.spawners.len() ==> (#[trigger] spawners@[k]) == (
                        SpawnerEntity {
                            pos: ents.spawners[k].0,
                            projectile: ents.spawners[k].1.projectile,
                            heading: Vec2 { x: 0, y: 0 },
                            timer: RepeatTimer {
                                period_ms: spawn_period(ents.spawners[k].1),
                                remaining_ms: spawn_period(ents.spawners[k].1),
                            },
                        })
                }),
                forall|k: int| 0 <= k < spawners@.len() ==> (#[trigger] spawners@[k]).wf(),
                forall|k: int| 0 <= k < walls@.len() ==> (#[trigger] walls@[k]).wf(),
                forall|k: int| 0 <= k < traps@.len() ==> (#[trigger] traps@[k]).wf(),
                forall|k: int| 0 <= k < goals@.len() ==> (#[trigger] goals@[k]).wf(),
            decreases layout.len() - i,
        {
            let row_len = world.layout[i].len();
            let mut j: usize = 0;
            while j < row_len
                invariant
                    0 <= j <= row_len,
                    0 <= i < layout.len(),
                    layout == world.layout@,
                    layout.len() <= MAX_GRID_COORD,
                    forall|r: int|
                        0 <= r < layout.len() ==> (#[trigger] layout[r])@.len() <= MAX_GRID_COORD,
                    row_len == layout[i as int]@.len(),
                    ({
                        let ents = ents_of_row(
                            ents_of_grid(layout, i as int),
                            layout[i as int]@,
                            i as int,
                            j as int,
                        );
                        &&& walls@ == ents.walls
                        &&& traps@ == ents.traps
                        &&& goals@ == ents.goals
                        &&& spawners@.len() == ents.spawners.len()
                        &&& forall|k: int|
                            0 <= k < ents.spawners.len() ==> (#[trigger] spawners@[k]) == (
                            SpawnerEntity {
                                pos: ents.spawners[k].0,
                                projectile: ents.spawners[k].1.projectile,
                                heading: Vec2 { x: 0, y: 0 },
                                timer: RepeatTimer {
                                    period_ms: spawn_period(ents.spawners[k].1),
                                    remaining_ms: spawn_period(ents.spawners[k].1),
                                },
                            })
                    }),
                    forall|k: int| 0 <= k < spawners@.len() ==> (#[trigger] spawners@[k]).wf(),
                    forall|k: int| 0 <= k < walls@.len() ==> (#[trigger] walls@[k]).wf(),
                    forall|k: int| 0 <= k < traps@.len() ==> (#[trigger] traps@[k]).wf(),
                    forall|k: int| 0 <= k < goals@.len() ==> (#[trigger] goals@[k]).wf(),
                decreases row_len - j,
            {
                let pos = crate::world::tile_world_position(j, i);
                proof {
                    assert(pos == spec_tile_pos(j as int, i as int));
                }
                match &world.layout[i][j] {
                    None => {},
                    Some(Tile::Wall) => walls.push(pos),
                    Some(Tile::Trap) => traps.push(pos),
                    Some(Tile::Goal) => goals.push(pos),
                    Some(Tile::Spawner(s)) => {
                        let period = if s.cooldown_ms == 0 {
                            1
                        } else {
                            s.cooldown_ms
                        };
                        spawners.push(
                            SpawnerEntity {
                                pos,
                                projectile: s.projectile,
                                heading: Vec2 { x: 0, y: 0 },
                                timer: RepeatTimer { period_ms: period, remaining_ms: period },
                            },
                        );
                    },
                }
                j = j + 1;
            }
            i = i + 1;
            proof {
                assert(ents_of_grid(layout, i as int) == ents_of_row(
                    ents_of_grid(layout, i - 1),
                    layout[i - 1]@,
                    i - 1,
                    layout[i - 1]@.len() as int,
                ));
            }
        }
        let start_pos = crate::world::tile_world_position(
            world.player_start_coordinates.0,
            world.player_start_coordinates.1,
        );
        proof {
            assert(start_pos == spec_tile_pos(
                world.player_start_coordinates.0 as int,
                world.player_start_coordinates.1 as int,
            ));
        }
        let player = spawn_player(upgrades, start_pos);
        Sim {
            spawners,
            enemies: Vec::new(),
            player: Some(player),
            walls,
            traps,
            goals,
            invincibility: InvincibilityTimer::default(),
        }
    }

    /// What one spawner adds to the enemies this tick: the projectile it
    /// creates if its timer fires. A missile spawner whose timer fires while
    /// no player exists is a no-op (its timer is still consumed); a laser
    /// launches along the spawner's fixed heading.
    pub open spec fn spec_spawned(
        spawners: Seq<SpawnerEntity>,
        dt_ms: u64,
        have_player: bool,
        upto: int,
    ) -> Seq<Enemy>
        decreases upto,
    {
        if upto <= 0 {
            Seq::empty()
        } else {
            let pre = Self::spec_spawned(spawners, dt_ms, have_player, upto - 1);
            let sp = spawners[upto - 1];
            if sp.timer.spec_tick(dt_ms).1 {
                match sp.projectile {
                    Projectile::Missile => if have_player {
                        pre.push(sp.projectile.spec_spawn(sp.pos, sp.heading))
                    } else {
                        pre
                    },
                    Projectile::Laser { .. } => pre.push(
                        sp.projectile.spec_spawn(sp.pos, sp.heading),
                    ),
                }
            } else {
                pre
            }
        }
    }

    /// Advance every spawner's timer by the elapsed time and append the
    /// projectiles of the timers that fired, in spawner order. Everything
    /// else is untouched.
    pub fn spawn_projectiles(&mut self, dt_ms: u64)
        requires
            old(self).wf(),
        ensures
            final(self).spawners@.len() == old(self).spawners@.len(),
            forall|k: int|
                0 <= k < old(self).spawners@.len() ==> (#[trigger] final(self).spawners@[k]) == (
                SpawnerEntity {
                    timer: old(self).spawners@[k].timer.spec_tick(dt_ms).0,
                    ..old(self).spawners@[k]
                }),
            final(self).enemies@ == old(self).enemies@ + Self::spec_spawned(
                old(self).spawners@,
                dt_ms,
                old(self).player is Some,
                old(self).spawners@.len() as int,
            ),
            final(self).player == old(self).player,
            final(self).walls == old(self).walls,
            final(self).traps == old(self).traps,
            final(self).goals == old(self).goals,
            final(self).invincibility == old(self).invincibility,
            final(self).wf(),
    {
        let ghost sp0 = self.spawners@;
        let ghost have_player = self.player is Some;
        let ghost enemies0 = self.enemies@;
        let have = self.player.is_some();
        let mut k: usize = 0;
        while k < self.spawners.len()
            invariant
                0 <= k <= sp0.len(),
                self.spawners@.len() == sp0.len(),
                forall|q: int|
                    0 <= q < k ==> (#[trigger] self.spawners@[q]) == (SpawnerEntity {
                        timer: sp0[q].timer.spec_tick(dt_ms).0,
                        ..sp0[q]
                    }),
                forall|q: int| k <= q < sp0.len() ==> (#[trigger] self.spawners@[q]) == sp0[q],
                self.enemies@ == enemies0 + Self::spec_spawned(sp0, dt_ms, have_player, k as int),
                self.player == old(self).player,
                have == (self.player is Some),
                have_player == (self.player is Some),
                self.walls == old(self).walls,
                self.traps == old(self).traps,
                self.goals == old(self).goals,
                self.invincibility == old(self).invincibility,
                forall|q: int| 0 <= q < sp0.len() ==> (#[trigger] sp0[q]).wf(),
                forall|q: int|
                    0 <= q < self.spawners@.len() ==> (#[trigger] self.spawners@[q]).wf(),
                forall|q: int| 0 <= q < self.enemies@.len() ==> (#[trigger] self.enemies@[q]).wf(),
            decreases sp0.len() - k,
        {
            let mut sp = self.spawners[k];
            let fired = sp.timer.tick(dt_ms);
            self.spawners.set(k, sp);
            if fired {
                match sp.projectile {
                    Projectile::Missile => {
                        if have {
                            let e = sp.projectile.spawn(sp.pos, sp.heading);
                            self.enemies.push(e);
                        }
                    },
                    Projectile::Laser { .. } => {
                        let e = sp.projectile.spawn(sp.pos, sp.heading);
                        self.enemies.push(e);
                    },
                }
            }
            proof {
                assert(self.enemies@ =~= enemies0 + Self::spec_spawned(
                    sp0,
                    dt_ms,
                    have_player,
                    k + 1,
                ));
            }
            k = k + 1;
        }
        proof {
            assert(self.enemies@ =~= enemies0 + Self::spec_spawned(
                sp0,
                dt_ms,
                have_player,
                sp0.len() as int,
            ));
        }
    }

    /// Where one projectile stands after a tick: a pursuer re-aims at the
    /// player's current position (it holds still when no player exists this
    /// tick), a bullet keeps its fixed heading; both travel their speed over
    /// the elapsed time, halved under the enemy-slowdown modifier.
    pub open spec fn spec_advance_enemy(
        e: Enemy,
        player_pos: Option<Vec2>,
        dt_ms: u64,
        slow: bool,
    ) -> Enemy {
        let den: int = if slow {
            2000
        } else {
            1000
        };
        match e.strategy {
            Strategy::Pursuer { velocity } => {
                if player_pos is Some {
                    let t = player_pos.unwrap();
                    let v = spec_heading(t.x - e.pos.x, t.y - e.pos.y, velocity as int);
                    Enemy {
                        pos: Vec2 {
                            x: spec_clamp(e.pos.x + div_trunc(v.0 * dt_ms, den)) as i64,
                            y: spec_clamp(e.pos.y + div_trunc(v.1 * dt_ms, den)) as i64,
                        },
                        ..e
                    }
                } else {
                    e
                }
            },
            Strategy::Bullet { velocity, heading } => {
                let v = spec_heading(heading.x as int, heading.y as int, velocity as int);
                Enemy {
                    pos: Vec2 {
                        x: spec_clamp(e.pos.x + div_trunc(v.0 * dt_ms, den)) as i64,
                        y: spec_clamp(e.pos.y + div_trunc(v.1 * dt_ms, den)) as i64,
                    },
                    ..e
                }
            },
        }
    }

    /// Move every live projectile one tick: missiles re-aim at the player's
    /// current position, lasers continue along their fixed heading.
    pub fn advance_enemies(&mut self, dt_ms: u64, upgrades: &UpgradeTracker)
        requires
            old(self).wf(),
            dt_ms <= TICK_LIMIT_MS,
        ensures
            final(self).enemies@.len() == old(self).enemies@.len(),
            forall|k: int|
                0 <= k < old(self).enemies@.len() ==> (#[trigger] final(self).enemies@[k])
                    == Self::spec_advance_enemy(
                    old(self).enemies@[k],
                    if old(self).player is Some {
                        Some(old(self).player.unwrap().pos)
                    } else {
                        None
                    },
                    dt_ms,
                    upgrades.spec_has_upgrade(Upgrade::SlowEnemies),
                ),
            final(self).spawners == old(self).spawners,
            final(self).player == old(self).player,
            final(self).walls == old(self).walls,
            final(self).traps == old(self).traps,
            final(self).goals == old(self).goals,
            final(self).invincibility == old(self).invincibility,
            final(self).wf(),
    {
        let ghost en0 = self.enemies@;
        let ghost ppos = if self.player is Some {
            Some(self.player.unwrap().pos)
        } else {
            None
        };
        let slow = upgrades.has_upgrade(Upgrade::SlowEnemies);
        let target: Option<Vec2> = match &self.player {
            Some(p) => Some(p.pos),
            None => None,
        };
        let mut k: usize = 0;
        while k < self.enemies.len()
            invariant
                0 <= k <= en0.len(),
                self.enemies@.len() == en0.len(),
                slow == upgrades.spec_has_upgrade(Upgrade::SlowEnemies),
                target == ppos,
                ppos is Some ==> ppos.unwrap().wf(),
                forall|q: int|
                    0 <= q < k ==> (#[trigger] self.enemies@[q]) == Self::spec_advance_enemy(
                        en0[q],
                        ppos,
                        dt_ms,
                        slow,
                    ),
                forall|q: int| k <= q < en0.len() ==> (#[trigger] self.enemies@[q]) == en0[q],
                forall|q: int| 0 <= q < en0.len() ==> (#[trigger] en0[q]).wf(),
                forall|q: int|
                    0 <= q < self.enemies@.len() ==> (#[trigger] self.enemies@[q]).wf(),
                dt_ms <= TICK_LIMIT_MS,
                self.spawners == old(self).spawners,
                self.player == old(self).player,
                self.walls == old(self).walls,
                self.traps == old(self).traps,
                self.goals == old(self).goals,
                self.invincibility == old(self).invincibility,
            decreases en0.len() - k,
        {
            let e = self.enemies[k];
            let moved = advance_one_enemy(e, target, dt_ms, slow);
            self.enemies.set(k, moved);
            k = k + 1;
        }
    }

    /// Fix a laser spawner's launch heading, computed once from its stored
    /// angle; everything else is untouched.
    pub fn set_spawner_heading(&mut self, k: usize, heading: Vec2)
        requires
            old(self).wf(),
            k < old(self).spawners@.len(),
            heading.wf(),
        ensures
            final(self).spawners@ == old(self).spawners@.update(
                k as int,
                SpawnerEntity { heading, ..old(self).spawners@[k as int] },
            ),
            final(self).enemies == old(self).enemies,
            final(self).player == old(self).player,
            final(self).walls == old(self).walls,
            final(self).traps == old(self).traps,
            final(self).goals == old(self).goals,
            final(self).invincibility == old(self).invincibility,
            final(self).wf(),
    {
        let s = self.spawners[k];
        self.spawners.set(k, SpawnerEntity { heading, ..s });
    }
}

/// The travel of one coordinate this tick: speed over the elapsed time,
/// halved under the enemy-slowdown modifier, rounded toward zero.
fn enemy_delta(vel: i64, dt_ms: u64, slow: bool) -> (d: i64)
    requires
        -0x20_0000 <= vel <= 0x20_0000,
        dt_ms <= TICK_LIMIT_MS,
    ensures
        d == div_trunc(vel * dt_ms, if slow { 2000int } else { 1000int }),
        -0x20_0000 * 1000 <= d <= 0x20_0000 * 1000,
{
    let den: u64 = if slow {
        2000
    } else {
        1000
    };
    proof {
        let mag: int = if vel >= 0 {
            vel as int
        } else {
            -(vel as int)
        };
        assert(0 <= mag * dt_ms <= 0x20_0000 * 1000) by (nonlinear_arith)
            requires
                0 <= mag <= 0x20_0000,
                0 <= dt_ms <= 1000,
        ;
        vstd::arithmetic::div_mod::lemma_div_pos_is_pos(mag * dt_ms, den as int);
        vstd::arithmetic::div_mod::lemma_div_is_ordered(
            mag * dt_ms,
            0x20_0000int * 1000,
            den as int,
        );
        vstd::arithmetic::div_mod::lemma_div_is_ordered(
            0x20_0000int * 1000,
            0x20_0000int * 1000 * 2000,
            den as int,
        );
        vstd::arithmetic::div_mod::lemma_div_of0(den as int);
        if vel >= 0 {
            assert((vel as int) * dt_ms >= 0 && (vel as int) * dt_ms == mag * dt_ms)
                by (nonlinear_arith)
                requires
                    vel >= 0,
                    dt_ms >= 0,
                    mag == vel,
            ;
        } else {
            assert((vel as int) * dt_ms <= 0 && -((vel as int) * dt_ms) == mag * dt_ms)
                by (nonlinear_arith)
                requires
                    vel < 0,
                    dt_ms >= 0,
                    mag == -(vel as int),
            ;
        }
    }
    if vel >= 0 {
        ((vel as u64) * dt_ms / den) as i64
    } else {
        -((((-vel) as u64) * dt_ms / den) as i64)
    }
}

/// Advance one projectile by one tick of motion.
fn advance_one_enemy(e: Enemy, target: Option<Vec2>, dt_ms: u64, slow: bool) -> (r: Enemy)
    requires
        e.wf(),
        dt_ms <= TICK_LIMIT_MS,
        target is Some ==> target.unwrap().wf(),
    ensures
        r == Sim::spec_advance_enemy(e, target, dt_ms, slow),
        r.wf(),
{
    match e.strategy {
        Strategy::Pursuer { velocity } => {
            match target {
                Some(t) => {
                    let v = pursue(e.pos, t, velocity);
                    let x = clamp_coord(e.pos.x + enemy_delta(v.x, dt_ms, slow));
                    let y = clamp_coord(e.pos.y + enemy_delta(v.y, dt_ms, slow));
                    Enemy { pos: Vec2 { x, y }, ..e }
                },
                None => e,
            }
        },
        Strategy::Bullet { velocity, heading } => {
            let v = ballistic(heading, velocity);
            let x = clamp_coord(e.pos.x + enemy_delta(v.x, dt_ms, slow));
            let y = clamp_coord(e.pos.y + enemy_delta(v.y, dt_ms, slow));
            Enemy { pos: Vec2 { x, y }, ..e }
        },
    }
}

/// The collision rectangle of a tile-bound hazard or goal at `pos`: a tile
/// is a 24 by 24 square.
pub open spec fn spec_tile_rect(pos: Vec2) -> CollisionRect {
    CollisionRect { cx: pos.x, cy: pos.y, half_w: 12, half_h: 12 }
}

/// The collision rectangle of a live projectile.
pub open spec fn spec_enemy_rect(e: Enemy) -> CollisionRect {
    CollisionRect { cx: e.pos.x, cy: e.pos.y, half_w: e.half_w, half_h: e.half_h }
}

/// The player's collision rectangle.
pub open spec fn spec_player_rect(p: Player) -> CollisionRect {
    CollisionRect { cx: p.pos.x, cy: p.pos.y, half_w: p.half_w, half_h: p.half_h }
}

/// A 24 by 24 tile rectangle at a hazard's or the goal's position.
fn tile_rect(pos: Vec2) -> (r: CollisionRect)
    requires
        pos.wf(),
    ensures
        r == spec_tile_rect(pos),
        r.wf(),
{
    CollisionRect { cx: pos.x, cy: pos.y, half_w: 12, half_h: 12 }
}

impl Sim {
    /// The player overlaps some hazard shape: a wall, a trap, or a live
    /// projectile.
    pub open spec fn spec_hazard_hit(self) -> bool {
        self.player is Some && {
            let pr = spec_player_rect(self.player.unwrap());
            ||| exists|k: int|
                0 <= k < self.walls@.len() && CollisionRect::spec_overlaps(
                    pr,
                    spec_tile_rect(#[trigger] self.walls@[k]),
                )
            ||| exists|k: int|
                0 <= k < self.traps@.len() && CollisionRect::spec_overlaps(
                    pr,
                    spec_tile_rect(#[trigger] self.traps@[k]),
                )
            ||| exists|k: int|
                0 <= k < self.enemies@.len() && CollisionRect::spec_overlaps(
                    pr,
                    spec_enemy_rect(#[trigger] self.enemies@[k]),
                )
        }
    }

    /// The player overlaps the goal; the test runs only when the level has
    /// exactly one goal entity.
    pub open spec fn spec_goal_hit(self) -> bool {
        &&& self.player is Some
        &&& self.goals@.len() == 1
        &&& CollisionRect::spec_overlaps(
            spec_player_rect(self.player.unwrap()),
            spec_tile_rect(self.goals@[0]),
        )
    }

    /// The outcome of a tick's collision tests: nothing while the
    /// invincibility window has not elapsed or no player exists; else a
    /// hazard overlap (checked first, and alone sufficient), else the goal
    /// overlap, else nothing.
    pub open spec fn spec_outcome(self) -> Option<CollisionEvent> {
        if self.invincibility.remaining_ms != 0 || self.player is None {
            None
        } else if self.spec_hazard_hit() {
            Some(CollisionEvent::HitHazard)
        } else if self.spec_goal_hit() {
            Some(CollisionEvent::ReachedGoal)
        } else {
            None
        }
    }

    /// Test the player against every hazard shape, and, only if none
    /// overlaps, against the goal. The first overlap found is the sole fact
    /// recorded.
    #[verifier::loop_isolation(false)]
    pub fn detect_collision(&self) -> (r: Option<CollisionEvent>)
        requires
            self.wf(),
        ensures
            r == self.spec_outcome(),
    {
        if !self.invincibility.finished() {
            return None;
        }
        let p = match &self.player {
            Some(p) => *p,
            None => {
                return None;
            },
        };
        let pr = p.shape();
        let mut k: usize = 0;
        while k < self.walls.len()
            invariant
                0 <= k <= self.walls@.len(),
                forall|q: int|
                    0 <= q < k ==> !CollisionRect::spec_overlaps(
                        pr,
                        spec_tile_rect(#[trigger] self.walls@[q]),
                    ),
            decreases self.walls@.len() - k,
        {
            if pr.is_collided_with(&tile_rect(self.walls[k])) {
                return Some(CollisionEvent::HitHazard);
            }
            k = k + 1;
        }
        let mut k: usize = 0;
        while k < self.traps.len()
            invariant
                0 <= k <= self.traps@.len(),
                forall|q: int|
                    0 <= q < k ==> !CollisionRect::spec_overlaps(
                        pr,
                        spec_tile_rect(#[trigger] self.traps@[q]),
                    ),
            decreases self.traps@.len() - k,
        {
            if pr.is_collided_with(&tile_rect(self.traps[k])) {
                return Some(CollisionEvent::HitHazard);
            }
            k = k + 1;
        }
        let mut k: usize = 0;
        while k < self.enemies.len()
            invariant
                0 <= k <= self.enemies@.len(),
                forall|q: int|
                    0 <= q < k ==> !CollisionRect::spec_overlaps(
                        pr,
                        spec_enemy_rect(#[trigger] self.enemies@[q]),
                    ),
            decreases self.enemies@.len() - k,
        {
            let e = self.enemies[k];
            if pr.is_collided_with(&e.shape()) {
                return Some(CollisionEvent::HitHazard);
            }
            k = k + 1;
        }
        if self.goals.len() == 1 {
            if pr.is_collided_with(&tile_rect(self.goals[0])) {
                return Some(CollisionEvent::ReachedGoal);
            }
        }
        None
    }
}

/// Where the player stands after the motion phase: the input velocity
/// (doubled under the double-speed modifier) integrated over the tick, then
/// overridden by the teleport jump when that fired.
pub open spec fn spec_moved_player(
    p: Player,
    velocity: Vec2,
    dt_ms: u64,
    upgrades: UpgradeTracker,
    primary_pressed: bool,
    secondary_pressed: bool,
    cursor_world: Option<Vec2>,
) -> Player {
    let vx = if upgrades.spec_has_upgrade(Upgrade::DoubleSpeed) {
        2 * velocity.x as int
    } else {
        velocity.x as int
    };
    let vy = if upgrades.spec_has_upgrade(Upgrade::DoubleSpeed) {
        2 * velocity.y as int
    } else {
        velocity.y as int
    };
    let teleported = (upgrades.primary == Some(Upgrade::Teleport) && primary_pressed) || (
    upgrades.secondary == Some(Upgrade::Teleport) && secondary_pressed);
    if teleported && cursor_world is Some {
        Player {
            pos: Vec2 {
                x: spec_clamp(cursor_world.unwrap().x as int) as i64,
                y: spec_clamp(cursor_world.unwrap().y as int) as i64,
            },
            ..p
        }
    } else {
        Player {
            pos: Vec2 {
                x: spec_step(p.pos.x as int, vx, dt_ms as int) as i64,
                y: spec_step(p.pos.y as int, vy, dt_ms as int) as i64,
            },
            ..p
        }
    }
}

impl Sim {
    /// One full simulation tick, in the fixed phase order: player motion
    /// from the sampled input, the teleport modifier, the invincibility
    /// countdown, spawner timers and projectile creation, projectile
    /// motion, and the collision tests, whose outcome is returned.
    ///
    /// Projectiles created this tick also move this tick; missiles aim at
    /// the player's position after its motion phase.
    pub fn tick(
        &mut self,
        velocity: Vec2,
        dt_ms: u64,
        upgrades: &UpgradeTracker,
        primary_pressed: bool,
        secondary_pressed: bool,
        cursor_world: Option<Vec2>,
    ) -> (r: Option<CollisionEvent>)
        requires
            old(self).wf(),
            dt_ms <= TICK_LIMIT_MS,
            -PLAYER_VELOCITY <= velocity.x <= PLAYER_VELOCITY,
            -PLAYER_VELOCITY <= velocity.y <= PLAYER_VELOCITY,
        ensures
            ({
                let moved = if old(self).player is Some {
                    Some(
                        spec_moved_player(
                            old(self).player.unwrap(),
                            velocity,
                            dt_ms,
                            *upgrades,
                            primary_pressed,
                            secondary_pressed,
                            cursor_world,
                        ),
                    )
                } else {
                    None
                };
                let arrived = old(self).enemies@ + Self::spec_spawned(
                    old(self).spawners@,
                    dt_ms,
                    old(self).player is Some,
                    old(self).spawners@.len() as int,
                );
                &&& final(self).player == moved
                &&& final(self).enemies@ == arrived.map_values(
                    |e: Enemy|
                        Self::spec_advance_enemy(
                            e,
                            if moved is Some {
                                Some(moved.unwrap().pos)
                            } else {
                                None
                            },
                            dt_ms,
                            upgrades.spec_has_upgrade(Upgrade::SlowEnemies),
                        ),
                )
                &&& final(self).spawners@.len() == old(self).spawners@.len()
                &&& forall|k: int|
                    0 <= k < old(self).spawners@.len() ==> (#[trigger] final(self).spawners@[k])
                        == (SpawnerEntity {
                        timer: old(self).spawners@[k].timer.spec_tick(dt_ms).0,
                        ..old(self).spawners@[k]
                    })
                &&& final(self).invincibility.remaining_ms == (if old(
                    self,
                ).invincibility.remaining_ms >= dt_ms {
                    old(self).invincibility.remaining_ms - dt_ms
                } else {
                    0int
                })
                &&& final(self).walls == old(self).walls
                &&& final(self).traps == old(self).traps
                &&& final(self).goals == old(self).goals
                &&& r == final(self).spec_outcome()
                &&& final(self).wf()
            }),
    {
        match self.player {
            Some(player0) => {
                let mut p = player0;
                crate::player::move_player(&mut p, velocity, dt_ms, upgrades);
                crate::player::teleport(
                    &mut p,
                    upgrades,
                    primary_pressed,
                    secondary_pressed,
                    cursor_world,
                );
                self.player = Some(p);
            },
            None => {},
        }
        self.invincibility.tick(dt_ms);
        self.spawn_projectiles(dt_ms);
        self.advance_enemies(dt_ms, upgrades);
        let r = self.detect_collision();
        proof {
            let moved = self.player;
            let arrived = old(self).enemies@ + Self::spec_spawned(
                old(self).spawners@,
                dt_ms,
                old(self).player is Some,
                old(self).spawners@.len() as int,
            );
            assert(self.enemies@ =~= arrived.map_values(
                |e: Enemy|
                    Self::spec_advance_enemy(
                        e,
                        if moved is Some {
                            Some(moved.unwrap().pos)
                        } else {
                            None
                        },
                        dt_ms,
                        upgrades.spec_has_upgrade(Upgrade::SlowEnemies),
                    ),
            ));
        }
        r
    }
}

/// One magnitude of a pursuit step after both roundings: the component's
/// share of the speed, then that share integrated over the tick. While the
/// step's travel does not reach the target, the larger component moves at
/// least one unit and neither moves past zero, so the squared distance
/// strictly shrinks.
proof fn lemma_two_stage_step(a: int, b: int, d: int, s: int, dt: int)
    requires
        a >= b >= 0,
        d * d <= a * a + b * b,
        a <= d,
        b <= d,
        2 <= s,
        1 <= dt,
        s * dt >= 2000 + 2 * dt,
        s * dt <= 1000 * d,
    ensures
        ({
            let ta = (((a * s) / d) * dt) / 1000;
            let tb = (((b * s) / d) * dt) / 1000;
            &&& 1 <= ta <= a
            &&& 0 <= tb <= b
            &&& (a - ta) * (a - ta) + (b - tb) * (b - tb) < a * a + b * b
        }),
{
    let va = (a * s) / d;
    let vb = (b * s) / d;
    let ta = (va * dt) / 1000;
    let tb = (vb * dt) / 1000;
    assert(d >= 2) by (nonlinear_arith)
        requires
            1000 * d >= s * dt,
            s * dt >= 2000 + 2 * dt,
            dt >= 1,
    ;
    assert(a * s >= 0 && b * s >= 0) by (nonlinear_arith)
        requires
            a >= 0 && b >= 0 && s >= 0,
    ;
    lemma_div_pos_is_pos(a * s, d);
    lemma_div_pos_is_pos(b * s, d);
    assert(va * dt >= 0 && vb * dt >= 0) by (nonlinear_arith)
        requires
            va >= 0 && vb >= 0 && dt >= 0,
    ;
    lemma_div_pos_is_pos(va * dt, 1000);
    lemma_div_pos_is_pos(vb * dt, 1000);
    // Integrating the rounded share never overshoots the component:
    // va * dt <= (a * s * dt) / d <= a * 1000, so ta <= a (same for b).
    lemma_fundamental_div_mod(a * s, d);
    lemma_mod_division_less_than_divisor(a * s, d);
    assert(a * s * dt == a * (s * dt)) by (nonlinear_arith);
    assert(va * dt <= (a * (s * dt)) / d) by {
        assert(va * dt * d <= a * s * dt) by (nonlinear_arith)
            requires
                a * s == d * va + (a * s) % d,
                (a * s) % d >= 0,
                dt >= 0,
                d > 0,
        ;
        lemma_fundamental_div_mod(a * (s * dt), d);
        lemma_mod_division_less_than_divisor(a * (s * dt), d);
        assert(va * dt <= (a * (s * dt)) / d) by (nonlinear_arith)
            requires
                va * dt * d <= a * s * dt,
                a * (s * dt) == d * ((a * (s * dt)) / d) + (a * (s * dt)) % d,
                0 <= (a * (s * dt)) % d < d,
                d > 0,
                a * s * dt == a * (s * dt),
        ;
    }
    assert(a * (s * dt) <= a * (1000 * d) && b * (s * dt) <= b * (1000 * d)) by (nonlinear_arith)
        requires
            s * dt <= 1000 * d,
            a >= 0,
            b >= 0,
    ;
    lemma_div_is_ordered(a * (s * dt), a * (1000 * d), d);
    assert((a * (1000 * d)) / d == 1000 * a) by {
        lemma_div_multiples_vanish(1000 * a, d);
        assert(a * (1000 * d) == d * (1000 * a)) by (nonlinear_arith);
    }
    assert(va * dt <= 1000 * a);
    lemma_div_is_ordered(va * dt, 1000 * a, 1000);
    lemma_div_multiples_vanish(a, 1000);
    assert(ta <= a);
    // The same for the smaller component.
    lemma_fundamental_div_mod(b * s, d);
    lemma_mod_division_less_than_divisor(b * s, d);
    assert(b * s * dt == b * (s * dt)) by (nonlinear_arith);
    assert(vb * dt <= (b * (s * dt)) / d) by {
        assert(vb * dt * d <= b * s * dt) by (nonlinear_arith)
            requires
                b * s == d * vb + (b * s) % d,
                (b * s) % d >= 0,
                dt >= 0,
                d > 0,
        ;
        lemma_fundamental_div_mod(b * (s * dt), d);
        lemma_mod_division_less_than_divisor(b * (s * dt), d);
        assert(vb * dt <= (b * (s * dt)) / d) by (nonlinear_arith)
            requires
                vb * dt * d <= b * s * dt,
                b * (s * dt) == d * ((b * (s * dt)) / d) + (b * (s * dt)) % d,
                0 <= (b * (s * dt)) % d < d,
                d > 0,
                b * s * dt == b * (s * dt),
        ;
    }
    lemma_div_is_ordered(b * (s * dt), b * (1000 * d), d);
    assert((b * (1000 * d)) / d == 1000 * b) by {
        lemma_div_multiples_vanish(1000 * b, d);
        assert(b * (1000 * d) == d * (1000 * b)) by (nonlinear_arith);
    }
    assert(vb * dt <= 1000 * b);
    lemma_div_is_ordered(vb * dt, 1000 * b, 1000);
    lemma_div_multiples_vanish(b, 1000);
    assert(tb <= b);
    // The larger component covers at least half the distance, so its share
    // of the speed is at least half the speed, and its travel reaches one
    // unit within the tick.
    assert(2 * a >= d) by (nonlinear_arith)
        requires
            a >= b >= 0,
            d * d <= a * a + b * b,
            d >= 2,
    ;
    assert(a * s >= d * (s / 2)) by (nonlinear_arith)
        requires
            2 * a >= d,
            d >= 0,
            s >= 2,
            2 * (s / 2) <= s,
            s / 2 >= 0,
    ;
    assert((d * (s / 2)) / d == s / 2) by {
        lemma_div_multiples_vanish(s / 2, d);
    }
    lemma_div_is_ordered(d * (s / 2), a * s, d);
    assert(va >= s / 2);
    assert((s / 2) * dt >= 1000) by (nonlinear_arith)
        requires
            s * dt >= 2000 + 2 * dt,
            2 * (s / 2) >= s - 1,
            dt >= 1,
            s / 2 >= 0,
    ;
    assert(va * dt >= (s / 2) * dt) by (nonlinear_arith)
        requires
            va >= s / 2,
            dt >= 0,
            s / 2 >= 0,
    ;
    lemma_div_is_ordered(1000int * 1, va * dt, 1000);
    lemma_div_multiples_vanish(1, 1000);
    assert(ta >= 1);
    // Strict decrease: the larger coordinate strictly approaches, the
    // smaller never passes zero.
    assert((a - ta) * (a - ta) < a * a) by (nonlinear_arith)
        requires
            1 <= ta <= a,
    ;
    assert((b - tb) * (b - tb) <= b * b) by (nonlinear_arith)
        requires
            0 <= tb <= b,
    ;
}

/// Direct-intercept convergence at the engine's own integration: while the
/// player stands at least one tick's travel away (and the tick covers a
/// little over two units of travel), one tick of a pursuing projectile's
/// motion strictly decreases its squared distance to the player. Applied
/// tick after tick toward a stationary player, the distance falls until
/// the player is within one tick's travel.
pub proof fn lemma_missile_tick_closes(e: Enemy, t: Vec2, dt_ms: u64, velocity: i64)
    requires
        e.wf(),
        t.wf(),
        e.strategy == (Strategy::Pursuer { velocity }),
        2 <= velocity,
        1 <= dt_ms <= TICK_LIMIT_MS,
        velocity * dt_ms >= 2000 + 2 * dt_ms,
        velocity * dt_ms <= 1000 * isqrt_spec(
            ((t.x - e.pos.x) * (t.x - e.pos.x) + (t.y - e.pos.y) * (t.y - e.pos.y)) as nat,
        ),
    ensures
        ({
            let moved = Sim::spec_advance_enemy(e, Some(t), dt_ms, false);
            (t.x - moved.pos.x) * (t.x - moved.pos.x) + (t.y - moved.pos.y) * (t.y - moved.pos.y)
                < (t.x - e.pos.x) * (t.x - e.pos.x) + (t.y - e.pos.y) * (t.y - e.pos.y)
        }),
{
    let dx = t.x - e.pos.x;
    let dy = t.y - e.pos.y;
    let n = (dx * dx + dy * dy) as nat;
    let d = isqrt_spec(n) as int;
    lemma_isqrt_bounds(n);
    lemma_component_le_norm(dx, dy);
    let ax = abs_int(dx);
    let ay = abs_int(dy);
    assert(dx * dx == ax * ax && dy * dy == ay * ay) by (nonlinear_arith)
        requires
            (ax == dx || ax == -dx) && (ay == dy || ay == -dy),
    ;
    let s = velocity as int;
    let dt = dt_ms as int;
    let vxm = (ax * s) / d;
    let vym = (ay * s) / d;
    let txm = (vxm * dt) / 1000;
    let tym = (vym * dt) / 1000;
    if ax >= ay {
        lemma_two_stage_step(ax, ay, d, s, dt);
    } else {
        lemma_two_stage_step(ay, ax, d, s, dt);
    }
    assert(0 <= txm <= ax && 0 <= tym <= ay);
    assert((ax - txm) * (ax - txm) + (ay - tym) * (ay - tym) < ax * ax + ay * ay);
    // The engine's truncating division distributes over each component's
    // sign: the tick's travel is the magnitude `txm` with the sign of `dx`
    // (and likewise for y).
    let (vx, vy) = spec_heading(dx, dy, s);
    vstd::arithmetic::div_mod::lemma_div_of0(1000);
    vstd::arithmetic::div_mod::lemma_div_of0(d);
    assert(vxm * dt >= 0 && vym * dt >= 0) by (nonlinear_arith)
        requires
            vxm >= 0 && vym >= 0 && dt >= 0,
    ;
    if dx > 0 {
        assert(vx == vxm) by (nonlinear_arith)
            requires
                vx == sign_int(dx) * vxm && sign_int(dx) == 1,
        ;
        assert(div_trunc(vx * dt, 1000) == txm);
    } else if dx == 0 {
        assert(ax * s == 0) by (nonlinear_arith)
            requires
                ax == 0,
        ;
        assert(vxm == 0);
        assert(vx == 0) by (nonlinear_arith)
            requires
                vx == sign_int(dx) * vxm && sign_int(dx) == 0,
        ;
        assert(vx * dt == 0) by (nonlinear_arith)
            requires
                vx == 0,
        ;
        assert(txm == 0 && div_trunc(vx * dt, 1000) == 0);
    } else {
        assert(vx == -vxm) by (nonlinear_arith)
            requires
                vx == sign_int(dx) * vxm && sign_int(dx) == -1,
        ;
        assert(vx * dt == -(vxm * dt)) by (nonlinear_arith)
            requires
                vx == -vxm,
        ;
        assert(div_trunc(vx * dt, 1000) == -txm);
    }
    if dy > 0 {
        assert(vy == vym) by (nonlinear_arith)
            requires
                vy == sign_int(dy) * vym && sign_int(dy) == 1,
        ;
        assert(div_trunc(vy * dt, 1000) == tym);
    } else if dy == 0 {
        assert(ay * s == 0) by (nonlinear_arith)
            requires
                ay == 0,
        ;
        assert(vym == 0);
        assert(vy == 0) by (nonlinear_arith)
            requires
                vy == sign_int(dy) * vym && sign_int(dy) == 0,
        ;
        assert(vy * dt == 0) by (nonlinear_arith)
            requires
                vy == 0,
        ;
        assert(tym == 0 && div_trunc(vy * dt, 1000) == 0);
    } else {
        assert(vy == -vym) by (nonlinear_arith)
            requires
                vy == sign_int(dy) * vym && sign_int(dy) == -1,
        ;
        assert(vy * dt == -(vym * dt)) by (nonlinear_arith)
            requires
                vy == -vym,
        ;
        assert(div_trunc(vy * dt, 1000) == -tym);
    }
    // The step stays on the segment between the projectile and the player,
    // so the world clamp is the identity, and each new displacement is the
    // old magnitude less the travel.
    let moved = Sim::spec_advance_enemy(e, Some(t), dt_ms, false);
    if dx > 0 {
        assert(moved.pos.x == e.pos.x + txm);
        assert(t.x - moved.pos.x == ax - txm);
    } else if dx == 0 {
        assert(moved.pos.x == e.pos.x);
        assert(t.x - moved.pos.x == ax - txm);
    } else {
        assert(moved.pos.x == e.pos.x - txm);
        assert(t.x - moved.pos.x == -(ax - txm));
    }
    if dy > 0 {
        assert(moved.pos.y == e.pos.y + tym);
        assert(t.y - moved.pos.y == ay - tym);
    } else if dy == 0 {
        assert(moved.pos.y == e.pos.y);
        assert(t.y - moved.pos.y == ay - tym);
    } else {
        assert(moved.pos.y == e.pos.y - tym);
        assert(t.y - moved.pos.y == -(ay - tym));
    }
    assert((t.x - moved.pos.x) * (t.x - moved.pos.x) == (ax - txm) * (ax - txm)) by (
    nonlinear_arith)
        requires
            t.x - moved.pos.x == ax - txm || t.x - moved.pos.x == -(ax - txm),
    ;
    assert((t.y - moved.pos.y) * (t.y - moved.pos.y) == (ay - tym) * (ay - tym)) by (
    nonlinear_arith)
        requires
            t.y - moved.pos.y == ay - tym || t.y - moved.pos.y == -(ay - tym),
    ;
}

/// Invincibility gating: while the player's countdown has not elapsed, no
/// overlap whatever produces an outcome; once it has elapsed, a hazard
/// overlap produces the death outcome on that very tick.
pub proof fn lemma_invincibility_gates(s: Sim)
    ensures
        s.invincibility.remaining_ms > 0 ==> s.spec_outcome() is None,
        s.invincibility.remaining_ms == 0 && s.spec_hazard_hit() ==> s.spec_outcome() == Some(
            CollisionEvent::HitHazard,
        ),
{
}

} // verus!
