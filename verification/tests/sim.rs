//! The simulation: world spawning, spawner timers and the missile no-op
//! race, projectile motion under the slowdown modifier, invincibility
//! gating, and the end-of-tick collision outcomes.

use beeline::enemy::{Projectile, Strategy};
use beeline::flow::{AppEvent, AppState, FlowMachine};
use beeline::geom::Vec2;
use beeline::player::{InvincibilityTimer, Player};
use beeline::sim::{CollisionEvent, RepeatTimer, Sim};
use beeline::upgrades::{Upgrade, UpgradeTracker};
use beeline::world::GameWorld;

fn world_from(doc: &[&[u8]]) -> GameWorld {
    let lines: Vec<Vec<u8>> = doc.iter().map(|l| l.to_vec()).collect();
    GameWorld::load_level(&lines, 0).unwrap()
}

fn no_input() -> Vec2 {
    Vec2 { x: 0, y: 0 }
}

#[test]
fn spawn_world_places_the_entities() {
    let w = world_from(&[b"*\t#\tM", b"T\tG\tL:0"]);
    let sim = Sim::spawn_world(&w, &UpgradeTracker::default());
    assert_eq!(sim.walls, vec![Vec2 { x: 24, y: 0 }]);
    assert_eq!(sim.traps, vec![Vec2 { x: 0, y: -24 }]);
    assert_eq!(sim.goals, vec![Vec2 { x: 24, y: -24 }]);
    assert_eq!(sim.spawners.len(), 2);
    assert_eq!(sim.spawners[0].pos, Vec2 { x: 48, y: 0 });
    assert_eq!(sim.spawners[0].projectile, Projectile::Missile);
    assert_eq!(sim.spawners[0].timer, RepeatTimer { period_ms: 1000, remaining_ms: 1000 });
    assert_eq!(sim.spawners[1].pos, Vec2 { x: 48, y: -24 });
    assert_eq!(sim.spawners[1].projectile, Projectile::Laser { angle: 0 });
    assert_eq!(sim.spawners[1].timer, RepeatTimer { period_ms: 100, remaining_ms: 100 });
    let p = sim.player.unwrap();
    assert_eq!(p.pos, Vec2 { x: 0, y: 0 });
    assert_eq!((p.half_w, p.half_h), (12, 12));
    assert_eq!(sim.invincibility.remaining_ms, 200);
    assert!(sim.enemies.is_empty());
}

#[test]
fn shrink_halves_the_player_shape() {
    let w = world_from(&[b"*"]);
    let mut upgrades = UpgradeTracker::default();
    upgrades.set_upgrade(Upgrade::Shrink);
    let sim = Sim::spawn_world(&w, &upgrades);
    let p = sim.player.unwrap();
    assert_eq!((p.half_w, p.half_h), (6, 6));
}

#[test]
fn repeat_timer_fires_and_keeps_the_overshoot() {
    let mut t = RepeatTimer::new(1000);
    assert!(!t.tick(999));
    assert_eq!(t.remaining_ms, 1);
    assert!(t.tick(1));
    assert_eq!(t.remaining_ms, 1000);
    let mut t = RepeatTimer::new(100);
    assert!(t.tick(250));
    assert_eq!(t.remaining_ms, 50);
}

#[test]
fn spawner_fires_a_laser_when_its_cooldown_elapses() {
    let w = world_from(&[b"*\tL:0"]);
    let mut sim = Sim::spawn_world(&w, &UpgradeTracker::default());
    sim.set_spawner_heading(0, Vec2 { x: 1000, y: 0 });
    sim.spawn_projectiles(99);
    assert!(sim.enemies.is_empty());
    sim.spawn_projectiles(1);
    assert_eq!(sim.enemies.len(), 1);
    let e = sim.enemies[0];
    assert_eq!(e.pos, Vec2 { x: 24, y: 0 });
    assert_eq!(e.strategy, Strategy::Bullet { velocity: 300, heading: Vec2 { x: 1000, y: 0 } });
    assert_eq!((e.half_w, e.half_h), (6, 12));
}

#[test]
fn missile_spawner_without_a_player_is_a_noop_but_consumes_the_timer() {
    let w = world_from(&[b"M"]);
    let mut sim = Sim::spawn_world(&w, &UpgradeTracker::default());
    sim.player = None;
    sim.spawn_projectiles(1000);
    assert!(sim.enemies.is_empty());
    // The timer was still consumed and reset.
    assert_eq!(sim.spawners[0].timer.remaining_ms, 1000);
    // With a player back, the next expiry fires.
    sim.player = Some(Player { pos: Vec2 { x: 100, y: 0 }, half_w: 12, half_h: 12 });
    sim.spawn_projectiles(1000);
    assert_eq!(sim.enemies.len(), 1);
    assert_eq!(sim.enemies[0].strategy, Strategy::Pursuer { velocity: 400 });
}

#[test]
fn bullets_travel_their_fixed_heading() {
    let w = world_from(&[b"*\tL:0"]);
    let mut sim = Sim::spawn_world(&w, &UpgradeTracker::default());
    sim.set_spawner_heading(0, Vec2 { x: 0, y: 1000 });
    sim.spawn_projectiles(100);
    assert_eq!(sim.enemies.len(), 1);
    // 300 units per second over 100 ms: 30 units straight up.
    sim.advance_enemies(100, &UpgradeTracker::default());
    assert_eq!(sim.enemies[0].pos, Vec2 { x: 24, y: 30 });
    // The slowdown modifier halves the travel.
    let mut slow = UpgradeTracker::default();
    slow.set_upgrade(Upgrade::SlowEnemies);
    sim.advance_enemies(100, &slow);
    assert_eq!(sim.enemies[0].pos, Vec2 { x: 24, y: 45 });
}

#[test]
fn missiles_re_aim_at_the_player_every_tick() {
    let w = world_from(&[b"*\tM"]);
    let mut sim = Sim::spawn_world(&w, &UpgradeTracker::default());
    sim.player = Some(Player { pos: Vec2 { x: 48, y: -100 }, half_w: 12, half_h: 12 });
    sim.spawn_projectiles(1000);
    assert_eq!(sim.enemies.len(), 1);
    assert_eq!(sim.enemies[0].pos, Vec2 { x: 24, y: 0 });
    sim.advance_enemies(100, &UpgradeTracker::default());
    let moved = sim.enemies[0].pos;
    // The missile closed in on the player.
    let before = (24 - 48i64).pow(2) + (0 - -100i64).pow(2);
    let after = (moved.x - 48).pow(2) + (moved.y - -100i64).pow(2);
    assert!(after < before);
}

#[test]
fn invincibility_gates_the_death_transition() {
    // The player starts on a trap; the window lasts 200 ms.
    let w = world_from(&[b"*"]);
    let mut sim = Sim::spawn_world(&w, &UpgradeTracker::default());
    sim.traps.push(Vec2 { x: 0, y: 0 });
    assert_eq!(sim.invincibility.remaining_ms, 200);
    // While the countdown runs, the identical overlap produces nothing.
    assert_eq!(sim.detect_collision(), None);
    let none = sim.tick(no_input(), 100, &UpgradeTracker::default(), false, false, None);
    assert_eq!(none, None);
    // This tick finishes the window; the same overlap now kills.
    let hit = sim.tick(no_input(), 100, &UpgradeTracker::default(), false, false, None);
    assert_eq!(hit, Some(CollisionEvent::HitHazard));
}

#[test]
fn walls_and_traps_are_hazards_and_the_goal_wins() {
    let w = world_from(&[b"*\t.\tG"]);
    let mut sim = Sim::spawn_world(&w, &UpgradeTracker::default());
    sim.invincibility = InvincibilityTimer { remaining_ms: 0 };
    // Nothing overlaps: no outcome.
    assert_eq!(sim.detect_collision(), None);
    // A wall under the player kills once invincibility is over.
    sim.walls.push(Vec2 { x: 10, y: 0 });
    assert_eq!(sim.detect_collision(), Some(CollisionEvent::HitHazard));
    sim.walls.clear();
    // Standing on the goal wins.
    sim.player = Some(Player { pos: Vec2 { x: 40, y: 0 }, half_w: 12, half_h: 12 });
    assert_eq!(sim.detect_collision(), Some(CollisionEvent::ReachedGoal));
    // A hazard overlap takes precedence over the goal.
    sim.traps.push(Vec2 { x: 40, y: 0 });
    assert_eq!(sim.detect_collision(), Some(CollisionEvent::HitHazard));
}

#[test]
fn double_speed_doubles_the_player_step() {
    let w = world_from(&[b"*"]);
    let mut sim = Sim::spawn_world(&w, &UpgradeTracker::default());
    let vel = Vec2 { x: 500, y: 0 };
    sim.tick(vel, 100, &UpgradeTracker::default(), false, false, None);
    assert_eq!(sim.player.unwrap().pos, Vec2 { x: 50, y: 0 });
    let mut fast = UpgradeTracker::default();
    fast.set_upgrade(Upgrade::DoubleSpeed);
    let w2 = world_from(&[b"*"]);
    let mut sim2 = Sim::spawn_world(&w2, &fast);
    sim2.tick(vel, 100, &fast, false, false, None);
    assert_eq!(sim2.player.unwrap().pos, Vec2 { x: 100, y: 0 });
}

#[test]
fn teleport_jumps_to_the_cursor() {
    let w = world_from(&[b"*"]);
    let mut tele = UpgradeTracker::default();
    tele.set_upgrade(Upgrade::Teleport);
    let mut sim = Sim::spawn_world(&w, &tele);
    let cursor = Some(Vec2 { x: 300, y: -200 });
    // Not activated: no jump.
    sim.tick(no_input(), 16, &tele, false, false, cursor);
    assert_eq!(sim.player.unwrap().pos, Vec2 { x: 0, y: 0 });
    // Activated from the primary slot.
    sim.tick(no_input(), 16, &tele, true, false, cursor);
    assert_eq!(sim.player.unwrap().pos, Vec2 { x: 300, y: -200 });
}

#[test]
fn a_full_run_to_victory() {
    let w = world_from(&[b"*\t.\t.\t.\t.\t.\t.\tG"]);
    let upgrades = UpgradeTracker::default();
    let mut flow = FlowMachine::new();
    flow.handle_event(AppEvent::PlayChosen);
    let doc = vec![b"*\t.\t.\t.\t.\t.\t.\tG".to_vec()];
    flow.choose_level(GameWorld::load_level(&doc, 0));
    assert_eq!(flow.state, AppState::Game);
    let mut sim = Sim::spawn_world(&w, &upgrades);
    // Walk right at full speed until the goal is reached.
    let mut ticks = 0;
    loop {
        flow.begin_tick();
        let outcome = sim.tick(Vec2 { x: 500, y: 0 }, 16, &upgrades, false, false, None);
        flow.on_collision(outcome);
        if flow.state != AppState::Game {
            break;
        }
        ticks += 1;
        assert!(ticks < 1000, "never reached the goal");
    }
    assert_eq!(flow.state, AppState::Victory);
}
