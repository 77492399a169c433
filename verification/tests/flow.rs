//! The flow state machine: every documented transition, the refusal of a
//! failed level load, the death countdown, and the once-per-tick guard on
//! collision-triggered transitions.

use beeline::flow::{transition, AppEvent, AppState, FlowMachine, DEATH_DELAY_MS};
use beeline::sim::CollisionEvent;
use beeline::world::{GameWorld, LevelParseError};

fn loaded_level() -> GameWorld {
    let doc = vec![b"*\t.".to_vec(), b".\tG".to_vec()];
    GameWorld::load_level(&doc, 0).unwrap()
}

#[test]
fn every_documented_transition_holds() {
    assert_eq!(transition(AppState::Menu, AppEvent::PlayChosen), AppState::LevelSelect);
    assert_eq!(transition(AppState::Menu, AppEvent::UpgradesChosen), AppState::UpgradeSelect);
    assert_eq!(transition(AppState::Menu, AppEvent::HelpChosen), AppState::Help);
    assert_eq!(
        transition(AppState::LevelSelect, AppEvent::LevelChosen { loaded: true }),
        AppState::Game
    );
    assert_eq!(
        transition(AppState::LevelSelect, AppEvent::LevelChosen { loaded: false }),
        AppState::LevelSelect
    );
    assert_eq!(transition(AppState::LevelSelect, AppEvent::Back), AppState::Menu);
    assert_eq!(transition(AppState::UpgradeSelect, AppEvent::Back), AppState::Menu);
    assert_eq!(transition(AppState::Help, AppEvent::Back), AppState::Menu);
    assert_eq!(transition(AppState::Game, AppEvent::HazardCollision), AppState::Death);
    assert_eq!(transition(AppState::Game, AppEvent::GoalCollision), AppState::Victory);
    assert_eq!(transition(AppState::Death, AppEvent::DeathDelayElapsed), AppState::Retry);
    assert_eq!(transition(AppState::Retry, AppEvent::RetryChosen), AppState::Game);
    assert_eq!(transition(AppState::Retry, AppEvent::MenuChosen), AppState::Menu);
    assert_eq!(transition(AppState::Victory, AppEvent::MenuChosen), AppState::Menu);
}

#[test]
fn undefined_pairs_leave_the_state() {
    assert_eq!(transition(AppState::Menu, AppEvent::Back), AppState::Menu);
    assert_eq!(transition(AppState::Game, AppEvent::PlayChosen), AppState::Game);
    assert_eq!(transition(AppState::StartDelay, AppEvent::Back), AppState::StartDelay);
    assert_eq!(
        transition(AppState::Death, AppEvent::HazardCollision),
        AppState::Death
    );
}

#[test]
fn a_failed_load_refuses_play() {
    let mut m = FlowMachine::new();
    m.handle_event(AppEvent::PlayChosen);
    assert_eq!(m.state, AppState::LevelSelect);
    let ragged = vec![b".\t.".to_vec(), b".".to_vec()];
    m.choose_level(GameWorld::load_level(&ragged, 0));
    assert_eq!(m.state, AppState::LevelSelect);
    assert!(matches!(m.load_error, Some(LevelParseError::NotRectangular { row: 1 })));
    assert!(m.world.is_none());
}

#[test]
fn a_parsed_level_enters_play() {
    let mut m = FlowMachine::new();
    m.handle_event(AppEvent::PlayChosen);
    m.choose_level(Ok(loaded_level()));
    assert_eq!(m.state, AppState::Game);
    assert!(m.world.is_some());
    assert!(m.load_error.is_none());
}

#[test]
fn only_the_first_collision_in_a_tick_takes_effect() {
    let mut m = FlowMachine::new();
    m.handle_event(AppEvent::PlayChosen);
    m.choose_level(Ok(loaded_level()));
    m.begin_tick();
    // Two simultaneous overlaps in one tick: the hazard is seen first; the
    // goal overlap in the same tick changes nothing.
    m.on_collision(Some(CollisionEvent::HitHazard));
    assert_eq!(m.state, AppState::Death);
    assert_eq!(m.death_timer_ms, DEATH_DELAY_MS);
    m.on_collision(Some(CollisionEvent::ReachedGoal));
    assert_eq!(m.state, AppState::Death);
}

#[test]
fn death_counts_down_to_retry_and_back_to_play() {
    let mut m = FlowMachine::new();
    m.handle_event(AppEvent::PlayChosen);
    m.choose_level(Ok(loaded_level()));
    m.begin_tick();
    m.on_collision(Some(CollisionEvent::HitHazard));
    m.tick_death(1000);
    m.tick_death(1000);
    assert_eq!(m.state, AppState::Death);
    assert_eq!(m.death_timer_ms, DEATH_DELAY_MS - 2000);
    m.tick_death(2000);
    assert_eq!(m.state, AppState::Retry);
    // Retry re-enters play with the remembered level.
    m.retry();
    assert_eq!(m.state, AppState::Game);
    assert!(m.world.is_some());
}

#[test]
fn victory_returns_to_the_menu_and_drops_the_level() {
    let mut m = FlowMachine::new();
    m.handle_event(AppEvent::PlayChosen);
    m.choose_level(Ok(loaded_level()));
    m.begin_tick();
    m.on_collision(Some(CollisionEvent::ReachedGoal));
    assert_eq!(m.state, AppState::Victory);
    m.handle_event(AppEvent::MenuChosen);
    assert_eq!(m.state, AppState::Menu);
    assert!(m.world.is_none());
}
