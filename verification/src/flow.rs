//! The application-level flow state machine: the top-level phases of the
//! game, the total transition function over them, and the machine that owns
//! the per-state resources — the loaded level, the death countdown, and the
//! once-per-tick transition guard.

use vstd::prelude::*;
use crate::sim::CollisionEvent;
use crate::world::{GameWorld, LevelParseError};

verus! {

/// How long the death screen holds before the retry prompt appears,
/// measured from the entry into the death state.
pub const DEATH_DELAY_MS: u64 = 3500;

/// The top-level phase of the application. Exactly one is active at a time.
#[derive(Clone, Copy, PartialEq, Eq, Structural, Debug, Hash)]
pub enum AppState {
    Menu,
    UpgradeSelect,
    LevelSelect,
    Help,
    StartDelay,
    Game,
    Death,
    Retry,
    Victory,
}

/// The inputs the flow machine reacts to. `LevelChosen` carries whether the
/// chosen level's document parsed; a failed parse refuses the transition
/// into play.
#[derive(Clone, Copy, PartialEq, Eq, Structural, Debug)]
pub enum AppEvent {
    PlayChosen,
    UpgradesChosen,
    HelpChosen,
    Back,
    LevelChosen { loaded: bool },
    HazardCollision,
    GoalCollision,
    DeathDelayElapsed,
    RetryChosen,
    MenuChosen,
}

/// The transition function: a total function from state and event to the
/// next state. An event that is not defined for the current state leaves
/// the state unchanged — nothing can reach an undefined state.
pub open spec fn spec_transition(s: AppState, e: AppEvent) -> AppState {
    match (s, e) {
        (AppState::Menu, AppEvent::PlayChosen) => AppState::LevelSelect,
        (AppState::Menu, AppEvent::UpgradesChosen) => AppState::UpgradeSelect,
        (AppState::Menu, AppEvent::HelpChosen) => AppState::Help,
        (AppState::LevelSelect, AppEvent::LevelChosen { loaded }) => if loaded {
            AppState::Game
        } else {
            AppState::LevelSelect
        },
        (AppState::LevelSelect, AppEvent::Back) => AppState::Menu,
        (AppState::UpgradeSelect, AppEvent::Back) => AppState::Menu,
        (AppState::Help, AppEvent::Back) => AppState::Menu,
        (AppState::Game, AppEvent::HazardCollision) => AppState::Death,
        (AppState::Game, AppEvent::GoalCollision) => AppState::Victory,
        (AppState::Death, AppEvent::DeathDelayElapsed) => AppState::Retry,
        (AppState::Retry, AppEvent::RetryChosen) => AppState::Game,
        (AppState::Retry, AppEvent::MenuChosen) => AppState::Menu,
        (AppState::Victory, AppEvent::MenuChosen) => AppState::Menu,
        _ => s,
    }
}

/// Compute the next state.
pub fn transition(s: AppState, e: AppEvent) -> (n: AppState)
    ensures
        n == spec_transition(s, e),
{
    match (s, e) {
        (AppState::Menu, AppEvent::PlayChosen) => AppState::LevelSelect,
        (AppState::Menu, AppEvent::UpgradesChosen) => AppState::UpgradeSelect,
        (AppState::Menu, AppEvent::HelpChosen) => AppState::Help,
        (AppState::LevelSelect, AppEvent::LevelChosen { loaded }) => if loaded {
            AppState::Game
        } else {
            AppState::LevelSelect
        },
        (AppState::LevelSelect, AppEvent::Back) => AppState::Menu,
        (AppState::UpgradeSelect, AppEvent::Back) => AppState::Menu,
        (AppState::Help, AppEvent::Back) => AppState::Menu,
        (AppState::Game, AppEvent::HazardCollision) => AppState::Death,
        (AppState::Game, AppEvent::GoalCollision) => AppState::Victory,
        (AppState::Death, AppEvent::DeathDelayElapsed) => AppState::Retry,
        (AppState::Retry, AppEvent::RetryChosen) => AppState::Game,
        (AppState::Retry, AppEvent::MenuChosen) => AppState::Menu,
        (AppState::Victory, AppEvent::MenuChosen) => AppState::Menu,
        _ => s,
    }
}

/// Totality of the flow graph: the transition function is defined on every
/// (state, event) pair — it is a function, so every pair yields exactly one
/// next state — and every documented transition maps as listed; none is
/// dropped.
pub proof fn lemma_flow_totality()
    ensures
        spec_transition(AppState::Menu, AppEvent::PlayChosen) == AppState::LevelSelect,
        spec_transition(AppState::Menu, AppEvent::UpgradesChosen) == AppState::UpgradeSelect,
        spec_transition(AppState::Menu, AppEvent::HelpChosen) == AppState::Help,
        spec_transition(AppState::LevelSelect, AppEvent::LevelChosen { loaded: true })
            == AppState::Game,
        spec_transition(AppState::LevelSelect, AppEvent::LevelChosen { loaded: false })
            == AppState::LevelSelect,
        spec_transition(AppState::LevelSelect, AppEvent::Back) == AppState::Menu,
        spec_transition(AppState::UpgradeSelect, AppEvent::Back) == AppState::Menu,
        spec_transition(AppState::Help, AppEvent::Back) == AppState::Menu,
        spec_transition(AppState::Game, AppEvent::HazardCollision) == AppState::Death,
        spec_transition(AppState::Game, AppEvent::GoalCollision) == AppState::Victory,
        spec_transition(AppState::Death, AppEvent::DeathDelayElapsed) == AppState::Retry,
        spec_transition(AppState::Retry, AppEvent::RetryChosen) == AppState::Game,
        spec_transition(AppState::Retry, AppEvent::MenuChosen) == AppState::Menu,
        spec_transition(AppState::Victory, AppEvent::MenuChosen) == AppState::Menu,
{
}

/// The flow machine: the active state and the resources bound to it. The
/// machine owns the currently loaded level while in play, remembers it for
/// the retry prompt, counts the death screen down, and lets at most one
/// collision-triggered transition take effect per tick.
pub struct FlowMachine {
    pub state: AppState,
    pub world: Option<GameWorld>,
    pub load_error: Option<LevelParseError>,
    pub death_timer_ms: u64,
    pub transitioned_this_tick: bool,
}

impl FlowMachine {
    /// The states that require a loaded level hold one.
    pub open spec fn wf(self) -> bool {
        (self.state == AppState::Game || self.state == AppState::Death || self.state
            == AppState::Retry) ==> self.world is Some
    }

    /// The machine starts at the menu, with no level loaded.
    pub fn new() -> (m: FlowMachine)
        ensures
            m.state == AppState::Menu,
            m.world is None,
            m.load_error is None,
            m.wf(),
    {
        FlowMachine {
            state: AppState::Menu,
            world: None,
            load_error: None,
            death_timer_ms: 0,
            transitioned_this_tick: false,
        }
    }

    /// Open a new tick: collision-triggered transitions become possible
    /// again.
    pub fn begin_tick(&mut self)
        ensures
            *final(self) == (FlowMachine { transitioned_this_tick: false, ..*old(self) }),
    {
        self.transitioned_this_tick = false;
    }

    /// Feed the machine a plain button or timer event. The state moves as
    /// the transition function says; leaving play for the menu drops the
    /// loaded level, and entering the death state arms its countdown.
    pub fn handle_event(&mut self, e: AppEvent)
        requires
            old(self).wf(),
            e != (AppEvent::LevelChosen { loaded: true }),
            e != (AppEvent::LevelChosen { loaded: false }),
        ensures
            final(self).state == spec_transition(old(self).state, e),
            final(self).state == AppState::Menu ==> final(self).world is None,
            final(self).state == AppState::Death && old(self).state != AppState::Death
                ==> final(self).death_timer_ms == DEATH_DELAY_MS,
            final(self).state != AppState::Menu ==> final(self).world == old(self).world,
            final(self).wf(),
    {
        let next = transition(self.state, e);
        if matches!(next, AppState::Menu) {
            // Leaving for the menu tears the level world down.
            self.world = None;
        }
        if matches!(next, AppState::Death) && !matches!(self.state, AppState::Death) {
            self.death_timer_ms = DEATH_DELAY_MS;
        }
        self.state = next;
    }

    /// React to a level choice: a parsed level enters play and becomes the
    /// machine's current level; a parse error refuses the transition, stays
    /// in level selection and keeps the error for the presentation layer.
    pub fn choose_level(&mut self, outcome: Result<GameWorld, LevelParseError>)
        requires
            old(self).wf(),
            old(self).state == AppState::LevelSelect,
        ensures
            outcome is Ok ==> final(self).state == AppState::Game && final(self).world is Some
                && final(self).load_error is None,
            outcome is Err ==> final(self).state == AppState::LevelSelect && final(self).world
                == old(self).world && final(self).load_error is Some,
            final(self).state == spec_transition(
                old(self).state,
                AppEvent::LevelChosen { loaded: outcome is Ok },
            ),
            final(self).wf(),
    {
        match outcome {
            Ok(w) => {
                self.world = Some(w);
                self.load_error = None;
                self.state = AppState::Game;
            },
            Err(e) => {
                self.load_error = Some(e);
            },
        }
    }

    /// React to a tick's collision outcome. Only the first transition in a
    /// tick takes effect: a second simultaneous overlap in the same tick
    /// changes nothing. Outside play, collision outcomes mean nothing.
    pub fn on_collision(&mut self, outcome: Option<CollisionEvent>)
        requires
            old(self).wf(),
        ensures
            ({
                let effective = old(self).state == AppState::Game
                    && !old(self).transitioned_this_tick && outcome is Some;
                if effective {
                    &&& final(self).state == spec_transition(
                        old(self).state,
                        if outcome == Some(CollisionEvent::HitHazard) {
                            AppEvent::HazardCollision
                        } else {
                            AppEvent::GoalCollision
                        },
                    )
                    &&& final(self).transitioned_this_tick
                    &&& outcome == Some(CollisionEvent::HitHazard) ==> final(self).death_timer_ms
                        == DEATH_DELAY_MS
                } else {
                    *final(self) == *old(self)
                }
            }),
            final(self).wf(),
    {
        if matches!(self.state, AppState::Game) && !self.transitioned_this_tick {
            match outcome {
                Some(CollisionEvent::HitHazard) => {
                    self.state = AppState::Death;
                    self.death_timer_ms = DEATH_DELAY_MS;
                    self.transitioned_this_tick = true;
                },
                Some(CollisionEvent::ReachedGoal) => {
                    self.state = AppState::Victory;
                    self.transitioned_this_tick = true;
                },
                None => {},
            }
        }
    }

    /// Count the death screen down by the elapsed time; when the delay has
    /// fully elapsed the machine moves on to the retry prompt.
    pub fn tick_death(&mut self, dt_ms: u64)
        requires
            old(self).wf(),
            old(self).state == AppState::Death,
        ensures
            old(self).death_timer_ms > dt_ms ==> final(self).state == AppState::Death
                && final(self).death_timer_ms == old(self).death_timer_ms - dt_ms,
            old(self).death_timer_ms <= dt_ms ==> final(self).state == AppState::Retry
                && final(self).death_timer_ms == 0,
            final(self).world == old(self).world,
            final(self).wf(),
    {
        if self.death_timer_ms > dt_ms {
            self.death_timer_ms = self.death_timer_ms - dt_ms;
        } else {
            self.death_timer_ms = 0;
            self.state = AppState::Retry;
        }
    }

    /// Retry the remembered level: the machine re-enters play with the
    /// level it holds. The retry state always holds one.
    pub fn retry(&mut self)
        requires
            old(self).wf(),
            old(self).state == AppState::Retry,
        ensures
            final(self).state == AppState::Game,
            final(self).state == spec_transition(old(self).state, AppEvent::RetryChosen),
            final(self).world == old(self).world,
            final(self).wf(),
    {
        self.state = AppState::Game;
    }
}

} // verus!

