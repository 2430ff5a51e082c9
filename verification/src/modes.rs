//! Top-level mode state machine: which scene is live, whether player
//! two is a human or a computer, and the commands the menus feed it.
//!
//! A transition names the scene work it entails; moving to the state
//! already active entails none, so repeated requests are harmless.

use vstd::prelude::*;

verus! {

use crate::ai::AiBrain;

/// The one active top-level state.
#[derive(Clone, Copy, PartialEq, Eq, Structural, Debug, Hash)]
pub enum GameState {
    MainMenu,
    SettingsMenu,
    OpponentSelect,
    PlayingNormal,
    PlayingOrbit,
}

/// Where player two's control signal comes from.
#[derive(Clone, Copy, PartialEq, Eq, Structural, Debug, Hash)]
pub enum Opponent {
    Human,
    Ai,
}

/// Scene work a state change entails, to be carried out in order.
#[derive(Clone, Copy, PartialEq, Eq, Structural, Debug)]
pub enum SceneAction {
    /// Remove the named state's scene.
    Teardown(GameState),
    /// Build the named state's scene.
    Setup(GameState),
}

/// The scene work of moving from `current` to `target`: tear the old
/// scene down and set the new one up, or nothing when the target is
/// already active.
pub open spec fn transition_actions(current: GameState, target: GameState) -> Seq<SceneAction> {
    if current == target {
        Seq::empty()
    } else {
        seq![SceneAction::Teardown(current), SceneAction::Setup(target)]
    }
}

/// Consume a requested state change: the target becomes active and
/// the returned actions are the only scene work to perform.
pub fn transition(current: GameState, target: GameState) -> (r: (GameState, Vec<SceneAction>))
    ensures
        r.0 == target,
        r.1@ == transition_actions(current, target),
{
    let mut actions: Vec<SceneAction> = Vec::new();
    if current != target {
        actions.push(SceneAction::Teardown(current));
        actions.push(SceneAction::Setup(target));
        proof {
            assert(actions@ =~= transition_actions(current, target));
        }
    } else {
        proof {
            assert(actions@ =~= transition_actions(current, target));
        }
    }
    (target, actions)
}

/// Requesting the active state again is a no-op: no scene is torn
/// down or set up, however often it is repeated.
pub proof fn lemma_transition_idempotent(s: GameState)
    ensures
        transition_actions(s, s).len() == 0,
{
}

/// What the main menu's three buttons ask for.
#[derive(Clone, Copy, PartialEq, Eq, Structural, Debug)]
pub enum MenuChoice {
    PlayNormal,
    PlayOrbit,
    Settings,
}

/// The state a main-menu choice moves to: the normal game goes
/// through opponent selection first.
pub fn main_menu_select(choice: MenuChoice) -> (r: GameState)
    ensures
        r == match choice {
            MenuChoice::PlayNormal => GameState::OpponentSelect,
            MenuChoice::PlayOrbit => GameState::PlayingOrbit,
            MenuChoice::Settings => GameState::SettingsMenu,
        },
{
    match choice {
        MenuChoice::PlayNormal => GameState::OpponentSelect,
        MenuChoice::PlayOrbit => GameState::PlayingOrbit,
        MenuChoice::Settings => GameState::SettingsMenu,
    }
}

/// What the opponent-selection menu's buttons ask for.
#[derive(Clone, Copy, PartialEq, Eq, Structural, Debug)]
pub enum OpponentChoice {
    Human,
    SimpleAi,
    GoalyAi,
    SmartAi,
}

/// Consume an opponent choice: who drives player two, the fresh brain
/// to install when it is the computer, and the jump into the normal
/// game.
pub fn select_opponent(choice: OpponentChoice) -> (r: (Opponent, Option<AiBrain>, GameState))
    ensures
        r.2 == GameState::PlayingNormal,
        r.0 == (if choice == OpponentChoice::Human {
            Opponent::Human
        } else {
            Opponent::Ai
        }),
        r.1 == match choice {
            OpponentChoice::Human => Option::<AiBrain>::None,
            OpponentChoice::SimpleAi => Option::Some(
                AiBrain { strategy: crate::ai::AiStrategy::Simple, delta: 0 },
            ),
            OpponentChoice::GoalyAi => Option::Some(
                AiBrain { strategy: crate::ai::AiStrategy::Goaly, delta: 0 },
            ),
            OpponentChoice::SmartAi => Option::Some(
                AiBrain { strategy: crate::ai::AiStrategy::Smart, delta: 0 },
            ),
        },
{
    match choice {
        OpponentChoice::Human => (Opponent::Human, Option::None, GameState::PlayingNormal),
        OpponentChoice::SimpleAi => (
            Opponent::Ai,
            Option::Some(AiBrain::new_simple()),
            GameState::PlayingNormal,
        ),
        OpponentChoice::GoalyAi => (
            Opponent::Ai,
            Option::Some(AiBrain::new_goaly()),
            GameState::PlayingNormal,
        ),
        OpponentChoice::SmartAi => (
            Opponent::Ai,
            Option::Some(AiBrain::new_smart()),
            GameState::PlayingNormal,
        ),
    }
}

/// The cancel key returns to the main menu from anywhere.
pub fn back_to_main_menu(escape_pressed: bool) -> (r: Option<GameState>)
    ensures
        r == (if escape_pressed {
            Option::Some(GameState::MainMenu)
        } else {
            Option::<GameState>::None
        }),
{
    if escape_pressed {
        Option::Some(GameState::MainMenu)
    } else {
        Option::None
    }
}

} // verus!
