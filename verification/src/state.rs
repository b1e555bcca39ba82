//! The game's coarse states and the keys that switch between them.

use vstd::prelude::*;

verus! {

/// Which screen the game is on.
#[derive(Clone, Copy, Debug, PartialEq, Eq, Structural, Hash)]
pub enum GameState {
    MainMenu,
    Options,
    InGame,
    Pause,
}

/// The game starts straight in play.
pub const STARTING_GAME_STATE: GameState = GameState::InGame;

/// Whether the game has been set up, is running under a seed, or is over.
#[derive(Clone, Copy, Debug, PartialEq, Eq, Structural)]
pub enum GameStatusEnum {
    Uninitialized,
    Started(u64),
    Finished,
}

/// The game's status resource.
#[derive(Clone, Copy, Debug)]
pub struct GameStatus(pub GameStatusEnum);

/// The state the stage keys ask for this frame, if any: escape always asks
/// for the main menu, and space toggles between play and pause — and wins
/// when both are pressed, since its request is written last.
pub fn stage_key_bindings(
    esc_pressed: bool,
    space_pressed: bool,
    cur_state: &GameState,
) -> (next: Option<GameState>)
    ensures
        ({
            let space_next: Option<GameState> = if space_pressed {
                match cur_state {
                    GameState::InGame => Some(GameState::Pause),
                    GameState::Pause => Some(GameState::InGame),
                    _ => None,
                }
            } else {
                None
            };
            next == if space_next is Some {
                space_next
            } else if esc_pressed {
                Some(GameState::MainMenu)
            } else {
                None
            }
        }),
{
    let mut next: Option<GameState> = None;
    if esc_pressed {
        next = Some(GameState::MainMenu);
    }
    if space_pressed {
        match cur_state {
            GameState::InGame => {
                next = Some(GameState::Pause);
            },
            GameState::Pause => {
                next = Some(GameState::InGame);
            },
            _ => {},
        }
    }
    next
}

} // verus!
