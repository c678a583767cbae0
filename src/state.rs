use vstd::prelude::*;

verus! {

/// The four phases of a game.
#[derive(Clone, Copy, Debug, PartialEq, Eq, Hash, Structural)]
pub enum GameState {
    Start,
    Playing,
    GameOver,
    Paused,
}

impl Default for GameState {
    fn default() -> (r: GameState)
        ensures
            r == GameState::Start,
    {
        GameState::Start
    }
}

/// What can move the game from one phase to another.
#[derive(Clone, Copy, Debug, PartialEq, Eq, Hash, Structural)]
pub enum StateEvent {
    /// The start button of the title menu.
    StartGame,
    PauseGame,
    ResumeGame,
    /// The restart button of the game-over menu.
    RestartGame,
    /// The player's last life was lost.
    LifeDepleted,
}

/// The phase that follows `s` on `e`; an event that means nothing in a phase
/// leaves it as it is.
pub open spec fn next_state_spec(s: GameState, e: StateEvent) -> GameState {
    match (s, e) {
        (GameState::Start, StateEvent::StartGame) => GameState::Playing,
        (GameState::Playing, StateEvent::PauseGame) => GameState::Paused,
        (GameState::Paused, StateEvent::ResumeGame) => GameState::Playing,
        (GameState::Playing, StateEvent::LifeDepleted) => GameState::GameOver,
        (GameState::GameOver, StateEvent::RestartGame) => GameState::Start,
        _ => s,
    }
}

pub fn next_state(s: GameState, e: StateEvent) -> (r: GameState)
    ensures
        r == next_state_spec(s, e),
{
    match (s, e) {
        (GameState::Start, StateEvent::StartGame) => GameState::Playing,
        (GameState::Playing, StateEvent::PauseGame) => GameState::Paused,
        (GameState::Paused, StateEvent::ResumeGame) => GameState::Playing,
        (GameState::Playing, StateEvent::LifeDepleted) => GameState::GameOver,
        (GameState::GameOver, StateEvent::RestartGame) => GameState::Start,
        _ => s,
    }
}

/// Gameplay systems run only while playing.
pub fn gameplay_runs(s: GameState) -> (r: bool)
    ensures
        r == (s == GameState::Playing),
{
    s == GameState::Playing
}

} // verus!
