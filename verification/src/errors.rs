use vstd::prelude::*;

verus! {

/// Every failure the engine can report. Construction failures are fatal to
/// that attempt only; input rejections are expected and droppable; replay
/// exhaustion and a blocked spawn are translated into a game-over by the
/// engine rather than surfaced to the caller.
#[derive(Clone, Copy, Debug, PartialEq, Eq, Structural)]
pub enum GameError {
    /// The requested well is smaller than the 4x4 minimum.
    InvalidDimensions,
    /// An action was queued while the game is not in its playing state.
    NotPlaying,
    /// The same action was issued again before its cooldown elapsed.
    ActionOnCooldown,
    /// An action is already buffered for the next tick.
    SlotOccupied,
    /// A replay piece provider has no recorded pieces left.
    ReplayExhausted,
    /// The freshly spawned piece overlaps the stack: the top-out condition.
    SpawnBlocked,
}

impl GameError {
    /// A short human-readable description of the error.
    pub fn describe(&self) -> (s: &'static str)
        ensures
            s@.len() > 0,
    {
        let s = match self {
            GameError::InvalidDimensions => "smallest possible playfield size is 4 rows x 4 cols",
            GameError::NotPlaying => "can't queue action while game is not ready",
            GameError::ActionOnCooldown => "can't queue action while the action is on cooldown",
            GameError::SlotOccupied => "already have action queued for next game tick",
            GameError::ReplayExhausted => "no pieces left in the replay",
            GameError::SpawnBlocked => "not enough space in well to place next piece",
        };
        proof {
            reveal_strlit("smallest possible playfield size is 4 rows x 4 cols");
            reveal_strlit("can't queue action while game is not ready");
            reveal_strlit("can't queue action while the action is on cooldown");
            reveal_strlit("already have action queued for next game tick");
            reveal_strlit("no pieces left in the replay");
            reveal_strlit("not enough space in well to place next piece");
        }
        s
    }
}

} // verus!
