use vstd::prelude::*;

verus! {

/// The player inputs the simulation understands. External layers queue at
/// most one of these per tick through `Game::queue_action`.
#[derive(Eq, Hash, Copy, Clone, Debug, PartialEq, Structural)]
pub enum Action {
    Drop,
    MoveDown,
    MoveLeft,
    MoveRight,
    Rotate,
}

} // verus!
