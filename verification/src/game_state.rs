use vstd::prelude::*;

verus! {

/// The status of the game for the side to move, always recomputed from the
/// current board, never stored.
#[derive(Debug, Clone, Copy, PartialEq, Eq, Structural)]
pub enum GameState {
    InProgress,
    Check,
    Checkmate,
    Stalemate,
}

} // verus!
