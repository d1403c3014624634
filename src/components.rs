use vstd::prelude::*;

use crate::ledger::PlayerMove;

verus! {

/// A cell of the drawn board, by column and row.
pub struct CoinSlot {
    pub c: usize,
    pub r: usize,
}

impl CoinSlot {
    pub fn new(c: usize, r: usize) -> (s: Self)
        ensures
            s.c == c,
            s.r == r,
    {
        Self { c, r }
    }
}

/// A coin on its way down to the cell of its move.
pub struct CoinMove {
    pub player_move: PlayerMove,
    pub reached_target: bool,
}

impl CoinMove {
    /// A coin for `player_move` that has not landed yet.
    pub fn new(player_move: PlayerMove) -> (s: Self)
        ensures
            s.player_move == player_move,
            !s.reached_target,
    {
        Self { player_move, reached_target: false }
    }
}

/// Marks the row of hover cells above the board.
pub struct TopRow;

/// Marks the status text.
pub struct TextChanges;

/// Marks the coin that shows whose turn it is.
pub struct DisplayTurn;

/// Marks the button that starts a new game.
pub struct ReplayButton;

} // verus!
