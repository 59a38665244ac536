//! The position as the protocol last stated it: a starting position and the
//! moves played from it, both as text.

use vstd::prelude::*;

verus! {

/// The starting position of chess.
pub const START_POSITION: &'static str = "rnbqkbnr/pppppppp/8/8/8/8/PPPPPPPP/RNBQKBNR w KQkq - 0 1";

/// A stated position.
#[derive(Debug)]
pub struct UciOptions {
    pub fen: String,
    pub played_moves: Vec<String>,
}

impl UciOptions {
    /// The starting position of chess, with no move played.
    pub fn default() -> (options: UciOptions)
        ensures
            options.fen@ == START_POSITION@,
            options.played_moves@.len() == 0,
    {
        UciOptions { fen: String::from_str(START_POSITION), played_moves: Vec::new() }
    }

    /// Back to the starting position of chess, with no move played.
    pub fn reset_position(&mut self)
        ensures
            final(self).fen@ == START_POSITION@,
            final(self).played_moves@.len() == 0,
    {
        self.fen = String::from_str(START_POSITION);
        self.played_moves = Vec::new();
    }
}

} // verus!
