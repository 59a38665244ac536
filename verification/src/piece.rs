//! Colours, piece kinds and the material table.

use vstd::prelude::*;

verus! {

/// One of the two sides.
#[derive(Clone, Copy, Debug, PartialEq, Eq, Structural)]
pub enum Color {
    White,
    Black,
}

impl Color {
    /// The other side.
    pub open spec fn opposite(self) -> Color {
        match self {
            Color::White => Color::Black,
            Color::Black => Color::White,
        }
    }

    /// The rank index (0 to 7) on which this side's pawns start.
    pub open spec fn second_rank(self) -> int {
        match self {
            Color::White => 1,
            Color::Black => 6,
        }
    }

    /// The other side.
    pub fn other(self) -> (c: Color)
        ensures
            c == self.opposite(),
    {
        match self {
            Color::White => Color::Black,
            Color::Black => Color::White,
        }
    }

    /// The rank index (0 to 7) on which this side's pawns start.
    pub fn pawn_rank(self) -> (r: u8)
        ensures
            r == self.second_rank(),
    {
        match self {
            Color::White => 1,
            Color::Black => 6,
        }
    }
}

/// A kind of piece, in ascending order of value.
#[derive(Clone, Copy, Debug, PartialEq, Eq, Structural)]
pub enum Piece {
    Pawn,
    Knight,
    Bishop,
    Rook,
    Queen,
    King,
}

impl Piece {
    /// The kind at position `index` of the ascending order; every index past
    /// the queen's gives the king.
    pub open spec fn at_index(index: int) -> Piece {
        if index == 0 {
            Piece::Pawn
        } else if index == 1 {
            Piece::Knight
        } else if index == 2 {
            Piece::Bishop
        } else if index == 3 {
            Piece::Rook
        } else if index == 4 {
            Piece::Queen
        } else {
            Piece::King
        }
    }

    /// The kind at position `index` of the ascending order.
    pub fn from_index(index: usize) -> (p: Piece)
        ensures
            p == Piece::at_index(index as int),
    {
        if index == 0 {
            Piece::Pawn
        } else if index == 1 {
            Piece::Knight
        } else if index == 2 {
            Piece::Bishop
        } else if index == 3 {
            Piece::Rook
        } else if index == 4 {
            Piece::Queen
        } else {
            Piece::King
        }
    }
}

/// Material value of a pawn, in centipawns.
pub const PAWN_VALUE: i64 = 100;

/// Material value of a knight, in centipawns.
pub const KNIGHT_VALUE: i64 = 350;

/// Material value of a bishop, in centipawns.
pub const BISHOP_VALUE: i64 = 370;

/// Material value of a rook, in centipawns.
pub const ROOK_VALUE: i64 = 550;

/// Material value of a queen, in centipawns.
pub const QUEEN_VALUE: i64 = 950;

/// The king's entry in the material table. It stands for a value above every
/// sum of other pieces: the king is never captured, and a capture made by the
/// king sorts behind every other move.
pub const KING_VALUE: i64 = 2_147_483_647;

/// The material table, in centipawns.
#[derive(Clone, Copy, Debug, PartialEq, Eq)]
pub struct PieceValue {
    pub pawn_value: i64,
    pub knight_value: i64,
    pub bishop_value: i64,
    pub rook_value: i64,
    pub queen_value: i64,
    pub king_value: i64,
}

/// The entry of the standard material table for `piece`, in centipawns.
pub open spec fn material(piece: Piece) -> int {
    match piece {
        Piece::Pawn => PAWN_VALUE as int,
        Piece::Knight => KNIGHT_VALUE as int,
        Piece::Bishop => BISHOP_VALUE as int,
        Piece::Rook => ROOK_VALUE as int,
        Piece::Queen => QUEEN_VALUE as int,
        Piece::King => KING_VALUE as int,
    }
}

impl PieceValue {
    /// The entry of this table for `piece`.
    pub open spec fn entry(self, piece: Piece) -> int {
        match piece {
            Piece::Pawn => self.pawn_value as int,
            Piece::Knight => self.knight_value as int,
            Piece::Bishop => self.bishop_value as int,
            Piece::Rook => self.rook_value as int,
            Piece::Queen => self.queen_value as int,
            Piece::King => self.king_value as int,
        }
    }

    /// The standard table.
    pub fn default() -> (table: PieceValue)
        ensures
            forall|piece: Piece| #[trigger] table.entry(piece) == material(piece),
    {
        PieceValue {
            pawn_value: PAWN_VALUE,
            knight_value: KNIGHT_VALUE,
            bishop_value: BISHOP_VALUE,
            rook_value: ROOK_VALUE,
            queen_value: QUEEN_VALUE,
            king_value: KING_VALUE,
        }
    }

    /// The value of `piece` in this table.
    pub fn get_piece_value(&self, piece: Piece) -> (value: i64)
        ensures
            value == self.entry(piece),
    {
        match piece {
            Piece::Pawn => self.pawn_value,
            Piece::Knight => self.knight_value,
            Piece::Bishop => self.bishop_value,
            Piece::Rook => self.rook_value,
            Piece::Queen => self.queen_value,
            Piece::King => self.king_value,
        }
    }
}

} // verus!
