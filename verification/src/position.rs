//! A snapshot of the board: what stands on each of the 64 squares, and whose
//! turn it is. Square `8 * rank + file` has file and rank indices from 0 to 7,
//! file 0 being the a-file and rank 0 the first rank.

use vstd::prelude::*;
use crate::piece::{Color, Piece};

verus! {

/// What a square holds.
pub type Occupant = Option<(Piece, Color)>;

/// The mathematical model of a [`Position`].
pub struct PositionView {
    pub squares: Seq<Occupant>,
    pub side_to_move: Color,
}

/// The file index of square `sq`.
pub open spec fn file_of(sq: int) -> int {
    sq % 8
}

/// The rank index of square `sq`.
pub open spec fn rank_of(sq: int) -> int {
    sq / 8
}

/// The square on the same file whose rank is counted from the other edge.
pub open spec fn flipped(sq: int) -> int {
    8 * (7 - rank_of(sq)) + file_of(sq)
}

/// Whether square `sq` of `squares` holds the king of `color`.
pub open spec fn holds_king(squares: Seq<Occupant>, color: Color, sq: int) -> bool {
    0 <= sq < 64 && squares[sq] == Some((Piece::King, color))
}

/// Whether `squares` holds exactly one king of `color`.
pub open spec fn one_king(squares: Seq<Occupant>, color: Color) -> bool {
    exists|k: int|
        #![trigger holds_king(squares, color, k)]
        holds_king(squares, color, k) && forall|j: int|
            #![trigger holds_king(squares, color, j)]
            holds_king(squares, color, j) ==> j == k
}

/// A board of 64 squares with exactly one king of each colour.
pub open spec fn well_formed(v: PositionView) -> bool {
    &&& v.squares.len() == 64
    &&& one_king(v.squares, Color::White)
    &&& one_king(v.squares, Color::Black)
}

impl PositionView {
    /// The square of the king of `color`.
    pub open spec fn king_square(self, color: Color) -> int {
        choose|k: int| holds_king(self.squares, color, k)
    }

    /// Whether no queen of either colour is on the board.
    pub open spec fn no_queens(self) -> bool {
        forall|sq: int|
            0 <= sq < 64 ==> !(#[trigger] self.squares[sq] matches Some((piece, _))
                && piece == Piece::Queen)
    }

    /// The number of occupied squares among the first `n`.
    pub open spec fn occupied(self, n: nat) -> nat
        decreases n,
    {
        if n == 0 {
            0
        } else {
            self.occupied((n - 1) as nat) + if self.squares[n - 1] is Some {
                1nat
            } else {
                0nat
            }
        }
    }

    /// The same board seen from the other side: every piece changes colour and
    /// moves to the square flipped across the middle of the board. The side to
    /// move stays.
    pub open spec fn mirror(self) -> PositionView {
        PositionView {
            squares: Seq::new(64, |sq: int| recolored(self.squares[flipped(sq)])),
            side_to_move: self.side_to_move,
        }
    }
}

/// The same piece in the other colour.
pub open spec fn recolored(occupant: Occupant) -> Occupant {
    match occupant {
        Some((piece, color)) => Some((piece, color.opposite())),
        None => None,
    }
}

/// A board snapshot. Every value is well formed: 64 squares, one king of each
/// colour.
pub struct Position {
    squares: Vec<Occupant>,
    side_to_move: Color,
}

impl View for Position {
    type V = PositionView;

    closed spec fn view(&self) -> PositionView {
        PositionView { squares: self.squares@, side_to_move: self.side_to_move }
    }
}

/// The square of the king of `color`, where `squares` holds exactly one.
fn find_king(squares: &Vec<Occupant>, color: Color) -> (found: Option<u8>)
    requires
        squares@.len() == 64,
    ensures
        found matches Some(k) ==> holds_king(squares@, color, k as int) && forall|j: int|
            #![trigger holds_king(squares@, color, j)]
            holds_king(squares@, color, j) ==> j == k,
        found is None ==> !one_king(squares@, color),
{
    let mut found: Option<u8> = None;
    let mut sq: u8 = 0;
    while sq < 64
        invariant
            sq <= 64,
            squares@.len() == 64,
            found matches Some(k) ==> k < sq && holds_king(squares@, color, k as int),
            forall|j: int|
                #![trigger holds_king(squares@, color, j)]
                0 <= j < sq && holds_king(squares@, color, j) ==> found == Some(j as u8),
        decreases 64 - sq,
    {
        let here: bool = match squares[sq as usize] {
            Some((piece, owner)) => piece == Piece::King && owner == color,
            None => false,
        };
        if here {
            match found {
                Some(k) => {
                    assert(holds_king(squares@, color, k as int));
                    assert(holds_king(squares@, color, sq as int));
                    return None;
                },
                None => {
                    found = Some(sq);
                },
            }
        }
        sq = sq + 1;
    }
    found
}

impl Position {
    #[verifier::type_invariant]
    spec fn valid(self) -> bool {
        well_formed(self@)
    }

    /// The snapshot with the given squares and side to move, or `None` where
    /// `squares` is not a board of 64 squares with one king of each colour.
    pub fn new(squares: Vec<Occupant>, side_to_move: Color) -> (position: Option<Position>)
        ensures
            position is Some <==> well_formed(
                PositionView { squares: squares@, side_to_move },
            ),
            position matches Some(p) ==> p@ == (PositionView { squares: squares@, side_to_move }),
    {
        if squares.len() != 64 {
            return None;
        }
        let white = find_king(&squares, Color::White);
        let black = find_king(&squares, Color::Black);
        if white.is_none() || black.is_none() {
            return None;
        }
        assert(holds_king(squares@, Color::White, white.unwrap() as int));
        assert(holds_king(squares@, Color::Black, black.unwrap() as int));
        Some(Position { squares, side_to_move })
    }

    /// The side to move.
    pub fn side_to_move(&self) -> (color: Color)
        ensures
            color == self@.side_to_move,
            well_formed(self@),
    {
        proof {
            use_type_invariant(self);
        }
        self.side_to_move
    }

    /// What stands on square `sq`; nothing where `sq` is no square.
    pub fn occupant(&self, sq: u8) -> (occupant: Occupant)
        ensures
            occupant == if sq < 64 {
                self@.squares[sq as int]
            } else {
                None
            },
            well_formed(self@),
    {
        proof {
            use_type_invariant(self);
        }
        if sq < 64 {
            self.squares[sq as usize]
        } else {
            None
        }
    }

    /// The kind of piece on square `sq`, if any.
    pub fn piece_on(&self, sq: u8) -> (piece: Option<Piece>)
        ensures
            piece == match (if sq < 64 {
                self@.squares[sq as int]
            } else {
                None
            }) {
                Some((kind, _)) => Some(kind),
                None => None,
            },
    {
        match self.occupant(sq) {
            Some((kind, _)) => Some(kind),
            None => None,
        }
    }

    /// The colour of the piece on square `sq`, if any.
    pub fn color_on(&self, sq: u8) -> (color: Option<Color>)
        ensures
            color == match (if sq < 64 {
                self@.squares[sq as int]
            } else {
                None
            }) {
                Some((_, owner)) => Some(owner),
                None => None,
            },
    {
        match self.occupant(sq) {
            Some((_, owner)) => Some(owner),
            None => None,
        }
    }

    /// The square of the king of `color`.
    pub fn king_square(&self, color: Color) -> (sq: u8)
        ensures
            sq < 64,
            sq == self@.king_square(color),
            holds_king(self@.squares, color, sq as int),
    {
        proof {
            use_type_invariant(self);
            lemma_king_square(self@, color);
        }
        let found = find_king(&self.squares, color);
        match found {
            Some(k) => k,
            None => 0,
        }
    }

    /// Whether no queen of either colour is on the board.
    pub fn no_queens(&self) -> (none: bool)
        ensures
            none == self@.no_queens(),
    {
        proof {
            use_type_invariant(self);
        }
        let mut sq: usize = 0;
        while sq < 64
            invariant
                sq <= 64,
                self.squares@.len() == 64,
                self@.squares == self.squares@,
                forall|j: int|
                    0 <= j < sq ==> !(#[trigger] self.squares@[j] matches Some((piece, _))
                        && piece == Piece::Queen),
            decreases 64 - sq,
        {
            match self.squares[sq] {
                Some((piece, _)) => {
                    if piece == Piece::Queen {
                        return false;
                    }
                },
                None => {},
            }
            sq = sq + 1;
        }
        true
    }

    /// The number of pieces on the board.
    pub fn piece_count(&self) -> (count: u8)
        ensures
            count == self@.occupied(64),
    {
        proof {
            use_type_invariant(self);
        }
        let mut count: u8 = 0;
        let mut sq: usize = 0;
        while sq < 64
            invariant
                sq <= 64,
                self.squares@.len() == 64,
                self@.squares == self.squares@,
                count == self@.occupied(sq as nat),
                count <= sq,
            decreases 64 - sq,
        {
            if self.squares[sq].is_some() {
                count = count + 1;
            }
            sq = sq + 1;
        }
        count
    }
}

/// In a well-formed position the king's square is the one square that holds
/// the king.
pub proof fn lemma_king_square(v: PositionView, color: Color)
    requires
        well_formed(v),
    ensures
        holds_king(v.squares, color, v.king_square(color)),
        forall|j: int|
            #![trigger holds_king(v.squares, color, j)]
            holds_king(v.squares, color, j) ==> j == v.king_square(color),
{
    match color {
        Color::White => {
            assert(one_king(v.squares, Color::White));
        },
        Color::Black => {
            assert(one_king(v.squares, Color::Black));
        },
    }
    let k = choose|k: int|
        #![trigger holds_king(v.squares, color, k)]
        holds_king(v.squares, color, k) && forall|j: int|
            #![trigger holds_king(v.squares, color, j)]
            holds_king(v.squares, color, j) ==> j == k;
    assert(holds_king(v.squares, color, k));
}

} // verus!
