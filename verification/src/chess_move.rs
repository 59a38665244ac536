//! Moves as plain values, and their long algebraic text.

use vstd::prelude::*;
use crate::piece::Piece;
use crate::position::{file_of, rank_of};

verus! {

/// A move: the square left, the square reached, and the piece that a pawn
/// turns into on the last rank.
#[derive(Clone, Copy, Debug, PartialEq, Eq, Structural)]
pub struct Move {
    pub from: u8,
    pub to: u8,
    pub promotion: Option<Piece>,
}

impl Move {
    /// Whether both squares are squares of the board.
    pub open spec fn on_board(self) -> bool {
        self.from < 64 && self.to < 64
    }
}

/// The letter of file `file`.
pub open spec fn file_letter(file: int) -> char {
    if file == 0 {
        'a'
    } else if file == 1 {
        'b'
    } else if file == 2 {
        'c'
    } else if file == 3 {
        'd'
    } else if file == 4 {
        'e'
    } else if file == 5 {
        'f'
    } else if file == 6 {
        'g'
    } else {
        'h'
    }
}

/// The digit of rank `rank`.
pub open spec fn rank_digit(rank: int) -> char {
    if rank == 0 {
        '1'
    } else if rank == 1 {
        '2'
    } else if rank == 2 {
        '3'
    } else if rank == 3 {
        '4'
    } else if rank == 4 {
        '5'
    } else if rank == 5 {
        '6'
    } else if rank == 6 {
        '7'
    } else {
        '8'
    }
}

/// The lower-case letter of `piece`.
pub open spec fn piece_letter(piece: Piece) -> char {
    match piece {
        Piece::Pawn => 'p',
        Piece::Knight => 'n',
        Piece::Bishop => 'b',
        Piece::Rook => 'r',
        Piece::Queen => 'q',
        Piece::King => 'k',
    }
}

/// The name of square `sq`: the letter of its file, the digit of its rank.
pub open spec fn square_name(sq: int) -> Seq<char> {
    seq![file_letter(file_of(sq)), rank_digit(rank_of(sq))]
}

/// A move in long algebraic notation: the square left, the square reached
/// and, for a promotion, the letter of the new piece.
pub open spec fn long_algebraic(m: Move) -> Seq<char> {
    square_name(m.from as int) + square_name(m.to as int) + match m.promotion {
        Some(piece) => seq![piece_letter(piece)],
        None => Seq::<char>::empty(),
    }
}

/// Whether `c` is the letter of a file.
pub open spec fn is_file_letter(c: char) -> bool {
    'a' <= c <= 'h'
}

/// Whether `c` is the digit of a rank.
pub open spec fn is_rank_digit(c: char) -> bool {
    '1' <= c <= '8'
}

/// The square that the letter `file` and the digit `rank` name.
pub open spec fn named_square(file: char, rank: char) -> int {
    8 * (rank as int - '1' as int) + (file as int - 'a' as int)
}

/// The piece that the letter `c` asks a pawn to turn into.
pub open spec fn promotion_of(c: char) -> Option<Piece> {
    if c == 'q' {
        Some(Piece::Queen)
    } else if c == 'r' {
        Some(Piece::Rook)
    } else if c == 'n' {
        Some(Piece::Knight)
    } else if c == 'b' {
        Some(Piece::Bishop)
    } else {
        None
    }
}

/// The move that `text` spells: the names of two squares, and behind them
/// either one letter of a single byte, which must ask for a queen, a rook, a
/// knight or a bishop, or anything else, which is not read.
pub open spec fn parsed_move(text: Seq<char>) -> Option<Move> {
    if text.len() < 4 || !is_file_letter(text[0]) || !is_rank_digit(text[1]) || !is_file_letter(
        text[2],
    ) || !is_rank_digit(text[3]) {
        None
    } else {
        let from = named_square(text[0], text[1]) as u8;
        let to = named_square(text[2], text[3]) as u8;
        if text.len() == 5 && (text[4] as u32) < 128 {
            match promotion_of(text[4]) {
                Some(piece) => Some(Move { from, to, promotion: Some(piece) }),
                None => None,
            }
        } else {
            Some(Move { from, to, promotion: None })
        }
    }
}

/// A move in long algebraic notation is read back as the same move, where its
/// squares are squares of the board and a pawn turns into nothing but a
/// queen, a rook, a knight or a bishop.
pub proof fn lemma_long_algebraic_is_read_back(m: Move)
    requires
        m.on_board(),
        m.promotion != Some(Piece::Pawn),
        m.promotion != Some(Piece::King),
    ensures
        parsed_move(long_algebraic(m)) == Some(m),
{
    let text = long_algebraic(m);
    let from = m.from as int;
    let to = m.to as int;
    assert(from == 8 * (from / 8) + from % 8 && to == 8 * (to / 8) + to % 8);
    assert(text[0] == file_letter(file_of(from)) && text[1] == rank_digit(rank_of(from)));
    assert(text[2] == file_letter(file_of(to)) && text[3] == rank_digit(rank_of(to)));
    assert(named_square(text[0], text[1]) == from);
    assert(named_square(text[2], text[3]) == to);
    match m.promotion {
        Some(piece) => {
            assert(text.len() == 5);
            assert(text[4] == piece_letter(piece));
        },
        None => {
            assert(text.len() == 4);
        },
    }
}

/// `ChessMove::from_str` of the `chess` crate: the move that `text` spells in
/// long algebraic notation, or nothing. The crate reads the names of two
/// squares from the first four bytes; where the text is five bytes long, the
/// fifth must be one of the letters q, r, n and b; a longer text is not read
/// further.
#[verifier::external_body]
fn chess_move_from_str(text: &str) -> (parsed: Option<Move>)
    ensures
        parsed == parsed_move(text@),
{
    text.parse::<chess::ChessMove>().ok().map(
        |m|
            Move {
                from: m.get_source().to_int(),
                to: m.get_dest().to_int(),
                promotion: m.get_promotion().map(|p| Piece::from_index(p.to_index())),
            },
    )
}

/// The `Display` of `ChessMove` in the `chess` crate: the names of the two
/// squares and, for a promotion, the lower-case letter of the new piece.
#[verifier::external_body]
fn chess_move_to_string(m: &Move) -> (text: String)
    requires
        m.on_board(),
    ensures
        text@ == long_algebraic(*m),
{
    chess::ChessMove::new(
        chess::ALL_SQUARES[m.from as usize],
        chess::ALL_SQUARES[m.to as usize],
        m.promotion.map(|p| chess::ALL_PIECES[p as usize]),
    ).to_string()
}

impl Move {
    /// The move that `text` spells in long algebraic notation, if it spells
    /// one.
    pub fn from_uci(text: &str) -> (parsed: Option<Move>)
        ensures
            parsed == parsed_move(text@),
            parsed matches Some(m) ==> m.on_board(),
    {
        chess_move_from_str(text)
    }

    /// This move in long algebraic notation; nothing where one of its squares
    /// is no square of the board.
    pub fn to_uci(&self) -> (text: String)
        ensures
            text@ == if self.on_board() {
                long_algebraic(*self)
            } else {
                Seq::<char>::empty()
            },
    {
        if self.from < 64 && self.to < 64 {
            chess_move_to_string(self)
        } else {
            String::new()
        }
    }

    /// Whether two moves are the same.
    pub fn same(&self, other: &Move) -> (equal: bool)
        ensures
            equal == (*self == *other),
    {
        let promotions: bool = match (self.promotion, other.promotion) {
            (Some(a), Some(b)) => a == b,
            (None, None) => true,
            _ => false,
        };
        self.from == other.from && self.to == other.to && promotions
    }
}

} // verus!
