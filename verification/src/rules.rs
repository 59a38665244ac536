//! The rules of chess, as the `chess` crate plays them.
//!
//! A game is known by the record of its starting position and the moves
//! played since. Each function here hands that record to the crate and brings
//! plain values back; what the crate answers is named by a specification
//! function of the record, and nothing here is proved of those answers beyond
//! what each contract claims.

use vstd::prelude::*;
use crate::chess_move::Move;
use crate::fen::well_shaped;
use crate::heuristic::GameResult;
use crate::piece::{Color, Piece};
use crate::position::{one_king, Occupant};
use crate::uci_options::START_POSITION;

verus! {

/// Whether the crate takes `fen` for a position.
pub uninterp spec fn fen_accepted(fen: Seq<char>) -> bool;

/// The legal moves after `played`, in the order in which the crate generates
/// them.
pub uninterp spec fn legal_moves_of(fen: Seq<char>, played: Seq<Move>) -> Seq<Move>;

/// What stands on each square after `played`.
pub uninterp spec fn squares_of(fen: Seq<char>, played: Seq<Move>) -> Seq<Occupant>;

/// The side to move after `played`.
pub uninterp spec fn mover_of(fen: Seq<char>, played: Seq<Move>) -> Color;

/// The number of pieces that give check to the side to move after `played`.
pub uninterp spec fn checkers_of(fen: Seq<char>, played: Seq<Move>) -> nat;

/// How the game has ended after `played`, if it has.
pub uninterp spec fn result_of(fen: Seq<char>, played: Seq<Move>) -> Option<GameResult>;

/// Whether a draw can be claimed after `played`, by repetition or by the
/// fifty-move rule.
pub uninterp spec fn draw_claimable(fen: Seq<char>, played: Seq<Move>) -> bool;

/// The text of the starting position of chess.
pub open spec fn start_position() -> Seq<char> {
    START_POSITION@
}

/// A record that can be replayed: the position is well shaped and accepted,
/// and each move was legal when it was played. A well-shaped position has at
/// most sixteen pieces a side, and no legal move adds one: that is as many as
/// the crate's move generator has room for.
pub open spec fn playable(fen: Seq<char>, played: Seq<Move>) -> bool
    decreases played.len(),
{
    if played.len() == 0 {
        well_shaped(fen) && fen_accepted(fen)
    } else {
        playable(fen, played.drop_last()) && legal_moves_of(fen, played.drop_last()).contains(
            played.last(),
        )
    }
}

/// The kind of result at position `index` of the crate's `GameResult`.
pub open spec fn result_at_index(index: int) -> GameResult {
    if index == 0 {
        GameResult::WhiteCheckmates
    } else if index == 1 {
        GameResult::WhiteResigns
    } else if index == 2 {
        GameResult::BlackCheckmates
    } else if index == 3 {
        GameResult::BlackResigns
    } else if index == 4 {
        GameResult::Stalemate
    } else if index == 5 {
        GameResult::DrawAccepted
    } else {
        GameResult::DrawDeclared
    }
}

/// The kind of result at position `index` of the crate's `GameResult`.
pub fn result_from_index(index: usize) -> (result: GameResult)
    ensures
        result == result_at_index(index as int),
{
    if index == 0 {
        GameResult::WhiteCheckmates
    } else if index == 1 {
        GameResult::WhiteResigns
    } else if index == 2 {
        GameResult::BlackCheckmates
    } else if index == 3 {
        GameResult::BlackResigns
    } else if index == 4 {
        GameResult::Stalemate
    } else if index == 5 {
        GameResult::DrawAccepted
    } else {
        GameResult::DrawDeclared
    }
}

/// The colour at position `index` of the crate's `Color`.
pub fn color_from_index(index: usize) -> (color: Color)
    ensures
        color == if index == 0 {
            Color::White
        } else {
            Color::Black
        },
{
    if index == 0 {
        Color::White
    } else {
        Color::Black
    }
}

/// `Board::from_str` of the `chess` crate, asked whether it takes `fen` for a
/// position. The shape is demanded because the crate looks for both kings
/// before it checks that they are there, and counts no pieces.
#[verifier::external_body]
pub(crate) fn board_from_str_accepts(fen: &str) -> (accepted: bool)
    requires
        well_shaped(fen@),
    ensures
        accepted == fen_accepted(fen@),
{
    fen.parse::<chess::Board>().is_ok()
}

/// `Board::default` of the `chess` crate, printed: the starting position,
/// which the crate builds from this very text and accepts.
#[verifier::external_body]
pub(crate) fn board_default_text() -> (fen: String)
    ensures
        fen@ == start_position(),
        fen_accepted(fen@),
{
    chess::Board::default().to_string()
}

/// `MoveGen::new_legal` of the `chess` crate on the position after `played`.
/// The contract names the list, and claims that both squares of each move are
/// squares of the board. The crate collects the moves piece by piece in a list
/// with room for eighteen entries and does not test the room: a record that
/// can be replayed never has more than sixteen pieces a side, and two
/// captures in passing more.
#[verifier::external_body]
pub(crate) fn movegen_new_legal(fen: &str, played: &Vec<Move>) -> (moves: Vec<Move>)
    requires
        playable(fen@, played@),
    ensures
        moves@ == legal_moves_of(fen@, played@),
        forall|i: int| 0 <= i < moves@.len() ==> (#[trigger] moves@[i]).on_board(),
{
    let mut board = fen.parse::<chess::Board>().unwrap();
    for m in played.iter() {
        board = board.make_move_new(chess::ChessMove::new(
            chess::ALL_SQUARES[m.from as usize],
            chess::ALL_SQUARES[m.to as usize],
            m.promotion.map(|p| chess::ALL_PIECES[p as usize]),
        ));
    }
    chess::MoveGen::new_legal(&board).map(|m| Move {
        from: m.get_source().to_int(),
        to: m.get_dest().to_int(),
        promotion: m.get_promotion().map(|p| Piece::from_index(p.to_index())),
    }).collect()
}

/// `Board::piece_on` and `Board::color_on` of the `chess` crate, asked of each
/// square of the position after `played`, in the order of the squares' indices.
/// The contract names the list, and claims what the crate checks of
/// every board it accepts and keeps over legal moves: 64 squares, one king of
/// each colour.
#[verifier::external_body]
pub(crate) fn board_squares(fen: &str, played: &Vec<Move>) -> (squares: Vec<Occupant>)
    requires
        playable(fen@, played@),
    ensures
        squares@ == squares_of(fen@, played@),
        squares@.len() == 64,
        one_king(squares@, Color::White),
        one_king(squares@, Color::Black),
{
    let mut board = fen.parse::<chess::Board>().unwrap();
    for m in played.iter() {
        board = board.make_move_new(chess::ChessMove::new(
            chess::ALL_SQUARES[m.from as usize],
            chess::ALL_SQUARES[m.to as usize],
            m.promotion.map(|p| chess::ALL_PIECES[p as usize]),
        ));
    }
    chess::ALL_SQUARES.iter().map(|sq| board.piece_on(*sq).zip(board.color_on(*sq)).map(
        |(p, c)| (Piece::from_index(p.to_index()), color_from_index(c.to_index())),
    )).collect()
}

/// `Board::side_to_move` of the `chess` crate on the position after `played`.
#[verifier::external_body]
pub(crate) fn board_side_to_move(fen: &str, played: &Vec<Move>) -> (mover: Color)
    requires
        playable(fen@, played@),
    ensures
        mover == mover_of(fen@, played@),
{
    let mut board = fen.parse::<chess::Board>().unwrap();
    for m in played.iter() {
        board = board.make_move_new(chess::ChessMove::new(
            chess::ALL_SQUARES[m.from as usize],
            chess::ALL_SQUARES[m.to as usize],
            m.promotion.map(|p| chess::ALL_PIECES[p as usize]),
        ));
    }
    color_from_index(board.side_to_move().to_index())
}

/// `Board::checkers` of the `chess` crate on the position after `played`,
/// counted.
#[verifier::external_body]
pub(crate) fn board_checkers(fen: &str, played: &Vec<Move>) -> (count: u32)
    requires
        playable(fen@, played@),
    ensures
        count == checkers_of(fen@, played@),
{
    let mut board = fen.parse::<chess::Board>().unwrap();
    for m in played.iter() {
        board = board.make_move_new(chess::ChessMove::new(
            chess::ALL_SQUARES[m.from as usize],
            chess::ALL_SQUARES[m.to as usize],
            m.promotion.map(|p| chess::ALL_PIECES[p as usize]),
        ));
    }
    board.checkers().popcnt()
}

/// `Game::result` of the `chess` crate after `played`. The contract names the
/// result and claims what the crate's source shows of a game in which only
/// moves were made: it is over exactly when the side to move has no legal
/// move, and the side that is checkmated is the side to move. The crate
/// generates the moves to find out, under the same limit of pieces.
#[verifier::external_body]
pub(crate) fn game_result(fen: &str, played: &Vec<Move>) -> (result: Option<GameResult>)
    requires
        playable(fen@, played@),
    ensures
        result == result_of(fen@, played@),
        result is None <==> legal_moves_of(fen@, played@).len() > 0,
        result == Some(GameResult::WhiteCheckmates) ==> mover_of(fen@, played@) == Color::Black,
        result == Some(GameResult::BlackCheckmates) ==> mover_of(fen@, played@) == Color::White,
{
    let mut game = chess::Game::new_with_board(fen.parse::<chess::Board>().unwrap());
    for m in played.iter() {
        game.make_move(chess::ChessMove::new(
            chess::ALL_SQUARES[m.from as usize],
            chess::ALL_SQUARES[m.to as usize],
            m.promotion.map(|p| chess::ALL_PIECES[p as usize]),
        ));
    }
    game.result().map(|r| result_from_index(r as usize))
}

/// `Game::can_declare_draw` of the `chess` crate after `played`. The contract
/// names the answer and claims what the crate's source shows first: no draw
/// can be claimed in a game that is over. The crate generates the moves of
/// every position of the record, under the same limit of pieces.
#[verifier::external_body]
pub(crate) fn game_can_declare_draw(fen: &str, played: &Vec<Move>) -> (claimable: bool)
    requires
        playable(fen@, played@),
    ensures
        claimable == draw_claimable(fen@, played@),
        claimable ==> result_of(fen@, played@) is None,
{
    let mut game = chess::Game::new_with_board(fen.parse::<chess::Board>().unwrap());
    for m in played.iter() {
        game.make_move(chess::ChessMove::new(
            chess::ALL_SQUARES[m.from as usize],
            chess::ALL_SQUARES[m.to as usize],
            m.promotion.map(|p| chess::ALL_PIECES[p as usize]),
        ));
    }
    game.can_declare_draw()
}

} // verus!
