//! A game of chess: a starting position and the moves played since.

use vstd::prelude::*;
use crate::chess_move::Move;
use crate::fen::{is_well_shaped, lemma_start_position_shaped, well_shaped};
use crate::heuristic::GameResult;
use crate::piece::Color;
use crate::position::{Position, PositionView};
use crate::rules::{
    board_checkers, board_default_text, board_from_str_accepts, board_side_to_move, board_squares,
    checkers_of, draw_claimable, fen_accepted, game_can_declare_draw, game_result, legal_moves_of,
    movegen_new_legal, mover_of, playable, result_of, squares_of, start_position,
};

verus! {

/// The mathematical model of a [`Game`]: its record.
pub struct GameView {
    /// The text of the starting position.
    pub fen: Seq<char>,
    /// The moves played since, oldest first.
    pub played: Seq<Move>,
}

impl GameView {
    /// Whether the record can be replayed.
    pub open spec fn playable(self) -> bool {
        playable(self.fen, self.played)
    }

    /// The legal moves of the side to move, as the rules generate them.
    pub open spec fn legal_moves(self) -> Seq<Move> {
        legal_moves_of(self.fen, self.played)
    }

    /// The board as it stands.
    pub open spec fn position(self) -> PositionView {
        PositionView {
            squares: squares_of(self.fen, self.played),
            side_to_move: mover_of(self.fen, self.played),
        }
    }

    /// How the game has ended, if it has.
    pub open spec fn result(self) -> Option<GameResult> {
        result_of(self.fen, self.played)
    }

    /// Whether a draw can be claimed.
    pub open spec fn drawable(self) -> bool {
        draw_claimable(self.fen, self.played)
    }

    /// Whether the side to move is in check.
    pub open spec fn in_check(self) -> bool {
        checkers_of(self.fen, self.played) > 0
    }

    /// The game after one more move.
    pub open spec fn after(self, m: Move) -> GameView {
        GameView { fen: self.fen, played: self.played.push(m) }
    }

    /// The game after the moves of `line`, one after the other.
    pub open spec fn after_line(self, line: Seq<Move>) -> GameView {
        GameView { fen: self.fen, played: self.played + line }
    }
}

/// A move that is legal in a playable game leads to a playable game.
pub proof fn lemma_after_playable(g: GameView, m: Move)
    requires
        g.playable(),
        g.legal_moves().contains(m),
    ensures
        g.after(m).playable(),
{
    assert(g.played.push(m).drop_last() == g.played);
}

/// A game. Every value can be replayed, and carries the board as it stands.
pub struct Game {
    fen: String,
    played: Vec<Move>,
    position: Position,
}

impl View for Game {
    type V = GameView;

    closed spec fn view(&self) -> GameView {
        GameView { fen: self.fen@, played: self.played@ }
    }
}

/// A copy of `moves`.
fn copy_moves(moves: &Vec<Move>) -> (copy: Vec<Move>)
    ensures
        copy@ == moves@,
{
    let mut copy: Vec<Move> = Vec::new();
    let mut i: usize = 0;
    while i < moves.len()
        invariant
            i <= moves.len(),
            copy@ == moves@.take(i as int),
        decreases moves.len() - i,
    {
        copy.push(moves[i]);
        assert(moves@.take(i + 1) == moves@.take(i as int).push(moves@[i as int]));
        i = i + 1;
    }
    assert(moves@.take(moves.len() as int) == moves@);
    copy
}

impl Game {
    #[verifier::type_invariant]
    spec fn valid(self) -> bool {
        &&& playable(self.fen@, self.played@)
        &&& self.position@ == (GameView { fen: self.fen@, played: self.played@ }).position()
    }

    /// The game of the record `fen`, `played`, with its board.
    fn from_record(fen: String, played: Vec<Move>) -> (game: Game)
        requires
            playable(fen@, played@),
        ensures
            game@ == (GameView { fen: fen@, played: played@ }),
    {
        let squares = board_squares(fen.as_str(), &played);
        let mover = board_side_to_move(fen.as_str(), &played);
        let position = Position::new(squares, mover);
        Game { fen, played, position: position.unwrap() }
    }

    /// The game at the starting position of chess.
    pub fn new() -> (game: Game)
        ensures
            game@ == (GameView { fen: start_position(), played: Seq::<Move>::empty() }),
            game@.playable(),
    {
        let fen = board_default_text();
        proof {
            lemma_start_position_shaped();
        }
        Game::from_record(fen, Vec::new())
    }

    /// The game that starts at the position `fen`, or nothing where `fen` is
    /// not well shaped or the rules do not accept it.
    pub fn from_fen(fen: &str) -> (game: Option<Game>)
        ensures
            game is Some <==> well_shaped(fen@) && fen_accepted(fen@),
            game matches Some(g) ==> g@ == (GameView { fen: fen@, played: Seq::<Move>::empty() })
                && g@.playable(),
    {
        if !is_well_shaped(fen) {
            return None;
        }
        if !board_from_str_accepts(fen) {
            return None;
        }
        Some(Game::from_record(String::from_str(fen), Vec::new()))
    }

    /// The text of the starting position.
    pub fn fen(&self) -> (fen: &str)
        ensures
            fen@ == self@.fen,
            self@.playable(),
    {
        proof {
            use_type_invariant(self);
        }
        self.fen.as_str()
    }

    /// The moves played, oldest first.
    pub fn played(&self) -> (played: &Vec<Move>)
        ensures
            played@ == self@.played,
    {
        &self.played
    }

    /// The board as it stands.
    pub fn current_position(&self) -> (position: &Position)
        ensures
            position@ == self@.position(),
    {
        proof {
            use_type_invariant(self);
        }
        &self.position
    }

    /// The side to move.
    pub fn side_to_move(&self) -> (mover: Color)
        ensures
            mover == self@.position().side_to_move,
    {
        proof {
            use_type_invariant(self);
        }
        self.position.side_to_move()
    }

    /// The legal moves of the side to move, as the rules generate them.
    pub fn legal_moves(&self) -> (moves: Vec<Move>)
        ensures
            moves@ == self@.legal_moves(),
            forall|i: int| 0 <= i < moves@.len() ==> (#[trigger] moves@[i]).on_board(),
            self@.playable(),
    {
        proof {
            use_type_invariant(self);
        }
        movegen_new_legal(self.fen.as_str(), &self.played)
    }

    /// How the game has ended, if it has: it is over exactly when the side to
    /// move has no legal move, and a checkmate is the other side's.
    pub fn result(&self) -> (result: Option<GameResult>)
        ensures
            result == self@.result(),
            result is None <==> self@.legal_moves().len() > 0,
            result == Some(GameResult::WhiteCheckmates) ==> self@.position().side_to_move
                == Color::Black,
            result == Some(GameResult::BlackCheckmates) ==> self@.position().side_to_move
                == Color::White,
    {
        proof {
            use_type_invariant(self);
        }
        game_result(self.fen.as_str(), &self.played)
    }

    /// Whether a draw can be claimed, by repetition or by the fifty-move rule.
    pub fn can_declare_draw(&self) -> (claimable: bool)
        ensures
            claimable == self@.drawable(),
            claimable ==> self@.result() is None,
    {
        proof {
            use_type_invariant(self);
        }
        game_can_declare_draw(self.fen.as_str(), &self.played)
    }

    /// Whether `m` is among the legal moves.
    pub fn is_legal(&self, m: Move) -> (legal: bool)
        ensures
            legal == self@.legal_moves().contains(m),
    {
        let moves = self.legal_moves();
        let mut i: usize = 0;
        while i < moves.len()
            invariant
                i <= moves.len(),
                moves@ == self@.legal_moves(),
                forall|j: int| 0 <= j < i ==> moves@[j] != m,
            decreases moves.len() - i,
        {
            if moves[i].same(&m) {
                assert(moves@[i as int] == m);
                return true;
            }
            i = i + 1;
        }
        false
    }

    /// The game after the legal move `m`.
    pub fn play(&self, m: Move) -> (next: Game)
        requires
            self@.legal_moves().contains(m),
        ensures
            next@ == self@.after(m),
    {
        proof {
            use_type_invariant(self);
            lemma_after_playable(self@, m);
        }
        let mut played = copy_moves(&self.played);
        played.push(m);
        Game::from_record(self.fen.clone(), played)
    }

    /// The game after the move `m`, or nothing where `m` is not legal.
    pub fn try_play(&self, m: Move) -> (next: Option<Game>)
        ensures
            next is Some <==> self@.legal_moves().contains(m),
            next matches Some(g) ==> g@ == self@.after(m),
    {
        if self.is_legal(m) {
            Some(self.play(m))
        } else {
            None
        }
    }

    /// Whether the legal move `m` leaves the other side in check.
    pub fn gives_check(&self, m: Move) -> (check: bool)
        requires
            self@.legal_moves().contains(m),
        ensures
            check == self@.after(m).in_check(),
    {
        proof {
            use_type_invariant(self);
            lemma_after_playable(self@, m);
        }
        let mut played = copy_moves(&self.played);
        played.push(m);
        board_checkers(self.fen.as_str(), &played) > 0
    }

    /// A copy of this game.
    pub fn duplicate(&self) -> (copy: Game)
        ensures
            copy@ == self@,
    {
        proof {
            use_type_invariant(self);
        }
        Game::from_record(self.fen.clone(), copy_moves(&self.played))
    }
}

} // verus!
