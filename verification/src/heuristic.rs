//! Static evaluation: material plus placement bonuses, from the point of view
//! of the side to move.

use vstd::prelude::*;
use crate::game::Game;
use crate::piece::{Color, Piece, BISHOP_VALUE, KNIGHT_VALUE, PAWN_VALUE, QUEEN_VALUE, ROOK_VALUE};
use crate::position::{
    file_of, flipped, holds_king, lemma_king_square, rank_of, recolored, well_formed, Position,
    PositionView,
};
use crate::score::{discounted, Score, DRAW_VALUE, LOSS_VALUE, TICKS_PER_CENTIPAWN, WIN_VALUE};

verus! {

/// Centipawns for each rank that a pawn has left behind.
pub const PAWN_RANK_WEIGHT: i64 = 7;

/// Centipawns that a pawn loses for each file between it and the two middle files.
pub const PAWN_FILE_WEIGHT: i64 = 5;

pub const PAWN_CENTER_WEIGHT: i64 = 5;

pub const PAWN_DISTANCE_WEIGHT: i64 = 5;

pub const KNIGHT_CENTER_WEIGHT: i64 = 7;

pub const KNIGHT_DISTANCE_WEIGHT: i64 = 8;

pub const BISHOP_CENTER_WEIGHT: i64 = 5;

pub const BISHOP_DISTANCE_WEIGHT: i64 = 8;

pub const ROOK_CENTER_WEIGHT: i64 = 8;

pub const ROOK_DISTANCE_WEIGHT: i64 = 5;

pub const QUEEN_CENTER_WEIGHT: i64 = 2;

pub const QUEEN_DISTANCE_WEIGHT: i64 = 8;

/// The king's centre weight once no queen is left on the board.
pub const KING_CENTER_WEIGHT: i64 = 8;

/// The king's centre weight while a queen is on the board.
pub const KING_SHELTER_WEIGHT: i64 = -7;

pub const KING_DISTANCE_WEIGHT: i64 = 5;

/// The bound of one piece's worth, in centipawns.
pub const PIECE_BOUND: i64 = 1_100;

/// The bound of every static value, in ticks: sixty-four times the bound of
/// one piece's worth.
pub const STATIC_BOUND: i64 = 507_386_880_000;

/// How a finished game ended.
#[derive(Clone, Copy, Debug, PartialEq, Eq, Structural)]
pub enum GameResult {
    WhiteCheckmates,
    WhiteResigns,
    BlackCheckmates,
    BlackResigns,
    Stalemate,
    DrawAccepted,
    DrawDeclared,
}

/// The bonus, in centipawns, for standing near the centre: three times
/// `weight` on the four middle squares, twice on the two middle files from the
/// third to the sixth rank, once from the second to the seventh, else nothing.
pub open spec fn center_bonus(file: int, rank: int, weight: int) -> int {
    if 3 <= file <= 4 && 3 <= rank <= 4 {
        3 * weight
    } else if 3 <= file <= 4 && 2 <= rank <= 5 {
        2 * weight
    } else if 3 <= file <= 4 && 1 <= rank <= 6 {
        weight
    } else {
        0
    }
}

/// The absolute value of `x`.
pub open spec fn magnitude(x: int) -> int {
    if x < 0 {
        -x
    } else {
        x
    }
}

/// The number of file and rank steps between two squares.
pub open spec fn manhattan(a: int, b: int) -> int {
    magnitude(rank_of(a) - rank_of(b)) + magnitude(file_of(a) - file_of(b))
}

/// The bonus, in ticks, for standing `distance` steps from the opposing king:
/// `14 / distance * weight - weight` centipawns.
pub open spec fn distance_bonus(distance: int, weight: int) -> int {
    (14 * weight * TICKS_PER_CENTIPAWN) / distance - weight * TICKS_PER_CENTIPAWN
}

/// A pawn's advance and file terms, in centipawns.
pub open spec fn pawn_advance(file: int, rank: int, color: Color) -> int {
    PAWN_RANK_WEIGHT * magnitude(rank - color.second_rank()) - PAWN_FILE_WEIGHT * (if file < 3 {
        3 - file
    } else if file > 4 {
        file - 4
    } else {
        0
    })
}

/// A rook's bonus for its file, in centipawns.
pub open spec fn rook_file_bonus(file: int) -> int {
    if 3 <= file <= 4 {
        3 * ROOK_CENTER_WEIGHT
    } else if 2 <= file <= 5 {
        2 * ROOK_CENTER_WEIGHT
    } else if 1 <= file <= 6 {
        ROOK_CENTER_WEIGHT as int
    } else {
        0
    }
}

/// The placement bonus, in ticks, of a `piece` of `color` on square `sq`,
/// the opposing king standing on `king`.
pub open spec fn placement(piece: Piece, color: Color, sq: int, king: int, no_queens: bool) -> int {
    let file = file_of(sq);
    let rank = rank_of(sq);
    let d = manhattan(sq, king);
    match piece {
        Piece::Pawn => (pawn_advance(file, rank, color) + center_bonus(
            file,
            rank,
            PAWN_CENTER_WEIGHT as int,
        )) * TICKS_PER_CENTIPAWN + distance_bonus(d, PAWN_DISTANCE_WEIGHT as int),
        Piece::Knight => center_bonus(file, rank, KNIGHT_CENTER_WEIGHT as int)
            * TICKS_PER_CENTIPAWN + distance_bonus(d, KNIGHT_DISTANCE_WEIGHT as int),
        Piece::Bishop => center_bonus(file, rank, BISHOP_CENTER_WEIGHT as int)
            * TICKS_PER_CENTIPAWN + distance_bonus(d, BISHOP_DISTANCE_WEIGHT as int),
        Piece::Rook => rook_file_bonus(file) * TICKS_PER_CENTIPAWN + distance_bonus(
            d,
            ROOK_DISTANCE_WEIGHT as int,
        ),
        Piece::Queen => center_bonus(file, rank, QUEEN_CENTER_WEIGHT as int) * TICKS_PER_CENTIPAWN
            + distance_bonus(d, QUEEN_DISTANCE_WEIGHT as int),
        Piece::King => center_bonus(
            file,
            rank,
            if no_queens {
                KING_CENTER_WEIGHT as int
            } else {
                KING_SHELTER_WEIGHT as int
            },
        ) * TICKS_PER_CENTIPAWN + distance_bonus(d, KING_DISTANCE_WEIGHT as int),
    }
}

/// The material of `piece` as the evaluator counts it, in centipawns: the king
/// has none.
pub open spec fn counted_material(piece: Piece) -> int {
    match piece {
        Piece::Pawn => PAWN_VALUE as int,
        Piece::Knight => KNIGHT_VALUE as int,
        Piece::Bishop => BISHOP_VALUE as int,
        Piece::Rook => ROOK_VALUE as int,
        Piece::Queen => QUEEN_VALUE as int,
        Piece::King => 0,
    }
}

/// What the piece on square `sq` adds to the value of `v`, in ticks: its
/// material and placement, counted for the side to move and against the other.
pub open spec fn contribution(v: PositionView, sq: int) -> int {
    match v.squares[sq] {
        Some((piece, color)) => {
            let worth = counted_material(piece) * TICKS_PER_CENTIPAWN + placement(
                piece,
                color,
                sq,
                v.king_square(color.opposite()),
                v.no_queens(),
            );
            if color == v.side_to_move {
                worth
            } else {
                -worth
            }
        },
        None => 0,
    }
}

/// The contributions of the first `n` squares of rank `rank`.
pub open spec fn rank_value(v: PositionView, rank: int, n: nat) -> int
    decreases n,
{
    if n == 0 {
        0
    } else {
        rank_value(v, rank, (n - 1) as nat) + contribution(v, 8 * rank + (n - 1))
    }
}

/// The contributions of the first `n` ranks.
pub open spec fn board_value(v: PositionView, n: nat) -> int
    decreases n,
{
    if n == 0 {
        0
    } else {
        board_value(v, (n - 1) as nat) + rank_value(v, n - 1, 8)
    }
}

/// The static value of `v`, in ticks: the sum over all pieces of material and
/// placement, the mover's counted positive and the other side's negative.
pub open spec fn position_value(v: PositionView) -> int {
    board_value(v, 8)
}

/// The value of a finished game for the side `mover`.
pub open spec fn result_value(result: GameResult, mover: Color) -> int {
    match result {
        GameResult::WhiteCheckmates | GameResult::BlackResigns => if mover == Color::White {
            WIN_VALUE as int
        } else {
            LOSS_VALUE as int
        },
        GameResult::BlackCheckmates | GameResult::WhiteResigns => if mover == Color::Black {
            WIN_VALUE as int
        } else {
            LOSS_VALUE as int
        },
        GameResult::Stalemate | GameResult::DrawAccepted | GameResult::DrawDeclared => {
            DRAW_VALUE as int
        },
    }
}

/// The value of a game, in ticks: nothing where a draw can be claimed, the
/// result's value where the game is over, else the static value of the board.
pub open spec fn game_value(drawable: bool, result: Option<GameResult>, v: PositionView) -> int {
    if drawable {
        DRAW_VALUE as int
    } else {
        match result {
            Some(r) => result_value(r, v.side_to_move),
            None => position_value(v),
        }
    }
}

/// Fourteen centipawns in ticks, divided by a distance from 1 to 14.
pub open spec fn fourteen_over(distance: int) -> int {
    if distance == 1 {
        100900800
    } else if distance == 2 {
        50450400
    } else if distance == 3 {
        33633600
    } else if distance == 4 {
        25225200
    } else if distance == 5 {
        20180160
    } else if distance == 6 {
        16816800
    } else if distance == 7 {
        14414400
    } else if distance == 8 {
        12612600
    } else if distance == 9 {
        11211200
    } else if distance == 10 {
        10090080
    } else if distance == 11 {
        9172800
    } else if distance == 12 {
        8408400
    } else if distance == 13 {
        7761600
    } else {
        7207200
    }
}

/// Every distance from 1 to 14 divides fourteen centipawns in ticks.
proof fn lemma_fourteen_over(distance: int)
    requires
        1 <= distance <= 14,
    ensures
        fourteen_over(distance) * distance == 14 * TICKS_PER_CENTIPAWN,
        (14 * TICKS_PER_CENTIPAWN) / distance == fourteen_over(distance),
{
    vstd::arithmetic::div_mod::lemma_div_multiples_vanish(fourteen_over(distance), distance);
    if distance == 1 {
        assert(100900800int * 1 == 100_900_800);
    } else if distance == 2 {
        assert(50450400int * 2 == 100_900_800);
    } else if distance == 3 {
        assert(33633600int * 3 == 100_900_800);
    } else if distance == 4 {
        assert(25225200int * 4 == 100_900_800);
    } else if distance == 5 {
        assert(20180160int * 5 == 100_900_800);
    } else if distance == 6 {
        assert(16816800int * 6 == 100_900_800);
    } else if distance == 7 {
        assert(14414400int * 7 == 100_900_800);
    } else if distance == 8 {
        assert(12612600int * 8 == 100_900_800);
    } else if distance == 9 {
        assert(11211200int * 9 == 100_900_800);
    } else if distance == 10 {
        assert(10090080int * 10 == 100_900_800);
    } else if distance == 11 {
        assert(9172800int * 11 == 100_900_800);
    } else if distance == 12 {
        assert(8408400int * 12 == 100_900_800);
    } else if distance == 13 {
        assert(7761600int * 13 == 100_900_800);
    } else {
        assert(7207200int * 14 == 100_900_800);
    }
}

/// The distance bonus is exact: no remainder is lost in its quotient.
pub proof fn lemma_distance_bonus_exact(distance: int, weight: int)
    requires
        1 <= distance <= 14,
    ensures
        distance_bonus(distance, weight) == fourteen_over(distance) * weight - weight
            * TICKS_PER_CENTIPAWN,
        distance * (distance_bonus(distance, weight) + weight * TICKS_PER_CENTIPAWN) == 14 * weight
            * TICKS_PER_CENTIPAWN,
{
    let t = TICKS_PER_CENTIPAWN as int;
    let c = fourteen_over(distance);
    lemma_fourteen_over(distance);
    assert(14 * weight * t == (c * weight) * distance) by (nonlinear_arith)
        requires
            c * distance == 14 * t,
    ;
    vstd::arithmetic::div_mod::lemma_div_multiples_vanish(c * weight, distance);
    assert(distance * (c * weight) == 14 * weight * t) by (nonlinear_arith)
        requires
            14 * weight * t == (c * weight) * distance,
    ;
}

/// The distance bonus has the sign of the weight and is at most thirteen times
/// as large.
pub proof fn lemma_distance_bonus_bounds(distance: int, weight: int)
    requires
        1 <= distance <= 14,
    ensures
        weight >= 0 ==> 0 <= distance_bonus(distance, weight) <= 13 * weight
            * TICKS_PER_CENTIPAWN,
        weight <= 0 ==> 13 * weight * TICKS_PER_CENTIPAWN <= distance_bonus(distance, weight)
            <= 0,
{
    lemma_distance_bonus_exact(distance, weight);
    lemma_fourteen_over(distance);
    let t = TICKS_PER_CENTIPAWN as int;
    let c = fourteen_over(distance);
    assert(t <= c <= 14 * t) by (nonlinear_arith)
        requires
            c * distance == 14 * t,
            1 <= distance <= 14,
            t > 0,
    ;
    let b = c * weight - weight * t;
    assert(weight >= 0 ==> 0 <= b <= 13 * weight * t) by (nonlinear_arith)
        requires
            b == c * weight - weight * t,
            t <= c <= 14 * t,
    ;
    assert(weight <= 0 ==> 13 * weight * t <= b <= 0) by (nonlinear_arith)
        requires
            b == c * weight - weight * t,
            t <= c <= 14 * t,
    ;
}

/// The distance bonus is a multiple of 20.
proof fn lemma_distance_bonus_divisible(distance: int, weight: int)
    requires
        1 <= distance <= 14,
    ensures
        distance_bonus(distance, weight) % 20 == 0,
{
    lemma_distance_bonus_exact(distance, weight);
    let c = fourteen_over(distance);
    assert(c % 20 == 0) by {
        if distance == 1 {
            assert(100900800int == 20 * 5045040);
        } else if distance == 2 {
            assert(50450400int == 20 * 2522520);
        } else if distance == 3 {
            assert(33633600int == 20 * 1681680);
        } else if distance == 4 {
            assert(25225200int == 20 * 1261260);
        } else if distance == 5 {
            assert(20180160int == 20 * 1009008);
        } else if distance == 6 {
            assert(16816800int == 20 * 840840);
        } else if distance == 7 {
            assert(14414400int == 20 * 720720);
        } else if distance == 8 {
            assert(12612600int == 20 * 630630);
        } else if distance == 9 {
            assert(11211200int == 20 * 560560);
        } else if distance == 10 {
            assert(10090080int == 20 * 504504);
        } else if distance == 11 {
            assert(9172800int == 20 * 458640);
        } else if distance == 12 {
            assert(8408400int == 20 * 420420);
        } else if distance == 13 {
            assert(7761600int == 20 * 388080);
        } else {
            assert(7207200int == 20 * 360360);
        }
    }
    let k = c / 20;
    assert(c * weight - weight * TICKS_PER_CENTIPAWN == 20 * (k * weight - 360_360 * weight))
        by (nonlinear_arith)
        requires
            c == 20 * k,
            TICKS_PER_CENTIPAWN == 20 * 360_360,
    ;
}

/// What a square adds to the value of a well-formed position is a multiple of
/// 20.
proof fn lemma_contribution_divisible(v: PositionView, sq: int)
    requires
        well_formed(v),
        0 <= sq < 64,
    ensures
        contribution(v, sq) % 20 == 0,
{
    match v.squares[sq] {
        Some((piece, color)) => {
            let king = v.king_square(color.opposite());
            lemma_king_square(v, color.opposite());
            assert(sq != king);
            let d = manhattan(sq, king);
            assert(1 <= d <= 14) by {
                let ra = sq / 8;
                let fa = sq % 8;
                let rb = king / 8;
                let fb = king % 8;
                assert(sq == 8 * ra + fa && king == 8 * rb + fb);
                assert(0 <= ra < 8 && 0 <= rb < 8 && 0 <= fa < 8 && 0 <= fb < 8);
            }
            lemma_distance_bonus_divisible(d, PAWN_DISTANCE_WEIGHT as int);
            lemma_distance_bonus_divisible(d, KNIGHT_DISTANCE_WEIGHT as int);
            assert(TICKS_PER_CENTIPAWN == 20 * 360_360);
        },
        None => {},
    }
}

/// What the squares of a rank add to the value of a well-formed position is
/// a multiple of 20.
proof fn lemma_rank_divisible(v: PositionView, rank: int, n: nat)
    requires
        well_formed(v),
        0 <= rank < 8,
        n <= 8,
    ensures
        rank_value(v, rank, n) % 20 == 0,
    decreases n,
{
    if n > 0 {
        lemma_rank_divisible(v, rank, (n - 1) as nat);
        lemma_contribution_divisible(v, 8 * rank + (n - 1));
    }
}

/// The discount is exact: nineteen twentieths of the static value of a
/// well-formed position is a whole number of ticks.
pub proof fn lemma_discount_exact(v: PositionView)
    requires
        well_formed(v),
    ensures
        position_value(v) % 20 == 0,
        20 * discounted(position_value(v)) == 19 * position_value(v),
{
    reveal_with_fuel(board_value, 9);
    lemma_rank_divisible(v, 0, 8);
    lemma_rank_divisible(v, 1, 8);
    lemma_rank_divisible(v, 2, 8);
    lemma_rank_divisible(v, 3, 8);
    lemma_rank_divisible(v, 4, 8);
    lemma_rank_divisible(v, 5, 8);
    lemma_rank_divisible(v, 6, 8);
    lemma_rank_divisible(v, 7, 8);
}

/// The flipped square lies on the same file, its rank counted from the other
/// edge, and flipping it again gives the square back.
proof fn lemma_flipped_square(a: int)
    requires
        0 <= a < 64,
    ensures
        0 <= flipped(a) < 64,
        flipped(flipped(a)) == a,
        file_of(flipped(a)) == file_of(a),
        rank_of(flipped(a)) == 7 - rank_of(a),
{
    let r = a / 8;
    let f = a % 8;
    assert(a == 8 * r + f && 0 <= f < 8 && 0 <= r < 8);
    let b = 8 * (7 - r) + f;
    assert(flipped(a) == b);
    assert(b / 8 == 7 - r && b % 8 == f);
}

/// Flipping two squares keeps their files and their distance.
proof fn lemma_flipped(a: int, b: int)
    requires
        0 <= a < 64,
        0 <= b < 64,
    ensures
        0 <= flipped(a) < 64,
        flipped(flipped(a)) == a,
        file_of(flipped(a)) == file_of(a),
        rank_of(flipped(a)) == 7 - rank_of(a),
        manhattan(flipped(a), flipped(b)) == manhattan(a, b),
        (flipped(a) == flipped(b)) == (a == b),
{
    lemma_flipped_square(a);
    lemma_flipped_square(b);
}

/// A piece is worth the same as the piece of the other colour on the flipped
/// square, the opposing king being flipped as well.
proof fn lemma_mirror_placement(piece: Piece, color: Color, sq: int, king: int, no_queens: bool)
    requires
        0 <= sq < 64,
        0 <= king < 64,
    ensures
        placement(piece, color.opposite(), flipped(sq), flipped(king), no_queens) == placement(
            piece,
            color,
            sq,
            king,
            no_queens,
        ),
{
    lemma_flipped(sq, king);
}

/// The mirror image of a well-formed position is well formed; its kings stand
/// on the flipped squares of the other colour's kings, and it has queens where
/// the position has.
pub proof fn lemma_mirror_well_formed(v: PositionView)
    requires
        well_formed(v),
    ensures
        well_formed(v.mirror()),
        v.mirror().king_square(Color::White) == flipped(v.king_square(Color::Black)),
        v.mirror().king_square(Color::Black) == flipped(v.king_square(Color::White)),
        v.mirror().no_queens() == v.no_queens(),
{
    let m = v.mirror();
    lemma_king_square(v, Color::White);
    lemma_king_square(v, Color::Black);
    let wk = v.king_square(Color::White);
    let bk = v.king_square(Color::Black);
    lemma_flipped(wk, bk);
    assert forall|sq: int| 0 <= sq < 64 implies #[trigger] m.squares[sq] == recolored(
        v.squares[flipped(sq)],
    ) && 0 <= flipped(sq) < 64 && flipped(flipped(sq)) == sq by {
        lemma_flipped(sq, sq);
    }
    assert(holds_king(m.squares, Color::White, flipped(bk)));
    assert(holds_king(m.squares, Color::Black, flipped(wk)));
    assert forall|j: int| #[trigger] holds_king(m.squares, Color::White, j) implies j == flipped(
        bk,
    ) by {
        assert(m.squares[j] == recolored(v.squares[flipped(j)]));
        assert(holds_king(v.squares, Color::Black, flipped(j)));
    }
    assert forall|j: int| #[trigger] holds_king(m.squares, Color::Black, j) implies j == flipped(
        wk,
    ) by {
        assert(m.squares[j] == recolored(v.squares[flipped(j)]));
        assert(holds_king(v.squares, Color::White, flipped(j)));
    }
    lemma_king_square(m, Color::White);
    lemma_king_square(m, Color::Black);
    if v.no_queens() {
        assert forall|sq: int| 0 <= sq < 64 implies !(#[trigger] m.squares[sq] matches Some(
            (piece, _),
        ) && piece == Piece::Queen) by {
            assert(m.squares[sq] == recolored(v.squares[flipped(sq)]));
        }
    }
    if m.no_queens() {
        assert forall|sq: int| 0 <= sq < 64 implies !(#[trigger] v.squares[sq] matches Some(
            (piece, _),
        ) && piece == Piece::Queen) by {
            lemma_flipped(sq, sq);
            assert(m.squares[flipped(sq)] == recolored(v.squares[flipped(flipped(sq))]));
        }
    }
}

/// What a square adds to the mirror image is the opposite of what the flipped
/// square adds to the position.
proof fn lemma_mirror_contribution(v: PositionView, sq: int)
    requires
        well_formed(v),
        0 <= sq < 64,
    ensures
        contribution(v.mirror(), sq) == -contribution(v, flipped(sq)),
{
    let m = v.mirror();
    lemma_mirror_well_formed(v);
    lemma_flipped(sq, sq);
    lemma_king_square(v, Color::White);
    lemma_king_square(v, Color::Black);
    assert(m.squares[sq] == recolored(v.squares[flipped(sq)]));
    match v.squares[flipped(sq)] {
        Some((piece, color)) => {
            let king = v.king_square(color.opposite());
            lemma_flipped(flipped(sq), king);
            lemma_mirror_placement(piece, color, flipped(sq), king, v.no_queens());
            assert(m.king_square(color) == flipped(king));
        },
        None => {},
    }
}

/// A rank of the mirror image adds the opposite of what the rank counted from
/// the other edge adds to the position.
proof fn lemma_mirror_rank(v: PositionView, rank: int, n: nat)
    requires
        well_formed(v),
        0 <= rank < 8,
        n <= 8,
    ensures
        rank_value(v.mirror(), rank, n) == -rank_value(v, 7 - rank, n),
    decreases n,
{
    if n > 0 {
        lemma_mirror_rank(v, rank, (n - 1) as nat);
        lemma_mirror_contribution(v, 8 * rank + (n - 1));
        assert(flipped(8 * rank + (n - 1)) == 8 * (7 - rank) + (n - 1));
    }
}

/// Evaluator symmetry: a well-formed position is worth to its mover the
/// opposite of its mirror image, in which every piece has changed colour and
/// the board is flipped across its middle.
pub proof fn lemma_evaluator_symmetry(v: PositionView)
    requires
        well_formed(v),
    ensures
        position_value(v) == -position_value(v.mirror()),
{
    let m = v.mirror();
    reveal_with_fuel(board_value, 9);
    lemma_mirror_rank(v, 0, 8);
    lemma_mirror_rank(v, 1, 8);
    lemma_mirror_rank(v, 2, 8);
    lemma_mirror_rank(v, 3, 8);
    lemma_mirror_rank(v, 4, 8);
    lemma_mirror_rank(v, 5, 8);
    lemma_mirror_rank(v, 6, 8);
    lemma_mirror_rank(v, 7, 8);
}

/// The static evaluator.
#[derive(Debug)]
pub struct Heuristic {
    /// Whether the fifty-move rule counts as a draw.
    pub fifty_moves_rule: bool,
    /// Where endgame tablebases would be found. Nothing reads it.
    pub syzygy_path: Option<String>,
}

impl Heuristic {
    /// The evaluator with the fifty-move rule on and no tablebase path.
    pub fn default() -> (heuristic: Heuristic)
        ensures
            heuristic.fifty_moves_rule,
            heuristic.syzygy_path is None,
    {
        Heuristic { fifty_moves_rule: true, syzygy_path: None }
    }

    /// The value of a finished game for the side `mover`: a win or a loss
    /// after a checkmate or a resignation, nothing after a draw.
    pub fn evaluate_result(&self, result: GameResult, mover: Color) -> (score: Score)
        ensures
            score == result_value(result, mover),
    {
        match result {
            GameResult::WhiteCheckmates | GameResult::BlackResigns => {
                if mover == Color::White {
                    WIN_VALUE
                } else {
                    LOSS_VALUE
                }
            },
            GameResult::BlackCheckmates | GameResult::WhiteResigns => {
                if mover == Color::Black {
                    WIN_VALUE
                } else {
                    LOSS_VALUE
                }
            },
            GameResult::Stalemate | GameResult::DrawAccepted | GameResult::DrawDeclared => DRAW_VALUE,
        }
    }

    /// The value of `game`, in ticks, for the side to move: nothing where a
    /// draw can be claimed, a win or a loss where the game is decided, else the
    /// static value of the board. The side that is checkmated is the side to
    /// move, so a checkmate is worth a loss.
    pub fn evaluate(&self, game: &Game) -> (score: Score)
        ensures
            score == game_value(game@.drawable(), game@.result(), game@.position()),
            game@.drawable() ==> score == DRAW_VALUE,
            (game@.result() == Some(GameResult::WhiteCheckmates) || game@.result() == Some(
                GameResult::BlackCheckmates,
            )) ==> score == LOSS_VALUE,
    {
        if game.can_declare_draw() {
            return DRAW_VALUE;
        }
        match game.result() {
            Some(result) => self.evaluate_result(result, game.side_to_move()),
            None => self.evaluate_position(game.current_position()),
        }
    }

    /// The value of a game of which the rules have said whether a draw can be
    /// claimed and how it ended, the board being `position`.
    pub fn evaluate_known(
        &self,
        drawable: bool,
        result: Option<GameResult>,
        position: &Position,
    ) -> (score: Score)
        ensures
            score == game_value(drawable, result, position@),
    {
        if drawable {
            return DRAW_VALUE;
        }
        match result {
            Some(r) => self.evaluate_result(r, position.side_to_move()),
            None => self.evaluate_position(position),
        }
    }

    /// The bonus, in centipawns, for standing near the centre.
    pub fn occupying_center_bonus(piece: u8, bonus: i64) -> (value: i64)
        requires
            piece < 64,
            i64::MIN <= 3 * bonus <= i64::MAX,
        ensures
            value == center_bonus(file_of(piece as int), rank_of(piece as int), bonus as int),
    {
        let file: u8 = piece % 8;
        let rank: u8 = piece / 8;
        if 3 <= rank && rank <= 4 && 3 <= file && file <= 4 {
            return 3 * bonus;
        }
        if 2 <= rank && rank <= 5 && 3 <= file && file <= 4 {
            return 2 * bonus;
        }
        if 1 <= rank && rank <= 6 && 3 <= file && file <= 4 {
            return bonus;
        }
        0
    }

    /// The bonus, in ticks, for the distance between `piece` and the opposing
    /// `king`: it has the sign of the weight `bonus` and is at most thirteen
    /// times as large.
    pub fn distance_from_king_bonus(piece: u8, king: u8, bonus: i64) -> (value: Score)
        requires
            piece < 64,
            king < 64,
            piece != king,
            i64::MIN <= 14 * bonus * TICKS_PER_CENTIPAWN <= i64::MAX,
        ensures
            value == distance_bonus(manhattan(piece as int, king as int), bonus as int),
            bonus >= 0 ==> 0 <= value <= 13 * bonus * TICKS_PER_CENTIPAWN,
            bonus <= 0 ==> 13 * bonus * TICKS_PER_CENTIPAWN <= value <= 0,
    {
        let rank_a: i64 = (piece / 8) as i64;
        let rank_b: i64 = (king / 8) as i64;
        let file_a: i64 = (piece % 8) as i64;
        let file_b: i64 = (king % 8) as i64;
        let ranks: i64 = if rank_a < rank_b {
            rank_b - rank_a
        } else {
            rank_a - rank_b
        };
        let files: i64 = if file_a < file_b {
            file_b - file_a
        } else {
            file_a - file_b
        };
        let distance: i64 = ranks + files;
        assert(distance == manhattan(piece as int, king as int));
        assert(1 <= distance <= 14);
        let share: i64 = (14 * TICKS_PER_CENTIPAWN) / distance;
        proof {
            lemma_fourteen_over(distance as int);
            lemma_distance_bonus_exact(distance as int, bonus as int);
            lemma_distance_bonus_bounds(distance as int, bonus as int);
            let t = TICKS_PER_CENTIPAWN as int;
            let w = bonus as int;
            let c = share as int;
            assert(t <= c <= 14 * t) by (nonlinear_arith)
                requires
                    c * distance == 14 * t,
                    1 <= distance <= 14,
                    t > 0,
            ;
            assert(i64::MIN <= c * w <= i64::MAX && i64::MIN <= w * t <= i64::MAX) by (nonlinear_arith)
                requires
                    t <= c <= 14 * t,
                    t > 0,
                    i64::MIN <= 14 * w * t <= i64::MAX,
            ;
        }
        share * bonus - bonus * TICKS_PER_CENTIPAWN
    }

    /// The placement bonus of a pawn of `color` on square `pawn`.
    pub fn pawn_bonus(pawn: u8, color: Color, opponent_king: u8) -> (value: Score)
        requires
            pawn < 64,
            opponent_king < 64,
            pawn != opponent_king,
        ensures
            value == placement(Piece::Pawn, color, pawn as int, opponent_king as int, false),
            -15 * TICKS_PER_CENTIPAWN <= value <= 122 * TICKS_PER_CENTIPAWN,
    {
        let file: i64 = (pawn % 8) as i64;
        let rank: i64 = (pawn / 8) as i64;
        let home: i64 = color.pawn_rank() as i64;
        let advance: i64 = if rank < home {
            home - rank
        } else {
            rank - home
        };
        let mut bonus: i64 = advance * PAWN_RANK_WEIGHT;
        if file < 3 {
            bonus = bonus - (3 - file) * PAWN_FILE_WEIGHT;
        } else if file > 4 {
            bonus = bonus - (file - 4) * PAWN_FILE_WEIGHT;
        }
        bonus = bonus + Heuristic::occupying_center_bonus(pawn, PAWN_CENTER_WEIGHT);
        bonus * TICKS_PER_CENTIPAWN + Heuristic::distance_from_king_bonus(
            pawn,
            opponent_king,
            PAWN_DISTANCE_WEIGHT,
        )
    }

    /// The placement bonus of a knight on square `knight`.
    pub fn knight_bonus(knight: u8, opponent_king: u8) -> (value: Score)
        requires
            knight < 64,
            opponent_king < 64,
            knight != opponent_king,
        ensures
            value == placement(Piece::Knight, Color::White, knight as int, opponent_king as int, false),
            0 <= value <= 125 * TICKS_PER_CENTIPAWN,
    {
        Heuristic::occupying_center_bonus(knight, KNIGHT_CENTER_WEIGHT) * TICKS_PER_CENTIPAWN
            + Heuristic::distance_from_king_bonus(knight, opponent_king, KNIGHT_DISTANCE_WEIGHT)
    }

    /// The placement bonus of a bishop on square `bishop`.
    pub fn bishop_bonus(bishop: u8, opponent_king: u8) -> (value: Score)
        requires
            bishop < 64,
            opponent_king < 64,
            bishop != opponent_king,
        ensures
            value == placement(Piece::Bishop, Color::White, bishop as int, opponent_king as int, false),
            0 <= value <= 119 * TICKS_PER_CENTIPAWN,
    {
        Heuristic::occupying_center_bonus(bishop, BISHOP_CENTER_WEIGHT) * TICKS_PER_CENTIPAWN
            + Heuristic::distance_from_king_bonus(bishop, opponent_king, BISHOP_DISTANCE_WEIGHT)
    }

    /// The placement bonus of a rook on square `rook`.
    pub fn rook_bonus(rook: u8, opponent_king: u8) -> (value: Score)
        requires
            rook < 64,
            opponent_king < 64,
            rook != opponent_king,
        ensures
            value == placement(Piece::Rook, Color::White, rook as int, opponent_king as int, false),
            0 <= value <= 89 * TICKS_PER_CENTIPAWN,
    {
        let file: u8 = rook % 8;
        let mut bonus: i64 = 0;
        if 3 <= file && file <= 4 {
            bonus = 3 * ROOK_CENTER_WEIGHT;
        } else if 2 <= file && file <= 5 {
            bonus = 2 * ROOK_CENTER_WEIGHT;
        } else if 1 <= file && file <= 6 {
            bonus = ROOK_CENTER_WEIGHT;
        }
        bonus * TICKS_PER_CENTIPAWN + Heuristic::distance_from_king_bonus(
            rook,
            opponent_king,
            ROOK_DISTANCE_WEIGHT,
        )
    }

    /// The placement bonus of a queen on square `queen`.
    pub fn queen_bonus(queen: u8, opponent_king: u8) -> (value: Score)
        requires
            queen < 64,
            opponent_king < 64,
            queen != opponent_king,
        ensures
            value == placement(Piece::Queen, Color::White, queen as int, opponent_king as int, false),
            0 <= value <= 110 * TICKS_PER_CENTIPAWN,
    {
        Heuristic::occupying_center_bonus(queen, QUEEN_CENTER_WEIGHT) * TICKS_PER_CENTIPAWN
            + Heuristic::distance_from_king_bonus(queen, opponent_king, QUEEN_DISTANCE_WEIGHT)
    }

    /// The placement bonus of a king on square `king`: it seeks the centre
    /// once the queens are gone and shuns it before.
    pub fn king_bonus(king: u8, opponent_king: u8, no_queens: bool) -> (value: Score)
        requires
            king < 64,
            opponent_king < 64,
            king != opponent_king,
        ensures
            value == placement(Piece::King, Color::White, king as int, opponent_king as int, no_queens),
            -21 * TICKS_PER_CENTIPAWN <= value <= 89 * TICKS_PER_CENTIPAWN,
    {
        let weight: i64 = if no_queens {
            KING_CENTER_WEIGHT
        } else {
            KING_SHELTER_WEIGHT
        };
        Heuristic::occupying_center_bonus(king, weight) * TICKS_PER_CENTIPAWN
            + Heuristic::distance_from_king_bonus(king, opponent_king, KING_DISTANCE_WEIGHT)
    }

    /// Material and placement of the piece `piece` of `color` on square `sq`.
    fn piece_worth(piece: Piece, color: Color, sq: u8, opponent_king: u8, no_queens: bool) -> (value:
        Score)
        requires
            sq < 64,
            opponent_king < 64,
            sq != opponent_king,
        ensures
            value == counted_material(piece) * TICKS_PER_CENTIPAWN + placement(
                piece,
                color,
                sq as int,
                opponent_king as int,
                no_queens,
            ),
            -PIECE_BOUND * TICKS_PER_CENTIPAWN <= value <= PIECE_BOUND * TICKS_PER_CENTIPAWN,
    {
        match piece {
            Piece::Pawn => PAWN_VALUE * TICKS_PER_CENTIPAWN + Heuristic::pawn_bonus(
                sq,
                color,
                opponent_king,
            ),
            Piece::Knight => KNIGHT_VALUE * TICKS_PER_CENTIPAWN + Heuristic::knight_bonus(
                sq,
                opponent_king,
            ),
            Piece::Bishop => BISHOP_VALUE * TICKS_PER_CENTIPAWN + Heuristic::bishop_bonus(
                sq,
                opponent_king,
            ),
            Piece::Rook => ROOK_VALUE * TICKS_PER_CENTIPAWN + Heuristic::rook_bonus(sq, opponent_king),
            Piece::Queen => QUEEN_VALUE * TICKS_PER_CENTIPAWN + Heuristic::queen_bonus(
                sq,
                opponent_king,
            ),
            Piece::King => Heuristic::king_bonus(sq, opponent_king, no_queens),
        }
    }

    /// The static value of `position`, in ticks, for the side to move.
    pub fn evaluate_position(&self, position: &Position) -> (score: Score)
        ensures
            score == position_value(position@),
            -STATIC_BOUND <= score <= STATIC_BOUND,
    {
        let mover = position.side_to_move();
        let white_king = position.king_square(Color::White);
        let black_king = position.king_square(Color::Black);
        let no_queens = position.no_queens();
        let ghost v = position@;
        let mut total: i64 = 0;
        let mut rank: u8 = 0;
        while rank < 8
            invariant
                rank <= 8,
                v == position@,
                well_formed(v),
                mover == v.side_to_move,
                white_king < 64,
                black_king < 64,
                white_king == v.king_square(Color::White),
                black_king == v.king_square(Color::Black),
                holds_king(v.squares, Color::White, white_king as int),
                holds_king(v.squares, Color::Black, black_king as int),
                no_queens == v.no_queens(),
                total == board_value(v, rank as nat),
                -8 * rank * PIECE_BOUND * TICKS_PER_CENTIPAWN <= total <= 8 * rank * PIECE_BOUND
                    * TICKS_PER_CENTIPAWN,
            decreases 8 - rank,
        {
            let mut row: i64 = 0;
            let mut file: u8 = 0;
            while file < 8
                invariant
                    file <= 8,
                    rank < 8,
                    v == position@,
                    well_formed(v),
                    mover == v.side_to_move,
                    white_king < 64,
                    black_king < 64,
                    white_king == v.king_square(Color::White),
                    black_king == v.king_square(Color::Black),
                    holds_king(v.squares, Color::White, white_king as int),
                    holds_king(v.squares, Color::Black, black_king as int),
                    no_queens == v.no_queens(),
                    row == rank_value(v, rank as int, file as nat),
                    -file * PIECE_BOUND * TICKS_PER_CENTIPAWN <= row <= file * PIECE_BOUND
                        * TICKS_PER_CENTIPAWN,
                decreases 8 - file,
            {
                let sq: u8 = 8 * rank + file;
                match position.occupant(sq) {
                    Some((piece, color)) => {
                        let king: u8 = match color {
                            Color::White => black_king,
                            Color::Black => white_king,
                        };
                        let worth = Heuristic::piece_worth(piece, color, sq, king, no_queens);
                        if color == mover {
                            row = row + worth;
                        } else {
                            row = row - worth;
                        }
                    },
                    None => {},
                }
                assert(row == rank_value(v, rank as int, file as nat) + contribution(v, sq as int));
                file = file + 1;
            }
            total = total + row;
            rank = rank + 1;
        }
        total
    }
}

} // verus!
