//! Move ordering: most valuable victim first, least valuable attacker first,
//! promotions and checks ahead of quiet moves.

use vstd::prelude::*;
use crate::chess_move::Move;
use crate::game::{Game, GameView};
use crate::piece::{material, Piece, PieceValue};
use crate::position::{file_of, rank_of, Occupant};

verus! {

/// A move with what the ordering and the quiescence search read of it.
#[derive(Clone, Copy, Debug, PartialEq, Eq)]
pub struct Scored {
    pub mv: Move,
    /// The ordering score: higher is tried first.
    pub score: i64,
    /// The move lands on an occupied square.
    pub capture: bool,
    /// A pawn moves to another file and another rank.
    pub en_passant: bool,
    /// The move leaves the other side in check.
    pub check: bool,
}

/// Ten times the victim's value less the attacker's, where a piece takes a
/// piece.
pub open spec fn capture_term(attacker: Occupant, victim: Occupant) -> int {
    match (attacker, victim) {
        (Some((a, _)), Some((v, _))) => 10 * material(v) - material(a),
        _ => 0,
    }
}

/// Five times the value of the piece that a pawn turns into.
pub open spec fn promotion_term(promotion: Option<Piece>) -> int {
    match promotion {
        Some(piece) => 5 * material(piece),
        None => 0,
    }
}

/// Whether `m` moves a pawn to another file and another rank.
pub open spec fn pawn_changes_file(squares: Seq<Occupant>, m: Move) -> bool {
    &&& squares[m.from as int] matches Some((piece, _))
    &&& piece == Piece::Pawn
    &&& rank_of(m.from as int) != rank_of(m.to as int)
    &&& file_of(m.from as int) != file_of(m.to as int)
}

/// The ordering score of `m` in `g`.
pub open spec fn move_score(g: GameView, m: Move) -> int {
    let squares = g.position().squares;
    let check: int = if g.after(m).in_check() {
        1
    } else {
        0
    };
    capture_term(squares[m.from as int], squares[m.to as int]) + promotion_term(m.promotion)
        + check
}

/// The move `m` of `g` with its score and marks.
pub open spec fn scored(g: GameView, m: Move) -> Scored {
    let squares = g.position().squares;
    Scored {
        mv: m,
        score: move_score(g, m) as i64,
        capture: squares[m.to as int] is Some,
        en_passant: pawn_changes_file(squares, m),
        check: g.after(m).in_check(),
    }
}

/// Each of `moves` with its score and marks.
pub open spec fn scored_all(g: GameView, moves: Seq<Move>) -> Seq<Scored> {
    Seq::new(moves.len(), |i: int| scored(g, moves[i]))
}

/// Where an item of score `score` goes into `sorted`: before the first item
/// of a lower score.
pub open spec fn slot(sorted: Seq<Scored>, score: int) -> int
    decreases sorted.len(),
{
    if sorted.len() == 0 || sorted[0].score < score {
        0
    } else {
        1 + slot(sorted.skip(1), score)
    }
}

/// `items` by descending score; items of one score keep their order.
pub open spec fn by_score(items: Seq<Scored>) -> Seq<Scored>
    decreases items.len(),
{
    if items.len() == 0 {
        Seq::<Scored>::empty()
    } else {
        let sorted = by_score(items.drop_last());
        sorted.insert(slot(sorted, items.last().score as int), items.last())
    }
}

/// The moves of `items`, in their order.
pub open spec fn moves_of(items: Seq<Scored>) -> Seq<Move> {
    Seq::new(items.len(), |i: int| items[i].mv)
}

/// `moves` in the order in which `g` tries them.
pub open spec fn ordered(g: GameView, moves: Seq<Move>) -> Seq<Move> {
    moves_of(by_score(scored_all(g, moves)))
}

/// Whether scores never rise along `items`.
pub open spec fn descending(items: Seq<Scored>) -> bool {
    forall|i: int, j: int| 0 <= i <= j < items.len() ==> items[i].score >= items[j].score
}

/// The slot lies within the sequence; all before it score at least `score`
/// and the item at it, if any, scores less.
pub proof fn lemma_slot(sorted: Seq<Scored>, score: int)
    ensures
        0 <= slot(sorted, score) <= sorted.len(),
        forall|k: int| 0 <= k < slot(sorted, score) ==> sorted[k].score >= score,
        slot(sorted, score) < sorted.len() ==> sorted[slot(sorted, score)].score < score,
    decreases sorted.len(),
{
    if sorted.len() == 0 || sorted[0].score < score {
    } else {
        let rest = sorted.skip(1);
        lemma_slot(rest, score);
        assert forall|k: int| 0 <= k < slot(sorted, score) implies sorted[k].score >= score by {
            if k > 0 {
                assert(rest[k - 1] == sorted[k]);
            }
        }
        if slot(sorted, score) < sorted.len() {
            assert(rest[slot(rest, score)] == sorted[slot(rest, score) + 1]);
        }
    }
}

/// The index `j` is the slot where all before it score at least `score` and
/// the item at it, if any, scores less.
proof fn lemma_slot_found(sorted: Seq<Scored>, score: int, j: int)
    requires
        0 <= j <= sorted.len(),
        forall|k: int| 0 <= k < j ==> sorted[k].score >= score,
        j < sorted.len() ==> sorted[j].score < score,
    ensures
        slot(sorted, score) == j,
    decreases sorted.len(),
{
    if sorted.len() == 0 || sorted[0].score < score {
    } else {
        let rest = sorted.skip(1);
        assert forall|k: int| 0 <= k < j - 1 implies rest[k].score >= score by {
            assert(rest[k] == sorted[k + 1]);
        }
        lemma_slot_found(rest, score, j - 1);
    }
}

/// Sorting keeps every item, as often as it occurs, and brings the items into
/// descending order.
pub proof fn lemma_by_score(items: Seq<Scored>)
    ensures
        by_score(items).len() == items.len(),
        by_score(items).to_multiset() == items.to_multiset(),
        descending(by_score(items)),
    decreases items.len(),
{
    if items.len() == 0 {
        assert(items =~= Seq::<Scored>::empty());
    } else {
        let rest = items.drop_last();
        let last = items.last();
        lemma_by_score(rest);
        let sorted = by_score(rest);
        let at = slot(sorted, last.score as int);
        lemma_slot(sorted, last.score as int);
        let result = sorted.insert(at, last);
        assert(result == by_score(items));
        assert(items =~= rest.push(last));
        assert(result.to_multiset() == items.to_multiset()) by {
            vstd::seq_lib::to_multiset_insert(sorted, at, last);
            rest.to_multiset_ensures();
            assert(rest.push(last).to_multiset() =~= rest.to_multiset().insert(last));
        }
        assert forall|i: int, j: int| 0 <= i <= j < result.len() implies result[i].score
            >= result[j].score by {
            sorted.insert_ensures(at, last);
            if i < at {
                if j < at {
                } else if j == at {
                } else {
                    assert(result[j] == sorted[j - 1]);
                }
            } else if i == at {
                if j > at {
                    assert(result[j] == sorted[j - 1]);
                }
            } else {
                assert(result[i] == sorted[i - 1]);
                assert(result[j] == sorted[j - 1]);
            }
        }
    }
}

/// The items of `items` that have the score `score`, in their order.
pub open spec fn of_score(items: Seq<Scored>, score: int) -> Seq<Scored>
    decreases items.len(),
{
    if items.len() == 0 {
        Seq::<Scored>::empty()
    } else if items.last().score == score {
        of_score(items.drop_last(), score).push(items.last())
    } else {
        of_score(items.drop_last(), score)
    }
}

/// The items of one score in two lists, one behind the other, are those of
/// the first behind those of the second.
proof fn lemma_of_score_joined(a: Seq<Scored>, b: Seq<Scored>, score: int)
    ensures
        of_score(a + b, score) == of_score(a, score) + of_score(b, score),
    decreases b.len(),
{
    if b.len() == 0 {
        assert(a + b =~= a);
        assert(of_score(a, score) + of_score(b, score) =~= of_score(a, score));
    } else {
        lemma_of_score_joined(a, b.drop_last(), score);
        assert((a + b).drop_last() =~= a + b.drop_last());
        assert((a + b).last() == b.last());
        if b.last().score == score {
            assert((of_score(a, score) + of_score(b.drop_last(), score)).push(b.last()) =~= of_score(
                a,
                score,
            ) + of_score(b.drop_last(), score).push(b.last()));
        }
    }
}

/// A list holds no item of a score that all its items stay under.
proof fn lemma_of_score_none(items: Seq<Scored>, score: int)
    requires
        forall|i: int| 0 <= i < items.len() ==> (#[trigger] items[i]).score < score,
    ensures
        of_score(items, score) == Seq::<Scored>::empty(),
    decreases items.len(),
{
    if items.len() > 0 {
        assert(items[items.len() - 1].score < score);
        assert forall|i: int| 0 <= i < items.drop_last().len() implies (
        #[trigger] items.drop_last()[i]).score < score by {
            assert(items.drop_last()[i] == items[i]);
        }
        lemma_of_score_none(items.drop_last(), score);
    }
}

/// Ties keep their order: the items of one score stand in the sorted list as
/// they stand in the list that was sorted.
pub proof fn lemma_ties_keep_order(items: Seq<Scored>, score: int)
    ensures
        of_score(by_score(items), score) == of_score(items, score),
    decreases items.len(),
{
    if items.len() > 0 {
        let rest = items.drop_last();
        let last = items.last();
        lemma_ties_keep_order(rest, score);
        lemma_by_score(rest);
        let sorted = by_score(rest);
        let at = slot(sorted, last.score as int);
        lemma_slot(sorted, last.score as int);
        let front = sorted.subrange(0, at);
        let back = sorted.subrange(at, sorted.len() as int);
        assert(sorted =~= front + back);
        assert(by_score(items) =~= front + seq![last] + back);
        lemma_of_score_joined(front, back, score);
        lemma_of_score_joined(front + seq![last], back, score);
        lemma_of_score_joined(front, seq![last], score);
        assert(seq![last].drop_last() =~= Seq::<Scored>::empty());
        assert(seq![last].last() == last);
        assert(of_score(seq![last].drop_last(), score) =~= Seq::<Scored>::empty());
        if last.score == score {
            assert forall|i: int| 0 <= i < back.len() implies (#[trigger] back[i]).score
                < score by {
                assert(back[i] == sorted[at + i]);
                assert(sorted[at].score >= sorted[at + i].score);
            }
            lemma_of_score_none(back, score);
            assert(of_score(seq![last], score) =~= seq![last]);
            assert(of_score(by_score(items), score) =~= of_score(front, score).push(last));
            assert(of_score(sorted, score) =~= of_score(front, score));
        } else {
            assert(of_score(seq![last], score) =~= Seq::<Scored>::empty());
            assert(of_score(by_score(items), score) =~= of_score(front, score) + of_score(
                back,
                score,
            ));
        }
    }
}

/// An ordered list holds the moves of the list it was made from, and no
/// others.
pub proof fn lemma_ordered_same_moves(g: GameView, moves: Seq<Move>)
    ensures
        ordered(g, moves).len() == moves.len(),
        forall|m: Move| ordered(g, moves).contains(m) <==> moves.contains(m),
{
    let items = scored_all(g, moves);
    let sorted = by_score(items);
    lemma_by_score(items);
    assert forall|m: Move| ordered(g, moves).contains(m) <==> moves.contains(m) by {
        if ordered(g, moves).contains(m) {
            let i = choose|i: int| 0 <= i < sorted.len() && ordered(g, moves)[i] == m;
            sorted.to_multiset_ensures();
            items.to_multiset_ensures();
            assert(sorted.contains(sorted[i]));
            assert(sorted.to_multiset().count(sorted[i]) > 0);
            assert(items.contains(sorted[i]));
            let j = choose|j: int| 0 <= j < items.len() && items[j] == sorted[i];
            assert(moves[j] == m);
        }
        if moves.contains(m) {
            let j = choose|j: int| 0 <= j < moves.len() && moves[j] == m;
            sorted.to_multiset_ensures();
            items.to_multiset_ensures();
            assert(items.contains(items[j]));
            assert(items.to_multiset().count(items[j]) > 0);
            assert(sorted.contains(items[j]));
            let i = choose|i: int| 0 <= i < sorted.len() && sorted[i] == items[j];
            assert(ordered(g, moves)[i] == m);
        }
    }
}

/// The ordering score is far from the ends of `i64`.
pub proof fn lemma_move_score_fits(g: GameView, m: Move)
    ensures
        -30_000_000_000 <= move_score(g, m) <= 40_000_000_000,
{
}

/// The move `m` of `game` with its score and marks.
pub fn score_move(game: &Game, m: Move) -> (item: Scored)
    requires
        game@.legal_moves().contains(m),
        m.on_board(),
    ensures
        item == scored(game@, m),
{
    let values = PieceValue::default();
    let position = game.current_position();
    let attacker = position.occupant(m.from);
    let victim = position.occupant(m.to);
    proof {
        lemma_move_score_fits(game@, m);
    }
    let mut score: i64 = 0;
    match (attacker, victim) {
        (Some((a, _)), Some((v, _))) => {
            assert(values.entry(v) == material(v));
            assert(values.entry(a) == material(a));
            score = 10 * values.get_piece_value(v) - values.get_piece_value(a);
        },
        _ => {},
    }
    match m.promotion {
        Some(piece) => {
            assert(values.entry(piece) == material(piece));
            score = score + 5 * values.get_piece_value(piece);
        },
        None => {},
    }
    let check = game.gives_check(m);
    if check {
        score = score + 1;
    }
    let en_passant = match attacker {
        Some((piece, _)) => piece == Piece::Pawn && m.from / 8 != m.to / 8 && m.from % 8 != m.to
            % 8,
        None => false,
    };
    Scored { mv: m, score, capture: victim.is_some(), en_passant, check }
}

/// Each of `moves` with its score and marks, in the order of `moves`.
pub fn score_moves(game: &Game, moves: &Vec<Move>) -> (items: Vec<Scored>)
    requires
        forall|i: int| 0 <= i < moves@.len() ==> game@.legal_moves().contains(#[trigger] moves@[i]),
        forall|i: int| 0 <= i < moves@.len() ==> (#[trigger] moves@[i]).on_board(),
    ensures
        items@ == scored_all(game@, moves@),
{
    let mut items: Vec<Scored> = Vec::new();
    let mut i: usize = 0;
    while i < moves.len()
        invariant
            i <= moves.len(),
            forall|k: int|
                0 <= k < moves@.len() ==> game@.legal_moves().contains(#[trigger] moves@[k]),
            forall|k: int| 0 <= k < moves@.len() ==> (#[trigger] moves@[k]).on_board(),
            items@.len() == i,
            forall|k: int| 0 <= k < i ==> #[trigger] items@[k] == scored(game@, moves@[k]),
        decreases moves.len() - i,
    {
        let item = score_move(game, moves[i]);
        items.push(item);
        i = i + 1;
    }
    assert(items@ =~= scored_all(game@, moves@));
    items
}

/// `items` by descending score; items of one score keep their order.
pub fn sort_by_score(items: &Vec<Scored>) -> (sorted: Vec<Scored>)
    ensures
        sorted@ == by_score(items@),
        sorted@.len() == items@.len(),
        sorted@.to_multiset() == items@.to_multiset(),
        descending(sorted@),
        forall|score: int| #[trigger] of_score(sorted@, score) == of_score(items@, score),
{
    let mut sorted: Vec<Scored> = Vec::new();
    let mut i: usize = 0;
    while i < items.len()
        invariant
            i <= items.len(),
            sorted@ == by_score(items@.take(i as int)),
            sorted@.len() == i,
        decreases items.len() - i,
    {
        let item = items[i];
        let mut j: usize = 0;
        while j < sorted.len() && sorted[j].score >= item.score
            invariant
                j <= sorted.len(),
                forall|k: int| 0 <= k < j ==> sorted@[k].score >= item.score,
            decreases sorted.len() - j,
        {
            j = j + 1;
        }
        proof {
            lemma_slot_found(sorted@, item.score as int, j as int);
            let longer = items@.take(i + 1);
            assert(longer.drop_last() == items@.take(i as int));
            assert(longer.last() == item);
        }
        sorted.insert(j, item);
        i = i + 1;
    }
    proof {
        assert(items@.take(items.len() as int) == items@);
        lemma_by_score(items@);
        assert forall|score: int| #[trigger] of_score(sorted@, score) == of_score(items@, score) by {
            lemma_ties_keep_order(items@, score);
        }
    }
    sorted
}

/// `moves` by descending score; moves of one score keep their order.
pub fn order_moves(game: &Game, moves: &Vec<Move>) -> (sorted: Vec<Move>)
    requires
        forall|i: int| 0 <= i < moves@.len() ==> game@.legal_moves().contains(#[trigger] moves@[i]),
        forall|i: int| 0 <= i < moves@.len() ==> (#[trigger] moves@[i]).on_board(),
    ensures
        sorted@ == ordered(game@, moves@),
        sorted@.len() == moves@.len(),
        forall|m: Move| sorted@.contains(m) <==> moves@.contains(m),
{
    let items = sort_by_score(&score_moves(game, moves));
    let mut sorted: Vec<Move> = Vec::new();
    let mut i: usize = 0;
    while i < items.len()
        invariant
            i <= items.len(),
            sorted@.len() == i,
            forall|k: int| 0 <= k < i ==> sorted@[k] == items@[k].mv,
        decreases items.len() - i,
    {
        sorted.push(items[i].mv);
        i = i + 1;
    }
    proof {
        assert(sorted@ =~= moves_of(items@));
        lemma_ordered_same_moves(game@, moves@);
    }
    sorted
}

} // verus!
