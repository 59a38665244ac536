//! What the search computes, as mathematics over the record of a game.
//!
//! The search visits a tree that the rules unfold. Each visit costs one unit
//! of fuel on the way down; a function here has a value only where the fuel
//! lasts to every leaf that it visits.

use vstd::prelude::*;
use crate::chess_move::Move;
use crate::game::GameView;
use crate::heuristic::{position_value, result_value};
use crate::ordering::{by_score, ordered, scored_all, Scored};
use crate::piece::{material, PAWN_VALUE};
use crate::ordering::lemma_ordered_same_moves;
use crate::score::{discounted, LOSS_VALUE, TICKS_PER_CENTIPAWN, WIN_VALUE};

verus! {

/// Centipawns that no capture is taken to win back in an endgame.
pub const DELTA_MARGIN: i64 = 1_000;

/// The greatest number of pieces on the board of an endgame.
pub const ENDGAME_PIECES: u8 = 8;

/// What a search of one node brings back.
pub struct Found {
    pub score: int,
    /// The principal variation: the best moves found, in the order of play.
    pub line: Seq<Move>,
    /// The number of nodes that were visited.
    pub nodes: nat,
}

/// A move of the quiescence search with its marks: whether it lands on an
/// occupied square, and whether a pawn changes file.
pub type Tagged = (Move, bool, bool);

/// The value of a finished game for the side to move.
pub open spec fn terminal_value(g: GameView) -> int {
    match g.result() {
        Some(r) => result_value(r, g.position().side_to_move),
        None => 0,
    }
}

/// The discounted static value of the board.
pub open spec fn stand_pat(g: GameView) -> int {
    discounted(position_value(g.position()))
}

/// Whether so few pieces are left that hopeless captures are passed over.
pub open spec fn is_endgame(g: GameView) -> bool {
    g.position().occupied(64) <= ENDGAME_PIECES
}

/// Whether a move captures, moves a pawn to another file, or gives check.
pub open spec fn is_tactical(item: Scored) -> bool {
    item.capture || item.en_passant || item.check
}

/// The tactical moves among `items`, in their order, with their marks.
pub open spec fn tactical_of(items: Seq<Scored>) -> Seq<Tagged>
    decreases items.len(),
{
    if items.len() == 0 {
        Seq::<Tagged>::empty()
    } else if is_tactical(items.last()) {
        tactical_of(items.drop_last()).push(
            (items.last().mv, items.last().capture, items.last().en_passant),
        )
    } else {
        tactical_of(items.drop_last())
    }
}

/// The moves that the quiescence search tries: the legal moves that capture,
/// move a pawn to another file or give check, in the order of their scores.
pub open spec fn captures_and_checks(g: GameView) -> Seq<Tagged> {
    tactical_of(by_score(scored_all(g, g.legal_moves())))
}

/// The value, in ticks, of what stands on the square that `m` reaches.
pub open spec fn victim_value(g: GameView, m: Move) -> int {
    match g.position().squares[m.to as int] {
        Some((piece, _)) => material(piece) * TICKS_PER_CENTIPAWN,
        None => 0,
    }
}

/// Whether the move `item` is passed over: in an endgame, where even winning
/// the victim and a pawn more would leave the score under `alpha`.
pub open spec fn delta_pruned(g: GameView, item: Tagged, stand: int, alpha: int) -> bool {
    is_endgame(g) && ((item.2 && stand + PAWN_VALUE * TICKS_PER_CENTIPAWN < alpha) || (item.1
        && victim_value(g, item.0) + PAWN_VALUE * TICKS_PER_CENTIPAWN + stand < alpha))
}

/// The quiescence search of `g` in the window from `alpha` to `beta`: the
/// score and the number of nodes below `g`.
pub open spec fn quiesce(g: GameView, alpha: int, beta: int, fuel: nat) -> Option<(int, nat)>
    decreases fuel, 0nat,
{
    if fuel == 0 {
        None
    } else if g.result() is Some {
        Some((discounted(terminal_value(g)), 0nat))
    } else if g.drawable() {
        Some((0int, 0nat))
    } else {
        let stand = stand_pat(g);
        if stand >= beta {
            Some((beta, 0nat))
        } else if is_endgame(g) && stand < alpha - DELTA_MARGIN * TICKS_PER_CENTIPAWN {
            Some((alpha, 0nat))
        } else {
            quiesce_moves(
                g,
                captures_and_checks(g),
                stand,
                if stand > alpha {
                    stand
                } else {
                    alpha
                },
                beta,
                0,
                (fuel - 1) as nat,
            )
        }
    }
}

/// The quiescence search of `g` over the moves `items` that are left to try,
/// `alpha` being the best score and `nodes` the count so far.
pub open spec fn quiesce_moves(
    g: GameView,
    items: Seq<Tagged>,
    stand: int,
    alpha: int,
    beta: int,
    nodes: nat,
    fuel: nat,
) -> Option<(int, nat)>
    decreases fuel, items.len() + 1,
{
    if items.len() == 0 {
        Some((alpha, nodes))
    } else if delta_pruned(g, items[0], stand, alpha) {
        quiesce_moves(g, items.skip(1), stand, alpha, beta, nodes, fuel)
    } else {
        match quiesce(g.after(items[0].0), -beta, -alpha, fuel) {
            None => None,
            Some((below, count)) => {
                let score = -below;
                let visited = nodes + 1 + count;
                if score >= beta {
                    Some((beta, visited))
                } else {
                    quiesce_moves(
                        g,
                        items.skip(1),
                        stand,
                        if score > alpha {
                            score
                        } else {
                            alpha
                        },
                        beta,
                        visited,
                        fuel,
                    )
                }
            },
        }
    }
}

/// The fail-hard alpha-beta search of `g` to `depth` plies in the window from
/// `alpha` to `beta`.
pub open spec fn negamax(g: GameView, depth: nat, alpha: int, beta: int, fuel: nat) -> Option<Found>
    decreases fuel, 0nat,
{
    if fuel == 0 {
        None
    } else if g.result() is Some {
        Some(Found { score: terminal_value(g), line: Seq::<Move>::empty(), nodes: 1 })
    } else if g.drawable() {
        Some(Found { score: 0, line: Seq::<Move>::empty(), nodes: 1 })
    } else if depth == 0 {
        match quiesce(g, alpha, beta, (fuel - 1) as nat) {
            None => None,
            Some((score, count)) => Some(
                Found { score, line: Seq::<Move>::empty(), nodes: 1 + count },
            ),
        }
    } else {
        negamax_moves(
            g,
            ordered(g, g.legal_moves()),
            depth,
            alpha,
            beta,
            Seq::<Move>::empty(),
            1,
            (fuel - 1) as nat,
        )
    }
}

/// The search of `g` over the moves `moves` that are left to try, `alpha`
/// being the best score, `best` its line and `nodes` the count so far.
pub open spec fn negamax_moves(
    g: GameView,
    moves: Seq<Move>,
    depth: nat,
    alpha: int,
    beta: int,
    best: Seq<Move>,
    nodes: nat,
    fuel: nat,
) -> Option<Found>
    decreases fuel, moves.len() + 1,
{
    if moves.len() == 0 {
        Some(Found { score: alpha, line: best, nodes })
    } else {
        match negamax(g.after(moves[0]), (depth - 1) as nat, -beta, -alpha, fuel) {
            None => None,
            Some(below) => {
                let score = -below.score;
                let visited = nodes + below.nodes;
                if score >= beta {
                    Some(Found { score: beta, line: Seq::<Move>::empty(), nodes: visited })
                } else if score > alpha {
                    negamax_moves(
                        g,
                        moves.skip(1),
                        depth,
                        score,
                        beta,
                        seq![moves[0]] + below.line,
                        visited,
                        fuel,
                    )
                } else {
                    negamax_moves(g, moves.skip(1), depth, alpha, beta, best, visited, fuel)
                }
            },
        }
    }
}

/// Whether the moves of `line` can be played from `g`, each being legal when
/// its turn comes.
pub open spec fn line_playable(g: GameView, line: Seq<Move>) -> bool
    decreases line.len(),
{
    line.len() == 0 || (g.legal_moves().contains(line[0]) && line_playable(
        g.after(line[0]),
        line.skip(1),
    ))
}

/// Whether the discounted static value stays between a loss and a win
/// whatever legal moves are played from `g`.
pub open spec fn steady(g: GameView) -> bool {
    forall|line: Seq<Move>|
        #[trigger] line_playable(g, line) ==> LOSS_VALUE <= stand_pat(g.after_line(line))
            <= WIN_VALUE
}

/// Whether `score` is a value of no more than `bound` either way, cut to the
/// window from `alpha` to `beta`: it lies between `-bound` and `bound`, or it
/// is the bound `alpha` above `bound`, or the bound `beta` below `-bound`.
pub open spec fn within(score: int, alpha: int, beta: int, bound: int) -> bool {
    ||| -bound <= score <= bound
    ||| score == alpha && alpha > bound
    ||| score == beta && beta < -bound
}

/// Playing a legal move and a line that can be played behind it is playing
/// one line that can be played, and leads to the same game.
pub proof fn lemma_line_behind(g: GameView, m: Move, line: Seq<Move>)
    requires
        g.legal_moves().contains(m),
        line_playable(g.after(m), line),
    ensures
        line_playable(g, seq![m] + line),
        g.after(m).after_line(line) == g.after_line(seq![m] + line),
{
    let longer = seq![m] + line;
    assert(longer[0] == m);
    assert(longer.skip(1) == line);
    assert(g.after(m).after_line(line).played =~= g.after_line(longer).played);
}

/// The empty line can be played and leads nowhere.
pub proof fn lemma_empty_line(g: GameView)
    ensures
        line_playable(g, Seq::<Move>::empty()),
        g.after_line(Seq::<Move>::empty()) == g,
{
    assert(g.after_line(Seq::<Move>::empty()).played =~= g.played);
}

/// A steady game has a discounted static value between a loss and a win.
pub proof fn lemma_steady_here(g: GameView)
    requires
        steady(g),
    ensures
        LOSS_VALUE <= stand_pat(g) <= WIN_VALUE,
{
    lemma_empty_line(g);
}

/// What holds of a steady game holds after each of its legal moves.
pub proof fn lemma_steady_after(g: GameView, m: Move)
    requires
        steady(g),
        g.legal_moves().contains(m),
    ensures
        steady(g.after(m)),
{
    assert forall|line: Seq<Move>| #[trigger] line_playable(g.after(m), line) implies LOSS_VALUE
        <= stand_pat(g.after(m).after_line(line)) <= WIN_VALUE by {
        lemma_line_behind(g, m, line);
    }
}

/// Every move that the quiescence search tries is legal.
pub proof fn lemma_captures_are_legal(g: GameView)
    ensures
        forall|i: int|
            0 <= i < captures_and_checks(g).len() ==> g.legal_moves().contains(
                (#[trigger] captures_and_checks(g)[i]).0,
            ),
{
    let items = by_score(scored_all(g, g.legal_moves()));
    lemma_ordered_same_moves(g, g.legal_moves());
    assert forall|k: int| 0 <= k < items.len() implies g.legal_moves().contains(
        (#[trigger] items[k]).mv,
    ) by {
        assert(ordered(g, g.legal_moves())[k] == items[k].mv);
        assert(ordered(g, g.legal_moves()).contains(items[k].mv));
    }
    lemma_tactical_come_from(items);
}

/// Every tactical move comes from the list that it was picked from.
proof fn lemma_tactical_come_from(items: Seq<Scored>)
    ensures
        forall|i: int|
            0 <= i < tactical_of(items).len() ==> exists|k: int|
                0 <= k < items.len() && (#[trigger] tactical_of(items)[i]).0 == items[k].mv,
    decreases items.len(),
{
    if items.len() > 0 {
        let rest = items.drop_last();
        lemma_tactical_come_from(rest);
        assert forall|i: int| 0 <= i < tactical_of(items).len() implies exists|k: int|
            0 <= k < items.len() && (#[trigger] tactical_of(items)[i]).0 == items[k].mv by {
            if i < tactical_of(rest).len() {
                assert(tactical_of(items)[i] == tactical_of(rest)[i]);
                let k = choose|k: int| 0 <= k < rest.len() && tactical_of(rest)[i].0 == rest[k].mv;
                assert(items[k] == rest[k]);
            } else {
                assert(tactical_of(items)[i].0 == items[items.len() - 1].mv);
            }
        }
    }
}

/// The principal variation that the search finds can be played: each of its
/// moves is legal in the position that the moves before it lead to.
pub proof fn lemma_negamax_line(g: GameView, depth: nat, alpha: int, beta: int, fuel: nat)
    requires
        negamax(g, depth, alpha, beta, fuel) is Some,
    ensures
        line_playable(g, negamax(g, depth, alpha, beta, fuel)->0.line),
    decreases fuel, 0nat,
{
    if g.result() is Some || g.drawable() || depth == 0 {
    } else {
        lemma_ordered_same_moves(g, g.legal_moves());
        lemma_negamax_moves_line(
            g,
            ordered(g, g.legal_moves()),
            depth,
            alpha,
            beta,
            Seq::<Move>::empty(),
            1,
            (fuel - 1) as nat,
        );
    }
}

/// The line found over the moves that are left can be played, where the best
/// line so far can and the moves left are legal.
pub proof fn lemma_negamax_moves_line(
    g: GameView,
    moves: Seq<Move>,
    depth: nat,
    alpha: int,
    beta: int,
    best: Seq<Move>,
    nodes: nat,
    fuel: nat,
)
    requires
        negamax_moves(g, moves, depth, alpha, beta, best, nodes, fuel) is Some,
        line_playable(g, best),
        forall|i: int| 0 <= i < moves.len() ==> g.legal_moves().contains(#[trigger] moves[i]),
    ensures
        line_playable(g, negamax_moves(g, moves, depth, alpha, beta, best, nodes, fuel)->0.line),
    decreases fuel, moves.len() + 1,
{
    if moves.len() == 0 {
    } else {
        let rest = moves.skip(1);
        assert forall|i: int| 0 <= i < rest.len() implies g.legal_moves().contains(
            #[trigger] rest[i],
        ) by {
            assert(rest[i] == moves[i + 1]);
        }
        match negamax(g.after(moves[0]), (depth - 1) as nat, -beta, -alpha, fuel) {
            None => {},
            Some(below) => {
                lemma_negamax_line(g.after(moves[0]), (depth - 1) as nat, -beta, -alpha, fuel);
                let score = -below.score;
                let visited = nodes + below.nodes;
                if score >= beta {
                } else if score > alpha {
                    let line = seq![moves[0]] + below.line;
                    assert(line[0] == moves[0]);
                    assert(line.skip(1) == below.line);
                    lemma_negamax_moves_line(g, rest, depth, score, beta, line, visited, fuel);
                } else {
                    lemma_negamax_moves_line(g, rest, depth, alpha, beta, best, visited, fuel);
                }
            },
        }
    }
}

/// A search counts at least the node that it starts from.
pub proof fn lemma_negamax_counts(g: GameView, depth: nat, alpha: int, beta: int, fuel: nat)
    requires
        negamax(g, depth, alpha, beta, fuel) is Some,
    ensures
        negamax(g, depth, alpha, beta, fuel)->0.nodes >= 1,
{
    if g.result() is Some || g.drawable() || depth == 0 {
    } else {
        lemma_negamax_moves_counts(
            g,
            ordered(g, g.legal_moves()),
            depth,
            alpha,
            beta,
            Seq::<Move>::empty(),
            1,
            (fuel - 1) as nat,
        );
    }
}

/// A search over the moves that are left counts no fewer nodes than were
/// counted before.
pub proof fn lemma_negamax_moves_counts(
    g: GameView,
    moves: Seq<Move>,
    depth: nat,
    alpha: int,
    beta: int,
    best: Seq<Move>,
    nodes: nat,
    fuel: nat,
)
    requires
        negamax_moves(g, moves, depth, alpha, beta, best, nodes, fuel) is Some,
    ensures
        negamax_moves(g, moves, depth, alpha, beta, best, nodes, fuel)->0.nodes >= nodes,
    decreases moves.len(),
{
    if moves.len() == 0 {
    } else {
        match negamax(g.after(moves[0]), (depth - 1) as nat, -beta, -alpha, fuel) {
            None => {},
            Some(below) => {
                let score = -below.score;
                let visited = nodes + below.nodes;
                if score >= beta {
                } else if score > alpha {
                    lemma_negamax_moves_counts(
                        g,
                        moves.skip(1),
                        depth,
                        score,
                        beta,
                        seq![moves[0]] + below.line,
                        visited,
                        fuel,
                    );
                } else {
                    lemma_negamax_moves_counts(
                        g,
                        moves.skip(1),
                        depth,
                        alpha,
                        beta,
                        best,
                        visited,
                        fuel,
                    );
                }
            },
        }
    }
}

/// More fuel does not change what the quiescence search finds.
pub proof fn lemma_quiesce_fuel(g: GameView, alpha: int, beta: int, fuel: nat, more: nat)
    requires
        fuel <= more,
        quiesce(g, alpha, beta, fuel) is Some,
    ensures
        quiesce(g, alpha, beta, more) == quiesce(g, alpha, beta, fuel),
    decreases fuel, 0nat,
{
    if g.result() is Some || g.drawable() {
    } else {
        let stand = stand_pat(g);
        if stand >= beta {
        } else if is_endgame(g) && stand < alpha - DELTA_MARGIN * TICKS_PER_CENTIPAWN {
        } else {
            lemma_quiesce_moves_fuel(
                g,
                captures_and_checks(g),
                stand,
                if stand > alpha {
                    stand
                } else {
                    alpha
                },
                beta,
                0,
                (fuel - 1) as nat,
                (more - 1) as nat,
            );
        }
    }
}

/// More fuel does not change what the quiescence search finds over the moves
/// that are left.
pub proof fn lemma_quiesce_moves_fuel(
    g: GameView,
    items: Seq<Tagged>,
    stand: int,
    alpha: int,
    beta: int,
    nodes: nat,
    fuel: nat,
    more: nat,
)
    requires
        fuel <= more,
        quiesce_moves(g, items, stand, alpha, beta, nodes, fuel) is Some,
    ensures
        quiesce_moves(g, items, stand, alpha, beta, nodes, more) == quiesce_moves(
            g,
            items,
            stand,
            alpha,
            beta,
            nodes,
            fuel,
        ),
    decreases fuel, items.len() + 1,
{
    if items.len() == 0 {
    } else if delta_pruned(g, items[0], stand, alpha) {
        lemma_quiesce_moves_fuel(g, items.skip(1), stand, alpha, beta, nodes, fuel, more);
    } else {
        lemma_quiesce_fuel(g.after(items[0].0), -beta, -alpha, fuel, more);
        match quiesce(g.after(items[0].0), -beta, -alpha, fuel) {
            None => {},
            Some((below, count)) => {
                let score = -below;
                let visited = nodes + 1 + count;
                if score >= beta {
                } else {
                    lemma_quiesce_moves_fuel(
                        g,
                        items.skip(1),
                        stand,
                        if score > alpha {
                            score
                        } else {
                            alpha
                        },
                        beta,
                        visited,
                        fuel,
                        more,
                    );
                }
            },
        }
    }
}

/// More fuel does not change what the search finds.
pub proof fn lemma_negamax_fuel(g: GameView, depth: nat, alpha: int, beta: int, fuel: nat, more: nat)
    requires
        fuel <= more,
        negamax(g, depth, alpha, beta, fuel) is Some,
    ensures
        negamax(g, depth, alpha, beta, more) == negamax(g, depth, alpha, beta, fuel),
    decreases fuel, 0nat,
{
    if g.result() is Some || g.drawable() {
    } else if depth == 0 {
        lemma_quiesce_fuel(g, alpha, beta, (fuel - 1) as nat, (more - 1) as nat);
    } else {
        lemma_negamax_moves_fuel(
            g,
            ordered(g, g.legal_moves()),
            depth,
            alpha,
            beta,
            Seq::<Move>::empty(),
            1,
            (fuel - 1) as nat,
            (more - 1) as nat,
        );
    }
}

/// More fuel does not change what the search finds over the moves that are
/// left.
pub proof fn lemma_negamax_moves_fuel(
    g: GameView,
    moves: Seq<Move>,
    depth: nat,
    alpha: int,
    beta: int,
    best: Seq<Move>,
    nodes: nat,
    fuel: nat,
    more: nat,
)
    requires
        fuel <= more,
        negamax_moves(g, moves, depth, alpha, beta, best, nodes, fuel) is Some,
    ensures
        negamax_moves(g, moves, depth, alpha, beta, best, nodes, more) == negamax_moves(
            g,
            moves,
            depth,
            alpha,
            beta,
            best,
            nodes,
            fuel,
        ),
    decreases fuel, moves.len() + 1,
{
    if moves.len() == 0 {
    } else {
        lemma_negamax_fuel(g.after(moves[0]), (depth - 1) as nat, -beta, -alpha, fuel, more);
        match negamax(g.after(moves[0]), (depth - 1) as nat, -beta, -alpha, fuel) {
            None => {},
            Some(below) => {
                let score = -below.score;
                let visited = nodes + below.nodes;
                if score >= beta {
                } else if score > alpha {
                    lemma_negamax_moves_fuel(
                        g,
                        moves.skip(1),
                        depth,
                        score,
                        beta,
                        seq![moves[0]] + below.line,
                        visited,
                        fuel,
                        more,
                    );
                } else {
                    lemma_negamax_moves_fuel(
                        g,
                        moves.skip(1),
                        depth,
                        alpha,
                        beta,
                        best,
                        visited,
                        fuel,
                        more,
                    );
                }
            },
        }
    }
}

} // verus!
