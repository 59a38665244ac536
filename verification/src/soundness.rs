//! Alpha-beta soundness: inside its window the search finds the value of the
//! plain minimax search, which looks at every move.

use vstd::prelude::*;
use crate::chess_move::Move;
use crate::game::GameView;
use crate::ordering::ordered;
use crate::score::{discounted, INFINITY};
use crate::ordering::lemma_ordered_same_moves;
use crate::search::{
    captures_and_checks, delta_pruned, is_endgame, lemma_captures_are_legal, lemma_empty_line,
    lemma_line_behind, line_playable, negamax, negamax_moves, quiesce, quiesce_moves, stand_pat,
    terminal_value, Tagged,
};

verus! {

/// The larger of two scores.
pub open spec fn larger(a: int, b: int) -> int {
    if a >= b {
        a
    } else {
        b
    }
}

/// The value of the quiescence search of `g` that looks at every capture and
/// check: the best of the discounted static value and of what each move
/// leaves to the other side, negated.
pub open spec fn quiet_value(g: GameView, fuel: nat) -> Option<int>
    decreases fuel, 0nat,
{
    if fuel == 0 {
        None
    } else if g.result() is Some {
        Some(discounted(terminal_value(g)))
    } else if g.drawable() {
        Some(0int)
    } else {
        quiet_moves(g, captures_and_checks(g), stand_pat(g), (fuel - 1) as nat)
    }
}

/// The best of `best` and of what each of `items` leaves to the other side,
/// negated.
pub open spec fn quiet_moves(g: GameView, items: Seq<Tagged>, best: int, fuel: nat) -> Option<int>
    decreases fuel, items.len() + 1,
{
    if items.len() == 0 {
        Some(best)
    } else {
        match quiet_value(g.after(items[0].0), fuel) {
            None => None,
            Some(below) => quiet_moves(g, items.skip(1), larger(best, -below), fuel),
        }
    }
}

/// The value of the minimax search of `g` to `depth` plies: it tries the
/// moves in the order of the alpha-beta search, cuts none off, and ends in
/// the quiescence search with the widest window.
pub open spec fn minimax(g: GameView, depth: nat, fuel: nat) -> Option<int>
    decreases fuel, 0nat,
{
    if fuel == 0 {
        None
    } else if g.result() is Some {
        Some(terminal_value(g))
    } else if g.drawable() {
        Some(0int)
    } else if depth == 0 {
        match quiesce(g, -INFINITY as int, INFINITY as int, (fuel - 1) as nat) {
            None => None,
            Some((score, _)) => Some(score),
        }
    } else {
        minimax_moves(
            g,
            ordered(g, g.legal_moves()),
            depth,
            -INFINITY as int,
            (fuel - 1) as nat,
        )
    }
}

/// The best of `best` and of what each of `moves` leaves to the other side
/// after a minimax search to one ply less, negated.
pub open spec fn minimax_moves(g: GameView, moves: Seq<Move>, depth: nat, best: int, fuel: nat) -> Option<
    int,
>
    decreases fuel, moves.len() + 1,
{
    if moves.len() == 0 {
        Some(best)
    } else {
        match minimax(g.after(moves[0]), (depth - 1) as nat, fuel) {
            None => None,
            Some(below) => minimax_moves(g, moves.skip(1), depth, larger(best, -below), fuel),
        }
    }
}

/// Whether no endgame is reached by any `plies` legal moves or fewer from `g`,
/// so that a search that goes no deeper passes over no capture.
pub open spec fn never_endgame(g: GameView, plies: nat) -> bool {
    forall|line: Seq<Move>|
        #[trigger] line_playable(g, line) && line.len() <= plies ==> !is_endgame(
            g.after_line(line),
        )
}

/// Whether the score `found` in the window from `alpha` to `beta` agrees with
/// the value `value`: inside the window it is the value; at or under `alpha`
/// the value is no more than `alpha`; at or over `beta` it is no less than
/// `beta`.
pub open spec fn agrees(found: int, value: int, alpha: int, beta: int) -> bool {
    &&& alpha < found < beta ==> found == value
    &&& found <= alpha ==> value <= alpha
    &&& found >= beta ==> value >= beta
}

/// A game that reaches no endgame is none.
proof fn lemma_never_endgame_here(g: GameView, plies: nat)
    requires
        never_endgame(g, plies),
    ensures
        !is_endgame(g),
{
    lemma_empty_line(g);
}

/// A game that reaches no endgame within some plies reaches none within
/// fewer.
proof fn lemma_never_endgame_fewer(g: GameView, plies: nat, fewer: nat)
    requires
        never_endgame(g, plies),
        fewer <= plies,
    ensures
        never_endgame(g, fewer),
{
}

/// A game that reaches no endgame within some plies reaches none within one
/// ply less after each of its legal moves.
proof fn lemma_never_endgame_after(g: GameView, m: Move, plies: nat)
    requires
        never_endgame(g, plies),
        plies >= 1,
        g.legal_moves().contains(m),
    ensures
        never_endgame(g.after(m), (plies - 1) as nat),
{
    assert forall|line: Seq<Move>| #[trigger]
        line_playable(g.after(m), line) && line.len() <= plies - 1 implies !is_endgame(
        g.after(m).after_line(line),
    ) by {
        lemma_line_behind(g, m, line);
    }
}

/// The best over some moves is no less than the best before them.
proof fn lemma_quiet_moves_at_least(g: GameView, items: Seq<Tagged>, best: int, fuel: nat)
    requires
        quiet_moves(g, items, best, fuel) is Some,
    ensures
        quiet_moves(g, items, best, fuel).unwrap() >= best,
    decreases items.len(),
{
    if items.len() > 0 {
        let below = quiet_value(g.after(items[0].0), fuel).unwrap();
        lemma_quiet_moves_at_least(g, items.skip(1), larger(best, -below), fuel);
    }
}

/// The best over some moves is no less than the best before them.
proof fn lemma_minimax_moves_at_least(g: GameView, moves: Seq<Move>, depth: nat, best: int, fuel: nat)
    requires
        minimax_moves(g, moves, depth, best, fuel) is Some,
    ensures
        minimax_moves(g, moves, depth, best, fuel).unwrap() >= best,
    decreases moves.len(),
{
    if moves.len() > 0 {
        let below = minimax(g.after(moves[0]), (depth - 1) as nat, fuel).unwrap();
        lemma_minimax_moves_at_least(g, moves.skip(1), depth, larger(best, -below), fuel);
    }
}

/// In a game that reaches no endgame as far as the fuel lasts, the quiescence
/// search agrees in its window with the search that looks at every capture
/// and check.
pub proof fn lemma_quiesce_agrees(g: GameView, alpha: int, beta: int, fuel: nat)
    requires
        alpha < beta,
        never_endgame(g, fuel),
        quiesce(g, alpha, beta, fuel) is Some,
        quiet_value(g, fuel) is Some,
    ensures
        agrees(quiesce(g, alpha, beta, fuel).unwrap().0, quiet_value(g, fuel).unwrap(), alpha, beta),
    decreases fuel, 0nat,
{
    lemma_never_endgame_here(g, fuel);
    lemma_captures_are_legal(g);
    if g.result() is Some || g.drawable() {
    } else {
        let stand = stand_pat(g);
        let items = captures_and_checks(g);
        if stand >= beta {
            lemma_quiet_moves_at_least(g, items, stand, (fuel - 1) as nat);
        } else {
            lemma_quiesce_moves_agrees(
                g,
                items,
                stand,
                alpha,
                larger(alpha, stand),
                beta,
                0,
                stand,
                (fuel - 1) as nat,
            );
        }
    }
}

/// The quiescence search over the moves that are left agrees with the search
/// that looks at every move, where its best score so far is the larger of
/// `alpha` and the other's best.
proof fn lemma_quiesce_moves_agrees(
    g: GameView,
    items: Seq<Tagged>,
    stand: int,
    alpha: int,
    current: int,
    beta: int,
    nodes: nat,
    best: int,
    fuel: nat,
)
    requires
        current < beta,
        current == larger(alpha, best),
        never_endgame(g, fuel + 1),
        forall|i: int| 0 <= i < items.len() ==> g.legal_moves().contains((#[trigger] items[i]).0),
        quiesce_moves(g, items, stand, current, beta, nodes, fuel) is Some,
        quiet_moves(g, items, best, fuel) is Some,
    ensures
        agrees(
            quiesce_moves(g, items, stand, current, beta, nodes, fuel).unwrap().0,
            quiet_moves(g, items, best, fuel).unwrap(),
            alpha,
            beta,
        ),
    decreases fuel, items.len() + 1,
{
    if items.len() == 0 {
    } else {
        let m = items[0].0;
        lemma_never_endgame_here(g, fuel + 1);
        lemma_never_endgame_after(g, m, fuel + 1);
        assert(!delta_pruned(g, items[0], stand, current));
        assert forall|i: int| 0 <= i < items.skip(1).len() implies g.legal_moves().contains(
            (#[trigger] items.skip(1)[i]).0,
        ) by {
            assert(items.skip(1)[i] == items[i + 1]);
        }
        let child = g.after(m);
        lemma_quiesce_agrees(child, -beta, -current, fuel);
        let below = quiesce(child, -beta, -current, fuel).unwrap();
        let pure = quiet_value(child, fuel).unwrap();
        let score = -below.0;
        let visited = nodes + 1 + below.1;
        if score >= beta {
            lemma_quiet_moves_at_least(g, items.skip(1), larger(best, -pure), fuel);
        } else {
            lemma_quiesce_moves_agrees(
                g,
                items.skip(1),
                stand,
                alpha,
                if score > current {
                    score
                } else {
                    current
                },
                beta,
                visited,
                larger(best, -pure),
                fuel,
            );
        }
    }
}

/// In a game that reaches no endgame as far as the fuel lasts, the quiescence
/// search agrees in its window with the quiescence search in the widest
/// window.
pub proof fn lemma_quiesce_agrees_with_widest(g: GameView, alpha: int, beta: int, fuel: nat)
    requires
        -INFINITY <= alpha < beta <= INFINITY,
        never_endgame(g, fuel),
        quiesce(g, alpha, beta, fuel) is Some,
        quiesce(g, -INFINITY as int, INFINITY as int, fuel) is Some,
        quiet_value(g, fuel) is Some,
    ensures
        agrees(
            quiesce(g, alpha, beta, fuel).unwrap().0,
            quiesce(g, -INFINITY as int, INFINITY as int, fuel).unwrap().0,
            alpha,
            beta,
        ),
{
    lemma_quiesce_agrees(g, alpha, beta, fuel);
    lemma_quiesce_agrees(g, -INFINITY as int, INFINITY as int, fuel);
}

/// Whether fuel lasts for the search that looks at every capture and check at
/// each leaf of the minimax search of `g` to `depth` plies.
pub open spec fn quiet_lasts(g: GameView, depth: nat, fuel: nat) -> bool
    decreases fuel, 0nat,
{
    if fuel == 0 || g.result() is Some || g.drawable() {
        true
    } else if depth == 0 {
        quiet_value(g, (fuel - 1) as nat) is Some
    } else {
        quiet_lasts_moves(g, ordered(g, g.legal_moves()), depth, (fuel - 1) as nat)
    }
}

/// Whether fuel lasts for the search that looks at every capture and check
/// below each of `moves`.
pub open spec fn quiet_lasts_moves(g: GameView, moves: Seq<Move>, depth: nat, fuel: nat) -> bool
    decreases fuel, moves.len() + 1,
{
    moves.len() == 0 || (quiet_lasts(g.after(moves[0]), (depth - 1) as nat, fuel)
        && quiet_lasts_moves(g, moves.skip(1), depth, fuel))
}

/// The alpha-beta search over the moves that are left agrees with the minimax
/// search over them, where its best score so far is the larger of `alpha` and
/// the other's best.
proof fn lemma_alpha_beta_moves_sound(
    g: GameView,
    moves: Seq<Move>,
    depth: nat,
    alpha: int,
    current: int,
    beta: int,
    line: Seq<Move>,
    nodes: nat,
    best: int,
    fuel: nat,
)
    requires
        depth > 0,
        -INFINITY <= alpha <= current < beta <= INFINITY,
        current == larger(alpha, best),
        never_endgame(g, fuel + 1),
        forall|i: int| 0 <= i < moves.len() ==> g.legal_moves().contains(#[trigger] moves[i]),
        negamax_moves(g, moves, depth, current, beta, line, nodes, fuel) is Some,
        minimax_moves(g, moves, depth, best, fuel) is Some,
        quiet_lasts_moves(g, moves, depth, fuel),
    ensures
        agrees(
            negamax_moves(g, moves, depth, current, beta, line, nodes, fuel).unwrap().score,
            minimax_moves(g, moves, depth, best, fuel).unwrap(),
            alpha,
            beta,
        ),
    decreases fuel, moves.len() + 1,
{
    if moves.len() == 0 {
    } else {
        let m = moves[0];
        lemma_never_endgame_after(g, m, fuel + 1);
        assert forall|i: int| 0 <= i < moves.skip(1).len() implies g.legal_moves().contains(
            #[trigger] moves.skip(1)[i],
        ) by {
            assert(moves.skip(1)[i] == moves[i + 1]);
        }
        let child = g.after(m);
        lemma_alpha_beta_sound(child, (depth - 1) as nat, -beta, -current, fuel);
        let below = negamax(child, (depth - 1) as nat, -beta, -current, fuel).unwrap();
        let pure = minimax(child, (depth - 1) as nat, fuel).unwrap();
        let score = -below.score;
        let visited = nodes + below.nodes;
        if score >= beta {
            lemma_minimax_moves_at_least(g, moves.skip(1), depth, larger(best, -pure), fuel);
        } else if score > current {
            lemma_alpha_beta_moves_sound(
                g,
                moves.skip(1),
                depth,
                alpha,
                score,
                beta,
                seq![m] + below.line,
                visited,
                larger(best, -pure),
                fuel,
            );
        } else {
            lemma_alpha_beta_moves_sound(
                g,
                moves.skip(1),
                depth,
                alpha,
                current,
                beta,
                line,
                visited,
                larger(best, -pure),
                fuel,
            );
        }
    }
}

/// Alpha-beta soundness. In a game that reaches no endgame as far as the fuel
/// lasts, the alpha-beta search agrees in its window with the minimax search
/// to the same depth: a score strictly inside the window is the minimax
/// value, a score at or under `alpha` says that the value is no more than
/// `alpha`, and a score at or over `beta` that it is no less than `beta`. Fuel
/// must last for both searches and for the search that looks at every capture
/// and check. In an endgame the quiescence search passes over captures by what
/// they seem to win, and the two searches can differ.
pub proof fn lemma_alpha_beta_sound(g: GameView, depth: nat, alpha: int, beta: int, fuel: nat)
    requires
        -INFINITY <= alpha < beta <= INFINITY,
        never_endgame(g, fuel),
        negamax(g, depth, alpha, beta, fuel) is Some,
        minimax(g, depth, fuel) is Some,
        quiet_lasts(g, depth, fuel),
    ensures
        agrees(
            negamax(g, depth, alpha, beta, fuel).unwrap().score,
            minimax(g, depth, fuel).unwrap(),
            alpha,
            beta,
        ),
    decreases fuel, 0nat,
{
    if g.result() is Some || g.drawable() {
    } else if depth == 0 {
        lemma_never_endgame_fewer(g, fuel, (fuel - 1) as nat);
        lemma_quiesce_agrees_with_widest(g, alpha, beta, (fuel - 1) as nat);
    } else {
        lemma_ordered_same_moves(g, g.legal_moves());
        let moves = ordered(g, g.legal_moves());
        assert forall|i: int| 0 <= i < moves.len() implies g.legal_moves().contains(
            #[trigger] moves[i],
        ) by {
            assert(moves.contains(moves[i]));
        }
        lemma_alpha_beta_moves_sound(
            g,
            ordered(g, g.legal_moves()),
            depth,
            alpha,
            alpha,
            beta,
            Seq::<Move>::empty(),
            1,
            -INFINITY as int,
            (fuel - 1) as nat,
        );
    }
}

} // verus!
