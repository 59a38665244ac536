//! The search: iterative deepening over a fail-hard alpha-beta search that
//! ends in a quiescence search, stopped by a command, the clock or the node
//! budget.

use vstd::prelude::*;
use crate::chess_move::Move;
use crate::engine_command::EngineCommand;
use crate::game::{Game, GameView};
use crate::heuristic::{Heuristic, STATIC_BOUND};
use crate::ordering::{
    order_moves, ordered, pawn_changes_file, score_moves, scored, scored_all, sort_by_score,
};
use crate::piece::{material, Color, PieceValue, PAWN_VALUE};
use crate::score::{
    bounded, discount, Score, INFINITY, LOSS_VALUE, TICKS_PER_CENTIPAWN, WIN_VALUE,
};
use crate::search::{
    captures_and_checks, delta_pruned, is_endgame, lemma_negamax_counts, lemma_negamax_fuel,
    lemma_negamax_line, lemma_quiesce_fuel, lemma_steady_after, lemma_steady_here, line_playable,
    negamax, negamax_moves, quiesce, quiesce_moves, stand_pat, steady, tactical_of, victim_value,
    within, Found, Tagged, DELTA_MARGIN, ENDGAME_PIECES,
};
use crate::search_options::{lesser_depth, Depth, SearchOptions, SearchOptionsView};

verus! {

/// Why a search was stopped.
#[derive(Clone, Copy, Debug, PartialEq, Eq, Structural)]
pub enum Halt {
    /// A command to stop was waiting.
    Stop,
    /// A command to quit was waiting.
    Quit,
    /// The time for the move was used up.
    TimeOut,
    /// The node budget was used up.
    Exhausted,
}

/// The outcome of a search that was stopped before it was done.
#[derive(Clone, Copy, Debug, PartialEq, Eq, Structural)]
pub struct Stopped;

/// The time options allow no budget: some clock is set, but neither a time
/// for the move nor the clock of the side to move.
#[derive(Clone, Copy, Debug, PartialEq, Eq, Structural)]
pub struct IncorrectTimeOptions;

/// The time for one move in microseconds, or `None` for no limit.
pub type TimeLimit = Option<i128>;

/// The time for one move that the options `v` allow the side `mover`, in
/// microseconds: no limit where no time is set; else the time for the move
/// where one is set; else a twentieth of the mover's clock, or with an
/// increment a tenth of the clock and the increment but never more than the
/// clock, in each case less the overhead.
pub open spec fn time_allowed(v: SearchOptionsView, mover: Color) -> Result<
    TimeLimit,
    IncorrectTimeOptions,
> {
    let clock = match mover {
        Color::White => v.white_time,
        Color::Black => v.black_time,
    } as int;
    let increment = match mover {
        Color::White => v.white_increment,
        Color::Black => v.black_increment,
    } as int;
    if v.move_time == 0 && v.white_time == 0 && v.white_increment == 0 && v.black_time == 0
        && v.black_increment == 0 {
        Ok(None)
    } else if v.move_time > 0 {
        Ok(Some((1000 * v.move_time) as i128))
    } else if clock == 0 {
        Err(IncorrectTimeOptions)
    } else if increment == 0 {
        Ok(Some((50 * clock - 1000 * v.move_overhead) as i128))
    } else {
        let share = 100 * clock + 1000 * increment - 1000 * v.move_overhead;
        let all = 1000 * clock - 1000 * v.move_overhead;
        Ok(
            Some(
                (if share <= all {
                    share
                } else {
                    all
                }) as i128,
            ),
        )
    }
}

/// Why a search that has looked at the channel and the clock stops, if it
/// does: for a waiting command to quit or to stop, or because more whole
/// milliseconds have passed than the limit allows.
pub open spec fn halt_due(stop: bool, quit: bool, elapsed_millis: u128, limit: TimeLimit) -> Option<
    Halt,
> {
    if quit {
        Some(Halt::Quit)
    } else if stop {
        Some(Halt::Stop)
    } else if limit matches Some(micros) && 1000 * elapsed_millis > micros {
        Some(Halt::TimeOut)
    } else {
        None
    }
}

/// Why a search that has looked at the channel and the clock stops, if it
/// does.
pub fn halt_reason(stop: bool, quit: bool, elapsed_millis: u128, limit: TimeLimit) -> (halt: Option<
    Halt,
>)
    ensures
        halt == halt_due(stop, quit, elapsed_millis, limit),
{
    if quit {
        Some(Halt::Quit)
    } else if stop {
        Some(Halt::Stop)
    } else {
        match limit {
            Some(micros) => {
                if micros < 0 {
                    Some(Halt::TimeOut)
                } else if elapsed_millis > 170_141_183_460_469_231_731_687_303_715_884_105 {
                    Some(Halt::TimeOut)
                } else if 1000 * elapsed_millis > micros as u128 {
                    Some(Halt::TimeOut)
                } else {
                    None
                }
            },
            None => None,
        }
    }
}

/// One finished iteration of the deepening search.
#[derive(Debug)]
pub struct SearchInfo {
    pub depth: u64,
    pub score: Score,
    /// The nodes of all iterations so far.
    pub nodes: u64,
    pub pv: Vec<Move>,
}

/// What the engine makes of a command.
#[derive(Clone, Copy, Debug, PartialEq, Eq, Structural)]
pub enum Accepted {
    /// The command ends the engine.
    Quit,
    /// The command stops a search; none is running.
    Idle,
    /// The command asks for a search that its time options do not allow.
    Refused,
    /// The clock is started: the search can begin.
    Ready,
}

/// What became of a command.
#[derive(Debug)]
pub enum Run {
    /// The command ends the engine.
    Quit,
    /// The command stops a search; none was running.
    Idle,
    /// The command asks for a search that its time options do not allow.
    Refused,
    /// The search was made.
    Searched(SearchReport),
}

/// How far a deepening search has come.
#[derive(Debug)]
pub struct SearchProgress {
    /// The depth of the last finished iteration.
    pub depth: u64,
    /// The nodes of all finished iterations.
    pub nodes: u64,
    /// The move to play as things stand.
    pub best_move: Option<Move>,
    /// No further iteration will be made.
    pub finished: bool,
}

/// What a deepening search has found: one entry for each finished iteration,
/// and the move to play.
#[derive(Debug)]
pub struct SearchReport {
    pub infos: Vec<SearchInfo>,
    pub best_move: Option<Move>,
}

/// Whether the search of `g` to `depth` plies in the widest window finds
/// `found`, given fuel enough.
pub open spec fn searched(g: GameView, depth: nat, found: Found) -> bool {
    exists|fuel: nat| #[trigger] negamax(g, depth, -INFINITY as int, INFINITY as int, fuel) == Some(
        found,
    )
}

/// Whether `info` is what the iteration to `depth` plies finds in `g`, the
/// iterations before it having visited `nodes_before` nodes.
pub open spec fn iteration_of(g: GameView, depth: nat, nodes_before: nat, info: SearchInfo) -> bool {
    &&& info.depth == depth
    &&& info.nodes >= nodes_before
    &&& searched(
        g,
        depth,
        Found {
            score: info.score as int,
            line: info.pv@,
            nodes: (info.nodes - nodes_before) as nat,
        },
    )
    &&& line_playable(g, info.pv@)
    &&& -STATIC_BOUND <= info.score <= STATIC_BOUND
    &&& steady(g) ==> LOSS_VALUE <= info.score <= WIN_VALUE
}

/// The nodes that the first `k` of `infos` have visited.
pub open spec fn nodes_before(infos: Seq<SearchInfo>, k: int) -> nat {
    if k <= 0 {
        0
    } else {
        infos[k - 1].nodes as nat
    }
}

/// The first move of the last of `infos` that has a principal variation.
pub open spec fn last_first_move(infos: Seq<SearchInfo>) -> Option<Move>
    decreases infos.len(),
{
    if infos.len() == 0 {
        None
    } else if infos.last().pv@.len() > 0 {
        Some(infos.last().pv@[0])
    } else {
        last_first_move(infos.drop_last())
    }
}

/// One more iteration extends a list of iterations.
proof fn lemma_one_more_iteration(g: GameView, before: Seq<SearchInfo>, info: SearchInfo)
    requires
        forall|k: int|
            0 <= k < before.len() ==> iteration_of(
                g,
                (k + 1) as nat,
                nodes_before(before, k),
                #[trigger] before[k],
            ),
        iteration_of(
            g,
            (before.len() + 1) as nat,
            nodes_before(before, before.len() as int),
            info,
        ),
    ensures
        forall|k: int|
            0 <= k < before.push(info).len() ==> iteration_of(
                g,
                (k + 1) as nat,
                nodes_before(before.push(info), k),
                #[trigger] before.push(info)[k],
            ),
        nodes_before(before.push(info), before.push(info).len() as int) == info.nodes,
        last_first_move(before.push(info)) == if info.pv@.len() > 0 {
            Some(info.pv@[0])
        } else {
            last_first_move(before)
        },
{
    let after = before.push(info);
    assert(after.drop_last() == before);
    assert forall|k: int| 0 <= k < after.len() implies iteration_of(
        g,
        (k + 1) as nat,
        nodes_before(after, k),
        #[trigger] after[k],
    ) by {
        if k < before.len() {
            assert(after[k] == before[k]);
            assert(nodes_before(after, k) == nodes_before(before, k));
        } else {
            assert(after[k] == info);
            assert(nodes_before(after, k) == nodes_before(before, k));
        }
    }
}

/// Whether a search to `depth` plies is wanted where `limit` is the depth to
/// search.
pub open spec fn wanted(depth: u64, limit: Depth) -> bool {
    match limit {
        Some(d) => depth < d,
        None => true,
    }
}

/// The index of the move to start from: the hundreds of nanoseconds that
/// have passed, counted round the `count` moves.
pub fn seed_index(nanos: u128, count: usize) -> (index: usize)
    requires
        count > 0,
    ensures
        index == (nanos / 100) % (count as u128),
        index < count,
{
    ((nanos / 100) % (count as u128)) as usize
}

/// The nodes visited in a second, where `nodes` were visited in `micros`
/// microseconds: the largest number where no time has passed.
pub open spec fn rate_of(nodes: u64, micros: u128) -> u64 {
    if micros == 0 || 1_000_000 * nodes / (micros as int) > u64::MAX {
        u64::MAX
    } else {
        (1_000_000 * nodes / (micros as int)) as u64
    }
}

/// The nodes visited in a second, where `nodes` were visited in `micros`
/// microseconds: the largest number where no time has passed.
#[verifier::when_used_as_spec(rate_of)]
pub fn nodes_per_second(nodes: u64, micros: u128) -> (rate: u64)
    ensures
        rate == rate_of(nodes, micros),
{
    if micros == 0 {
        u64::MAX
    } else {
        let rate: u128 = 1_000_000 * (nodes as u128) / micros;
        if rate > u64::MAX as u128 {
            u64::MAX
        } else {
            rate as u64
        }
    }
}

/// The engine: an evaluator, the channel on which commands arrive, the clock
/// of the running search and its budgets.
pub struct Engine {
    heuristic: Heuristic,
    receiver: std::sync::mpsc::Receiver<EngineCommand>,
    timer: Option<std::time::Instant>,
    time_for_move: TimeLimit,
    node_limit: u64,
    node_budget: u64,
    halted: Option<Halt>,
}

impl Engine {
    /// The nodes that the search may still visit.
    pub closed spec fn budget(&self) -> nat {
        self.node_budget as nat
    }

    /// The nodes that each search may visit.
    pub closed spec fn allowance(&self) -> nat {
        self.node_limit as nat
    }

    /// Why the search was stopped, if it was.
    pub closed spec fn halt(&self) -> Option<Halt> {
        self.halted
    }

    /// The time for the move.
    pub closed spec fn limit(&self) -> TimeLimit {
        self.time_for_move
    }

    /// Whether the clock of a search has been started.
    pub closed spec fn clock_started(&self) -> bool {
        self.timer is Some
    }

    /// The channel on which commands arrive.
    pub closed spec fn channel(&self) -> std::sync::mpsc::Receiver<EngineCommand> {
        self.receiver
    }

    /// Whether the evaluator counts the fifty-move rule as a draw.
    pub closed spec fn fifty_moves_rule(&self) -> bool {
        self.heuristic.fifty_moves_rule
    }

    /// Where the evaluator would find endgame tablebases.
    pub closed spec fn syzygy_path(&self) -> Option<Seq<char>> {
        match self.heuristic.syzygy_path {
            Some(path) => Some(path@),
            None => None,
        }
    }

    /// An idle engine that listens on `receiver`: no limit of time, the
    /// largest node budget.
    pub fn new(receiver: std::sync::mpsc::Receiver<EngineCommand>) -> (engine: Engine)
        ensures
            engine.channel() == receiver,
            engine.budget() == u64::MAX,
            engine.allowance() == u64::MAX,
            engine.halt() is None,
            engine.limit() is None,
            !engine.clock_started(),
            engine.fifty_moves_rule(),
            engine.syzygy_path() is None,
    {
        Engine {
            heuristic: Heuristic::default(),
            receiver,
            timer: None,
            time_for_move: None,
            node_limit: u64::MAX,
            node_budget: u64::MAX,
            halted: None,
        }
    }

    /// Why the last search was stopped, if it was.
    pub fn halted(&self) -> (halt: Option<Halt>)
        ensures
            halt == self.halt(),
    {
        self.halted
    }

    /// The nodes that the search may still visit.
    pub fn nodes_left(&self) -> (nodes: u64)
        ensures
            nodes == self.budget(),
    {
        self.node_budget
    }

    /// The time for the move, in microseconds.
    pub fn time_for_move(&self) -> (limit: TimeLimit)
        ensures
            limit == self.limit(),
    {
        self.time_for_move
    }

    /// Sets the nodes that each search may visit, the running one included.
    pub fn set_node_budget(&mut self, nodes: u64)
        ensures
            final(self).budget() == nodes,
            final(self).allowance() == nodes,
            final(self).clock_started() == old(self).clock_started(),
            final(self).halt() == old(self).halt(),
            final(self).limit() == old(self).limit(),
    {
        self.node_limit = nodes;
        self.node_budget = nodes;
    }

    /// Takes the options of the search over into the evaluator.
    pub fn initialize_heuristic(&mut self, search_options: &SearchOptions)
        ensures
            final(self).fifty_moves_rule() == search_options.fifty_moves_rule,
            final(self).syzygy_path() == search_options@.syzygy_path,
            final(self).clock_started() == old(self).clock_started(),
            final(self).budget() == old(self).budget(),
            final(self).allowance() == old(self).allowance(),
            final(self).halt() == old(self).halt(),
            final(self).limit() == old(self).limit(),
    {
        self.heuristic.fifty_moves_rule = search_options.fifty_moves_rule;
        self.heuristic.syzygy_path = match &search_options.syzygy_path {
            Some(path) => Some(path.clone()),
            None => None,
        };
    }

    /// Starts the clock of a search, sets the time for the move that the
    /// options allow the side to move, and renews the node budget. Where the
    /// options allow no time, nothing changes.
    pub fn start_timer(&mut self, search_options: &SearchOptions) -> (started: Result<
        (),
        IncorrectTimeOptions,
    >)
        ensures
            final(self).allowance() == old(self).allowance(),
            match time_allowed(
                search_options@,
                search_options.chess_game@.position().side_to_move,
            ) {
                Ok(limit) => {
                    &&& started is Ok
                    &&& final(self).clock_started()
                    &&& final(self).limit() == limit
                    &&& final(self).halt() is None
                    &&& final(self).budget() == old(self).allowance()
                },
                Err(_) => {
                    &&& started is Err
                    &&& final(self).clock_started() == old(self).clock_started()
                    &&& final(self).limit() == old(self).limit()
                    &&& final(self).halt() == old(self).halt()
                    &&& final(self).budget() == old(self).budget()
                },
            },
    {
        let limit = Engine::time_limit(search_options, search_options.chess_game.side_to_move());
        match limit {
            Ok(allowed) => {
                self.timer = Some(std::time::Instant::now());
                self.time_for_move = allowed;
                self.node_budget = self.node_limit;
                self.halted = None;
                Ok(())
            },
            Err(e) => Err(e),
        }
    }

    /// The time for one move that `options` allow the side `mover`.
    pub fn time_limit(options: &SearchOptions, mover: Color) -> (limit: Result<
        TimeLimit,
        IncorrectTimeOptions,
    >)
        ensures
            limit == time_allowed(options@, mover),
    {
        let clock: i128 = match mover {
            Color::White => options.white_time,
            Color::Black => options.black_time,
        } as i128;
        let increment: i128 = match mover {
            Color::White => options.white_increment,
            Color::Black => options.black_increment,
        } as i128;
        let overhead: i128 = options.move_overhead as i128;
        if options.move_time == 0 && options.white_time == 0 && options.white_increment == 0
            && options.black_time == 0 && options.black_increment == 0 {
            Ok(None)
        } else if options.move_time > 0 {
            Ok(Some(1000 * (options.move_time as i128)))
        } else if clock == 0 {
            Err(IncorrectTimeOptions)
        } else if increment == 0 {
            Ok(Some(50 * clock - 1000 * overhead))
        } else {
            let share: i128 = 100 * clock + 1000 * increment - 1000 * overhead;
            let all: i128 = 1000 * clock - 1000 * overhead;
            if share <= all {
                Ok(Some(share))
            } else {
                Ok(Some(all))
            }
        }
    }

    /// Says whether the search stops, given what the channel and the clock
    /// held when they were looked at: it stops for a waiting command, for the
    /// time, or because the node budget is used up, and records the reason. To
    /// go on costs one node of the budget.
    pub fn decide_stop(&mut self, stop: bool, quit: bool, elapsed_millis: u128) -> (stopped: bool)
        ensures
            final(self).clock_started() == old(self).clock_started(),
            final(self).limit() == old(self).limit(),
            final(self).allowance() == old(self).allowance(),
            match halt_due(stop, quit, elapsed_millis, old(self).limit()) {
                Some(halt) => {
                    &&& stopped
                    &&& final(self).halt() == Some(halt)
                    &&& final(self).budget() == old(self).budget()
                },
                None => if old(self).budget() == 0 {
                    &&& stopped
                    &&& final(self).halt() == Some(Halt::Exhausted)
                    &&& final(self).budget() == 0
                } else {
                    &&& !stopped
                    &&& final(self).halt() == old(self).halt()
                    &&& final(self).budget() == old(self).budget() - 1
                },
            },
    {
        match halt_reason(stop, quit, elapsed_millis, self.time_for_move) {
            Some(halt) => {
                self.halted = Some(halt);
                true
            },
            None => {
                if self.node_budget == 0 {
                    self.halted = Some(Halt::Exhausted);
                    true
                } else {
                    self.node_budget = self.node_budget - 1;
                    false
                }
            },
        }
    }

    /// Looks at the channel and the clock, and says whether the search stops.
    /// A look that lets the search go on costs one node of the budget; one
    /// that stops it records why.
    pub fn check_stop(&mut self) -> (stop: bool)
        ensures
            final(self).clock_started() == old(self).clock_started(),
            final(self).limit() == old(self).limit(),
            final(self).allowance() == old(self).allowance(),
            old(self).budget() == 0 ==> stop,
            !stop ==> final(self).budget() == old(self).budget() - 1,
            !stop ==> final(self).halt() == old(self).halt(),
            stop ==> final(self).budget() == old(self).budget() && final(self).halt() is Some,
    {
        let (stop, quit) = match self.receiver.try_recv() {
            Ok(command) => (command.stop, command.quit),
            Err(_) => (false, false),
        };
        let elapsed: u128 = match &self.timer {
            Some(timer) => timer.elapsed().as_millis(),
            None => 0,
        };
        self.decide_stop(stop, quit, elapsed)
    }

    /// `moves`, legal in `game`, by descending score: ten times the victim's
    /// value less the attacker's for a capture, five times the new piece's
    /// value for a promotion, one for a check. Moves of one score keep their
    /// order.
    pub fn order_moves(&self, game: &Game, moves: Vec<Move>) -> (sorted: Vec<Move>)
        requires
            forall|i: int|
                0 <= i < moves@.len() ==> game@.legal_moves().contains(#[trigger] moves@[i]),
            forall|i: int| 0 <= i < moves@.len() ==> (#[trigger] moves@[i]).on_board(),
        ensures
            sorted@ == ordered(game@, moves@),
            sorted@.len() == moves@.len(),
            forall|m: Move| sorted@.contains(m) <==> moves@.contains(m),
    {
        order_moves(game, &moves)
    }

    /// The legal moves of `game` that capture, move a pawn to another file or
    /// give check, by descending score, each with two marks: whether it lands
    /// on an occupied square, and whether a pawn changes file.
    pub fn get_captures_and_checks(&self, game: &Game) -> (tagged: Vec<Tagged>)
        ensures
            tagged@ == captures_and_checks(game@),
            forall|i: int|
                0 <= i < tagged@.len() ==> {
                    let (m, capture, en_passant) = #[trigger] tagged@[i];
                    &&& game@.legal_moves().contains(m)
                    &&& m.on_board()
                    &&& capture == (game@.position().squares[m.to as int] is Some)
                    &&& en_passant == pawn_changes_file(game@.position().squares, m)
                    &&& (capture || en_passant || game@.after(m).in_check())
                },
    {
        let moves = game.legal_moves();
        let items = sort_by_score(&score_moves(game, &moves));
        let ghost unsorted = scored_all(game@, moves@);
        let mut tagged: Vec<Tagged> = Vec::new();
        let mut i: usize = 0;
        while i < items.len()
            invariant
                i <= items.len(),
                moves@ == game@.legal_moves(),
                forall|k: int| 0 <= k < moves@.len() ==> (#[trigger] moves@[k]).on_board(),
                unsorted == scored_all(game@, moves@),
                items@.to_multiset() == unsorted.to_multiset(),
                tagged@ == tactical_of(items@.take(i as int)),
                forall|k: int|
                    0 <= k < tagged@.len() ==> {
                        let (m, capture, en_passant) = #[trigger] tagged@[k];
                        &&& game@.legal_moves().contains(m)
                        &&& m.on_board()
                        &&& capture == (game@.position().squares[m.to as int] is Some)
                        &&& en_passant == pawn_changes_file(game@.position().squares, m)
                        &&& (capture || en_passant || game@.after(m).in_check())
                    },
            decreases items.len() - i,
        {
            let item = items[i];
            proof {
                assert(items@.take(i + 1).drop_last() == items@.take(i as int));
                assert(items@.take(i + 1).last() == item);
                items@.to_multiset_ensures();
                unsorted.to_multiset_ensures();
                assert(items@[i as int] == item);
                assert(items@.contains(item));
                assert(items@.to_multiset().count(item) > 0);
                assert(unsorted.to_multiset().count(item) > 0);
                assert(unsorted.contains(item));
                let j = choose|j: int| 0 <= j < unsorted.len() && unsorted[j] == item;
                assert(item == scored(game@, moves@[j]));
                assert(moves@.contains(moves@[j]));
            }
            if item.capture || item.en_passant || item.check {
                tagged.push((item.mv, item.capture, item.en_passant));
            }
            i = i + 1;
        }
        assert(items@.take(items.len() as int) == items@);
        tagged
    }

    /// The quiescence search of `game` in the window from `alpha` to `beta`:
    /// the score and the number of nodes below `game`, or `Stopped` where a
    /// look at the budget, the channel or the clock has stopped the search.
    pub fn quiescence(&mut self, game: &Game, alpha: Score, beta: Score) -> (found: Result<
        (Score, u64),
        Stopped,
    >)
        requires
            bounded(alpha as int),
            bounded(beta as int),
        ensures
            final(self).limit() == old(self).limit(),
            final(self).budget() <= old(self).budget(),
            match found {
                Ok((score, nodes)) => {
                    &&& quiesce(game@, alpha as int, beta as int, old(self).budget()) == Some(
                        (score as int, nodes as nat),
                    )
                    &&& bounded(score as int)
                    &&& nodes + 1 + final(self).budget() <= old(self).budget()
                    &&& final(self).halt() == old(self).halt()
                    &&& alpha < beta ==> within(
                        score as int,
                        alpha as int,
                        beta as int,
                        STATIC_BOUND as int,
                    )
                    &&& steady(game@) && alpha < beta ==> within(
                        score as int,
                        alpha as int,
                        beta as int,
                        WIN_VALUE as int,
                    )
                },
                Err(_) => final(self).halt() is Some,
            },
        decreases old(self).budget(),
    {
        if self.check_stop() {
            return Err(Stopped);
        }
        let ghost fuel: nat = (old(self).budget() - 1) as nat;
        match game.result() {
            Some(result) => {
                let value = self.heuristic.evaluate_result(result, game.side_to_move());
                return Ok((discount(value), 0));
            },
            None => {},
        }
        if game.can_declare_draw() {
            return Ok((0, 0));
        }
        let evaluation = discount(self.heuristic.evaluate_position(game.current_position()));
        proof {
            if steady(game@) {
                lemma_steady_here(game@);
            }
        }
        if evaluation >= beta {
            return Ok((beta, 0));
        }
        let use_delta_pruning = game.current_position().piece_count() <= ENDGAME_PIECES;
        if use_delta_pruning && evaluation < alpha - DELTA_MARGIN * TICKS_PER_CENTIPAWN {
            return Ok((alpha, 0));
        }
        let mut best = alpha;
        if evaluation > best {
            best = evaluation;
        }
        let ghost first = best;
        let tagged = self.get_captures_and_checks(game);
        assert(tagged@.skip(0) == tagged@);
        let values = PieceValue::default();
        let mut nodes_searched: u64 = 0;
        let mut i: usize = 0;
        while i < tagged.len()
            invariant
                i <= tagged.len(),
                tagged@ == captures_and_checks(game@),
                forall|k: int|
                    0 <= k < tagged@.len() ==> game@.legal_moves().contains(
                        (#[trigger] tagged@[k]).0,
                    ) && tagged@[k].0.on_board(),
                forall|piece: crate::piece::Piece| #[trigger] values.entry(piece) == material(piece),
                use_delta_pruning == is_endgame(game@),
                evaluation == stand_pat(game@),
                bounded(best as int),
                bounded(beta as int),
                bounded(evaluation as int),
                alpha <= best,
                alpha < beta ==> best < beta,
                alpha < beta ==> within(
                    best as int,
                    alpha as int,
                    beta as int,
                    STATIC_BOUND as int,
                ),
                steady(game@) && alpha < beta ==> within(
                    best as int,
                    alpha as int,
                    beta as int,
                    WIN_VALUE as int,
                ),
                quiesce(game@, alpha as int, beta as int, old(self).budget()) == quiesce_moves(
                    game@,
                    tagged@,
                    evaluation as int,
                    first as int,
                    beta as int,
                    0,
                    fuel,
                ),
                fuel + 1 == old(self).budget(),
                self.budget() <= fuel,
                self.limit() == old(self).limit(),
                self.halt() == old(self).halt(),
                nodes_searched + 1 + self.budget() <= old(self).budget(),
                quiesce_moves(
                    game@,
                    tagged@,
                    evaluation as int,
                    first as int,
                    beta as int,
                    0,
                    fuel,
                ) == quiesce_moves(
                    game@,
                    tagged@.skip(i as int),
                    evaluation as int,
                    best as int,
                    beta as int,
                    nodes_searched as nat,
                    fuel,
                ),
            decreases tagged.len() - i,
        {
            let (chess_move, is_capture, is_en_passant) = tagged[i];
            let ghost rest = tagged@.skip(i as int);
            assert(rest[0] == tagged@[i as int]);
            assert(rest.skip(1) == tagged@.skip(i + 1));
            let victim: i64 = match game.current_position().occupant(chess_move.to) {
                Some((piece, _)) => values.get_piece_value(piece) * TICKS_PER_CENTIPAWN,
                None => 0,
            };
            assert(victim == victim_value(game@, chess_move));
            let pruned = use_delta_pruning && ((is_en_passant && evaluation + PAWN_VALUE
                * TICKS_PER_CENTIPAWN < best) || (is_capture && victim + PAWN_VALUE
                * TICKS_PER_CENTIPAWN + evaluation < best));
            assert(pruned == delta_pruned(
                game@,
                tagged@[i as int],
                evaluation as int,
                best as int,
            ));
            if !pruned {
                let current_game = game.play(chess_move);
                let ghost before = self.budget();
                proof {
                    if steady(game@) {
                        lemma_steady_after(game@, chess_move);
                    }
                }
                match self.quiescence(&current_game, -beta, -best) {
                    Ok((eval, nodes)) => {
                        proof {
                            lemma_quiesce_fuel(
                                game@.after(chess_move),
                                -beta as int,
                                -best as int,
                                before,
                                fuel,
                            );
                        }
                        let score = -eval;
                        nodes_searched = nodes_searched + 1 + nodes;
                        if score >= beta {
                            return Ok((beta, nodes_searched));
                        }
                        if score > best {
                            best = score;
                        }
                    },
                    Err(stopped) => {
                        return Err(stopped);
                    },
                }
            }
            i = i + 1;
        }
        assert(tagged@.skip(tagged.len() as int).len() == 0);
        Ok((best, nodes_searched))
    }

    /// The fail-hard alpha-beta search of `game` to `depth` plies in the
    /// window from `alpha` to `beta`: the score, the principal variation and
    /// the number of nodes, or `Stopped` where a look at the budget, the
    /// channel or the clock has stopped the search.
    pub fn negamax(&mut self, game: &Game, depth: u64, alpha: Score, beta: Score) -> (found: Result<
        (Score, Vec<Move>, u64),
        Stopped,
    >)
        requires
            bounded(alpha as int),
            bounded(beta as int),
        ensures
            final(self).limit() == old(self).limit(),
            final(self).budget() <= old(self).budget(),
            match found {
                Ok((score, line, nodes)) => {
                    &&& negamax(
                        game@,
                        depth as nat,
                        alpha as int,
                        beta as int,
                        old(self).budget(),
                    ) == Some(Found { score: score as int, line: line@, nodes: nodes as nat })
                    &&& line_playable(game@, line@)
                    &&& bounded(score as int)
                    &&& nodes + final(self).budget() <= old(self).budget()
                    &&& final(self).halt() == old(self).halt()
                    &&& alpha < beta ==> within(
                        score as int,
                        alpha as int,
                        beta as int,
                        STATIC_BOUND as int,
                    )
                    &&& steady(game@) && alpha < beta ==> within(
                        score as int,
                        alpha as int,
                        beta as int,
                        WIN_VALUE as int,
                    )
                },
                Err(_) => final(self).halt() is Some,
            },
        decreases old(self).budget(),
    {
        if self.check_stop() {
            return Err(Stopped);
        }
        let ghost fuel: nat = (old(self).budget() - 1) as nat;
        let mut nodes_searched: u64 = 1;
        match game.result() {
            Some(result) => {
                let value = self.heuristic.evaluate_result(result, game.side_to_move());
                assert(line_playable(game@, Seq::<Move>::empty()));
                return Ok((value, Vec::new(), nodes_searched));
            },
            None => {},
        }
        if game.can_declare_draw() {
            assert(line_playable(game@, Seq::<Move>::empty()));
            return Ok((0, Vec::new(), nodes_searched));
        }
        if depth == 0 {
            let ghost before = self.budget();
            match self.quiescence(game, alpha, beta) {
                Ok((eval, nodes)) => {
                    proof {
                        lemma_quiesce_fuel(game@, alpha as int, beta as int, before, fuel);
                        assert(line_playable(game@, Seq::<Move>::empty()));
                    }
                    return Ok((eval, Vec::new(), nodes_searched + nodes));
                },
                Err(stopped) => {
                    return Err(stopped);
                },
            }
        }
        let legal_moves = game.legal_moves();
        let ordered_moves = self.order_moves(game, legal_moves);
        let mut best = alpha;
        let mut best_moves: Vec<Move> = Vec::new();
        assert(ordered_moves@.skip(0) == ordered_moves@);
        let mut i: usize = 0;
        while i < ordered_moves.len()
            invariant
                i <= ordered_moves.len(),
                depth > 0,
                ordered_moves@ == ordered(game@, game@.legal_moves()),
                forall|m: Move| ordered_moves@.contains(m) ==> game@.legal_moves().contains(m),
                bounded(best as int),
                bounded(beta as int),
                alpha <= best,
                alpha < beta ==> best < beta,
                alpha < beta && i > 0 ==> within(
                    best as int,
                    alpha as int,
                    beta as int,
                    STATIC_BOUND as int,
                ),
                steady(game@) && alpha < beta && i > 0 ==> within(
                    best as int,
                    alpha as int,
                    beta as int,
                    WIN_VALUE as int,
                ),
                i == 0 ==> best == alpha,
                ordered_moves@.len() > 0,
                fuel + 1 == old(self).budget(),
                self.budget() <= fuel,
                self.limit() == old(self).limit(),
                self.halt() == old(self).halt(),
                nodes_searched + self.budget() <= old(self).budget(),
                negamax(game@, depth as nat, alpha as int, beta as int, old(self).budget())
                    == negamax_moves(
                    game@,
                    ordered_moves@.skip(i as int),
                    depth as nat,
                    best as int,
                    beta as int,
                    best_moves@,
                    nodes_searched as nat,
                    fuel,
                ),
            decreases ordered_moves.len() - i,
        {
            let chess_move = ordered_moves[i];
            let ghost rest = ordered_moves@.skip(i as int);
            assert(rest[0] == chess_move);
            assert(rest.skip(1) == ordered_moves@.skip(i + 1));
            assert(ordered_moves@.contains(chess_move));
            let current_game = game.play(chess_move);
            let ghost before = self.budget();
            proof {
                if steady(game@) {
                    lemma_steady_after(game@, chess_move);
                }
            }
            match self.negamax(&current_game, depth - 1, -beta, -best) {
                Ok((eval, pv, nodes)) => {
                    proof {
                        lemma_negamax_fuel(
                            game@.after(chess_move),
                            (depth - 1) as nat,
                            -beta as int,
                            -best as int,
                            before,
                            fuel,
                        );
                    }
                    let evaluation = -eval;
                    nodes_searched = nodes_searched + nodes;
                    let mut moves = pv;
                    moves.insert(0, chess_move);
                    assert(moves@ == seq![chess_move] + pv@);
                    if evaluation >= beta {
                        assert(line_playable(game@, Seq::<Move>::empty()));
                        return Ok((beta, Vec::new(), nodes_searched));
                    }
                    if evaluation > best {
                        best = evaluation;
                        best_moves = moves;
                    }
                },
                Err(stopped) => {
                    return Err(stopped);
                },
            }
            i = i + 1;
        }
        proof {
            assert(ordered_moves@.skip(ordered_moves.len() as int).len() == 0);
            lemma_negamax_line(
                game@,
                depth as nat,
                alpha as int,
                beta as int,
                old(self).budget(),
            );
        }
        Ok((best, best_moves, nodes_searched))
    }

    /// The channel on which commands arrive.
    pub fn receiver(&self) -> (receiver: &std::sync::mpsc::Receiver<EngineCommand>)
        ensures
            *receiver == self.channel(),
    {
        &self.receiver
    }

    /// Some legal move of `game`, picked by the clock; none where there is
    /// none.
    pub fn seed_move(&self, game: &Game) -> (seed: Option<Move>)
        ensures
            seed is None <==> game@.legal_moves().len() == 0,
            seed matches Some(m) ==> game@.legal_moves().contains(m),
    {
        let start = std::time::Instant::now();
        let moves = game.legal_moves();
        if moves.len() == 0 {
            None
        } else {
            let index = seed_index(start.elapsed().as_nanos(), moves.len());
            Some(moves[index])
        }
    }

    /// The state of a deepening search of `game` before its first iteration:
    /// the move to play is some legal move.
    pub fn begin_search(&self, game: &Game) -> (progress: SearchProgress)
        ensures
            progress.depth == 0,
            progress.nodes == 0,
            !progress.finished,
            progress.best_move is None <==> game@.legal_moves().len() == 0,
            progress.best_move matches Some(m) ==> game@.legal_moves().contains(m),
    {
        SearchProgress { depth: 0, nodes: 0, best_move: self.seed_move(game), finished: false }
    }

    /// One more iteration of the deepening search of `game`: the search to
    /// the next depth in the widest window. It is made where the search is not
    /// finished and the next depth is wanted; where it is stopped, or not
    /// made, the search is finished and the move to play stays. A finished
    /// iteration brings its principal variation, whose first move becomes the
    /// move to play. The node budget counts as used up where the count of
    /// depths or of nodes would leave the range of its type.
    pub fn deepen(&mut self, game: &Game, max_depth: Depth, progress: &mut SearchProgress) -> (info:
        Option<SearchInfo>)
        ensures
            final(self).limit() == old(self).limit(),
            final(self).budget() <= old(self).budget(),
            final(progress).nodes + final(self).budget() <= old(progress).nodes + old(self).budget(),
            (old(progress).best_move matches Some(m) ==> game@.legal_moves().contains(m))
                ==> (final(progress).best_move matches Some(m) ==> game@.legal_moves().contains(
                m,
            )),
            final(progress).best_move is None ==> old(progress).best_move is None,
            match info {
                Some(found) => {
                    &&& !old(progress).finished
                    &&& wanted(old(progress).depth, max_depth)
                    &&& iteration_of(
                        game@,
                        (old(progress).depth + 1) as nat,
                        old(progress).nodes as nat,
                        found,
                    )
                    &&& final(progress).depth == old(progress).depth + 1
                    &&& final(progress).nodes == found.nodes
                    &&& !final(progress).finished
                    &&& final(progress).best_move == if found.pv@.len() > 0 {
                        Some(found.pv@[0])
                    } else {
                        old(progress).best_move
                    }
                    &&& final(self).budget() < old(self).budget()
                    &&& final(self).halt() == old(self).halt()
                },
                None => {
                    &&& final(progress).finished
                    &&& final(progress).depth == old(progress).depth
                    &&& final(progress).nodes == old(progress).nodes
                    &&& final(progress).best_move == old(progress).best_move
                    &&& (old(progress).finished || !wanted(old(progress).depth, max_depth)
                        || final(self).halt() is Some)
                },
            },
    {
        let more: bool = match max_depth {
            Some(d) => d > 0 && progress.depth < d as u64,
            None => true,
        };
        if progress.finished || !more {
            progress.finished = true;
            return None;
        }
        if self.node_budget == 0 || progress.depth == u64::MAX || progress.nodes > u64::MAX
            - self.node_budget {
            self.halted = Some(Halt::Exhausted);
            progress.finished = true;
            return None;
        }
        let depth: u64 = progress.depth + 1;
        let ghost fuel = self.budget();
        match self.negamax(game, depth, -INFINITY, INFINITY) {
            Ok((score, pv, nodes)) => {
                proof {
                    assert(negamax(game@, depth as nat, -INFINITY as int, INFINITY as int, fuel)
                        == Some(Found { score: score as int, line: pv@, nodes: nodes as nat }));
                    if pv@.len() > 0 {
                        assert(game@.legal_moves().contains(pv@[0]));
                    }
                }
                if pv.len() > 0 {
                    progress.best_move = Some(pv[0]);
                }
                progress.depth = depth;
                progress.nodes = progress.nodes + nodes;
                assert(nodes >= 1) by {
                    lemma_negamax_counts(
                        game@,
                        depth as nat,
                        -INFINITY as int,
                        INFINITY as int,
                        fuel,
                    );
                }
                Some(SearchInfo { depth, score, nodes: progress.nodes, pv })
            },
            Err(_) => {
                progress.finished = true;
                None
            },
        }
    }

    /// The deepening search of `game` up to the depth `max_depth`: one
    /// iteration after the other, each to one ply more in the widest window,
    /// until the depth is reached or the search is stopped. The move to play
    /// is the first move of the last principal variation found, and some legal
    /// move where none was found.
    pub fn search(&mut self, game: &Game, max_depth: Depth) -> (report: SearchReport)
        ensures
            final(self).limit() == old(self).limit(),
            final(self).budget() <= old(self).budget(),
            forall|k: int|
                0 <= k < report.infos@.len() ==> iteration_of(
                    game@,
                    (k + 1) as nat,
                    nodes_before(report.infos@, k),
                    #[trigger] report.infos@[k],
                ),
            max_depth matches Some(d) ==> report.infos@.len() <= d || report.infos@.len() == 0,
            wanted(report.infos@.len() as u64, max_depth) ==> final(self).halt() is Some,
            report.best_move matches Some(m) ==> game@.legal_moves().contains(m),
            report.best_move is None <==> game@.legal_moves().len() == 0,
            last_first_move(report.infos@) matches Some(m) ==> report.best_move == Some(m),
    {
        let mut progress = self.begin_search(game);
        let mut infos: Vec<SearchInfo> = Vec::new();
        while !progress.finished
            invariant
                self.limit() == old(self).limit(),
                self.budget() <= old(self).budget(),
                progress.depth == infos@.len(),
                progress.nodes == nodes_before(infos@, infos@.len() as int),
                progress.best_move matches Some(m) ==> game@.legal_moves().contains(m),
                progress.best_move is None <==> game@.legal_moves().len() == 0,
                last_first_move(infos@) matches Some(m) ==> progress.best_move == Some(m),
                forall|k: int|
                    0 <= k < infos@.len() ==> iteration_of(
                        game@,
                        (k + 1) as nat,
                        nodes_before(infos@, k),
                        #[trigger] infos@[k],
                    ),
                max_depth matches Some(d) ==> infos@.len() <= d || infos@.len() == 0,
                progress.finished && wanted(infos@.len() as u64, max_depth) ==> self.halt()
                    is Some,
            decreases
                    self.budget(),
                    if progress.finished {
                        0int
                    } else {
                        1int
                    },
        {
            let ghost before = infos@;
            match self.deepen(game, max_depth, &mut progress) {
                Some(info) => {
                    proof {
                        lemma_one_more_iteration(game@, before, info);
                    }
                    infos.push(info);
                },
                None => {},
            }
        }
        SearchReport { infos, best_move: progress.best_move }
    }

    /// Takes a command: to quit ends the engine, to stop finds no search to
    /// stop, and to go takes the options over and starts the clock, unless
    /// the time options allow no search.
    pub fn accept(&mut self, command: &EngineCommand) -> (accepted: Accepted)
        ensures
            final(self).allowance() == old(self).allowance(),
            accepted == Accepted::Ready ==> final(self).budget() == old(self).allowance(),
            accepted != Accepted::Ready ==> final(self).budget() == old(self).budget(),
            accepted == if command.quit {
                Accepted::Quit
            } else if command.stop {
                Accepted::Idle
            } else if time_allowed(
                command.search_options@,
                command.search_options.chess_game@.position().side_to_move,
            ) is Ok {
                Accepted::Ready
            } else {
                Accepted::Refused
            },
            accepted == Accepted::Ready ==> final(self).clock_started(),
            accepted != Accepted::Ready ==> final(self).clock_started() == old(self).clock_started(),
            accepted == Accepted::Ready ==> final(self).halt() is None && Ok::<
                TimeLimit,
                IncorrectTimeOptions,
            >(final(self).limit()) == time_allowed(
                command.search_options@,
                command.search_options.chess_game@.position().side_to_move,
            ) && final(self).fifty_moves_rule() == command.search_options.fifty_moves_rule
                && final(self).syzygy_path() == command.search_options@.syzygy_path,
            accepted != Accepted::Ready ==> final(self).halt() == old(self).halt(),
            accepted != Accepted::Ready ==> final(self).limit() == old(self).limit(),
    {
        if command.quit {
            Accepted::Quit
        } else if command.stop {
            Accepted::Idle
        } else {
            match self.start_timer(&command.search_options) {
                Ok(()) => {
                    self.initialize_heuristic(&command.search_options);
                    Accepted::Ready
                },
                Err(_) => Accepted::Refused,
            }
        }
    }

    /// Carries out a command: a command to go is answered by the deepening
    /// search of its game up to the depth that its options ask for.
    pub fn run(&mut self, command: &EngineCommand) -> (run: Run)
        ensures
            command.quit ==> run is Quit,
            !command.quit && command.stop ==> run is Idle,
            !command.quit && !command.stop ==> match time_allowed(
                command.search_options@,
                command.search_options.chess_game@.position().side_to_move,
            ) {
                Ok(limit) => {
                    &&& run matches Run::Searched(report)
                    &&& final(self).limit() == limit
                    &&& forall|k: int|
                        0 <= k < report.infos@.len() ==> iteration_of(
                            command.search_options.chess_game@,
                            (k + 1) as nat,
                            nodes_before(report.infos@, k),
                            #[trigger] report.infos@[k],
                        )
                    &&& wanted(
                        report.infos@.len() as u64,
                        lesser_depth(command.search_options.max_depth, command.search_options.depth),
                    ) ==> final(self).halt() is Some
                    &&& report.best_move matches Some(m)
                        ==> command.search_options.chess_game@.legal_moves().contains(m)
                    &&& report.best_move is None
                        <==> command.search_options.chess_game@.legal_moves().len() == 0
                    &&& last_first_move(report.infos@) matches Some(m) ==> report.best_move
                        == Some(m)
                },
                Err(_) => run is Refused,
            },
    {
        match self.accept(command) {
            Accepted::Quit => Run::Quit,
            Accepted::Idle => Run::Idle,
            Accepted::Refused => Run::Refused,
            Accepted::Ready => {
                let depth = command.search_options.search_depth();
                Run::Searched(self.search(&command.search_options.chess_game, depth))
            },
        }
    }
}

} // verus!
