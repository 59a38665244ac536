use std::sync::mpsc::channel;
use std::time::Instant;

use uci_engine::chess_move::Move;
use uci_engine::engine::{
    halt_reason, nodes_per_second, seed_index, Accepted, Engine, Halt, IncorrectTimeOptions, Run,
    Stopped,
};
use uci_engine::engine_command::EngineCommand;
use uci_engine::game::Game;
use uci_engine::ordering::{order_moves, score_move, sort_by_score, Scored};
use uci_engine::piece::{Color, Piece};
use uci_engine::score::{INFINITY, LOSS_VALUE, TICKS_PER_CENTIPAWN, WIN_VALUE};
use uci_engine::search_options::SearchOptions;

fn words(line: &str) -> Vec<String> {
    line.split_whitespace().map(str::to_string).collect()
}

fn engine() -> Engine {
    let (_sender, receiver) = channel::<EngineCommand>();
    Engine::new(receiver)
}

#[test]
fn time_for_the_move() {
    let mut options = SearchOptions::default();
    assert_eq!(Engine::time_limit(&options, Color::White), Ok(None));
    options.move_time = 200;
    assert_eq!(Engine::time_limit(&options, Color::White), Ok(Some(200_000)));
    options.white_time = 60_000;
    assert_eq!(Engine::time_limit(&options, Color::Black), Ok(Some(200_000)));
    options.move_time = 0;
    assert_eq!(Engine::time_limit(&options, Color::White), Ok(Some(2_990_000)));
    options.white_increment = 1_000;
    assert_eq!(Engine::time_limit(&options, Color::White), Ok(Some(6_990_000)));
    options.white_time = 100;
    assert_eq!(Engine::time_limit(&options, Color::White), Ok(Some(90_000)));
    options.move_overhead = 1_000;
    assert_eq!(Engine::time_limit(&options, Color::White), Ok(Some(-900_000)));
    assert_eq!(
        Engine::time_limit(&options, Color::Black),
        Err(IncorrectTimeOptions)
    );
    options.black_time = 40_000;
    options.move_overhead = 10;
    assert_eq!(Engine::time_limit(&options, Color::Black), Ok(Some(1_990_000)));
    options.black_increment = 500;
    assert_eq!(Engine::time_limit(&options, Color::Black), Ok(Some(4_490_000)));
    options.white_time = 0;
    assert_eq!(
        Engine::time_limit(&options, Color::White),
        Err(IncorrectTimeOptions)
    );
}

#[test]
fn reasons_to_halt() {
    assert_eq!(halt_reason(false, false, 0, None), None);
    assert_eq!(halt_reason(false, false, u128::MAX, None), None);
    assert_eq!(halt_reason(true, false, 0, None), Some(Halt::Stop));
    assert_eq!(halt_reason(true, true, 0, None), Some(Halt::Quit));
    assert_eq!(halt_reason(false, true, 0, Some(5)), Some(Halt::Quit));
    assert_eq!(halt_reason(false, false, 200, Some(200_000)), None);
    assert_eq!(halt_reason(false, false, 201, Some(200_000)), Some(Halt::TimeOut));
    assert_eq!(halt_reason(false, false, 200, Some(199_999)), Some(Halt::TimeOut));
    assert_eq!(halt_reason(false, false, 0, Some(0)), None);
    assert_eq!(halt_reason(false, false, 0, Some(-1)), Some(Halt::TimeOut));
    assert_eq!(halt_reason(false, false, u128::MAX, Some(i128::MAX)), Some(Halt::TimeOut));
    assert_eq!(halt_reason(true, false, 1_000, Some(1)), Some(Halt::Stop));
}

#[test]
fn stop_is_seen_on_the_channel() {
    let (sender, receiver) = channel::<EngineCommand>();
    let mut engine = Engine::new(receiver);
    assert!(!engine.check_stop());
    assert_eq!(engine.nodes_left(), u64::MAX - 1);
    assert_eq!(engine.halted(), None);
    sender.send(EngineCommand::go(SearchOptions::default())).unwrap();
    assert!(!engine.check_stop());
    sender.send(EngineCommand::stop()).unwrap();
    assert!(engine.check_stop());
    assert_eq!(engine.halted(), Some(Halt::Stop));
    sender.send(EngineCommand::quit()).unwrap();
    assert!(engine.check_stop());
    assert_eq!(engine.halted(), Some(Halt::Quit));
}

#[test]
fn node_budget_runs_out() {
    let mut engine = engine();
    engine.set_node_budget(2);
    assert!(!engine.check_stop());
    assert!(!engine.check_stop());
    assert_eq!(engine.nodes_left(), 0);
    assert!(engine.check_stop());
    assert_eq!(engine.halted(), Some(Halt::Exhausted));
}

#[test]
fn clock_runs_out() {
    let mut engine = engine();
    let mut options = SearchOptions::default();
    options.move_time = 1;
    engine.start_timer(&options).unwrap();
    assert_eq!(engine.time_for_move(), Some(1_000));
    let begun = Instant::now();
    while begun.elapsed().as_millis() < 3 {}
    assert!(engine.check_stop());
    assert_eq!(engine.halted(), Some(Halt::TimeOut));
    engine.start_timer(&SearchOptions::default()).unwrap();
    assert_eq!(engine.halted(), None);
    assert_eq!(engine.time_for_move(), None);
    assert!(!engine.check_stop());
}

#[test]
fn timer_refuses_options_without_a_clock() {
    let mut engine = engine();
    let mut options = SearchOptions::default();
    options.move_time = 50;
    engine.start_timer(&options).unwrap();
    options.move_time = 0;
    options.black_time = 1_000;
    assert_eq!(engine.start_timer(&options), Err(IncorrectTimeOptions));
    assert_eq!(engine.time_for_move(), Some(50_000));
}

#[test]
fn captures_come_first() {
    let engine = engine();
    let game = Game::from_fen("rnbqkbnr/ppp1pppp/8/3p4/4P3/8/PPPP1PPP/RNBQKBNR w KQkq d6 0 2").unwrap();
    let legal = game.legal_moves();
    let sorted = engine.order_moves(&game, game.legal_moves());
    assert_eq!(sorted.len(), legal.len());
    assert_eq!(sorted[0], Move { from: 28, to: 35, promotion: None });
    assert_eq!(sorted[1], Move { from: 5, to: 33, promotion: None });
    let quiet: Vec<Move> = legal
        .iter()
        .copied()
        .filter(|m| *m != sorted[0] && *m != sorted[1])
        .collect();
    assert_eq!(&sorted[2..], &quiet[..]);
    assert_eq!(order_moves(&game, &legal), sorted);
}

#[test]
fn moves_are_scored() {
    let game = Game::from_fen("rnbqkbnr/ppp1pppp/8/3p4/4P3/8/PPPP1PPP/RNBQKBNR w KQkq d6 0 2").unwrap();
    let takes = score_move(&game, Move { from: 28, to: 35, promotion: None });
    assert_eq!(
        takes,
        Scored {
            mv: Move { from: 28, to: 35, promotion: None },
            score: 900,
            capture: true,
            en_passant: true,
            check: false,
        }
    );
    let check = score_move(&game, Move { from: 5, to: 33, promotion: None });
    assert_eq!(check.score, 1);
    assert!(check.check && !check.capture && !check.en_passant);
    let quiet = score_move(&game, Move { from: 6, to: 21, promotion: None });
    assert_eq!(quiet.score, 0);
    assert!(!quiet.check && !quiet.capture && !quiet.en_passant);

    let promoting = Game::from_fen("1n5k/P7/8/8/8/8/8/K7 w - - 0 1").unwrap();
    let plain = score_move(&promoting, Move { from: 48, to: 56, promotion: Some(Piece::Queen) });
    assert_eq!(plain.score, 5 * 950);
    let taking = score_move(&promoting, Move { from: 48, to: 57, promotion: Some(Piece::Rook) });
    assert_eq!(taking.score, 10 * 350 - 100 + 5 * 550 + 1);
    assert!(taking.capture && taking.en_passant && taking.check);

    let king_takes = Game::from_fen("7k/8/8/8/8/8/1q6/K7 w - - 0 1").unwrap();
    let by_king = score_move(&king_takes, Move { from: 0, to: 9, promotion: None });
    assert_eq!(by_king.score, 10 * 950 - 2_147_483_647);
}

#[test]
fn sorting_is_stable_and_descending() {
    let item = |from: u8, score: i64| Scored {
        mv: Move { from, to: 0, promotion: None },
        score,
        capture: false,
        en_passant: false,
        check: false,
    };
    let items = vec![item(0, 1), item(1, 5), item(2, 1), item(3, 9), item(4, 5), item(5, -2)];
    let sorted = sort_by_score(&items);
    let order: Vec<u8> = sorted.iter().map(|s| s.mv.from).collect();
    assert_eq!(order, vec![3, 1, 4, 0, 2, 5]);
    assert!(sort_by_score(&Vec::new()).is_empty());
}

#[test]
fn captures_and_checks_are_marked() {
    let engine = engine();
    let game = Game::from_fen("rnbqkbnr/ppp1pppp/8/3p4/4P3/8/PPPP1PPP/RNBQKBNR w KQkq d6 0 2").unwrap();
    let tagged = engine.get_captures_and_checks(&game);
    assert_eq!(
        tagged,
        vec![
            (Move { from: 28, to: 35, promotion: None }, true, true),
            (Move { from: 5, to: 33, promotion: None }, false, false),
        ]
    );
    for (m, capture, en_passant) in tagged {
        let occupied = game.current_position().piece_on(m.to).is_some();
        assert_eq!(capture, occupied);
        assert!(occupied || en_passant || game.gives_check(m));
    }
    assert!(engine.get_captures_and_checks(&Game::new()).is_empty());

    let passing = Game::from_fen("4k3/8/8/3pP3/8/8/8/4K3 w - d6 0 1").unwrap();
    let tagged = engine.get_captures_and_checks(&passing);
    assert_eq!(tagged, vec![(Move { from: 36, to: 43, promotion: None }, false, true)]);
}

#[test]
fn quiescence_stands_pat_in_a_quiet_position() {
    let mut engine = engine();
    let game = Game::from_fen("8/8/8/8/8/5k2/6p1/6K1 w - - 0 1").unwrap();
    assert_eq!(engine.quiescence(&game, -INFINITY, INFINITY), Ok((-1_300_899_600, 0)));
    assert_eq!(engine.quiescence(&game, 0, INFINITY), Ok((0, 0)));
    assert_eq!(
        engine.quiescence(&game, -INFINITY, -2_000_000_000),
        Ok((-2_000_000_000, 0))
    );
    assert_eq!(
        engine.quiescence(&game, 1_000 * TICKS_PER_CENTIPAWN, INFINITY),
        Ok((1_000 * TICKS_PER_CENTIPAWN, 0))
    );
    assert_eq!(
        engine.negamax(&game, 0, -INFINITY, INFINITY),
        Ok((-1_300_899_600, Vec::new(), 1))
    );
}

#[test]
fn quiescence_discounts_finished_games() {
    let mut engine = engine();
    let mated = Game::from_fen("R5k1/5ppp/8/8/8/8/5PPP/6K1 b - - 0 1").unwrap();
    assert_eq!(
        engine.quiescence(&mated, -INFINITY, INFINITY),
        Ok((-11_400 * TICKS_PER_CENTIPAWN, 0))
    );
    assert_eq!(
        engine.negamax(&mated, 3, -INFINITY, INFINITY),
        Ok((LOSS_VALUE, Vec::new(), 1))
    );
    let stalemate = Game::from_fen("7k/5Q2/6K1/8/8/8/8/8 b - - 0 1").unwrap();
    assert_eq!(engine.quiescence(&stalemate, -INFINITY, INFINITY), Ok((0, 0)));
    assert_eq!(engine.negamax(&stalemate, 2, -5, 5), Ok((0, Vec::new(), 1)));
}

#[test]
fn quiescence_takes_what_hangs() {
    let mut engine = engine();
    let game = Game::from_fen("4k3/8/8/3q4/4P3/8/8/4K3 w - - 0 1").unwrap();
    let (stand, _) = engine
        .quiescence(&Game::from_fen("4k3/8/8/3P4/8/8/8/4K3 b - - 0 1").unwrap(), -INFINITY, INFINITY)
        .unwrap();
    let (score, nodes) = engine.quiescence(&game, -INFINITY, INFINITY).unwrap();
    assert_eq!(score, -stand);
    assert!(score > 0);
    assert!(nodes >= 1);
}

#[test]
fn one_ply_is_the_best_of_the_replies() {
    let mut engine = engine();
    let game = Game::from_fen("6k1/5ppp/8/8/8/8/5PPP/R5K1 w - - 0 1").unwrap();
    let (score, line, nodes) = engine.negamax(&game, 1, -INFINITY, INFINITY).unwrap();
    let mut best = -INFINITY;
    let mut count = 1;
    for m in game.legal_moves() {
        let (below, _, visited) = engine
            .negamax(&game.play(m), 0, -INFINITY, INFINITY)
            .unwrap();
        count += visited;
        if -below > best {
            best = -below;
        }
    }
    assert_eq!(score, best);
    assert_eq!(nodes, count);
    assert_eq!(line.len(), 1);
    assert!(game.is_legal(line[0]));
    assert_eq!(score, WIN_VALUE);
    assert_eq!(line[0].to_uci(), "a1a8");
}

#[test]
fn window_cuts_the_search() {
    let mut engine = engine();
    let game = Game::from_fen("6k1/5ppp/8/8/8/8/5PPP/R5K1 w - - 0 1").unwrap();
    let (score, line, _) = engine.negamax(&game, 1, -INFINITY, 100).unwrap();
    assert_eq!(score, 100);
    assert!(line.is_empty());
    let (score, line, _) = engine.negamax(&game, 1, INFINITY - 1, INFINITY).unwrap();
    assert_eq!(score, INFINITY - 1);
    assert!(line.is_empty());
}

#[test]
fn principal_variation_can_be_played() {
    let mut engine = engine();
    let game = Game::from_fen("r1bqkbnr/pppp1ppp/2n5/4p3/4P3/5N2/PPPP1PPP/RNBQKB1R w KQkq - 2 3").unwrap();
    let (score, line, nodes) = engine.negamax(&game, 2, -INFINITY, INFINITY).unwrap();
    assert!(LOSS_VALUE <= score && score <= WIN_VALUE);
    assert_eq!(line.len(), 2);
    assert!(nodes > 2);
    let mut current = game.duplicate();
    for m in line {
        current = current.try_play(m).unwrap();
    }
}

#[test]
fn search_stops_without_nodes() {
    let mut engine = engine();
    engine.set_node_budget(5);
    let game = Game::new();
    assert_eq!(engine.negamax(&game, 2, -INFINITY, INFINITY), Err(Stopped));
    assert_eq!(engine.halted(), Some(Halt::Exhausted));
    assert_eq!(engine.nodes_left(), 0);
    assert_eq!(engine.quiescence(&game, -INFINITY, INFINITY), Err(Stopped));
}

#[test]
fn node_counts_stay_within_the_budget() {
    let mut engine = engine();
    engine.set_node_budget(1_000_000);
    let game = Game::new();
    let (_, _, nodes) = engine.negamax(&game, 1, -INFINITY, INFINITY).unwrap();
    assert_eq!(nodes, 21);
    assert!(nodes + engine.nodes_left() <= 1_000_000);
    assert_eq!(engine.halted(), None);
}

#[test]
fn seed_and_rate() {
    assert_eq!(seed_index(0, 20), 0);
    assert_eq!(seed_index(99, 20), 0);
    assert_eq!(seed_index(100, 20), 1);
    assert_eq!(seed_index(2_050, 20), 0);
    assert_eq!(seed_index(123_456, 7), 1_234 % 7);
    assert_eq!(nodes_per_second(0, 0), u64::MAX);
    assert_eq!(nodes_per_second(500, 1_000_000), 500);
    assert_eq!(nodes_per_second(500, 1_000), 500_000);
    assert_eq!(nodes_per_second(3, 2_000_000), 1);
    assert_eq!(nodes_per_second(u64::MAX, 1), u64::MAX);
}

#[test]
fn commands_are_accepted() {
    let mut engine = engine();
    assert_eq!(engine.accept(&EngineCommand::quit()), Accepted::Quit);
    assert_eq!(engine.accept(&EngineCommand::stop()), Accepted::Idle);
    let mut options = SearchOptions::default();
    options.move_time = 70;
    engine.set_node_budget(9);
    engine.check_stop();
    assert_eq!(engine.nodes_left(), 8);
    assert_eq!(engine.accept(&EngineCommand::go(options.duplicate())), Accepted::Ready);
    assert_eq!(engine.time_for_move(), Some(70_000));
    assert_eq!(engine.nodes_left(), 9);
    options.move_time = 0;
    options.black_increment = 3;
    assert_eq!(engine.accept(&EngineCommand::go(options)), Accepted::Refused);
    assert_eq!(engine.time_for_move(), Some(70_000));
}

#[test]
fn commands_are_run() {
    let mut engine = engine();
    assert!(matches!(engine.run(&EngineCommand::quit()), Run::Quit));
    assert!(matches!(engine.run(&EngineCommand::stop()), Run::Idle));
    let mut options = SearchOptions::default();
    options.black_time = 5;
    assert!(matches!(engine.run(&EngineCommand::go(options)), Run::Refused));
    let mut options = SearchOptions::default();
    options.set_position(&words("fen 8/8/8/8/8/5k2/6p1/6K1 w - - 0 1")).unwrap();
    options.set_search_parameters(&words("depth 1")).unwrap();
    match engine.run(&EngineCommand::go(options)) {
        Run::Searched(report) => {
            assert_eq!(report.infos.len(), 1);
            assert_eq!(report.best_move.unwrap().to_uci(), "g1h2");
        }
        _ => panic!("the search was not made"),
    }
}

#[test]
fn commands_are_built() {
    let command = EngineCommand::default();
    assert!(!command.stop && !command.quit);
    assert_eq!(command.search_options.move_overhead, 10);
    let mut options = SearchOptions::default();
    options.move_time = 5;
    let command = EngineCommand::go(options);
    assert!(!command.stop && !command.quit);
    assert_eq!(command.search_options.move_time, 5);
    let command = EngineCommand::stop();
    assert!(command.stop && !command.quit);
    let command = EngineCommand::quit();
    assert!(command.stop && command.quit);
}

#[test]
fn stops_are_decided_from_the_readings() {
    let mut engine = engine();
    engine.set_node_budget(1);
    assert!(!engine.decide_stop(false, false, 1_000_000));
    assert_eq!(engine.nodes_left(), 0);
    assert_eq!(engine.halted(), None);
    assert!(engine.decide_stop(false, false, 0));
    assert_eq!(engine.halted(), Some(Halt::Exhausted));
    assert!(engine.decide_stop(true, false, 0));
    assert_eq!(engine.halted(), Some(Halt::Stop));
    assert!(engine.decide_stop(true, true, 0));
    assert_eq!(engine.halted(), Some(Halt::Quit));
    let mut options = SearchOptions::default();
    options.move_time = 5;
    engine.start_timer(&options).unwrap();
    assert_eq!(engine.nodes_left(), 1);
    assert!(engine.decide_stop(false, false, 6));
    assert_eq!(engine.halted(), Some(Halt::TimeOut));
    assert_eq!(engine.nodes_left(), 1);
    engine.start_timer(&options).unwrap();
    assert!(!engine.decide_stop(false, false, 5));
    assert_eq!(engine.nodes_left(), 0);
}
