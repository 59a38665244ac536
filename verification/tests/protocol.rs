use uci_engine::search_options::CommandError;
use uci_engine::uci_protocol::{replace_colons, Reaction, UciProtocol, Verb};

fn words(line: &str) -> Vec<String> {
    line.split_whitespace().map(str::to_string).collect()
}

fn react(protocol: &mut UciProtocol, line: &str) -> Reaction {
    protocol.react(&words(line), "engine", "1.2.3", "Ann:Bob")
}

#[test]
fn uci_is_answered() {
    let mut protocol = UciProtocol::new();
    match react(&mut protocol, "uci") {
        Reaction::Print(lines) => assert_eq!(
            lines,
            vec![
                "id name Engine 1.2.3",
                "id author Ann, Bob",
                "option name MaxDepth type spin default -1 min -1 max 99",
                "option name Move Overhead type spin default 10 min 0 max 5000",
                "option name Syzygy50MoveRule type check default true",
                "option name SyzygyPath type string default <empty>",
                "uciok",
            ]
        ),
        _ => panic!("uci prints"),
    }
    assert_eq!(UciProtocol::uci("", "", "").len(), 7);
    assert_eq!(UciProtocol::uci("", "", "")[0], "id name  ");
    assert_eq!(UciProtocol::uci("x", "2", "")[1], "id author ");
}

#[test]
fn isready_is_answered() {
    let mut protocol = UciProtocol::new();
    match react(&mut protocol, "isready") {
        Reaction::Print(lines) => assert_eq!(lines, vec!["readyok"]),
        _ => panic!("isready prints"),
    }
    assert_eq!(UciProtocol::is_ready(), "readyok");
}

#[test]
fn verbs_are_told_apart() {
    assert_eq!(UciProtocol::verb(&words("uci")), Verb::Uci);
    assert_eq!(UciProtocol::verb(&words("isready now")), Verb::IsReady);
    assert_eq!(UciProtocol::verb(&words("go depth 2")), Verb::Go);
    assert_eq!(UciProtocol::verb(&words("stop")), Verb::Stop);
    assert_eq!(UciProtocol::verb(&words("setoption name x value y")), Verb::SetOption);
    assert_eq!(UciProtocol::verb(&words("ucinewgame")), Verb::NewGame);
    assert_eq!(UciProtocol::verb(&words("position startpos")), Verb::Position);
    assert_eq!(UciProtocol::verb(&words("quit")), Verb::Quit);
    assert_eq!(UciProtocol::verb(&words("UCI")), Verb::Unknown);
    assert_eq!(UciProtocol::verb(&words("debug on")), Verb::Unknown);
    assert_eq!(UciProtocol::verb(&[]), Verb::Unknown);
}

#[test]
fn go_sends_the_options() {
    let mut protocol = UciProtocol::new();
    assert!(matches!(react(&mut protocol, "position startpos moves e2e4"), Reaction::Nothing));
    match react(&mut protocol, "go depth 3 wtime 1000") {
        Reaction::Send(command) => {
            assert!(!command.stop && !command.quit);
            assert_eq!(command.search_options.depth, Some(3));
            assert_eq!(command.search_options.white_time, 1_000);
            assert_eq!(command.search_options.chess_game.played().len(), 1);
        }
        _ => panic!("go sends"),
    }
    assert_eq!(protocol.options().depth, Some(3));
    match react(&mut protocol, "go") {
        Reaction::Send(command) => {
            assert_eq!(command.search_options.depth, Some(2));
            assert_eq!(command.search_options.white_time, 0);
        }
        _ => panic!("go sends"),
    }
    match react(&mut protocol, "go infinite") {
        Reaction::Send(command) => assert_eq!(command.search_options.depth, None),
        _ => panic!("go sends"),
    }
    assert!(matches!(
        react(&mut protocol, "go depth x"),
        Reaction::Failed(CommandError::InvalidValue)
    ));
    assert_eq!(protocol.options().depth, None);
}

#[test]
fn stop_and_quit_send_their_commands() {
    let mut protocol = UciProtocol::new();
    match react(&mut protocol, "stop") {
        Reaction::Send(command) => assert!(command.stop && !command.quit),
        _ => panic!("stop sends"),
    }
    match react(&mut protocol, "quit") {
        Reaction::Quit(command) => assert!(command.stop && command.quit),
        _ => panic!("quit sends and ends"),
    }
    let command = protocol.stop();
    assert!(command.stop && !command.quit);
    let command = protocol.quit();
    assert!(command.stop && command.quit);
}

#[test]
fn options_and_positions_are_set() {
    let mut protocol = UciProtocol::new();
    assert!(matches!(
        react(&mut protocol, "setoption name MaxDepth value 4"),
        Reaction::Nothing
    ));
    assert_eq!(protocol.options().max_depth, Some(4));
    assert!(matches!(
        react(&mut protocol, "setoption MaxDepth 4"),
        Reaction::Failed(CommandError::InvalidSetOption)
    ));
    assert!(matches!(
        react(&mut protocol, "position fen 8/8/8/8/8/5k2/6p1/6K1 w - - 0 1 moves g1h2"),
        Reaction::Nothing
    ));
    assert_eq!(protocol.options().chess_game.fen(), "8/8/8/8/8/5k2/6p1/6K1 w - - 0 1");
    assert_eq!(protocol.options().chess_game.played().len(), 1);
    assert!(matches!(
        react(&mut protocol, "position fen rubbish"),
        Reaction::Failed(CommandError::InvalidFen)
    ));
    assert!(matches!(
        react(&mut protocol, "position"),
        Reaction::Failed(CommandError::MissingToken)
    ));
    assert_eq!(protocol.options().chess_game.played().len(), 1);
    protocol.position(&words("startpos")).unwrap();
    assert!(protocol.options().chess_game.played().is_empty());
    protocol.set_option(&words("name Move Overhead value 3")).unwrap();
    assert_eq!(protocol.options().move_overhead, 3);
    let command = protocol.go(&words("movetime 9")).unwrap();
    assert_eq!(command.search_options.move_time, 9);
    assert_eq!(command.search_options.move_overhead, 3);
}

#[test]
fn new_game_twice_gives_the_default() {
    let mut protocol = UciProtocol::new();
    react(&mut protocol, "position startpos moves e2e4");
    react(&mut protocol, "setoption name MaxDepth value 4");
    react(&mut protocol, "setoption name Move Overhead value 77");
    react(&mut protocol, "go wtime 5 depth 1");
    assert!(matches!(react(&mut protocol, "ucinewgame"), Reaction::Nothing));
    let once = protocol.options().duplicate();
    assert!(matches!(react(&mut protocol, "ucinewgame"), Reaction::Nothing));
    let twice = protocol.options();
    for options in [&once, twice] {
        assert!(options.chess_game.played().is_empty());
        assert_eq!(
            options.chess_game.fen(),
            "rnbqkbnr/pppppppp/8/8/8/8/PPPPPPPP/RNBQKBNR w KQkq - 0 1"
        );
        assert_eq!(options.max_depth, None);
        assert_eq!(options.depth, None);
        assert_eq!(options.move_overhead, 10);
        assert_eq!(options.white_time, 0);
        assert!(options.fifty_moves_rule);
        assert!(options.syzygy_path.is_none());
    }
    protocol.new_game();
    assert_eq!(protocol.options().move_overhead, 10);
}

#[test]
fn unknown_lines_are_ignored() {
    let mut protocol = UciProtocol::new();
    assert!(matches!(react(&mut protocol, ""), Reaction::Nothing));
    assert!(matches!(react(&mut protocol, "   "), Reaction::Nothing));
    assert!(matches!(react(&mut protocol, "debug on"), Reaction::Nothing));
    assert!(matches!(react(&mut protocol, "ponderhit"), Reaction::Nothing));
    assert_eq!(protocol.options().move_overhead, 10);
}

#[test]
fn colons_become_commas() {
    assert_eq!(replace_colons("Ann:Bob:Cy"), "Ann, Bob, Cy");
    assert_eq!(replace_colons("Ann"), "Ann");
    assert_eq!(replace_colons(""), "");
    assert_eq!(replace_colons(":"), ", ");
    assert_eq!(replace_colons("é:ü"), "é, ü");
}
