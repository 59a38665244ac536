use uci_engine::chess_move::Move;
use uci_engine::search_options::{CommandError, SearchOptions};

fn words(line: &str) -> Vec<String> {
    line.split_whitespace().map(str::to_string).collect()
}

const START: &str = "rnbqkbnr/pppppppp/8/8/8/8/PPPPPPPP/RNBQKBNR w KQkq - 0 1";

fn is_default(options: &SearchOptions) -> bool {
    options.chess_game.fen() == START
        && options.chess_game.played().is_empty()
        && options.move_time == 0
        && options.white_time == 0
        && options.white_increment == 0
        && options.black_time == 0
        && options.black_increment == 0
        && options.depth.is_none()
        && options.fifty_moves_rule
        && options.max_depth.is_none()
        && options.move_overhead == 10
        && options.syzygy_path.is_none()
}

#[test]
fn default_options() {
    let options = SearchOptions::default();
    assert!(is_default(&options));
    assert_eq!(options.search_depth(), None);
}

#[test]
fn option_lines() {
    let lines = SearchOptions::get_uci_options();
    assert_eq!(
        lines,
        vec![
            "option name MaxDepth type spin default -1 min -1 max 99",
            "option name Move Overhead type spin default 10 min 0 max 5000",
            "option name Syzygy50MoveRule type check default true",
            "option name SyzygyPath type string default <empty>",
        ]
    );
}

#[test]
fn reset_twice_gives_the_default() {
    let mut options = SearchOptions::default();
    options.set_position(&words("startpos moves e2e4")).unwrap();
    options.set_search_parameters(&words("wtime 1000 depth 3")).unwrap();
    options.set_option(&words("name MaxDepth value 5")).unwrap();
    options.set_option(&words("name Move Overhead value 50")).unwrap();
    options.set_option(&words("name Syzygy50MoveRule value false")).unwrap();
    assert!(!is_default(&options));
    options.reset();
    assert!(is_default(&options));
    options.reset();
    assert!(is_default(&options));
}

#[test]
fn position_from_start_with_moves() {
    let mut options = SearchOptions::default();
    options.set_position(&words("startpos moves e2e4 e7e5")).unwrap();
    assert_eq!(options.chess_game.fen(), START);
    assert_eq!(
        options.chess_game.played(),
        &vec![
            Move { from: 12, to: 28, promotion: None },
            Move { from: 52, to: 36, promotion: None },
        ]
    );
    assert_eq!(options.chess_game.legal_moves().len(), 29);
    options.set_position(&words("startpos")).unwrap();
    assert!(options.chess_game.played().is_empty());
    options.set_position(&words("moves d2d4")).unwrap();
    assert_eq!(options.chess_game.played().len(), 1);
}

#[test]
fn position_from_fen() {
    let mut options = SearchOptions::default();
    options
        .set_position(&words("fen 8/8/8/8/8/5k2/6p1/6K1 w - - 0 1"))
        .unwrap();
    assert_eq!(options.chess_game.fen(), "8/8/8/8/8/5k2/6p1/6K1 w - - 0 1");
    assert!(options.chess_game.played().is_empty());
    options
        .set_position(&words("fen 8/8/8/8/8/5k2/6p1/6K1 w - - 0 1 moves g1h2"))
        .unwrap();
    assert_eq!(options.chess_game.fen(), "8/8/8/8/8/5k2/6p1/6K1 w - - 0 1");
    assert_eq!(
        options.chess_game.played(),
        &vec![Move { from: 6, to: 15, promotion: None }]
    );
}

#[test]
fn illegal_moves_are_passed_over() {
    let mut options = SearchOptions::default();
    options.set_position(&words("startpos moves e2e5 e2e4 e2e4")).unwrap();
    assert_eq!(
        options.chess_game.played(),
        &vec![Move { from: 12, to: 28, promotion: None }]
    );
}

#[test]
fn position_errors_change_nothing() {
    let mut options = SearchOptions::default();
    options.set_position(&words("startpos moves e2e4")).unwrap();
    assert_eq!(options.set_position(&[]), Err(CommandError::MissingToken));
    assert_eq!(options.set_position(&words("fen")), Err(CommandError::MissingToken));
    assert_eq!(
        options.set_position(&words("fen 8/8/8/8/8/8/8/8 w - - 0 1")),
        Err(CommandError::InvalidFen)
    );
    assert_eq!(
        options.set_position(&words("fen moves e2e4")),
        Err(CommandError::InvalidFen)
    );
    assert_eq!(
        options.set_position(&words("fen nonsense")),
        Err(CommandError::InvalidFen)
    );
    assert_eq!(
        options.set_position(&words("startpos moves e7e5 zz")),
        Err(CommandError::InvalidMove)
    );
    assert_eq!(options.chess_game.played().len(), 1);
    assert_eq!(options.chess_game.fen(), START);
}

#[test]
fn search_parameters() {
    let mut options = SearchOptions::default();
    options
        .set_search_parameters(&words("wtime 300000 btime 290000 winc 2000 binc 1000"))
        .unwrap();
    assert_eq!(options.white_time, 300000);
    assert_eq!(options.black_time, 290000);
    assert_eq!(options.white_increment, 2000);
    assert_eq!(options.black_increment, 1000);
    assert_eq!(options.move_time, 0);
    assert_eq!(options.depth, None);

    options.set_search_parameters(&words("movetime 200")).unwrap();
    assert_eq!(options.move_time, 200);
    assert_eq!(options.white_time, 0);
    assert_eq!(options.black_increment, 0);
    assert_eq!(options.depth, None);

    options.set_search_parameters(&words("depth 7")).unwrap();
    assert_eq!(options.depth, Some(7));
    assert_eq!(options.move_time, 0);

    options.set_search_parameters(&[]).unwrap();
    assert_eq!(options.depth, Some(2));

    options.set_search_parameters(&words("depth 4 infinite")).unwrap();
    assert_eq!(options.depth, None);
    assert_eq!(options.move_time, 0);

    options.set_search_parameters(&words("depth -3")).unwrap();
    assert_eq!(options.depth, Some(-3));
}

#[test]
fn search_parameter_errors_change_nothing() {
    let mut options = SearchOptions::default();
    options.set_search_parameters(&words("movetime 200 depth 3")).unwrap();
    assert_eq!(
        options.set_search_parameters(&words("wtime")),
        Err(CommandError::MissingToken)
    );
    assert_eq!(
        options.set_search_parameters(&words("wtime abc")),
        Err(CommandError::InvalidValue)
    );
    assert_eq!(
        options.set_search_parameters(&words("movetime -5")),
        Err(CommandError::InvalidValue)
    );
    assert_eq!(
        options.set_search_parameters(&words("depth 2.5")),
        Err(CommandError::InvalidValue)
    );
    assert_eq!(
        options.set_search_parameters(&words("wtime 1 depth")),
        Err(CommandError::MissingToken)
    );
    assert_eq!(
        options.set_search_parameters(&words("movetime wtime 5")),
        Err(CommandError::InvalidValue)
    );
    assert_eq!(options.move_time, 200);
    assert_eq!(options.depth, Some(3));
}

#[test]
fn search_depth_is_the_lesser() {
    let mut options = SearchOptions::default();
    assert_eq!(options.search_depth(), None);
    options.depth = Some(10);
    assert_eq!(options.search_depth(), Some(10));
    options.max_depth = Some(3);
    assert_eq!(options.search_depth(), Some(3));
    options.depth = Some(2);
    assert_eq!(options.search_depth(), Some(2));
    options.depth = None;
    assert_eq!(options.search_depth(), Some(3));
    options.max_depth = Some(-1);
    options.depth = Some(4);
    assert_eq!(options.search_depth(), Some(-1));
}

#[test]
fn options_are_set_by_name() {
    let mut options = SearchOptions::default();
    options.set_option(&words("name MaxDepth value 3")).unwrap();
    assert_eq!(options.max_depth, Some(3));
    options.set_option(&words("name maxdepth value -1")).unwrap();
    assert_eq!(options.max_depth, None);
    options.set_option(&words("name Move Overhead value 250")).unwrap();
    assert_eq!(options.move_overhead, 250);
    options.set_option(&words("name Syzygy50MoveRule value false")).unwrap();
    assert!(!options.fifty_moves_rule);
    options.set_option(&words("name SYZYGY50MOVERULE value TRUE")).unwrap();
    assert!(options.fifty_moves_rule);
    options.set_option(&words("name Syzygy50MoveRule value yes")).unwrap();
    assert!(!options.fifty_moves_rule);
    options.set_option(&words("name Hash value 64")).unwrap();
    assert_eq!(options.max_depth, None);
    assert_eq!(options.move_overhead, 250);
}

#[test]
fn option_errors_change_nothing() {
    let mut options = SearchOptions::default();
    assert_eq!(
        options.set_option(&words("MaxDepth value 3")),
        Err(CommandError::InvalidSetOption)
    );
    assert_eq!(
        options.set_option(&words("name MaxDepth 3")),
        Err(CommandError::InvalidSetOption)
    );
    assert_eq!(
        options.set_option(&words("value 3 name MaxDepth")),
        Err(CommandError::InvalidSetOption)
    );
    assert_eq!(
        options.set_option(&words("name MaxDepth value three")),
        Err(CommandError::InvalidValue)
    );
    assert_eq!(
        options.set_option(&words("name Move Overhead value -1")),
        Err(CommandError::InvalidValue)
    );
    assert_eq!(options.set_option(&[]), Err(CommandError::InvalidSetOption));
    assert!(is_default(&options));
}

#[test]
fn tablebase_path_is_kept_where_it_is_found() {
    let mut options = SearchOptions::default();
    options.apply_option("syzygypath", "/some/tables", true).unwrap();
    assert_eq!(options.syzygy_path.as_deref(), Some("/some/tables"));
    options.apply_option("syzygypath", "/some/tables", false).unwrap();
    assert_eq!(options.syzygy_path, None);
    options
        .set_option(&words("name SyzygyPath value /no/such/place/for/tables"))
        .unwrap();
    assert_eq!(options.syzygy_path, None);
    options.apply_option("maxdepth", "12", false).unwrap();
    assert_eq!(options.max_depth, Some(12));
    options.apply_option("move overhead", "0", false).unwrap();
    assert_eq!(options.move_overhead, 0);
    assert_eq!(
        options.apply_option("maxdepth", "", false),
        Err(CommandError::InvalidValue)
    );
    options.apply_option("MaxDepth", "1", false).unwrap();
    assert_eq!(options.max_depth, Some(12));
}

#[test]
fn copies_are_equal() {
    let mut options = SearchOptions::default();
    options.set_position(&words("startpos moves e2e4 e7e5")).unwrap();
    options.set_search_parameters(&words("wtime 5 winc 6 btime 7 binc 8 depth 9")).unwrap();
    options.apply_option("syzygypath", "x", true).unwrap();
    let copy = options.duplicate();
    assert_eq!(copy.chess_game.fen(), options.chess_game.fen());
    assert_eq!(copy.chess_game.played(), options.chess_game.played());
    assert_eq!(copy.white_time, 5);
    assert_eq!(copy.white_increment, 6);
    assert_eq!(copy.black_time, 7);
    assert_eq!(copy.black_increment, 8);
    assert_eq!(copy.depth, Some(9));
    assert_eq!(copy.syzygy_path.as_deref(), Some("x"));
}
