use uci_engine::fen::is_well_shaped;
use uci_engine::game::Game;

#[test]
fn well_shaped_placements() {
    assert!(is_well_shaped("rnbqkbnr/pppppppp/8/8/8/8/PPPPPPPP/RNBQKBNR w KQkq - 0 1"));
    assert!(is_well_shaped("8/8/8/8/8/5k2/6p1/6K1 w - - 0 1"));
    assert!(is_well_shaped("8/8/8/8/8/5k2/6p1/6K1"));
    assert!(is_well_shaped("4k3/8/8/8/8/8/8/4K3 anything"));
}

#[test]
fn ill_shaped_placements() {
    assert!(!is_well_shaped(""));
    assert!(!is_well_shaped(" 8/8/8/8/8/5k2/6p1/6K1 w - - 0 1"));
    assert!(!is_well_shaped("8/8/8/8/8/8/8/8 w - - 0 1"));
    assert!(!is_well_shaped("4k3/8/8/8/8/8/8/8 w - - 0 1"));
    assert!(!is_well_shaped("4k3/8/8/8/8/8/8/3KK3 w - - 0 1"));
    assert!(!is_well_shaped("4kk2/8/8/8/8/8/8/4K3 w - - 0 1"));
    assert!(!is_well_shaped("4k3/8/8/8/8/8/4K3 w - - 0 1"));
    assert!(!is_well_shaped("4k3/8/8/8/8/8/8/8/4K3 w - - 0 1"));
    assert!(!is_well_shaped("4k3/9/8/8/8/8/8/4K3 w - - 0 1"));
    assert!(!is_well_shaped("4k3/7/8/8/8/8/8/4K3 w - - 0 1"));
    assert!(!is_well_shaped("4k4/8/8/8/8/8/8/4K3 w - - 0 1"));
    assert!(!is_well_shaped("4k3/8/8/8/8/8/8/4K3/ w - - 0 1"));
    assert!(!is_well_shaped("4k3/8/8/8/8/8/8/4K2x w - - 0 1"));
    assert!(!is_well_shaped("4k3/0p7/8/8/8/8/8/4K3 w - - 0 1"));
    assert!(!is_well_shaped("K7/8/8/8/8/8/8/8/Q6k w - - 0 1"));
}

#[test]
fn no_side_has_more_than_sixteen_pieces() {
    assert!(is_well_shaped("7k/6pp/8/QQ6/QQ6/QQ6/QQQQQ3/QQQQ2K1 b - - 0 1"));
    assert!(!is_well_shaped("7k/6pp/8/QQ6/QQ6/QQ6/QQQQQ3/QQQQQ1K1 b - - 0 1"));
    assert!(!is_well_shaped("8/NNNNNNNN/NNNNNNNN/NNNNNNNN/8/8/8/K6k w - - 0 1"));
    assert!(is_well_shaped("k7/nnnnnnnn/nnnnnnn1/8/8/8/8/K7 w - - 0 1"));
    assert!(!is_well_shaped("k7/nnnnnnnn/nnnnnnnn/8/8/8/8/K7 w - - 0 1"));
    assert!(is_well_shaped("knnnnnnn/nnnnnnnn/8/8/8/8/NNNNNNNN/NNNNNNNK w - - 0 1"));
    assert!(Game::from_fen("8/NNNNNNNN/NNNNNNNN/NNNNNNNN/8/8/8/K6k w - - 0 1").is_none());
    assert!(Game::from_fen("7k/6pp/8/QQ6/QQ6/QQ6/QQQQQ3/QQQQQ1K1 b - - 0 1").is_none());
}

#[test]
fn sixteen_pieces_that_all_move_are_generated() {
    let game = Game::from_fen("7k/8/8/1N1N4/N1N1N1N1/1N1N1N1N/N1N1N1N1/1N1K4 w - - 0 1");
    let game = game.unwrap();
    assert_eq!(game.current_position().piece_count(), 17);
    let moves = game.legal_moves();
    let mut movers: Vec<u8> = moves.iter().map(|m| m.from).collect();
    movers.sort();
    movers.dedup();
    assert_eq!(movers.len(), 16);
    assert!(game.result().is_none());
    assert!(!game.can_declare_draw());
}

#[test]
fn games_start_only_from_accepted_positions() {
    assert!(Game::from_fen("8/8/8/8/8/5k2/6p1/6K1 w - - 0 1").is_some());
    assert!(Game::from_fen("Invalid FEN").is_none());
    assert!(Game::from_fen("8/8/8/8/8/8/8/8 w - - 0 1").is_none());
    assert!(Game::from_fen("4k3/8/8/8/8/8/8/4K3").is_none());
    assert!(Game::from_fen("4k3/8/8/8/8/8/8/4K3 x - - 0 1").is_none());
    assert!(Game::from_fen("4k3/4K3/8/8/8/8/8/8 w - - 0 1").is_none());
    assert!(Game::from_fen("4k3/8/8/8/8/8/8/R3K3 b - - 0 1").is_some());
    assert!(Game::from_fen("R3k3/8/8/8/8/8/8/4K3 w - - 0 1").is_none());
}
