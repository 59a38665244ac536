use uci_engine::chess_move::Move;
use uci_engine::game::Game;
use uci_engine::heuristic::Heuristic;
use uci_engine::piece::{Color, Piece};

#[test]
fn start_position_has_twenty_legal_moves() {
    let game = Game::new();
    assert_eq!(game.legal_moves().len(), 20);
    assert_eq!(game.side_to_move(), Color::White);
    assert_eq!(game.fen(), "rnbqkbnr/pppppppp/8/8/8/8/PPPPPPPP/RNBQKBNR w KQkq - 0 1");
    assert!(game.result().is_none());
    assert!(!game.can_declare_draw());
}

#[test]
fn start_position_is_balanced() {
    let game = Game::new();
    let heuristic = Heuristic::default();
    assert_eq!(heuristic.evaluate_position(game.current_position()), 0);
}

#[test]
fn move_text_round_trip() {
    let m = Move::from_uci("e7e8q").unwrap();
    assert_eq!(m, Move { from: 52, to: 60, promotion: Some(Piece::Queen) });
    assert_eq!(m.to_uci(), "e7e8q");
    assert_eq!(Move { from: 12, to: 28, promotion: None }.to_uci(), "e2e4");
    assert!(Move::from_uci("zz").is_none());
}

#[test]
fn moves_are_played_only_where_legal() {
    let game = Game::new();
    let e4 = Move { from: 12, to: 28, promotion: None };
    let e5 = Move { from: 12, to: 36, promotion: None };
    assert!(game.is_legal(e4));
    assert!(!game.is_legal(e5));
    assert!(game.try_play(e5).is_none());
    assert!(game.try_play(Move { from: 200, to: 3, promotion: None }).is_none());
    let next = game.try_play(e4).unwrap();
    assert_eq!(next.played(), &vec![e4]);
    assert_eq!(next.side_to_move(), Color::Black);
    assert_eq!(next.current_position().piece_on(28), Some(Piece::Pawn));
    assert_eq!(next.current_position().piece_on(12), None);
    assert_eq!(game.played().len(), 0);
    let again = game.play(e4);
    assert_eq!(again.played(), next.played());
    let copy = next.duplicate();
    assert_eq!(copy.played(), next.played());
    assert_eq!(copy.fen(), next.fen());
}

#[test]
fn checks_are_seen() {
    let game = Game::from_fen("rnbqkbnr/ppp1pppp/8/3p4/4P3/8/PPPP1PPP/RNBQKBNR w KQkq d6 0 2").unwrap();
    assert!(game.gives_check(Move { from: 5, to: 33, promotion: None }));
    assert!(!game.gives_check(Move { from: 28, to: 35, promotion: None }));
}

#[test]
fn promotions_are_generated() {
    let game = Game::from_fen("8/P6k/8/8/8/8/8/K7 w - - 0 1").unwrap();
    let moves = game.legal_moves();
    assert!(moves.contains(&Move { from: 48, to: 56, promotion: Some(Piece::Queen) }));
    assert!(moves.contains(&Move { from: 48, to: 56, promotion: Some(Piece::Knight) }));
    assert!(moves.contains(&Move { from: 48, to: 56, promotion: Some(Piece::Rook) }));
    assert!(moves.contains(&Move { from: 48, to: 56, promotion: Some(Piece::Bishop) }));
    let queened = game.play(Move { from: 48, to: 56, promotion: Some(Piece::Queen) });
    assert_eq!(queened.current_position().piece_on(56), Some(Piece::Queen));
    assert_eq!(Move { from: 48, to: 56, promotion: Some(Piece::Knight) }.to_uci(), "a7a8n");
    assert_eq!(Move { from: 200, to: 56, promotion: None }.to_uci(), "");
}

#[test]
fn moves_compare_by_their_parts() {
    let m = Move { from: 1, to: 2, promotion: None };
    assert!(m.same(&Move { from: 1, to: 2, promotion: None }));
    assert!(!m.same(&Move { from: 1, to: 3, promotion: None }));
    assert!(!m.same(&Move { from: 0, to: 2, promotion: None }));
    assert!(!m.same(&Move { from: 1, to: 2, promotion: Some(Piece::Queen) }));
    let q = Move { from: 1, to: 2, promotion: Some(Piece::Queen) };
    assert!(q.same(&q));
    assert!(!q.same(&Move { from: 1, to: 2, promotion: Some(Piece::Rook) }));
}

#[test]
fn move_texts_are_read_as_the_rules_read_them() {
    let e2e4 = Move { from: 12, to: 28, promotion: None };
    assert_eq!(Move::from_uci("e2e4"), Some(e2e4));
    assert_eq!(Move::from_uci("a1h8"), Some(Move { from: 0, to: 63, promotion: None }));
    assert_eq!(Move::from_uci("h8a1"), Some(Move { from: 63, to: 0, promotion: None }));
    assert_eq!(Move::from_uci("e7e8r"), Some(Move { from: 52, to: 60, promotion: Some(Piece::Rook) }));
    assert_eq!(Move::from_uci("e7e8n"), Some(Move { from: 52, to: 60, promotion: Some(Piece::Knight) }));
    assert_eq!(Move::from_uci("e7e8b"), Some(Move { from: 52, to: 60, promotion: Some(Piece::Bishop) }));
    assert_eq!(Move::from_uci("e7e8k"), None);
    assert_eq!(Move::from_uci("e7e8p"), None);
    assert_eq!(Move::from_uci("e7e8Q"), None);
    assert_eq!(Move::from_uci("e2e4 "), None);
    assert_eq!(Move::from_uci("e2e4xyz"), Some(e2e4));
    assert_eq!(Move::from_uci("e2e4qq"), Some(e2e4));
    assert_eq!(Move::from_uci("e2e4\u{e9}"), Some(e2e4));
    assert_eq!(Move::from_uci("e2e"), None);
    assert_eq!(Move::from_uci(""), None);
    assert_eq!(Move::from_uci("E2E4"), None);
    assert_eq!(Move::from_uci("e9e4"), None);
    assert_eq!(Move::from_uci("i2e4"), None);
    assert_eq!(Move::from_uci("e2e0"), None);
    assert_eq!(Move::from_uci("\u{e9}2e4"), None);
    assert_eq!(Move::from_uci("e\u{e9}e4"), None);
    assert_eq!(Move::from_uci("e2\u{e9}4"), None);
    assert_eq!(Move::from_uci("e2\u{20ac}"), None);
    for from in 0..64u8 {
        let m = Move { from, to: 63 - from, promotion: None };
        assert_eq!(Move::from_uci(&m.to_uci()), Some(m));
        let q = Move { from, to: 63 - from, promotion: Some(Piece::Queen) };
        assert_eq!(Move::from_uci(&q.to_uci()), Some(q));
    }
}
