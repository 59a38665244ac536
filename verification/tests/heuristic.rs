use uci_engine::game::Game;
use uci_engine::heuristic::{GameResult, Heuristic};
use uci_engine::piece::{Color, Piece};
use uci_engine::position::Position;
use uci_engine::score::{DRAW_VALUE, LOSS_VALUE, TICKS_PER_CENTIPAWN, WIN_VALUE};
use uci_engine::search_options::SearchOptions;

fn words(line: &str) -> Vec<String> {
    line.split_whitespace().map(str::to_string).collect()
}

fn letter(c: char) -> Option<(Piece, Color)> {
    let color = if c.is_ascii_uppercase() { Color::White } else { Color::Black };
    let piece = match c.to_ascii_lowercase() {
        'p' => Piece::Pawn,
        'n' => Piece::Knight,
        'b' => Piece::Bishop,
        'r' => Piece::Rook,
        'q' => Piece::Queen,
        'k' => Piece::King,
        _ => return None,
    };
    Some((piece, color))
}

fn squares(placement: &str) -> Vec<Option<(Piece, Color)>> {
    let mut board = vec![None; 64];
    let mut rank = 7;
    let mut file = 0;
    for c in placement.chars() {
        if c == '/' {
            rank -= 1;
            file = 0;
        } else if let Some(d) = c.to_digit(10) {
            file += d as usize;
        } else {
            board[rank * 8 + file] = letter(c);
            file += 1;
        }
    }
    board
}

fn mirrored(board: &[Option<(Piece, Color)>]) -> Vec<Option<(Piece, Color)>> {
    let mut flipped = vec![None; 64];
    for sq in 0..64 {
        let from = 8 * (7 - sq / 8) + sq % 8;
        flipped[sq] = board[from].map(|(piece, color)| {
            (piece, if color == Color::White { Color::Black } else { Color::White })
        });
    }
    flipped
}

#[test]
fn center_bonus_steps_down_from_the_middle() {
    assert_eq!(Heuristic::occupying_center_bonus(27, 5), 15);
    assert_eq!(Heuristic::occupying_center_bonus(28, 5), 15);
    assert_eq!(Heuristic::occupying_center_bonus(36, 7), 21);
    assert_eq!(Heuristic::occupying_center_bonus(19, 5), 10);
    assert_eq!(Heuristic::occupying_center_bonus(44, 5), 10);
    assert_eq!(Heuristic::occupying_center_bonus(11, 5), 5);
    assert_eq!(Heuristic::occupying_center_bonus(52, 5), 5);
    assert_eq!(Heuristic::occupying_center_bonus(3, 5), 0);
    assert_eq!(Heuristic::occupying_center_bonus(60, 5), 0);
    assert_eq!(Heuristic::occupying_center_bonus(26, 5), 0);
    assert_eq!(Heuristic::occupying_center_bonus(29, 5), 0);
    assert_eq!(Heuristic::occupying_center_bonus(27, -7), -21);
    assert_eq!(Heuristic::occupying_center_bonus(27, 1_000_000), 3_000_000);
    assert_eq!(Heuristic::occupying_center_bonus(19, -40), -80);
    assert_eq!(Heuristic::occupying_center_bonus(0, i64::MAX / 3), 0);
}

#[test]
fn distance_bonus_is_exact() {
    assert_eq!(Heuristic::distance_from_king_bonus(0, 63, 5), 0);
    assert_eq!(Heuristic::distance_from_king_bonus(0, 1, 8), 104 * TICKS_PER_CENTIPAWN);
    assert_eq!(Heuristic::distance_from_king_bonus(0, 16, 5), 30 * TICKS_PER_CENTIPAWN);
    assert_eq!(Heuristic::distance_from_king_bonus(0, 24, 5), 132_132_000);
    assert_eq!(3 * 132_132_000, 55 * TICKS_PER_CENTIPAWN);
    assert_eq!(Heuristic::distance_from_king_bonus(24, 0, 5), 132_132_000);
    assert_eq!(Heuristic::distance_from_king_bonus(24, 0, -5), -132_132_000);
    assert_eq!(Heuristic::distance_from_king_bonus(0, 1, -7), -91 * TICKS_PER_CENTIPAWN);
    assert_eq!(Heuristic::distance_from_king_bonus(0, 2, 100), 600 * TICKS_PER_CENTIPAWN);
    assert_eq!(Heuristic::distance_from_king_bonus(0, 63, 1_000_000), 0);
    assert_eq!(Heuristic::distance_from_king_bonus(0, 1, 0), 0);
}

#[test]
fn piece_bonuses_have_their_values() {
    assert_eq!(Heuristic::pawn_bonus(28, Color::White, 60), 299_098_800);
    assert_eq!(2 * 299_098_800, 83 * TICKS_PER_CENTIPAWN);
    assert_eq!(Heuristic::pawn_bonus(48, Color::Black, 4), -93_693_600);
    assert_eq!(-93_693_600, -13 * TICKS_PER_CENTIPAWN);
    assert_eq!(Heuristic::rook_bonus(0, 60), 9_828_000);
    assert_eq!(Heuristic::knight_bonus(27, 60), 255_134_880);
    assert_eq!(Heuristic::bishop_bonus(2, 62), 15_724_800);
    assert_eq!(Heuristic::queen_bonus(3, 60), 43_243_200);
    assert_eq!(Heuristic::king_bonus(28, 60, true), 263_062_800);
    assert_eq!(Heuristic::king_bonus(28, 60, false), -61_261_200);
}

#[test]
fn rook_prefers_the_middle_files() {
    let far = Heuristic::distance_from_king_bonus(0, 63, 5);
    assert_eq!(far, 0);
    assert_eq!(Heuristic::rook_bonus(3, 60) - Heuristic::distance_from_king_bonus(3, 60, 5), 24 * TICKS_PER_CENTIPAWN);
    assert_eq!(Heuristic::rook_bonus(2, 60) - Heuristic::distance_from_king_bonus(2, 60, 5), 16 * TICKS_PER_CENTIPAWN);
    assert_eq!(Heuristic::rook_bonus(5, 60) - Heuristic::distance_from_king_bonus(5, 60, 5), 16 * TICKS_PER_CENTIPAWN);
    assert_eq!(Heuristic::rook_bonus(1, 60) - Heuristic::distance_from_king_bonus(1, 60, 5), 8 * TICKS_PER_CENTIPAWN);
    assert_eq!(Heuristic::rook_bonus(7, 60) - Heuristic::distance_from_king_bonus(7, 60, 5), 0);
}

#[test]
fn positions_have_their_static_values() {
    let heuristic = Heuristic::default();
    let cases: [(&str, Color, i64); 7] = [
        ("rnbqkbnr/pppppppp/8/8/8/8/PPPPPPPP/RNBQKBNR", Color::White, 0),
        ("6k1/5ppp/8/8/8/8/5PPP/R5K1", Color::White, 3_966_732_000),
        ("6k1/5ppp/8/8/8/8/5PPP/R5K1", Color::Black, -3_966_732_000),
        ("8/8/8/8/8/5k2/6p1/6K1", Color::White, -1_369_368_000),
        ("4k3/8/8/8/8/8/8/3QK3", Color::White, 6_890_083_200),
        ("4k3/3q4/8/8/8/8/8/4K3", Color::White, -6_918_912_000),
        ("r1bqkbnr/pppp1ppp/2n5/4p3/4P3/5N2/PPPP1PPP/RNBQKB1R", Color::White, 10_250_240),
    ];
    for (placement, mover, expected) in cases {
        let position = Position::new(squares(placement), mover).unwrap();
        assert_eq!(heuristic.evaluate_position(&position), expected, "{}", placement);
    }
}

#[test]
fn evaluation_agrees_with_the_rules_snapshot() {
    let heuristic = Heuristic::default();
    let game = Game::from_fen("6k1/5ppp/8/8/8/8/5PPP/R5K1 w - - 0 1").unwrap();
    assert_eq!(heuristic.evaluate_position(game.current_position()), 3_966_732_000);
    assert_eq!(heuristic.evaluate(&game), 3_966_732_000);
    assert_eq!(game.current_position().piece_on(0), Some(Piece::Rook));
    assert_eq!(game.current_position().color_on(62), Some(Color::Black));
    assert_eq!(game.current_position().king_square(Color::White), 6);
    assert_eq!(game.current_position().king_square(Color::Black), 62);
    assert_eq!(game.current_position().piece_count(), 9);
    assert!(game.current_position().no_queens());
}

#[test]
fn mirror_image_negates_the_value() {
    let heuristic = Heuristic::default();
    let placements = [
        "rnbqkbnr/pppppppp/8/8/8/8/PPPPPPPP/RNBQKBNR",
        "6k1/5ppp/8/8/8/8/5PPP/R5K1",
        "8/8/8/8/8/5k2/6p1/6K1",
        "r1bqkbnr/pppp1ppp/2n5/4p3/4P3/5N2/PPPP1PPP/RNBQKB1R",
        "2b1k3/8/8/3B4/8/2N5/8/4K2q",
    ];
    for placement in placements {
        for mover in [Color::White, Color::Black] {
            let board = squares(placement);
            let position = Position::new(board.clone(), mover).unwrap();
            let image = Position::new(mirrored(&board), mover).unwrap();
            assert_eq!(
                heuristic.evaluate_position(&position),
                -heuristic.evaluate_position(&image),
                "{}",
                placement
            );
        }
    }
}

#[test]
fn position_needs_one_king_of_each_colour() {
    assert!(Position::new(squares("8/8/8/8/8/8/8/4K3"), Color::White).is_none());
    assert!(Position::new(squares("4k3/8/8/8/8/8/8/3KK3"), Color::White).is_none());
    assert!(Position::new(squares("4k3/8/8/8/8/8/8/4K3"), Color::White).is_some());
    assert!(Position::new(vec![None; 63], Color::White).is_none());
    let position = Position::new(squares("4k3/8/8/8/8/8/8/4K3"), Color::Black).unwrap();
    assert_eq!(position.side_to_move(), Color::Black);
    assert_eq!(position.occupant(4), Some((Piece::King, Color::White)));
    assert_eq!(position.occupant(5), None);
    assert_eq!(position.occupant(200), None);
    assert_eq!(position.piece_count(), 2);
}

#[test]
fn finished_games_have_their_values() {
    let heuristic = Heuristic::default();
    assert_eq!(heuristic.evaluate_result(GameResult::WhiteCheckmates, Color::White), WIN_VALUE);
    assert_eq!(heuristic.evaluate_result(GameResult::WhiteCheckmates, Color::Black), LOSS_VALUE);
    assert_eq!(heuristic.evaluate_result(GameResult::BlackResigns, Color::White), WIN_VALUE);
    assert_eq!(heuristic.evaluate_result(GameResult::BlackResigns, Color::Black), LOSS_VALUE);
    assert_eq!(heuristic.evaluate_result(GameResult::BlackCheckmates, Color::Black), WIN_VALUE);
    assert_eq!(heuristic.evaluate_result(GameResult::BlackCheckmates, Color::White), LOSS_VALUE);
    assert_eq!(heuristic.evaluate_result(GameResult::WhiteResigns, Color::Black), WIN_VALUE);
    assert_eq!(heuristic.evaluate_result(GameResult::WhiteResigns, Color::White), LOSS_VALUE);
    for mover in [Color::White, Color::Black] {
        assert_eq!(heuristic.evaluate_result(GameResult::Stalemate, mover), DRAW_VALUE);
        assert_eq!(heuristic.evaluate_result(GameResult::DrawAccepted, mover), DRAW_VALUE);
        assert_eq!(heuristic.evaluate_result(GameResult::DrawDeclared, mover), DRAW_VALUE);
    }
    assert_eq!(WIN_VALUE, 12_000 * TICKS_PER_CENTIPAWN);
    assert_eq!(LOSS_VALUE, -12_000 * TICKS_PER_CENTIPAWN);
}

#[test]
fn checkmate_is_a_loss_for_the_side_to_move() {
    let heuristic = Heuristic::default();
    let mut options = SearchOptions::default();
    options.set_position(&words("startpos moves f2f3 e7e5 g2g4 d8h4")).unwrap();
    let game = &options.chess_game;
    assert_eq!(game.result(), Some(GameResult::BlackCheckmates));
    assert_eq!(game.side_to_move(), Color::White);
    assert!(game.legal_moves().is_empty());
    assert_eq!(heuristic.evaluate(game), LOSS_VALUE);

    let mated = Game::from_fen("R5k1/5ppp/8/8/8/8/5PPP/6K1 b - - 0 1").unwrap();
    assert_eq!(mated.result(), Some(GameResult::WhiteCheckmates));
    assert_eq!(heuristic.evaluate(&mated), LOSS_VALUE);
}

#[test]
fn claimable_draw_is_worth_nothing() {
    let heuristic = Heuristic::default();
    let mut options = SearchOptions::default();
    options
        .set_position(&words(
            "startpos moves b1c3 b8c6 c3b1 c6b8 b1c3 b8c6 c3b1 c6b8",
        ))
        .unwrap();
    assert!(options.chess_game.can_declare_draw());
    assert_eq!(heuristic.evaluate(&options.chess_game), 0);

    let stalemate = Game::from_fen("7k/5Q2/6K1/8/8/8/8/8 b - - 0 1").unwrap();
    assert_eq!(stalemate.result(), Some(GameResult::Stalemate));
    assert!(!stalemate.can_declare_draw());
    assert_eq!(heuristic.evaluate(&stalemate), 0);
}

#[test]
fn known_answers_decide_the_value() {
    let heuristic = Heuristic::default();
    let position = Position::new(squares("4k3/8/8/8/8/8/8/3QK3"), Color::White).unwrap();
    assert_eq!(heuristic.evaluate_known(true, None, &position), 0);
    assert_eq!(heuristic.evaluate_known(true, Some(GameResult::WhiteCheckmates), &position), 0);
    assert_eq!(
        heuristic.evaluate_known(false, Some(GameResult::WhiteCheckmates), &position),
        WIN_VALUE
    );
    assert_eq!(
        heuristic.evaluate_known(false, Some(GameResult::BlackCheckmates), &position),
        LOSS_VALUE
    );
    assert_eq!(heuristic.evaluate_known(false, None, &position), 6_890_083_200);
}

#[test]
fn default_heuristic_keeps_the_fifty_move_rule() {
    let heuristic = Heuristic::default();
    assert!(heuristic.fifty_moves_rule);
    assert!(heuristic.syzygy_path.is_none());
}
