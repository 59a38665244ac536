use uci_engine::chess_move::Move;
use uci_engine::engine::SearchInfo;
use uci_engine::piece::Piece;
use uci_engine::report::{best_move_line, decimal, info_line, signed_decimal};
use uci_engine::score::TICKS_PER_CENTIPAWN;

#[test]
fn numbers_are_written_in_decimal() {
    assert_eq!(decimal(0), "0");
    assert_eq!(decimal(7), "7");
    assert_eq!(decimal(10), "10");
    assert_eq!(decimal(1_234_567_890), "1234567890");
    assert_eq!(decimal(u128::MAX), "340282366920938463463374607431768211455");
    assert_eq!(signed_decimal(0), "0");
    assert_eq!(signed_decimal(-1), "-1");
    assert_eq!(signed_decimal(550), "550");
    assert_eq!(signed_decimal(i64::MIN), "-9223372036854775808");
    assert_eq!(signed_decimal(i64::MAX), "9223372036854775807");
}

#[test]
fn iterations_are_reported() {
    let info = SearchInfo {
        depth: 2,
        score: 3_966_732_000,
        nodes: 500,
        pv: vec![
            Move { from: 12, to: 28, promotion: None },
            Move { from: 52, to: 60, promotion: Some(Piece::Queen) },
        ],
    };
    assert_eq!(
        info_line(&info, 2_500),
        "info depth 2 score cp 550 nodes 500 nps 200000 time 2 pv e2e4 e7e8q"
    );
    let info = SearchInfo { depth: 1, score: -12_000 * TICKS_PER_CENTIPAWN, nodes: 1, pv: vec![] };
    assert_eq!(
        info_line(&info, 0),
        "info depth 1 score cp -12000 nodes 1 nps 18446744073709551615 time 0 pv"
    );
}

#[test]
fn move_to_play_is_reported() {
    assert_eq!(
        best_move_line(Some(Move { from: 0, to: 56, promotion: None })),
        "bestmove a1a8"
    );
    assert_eq!(
        best_move_line(Some(Move { from: 51, to: 59, promotion: Some(Piece::Knight) })),
        "bestmove d7d8n"
    );
    assert_eq!(best_move_line(None), "bestmove 0000");
}
