use bitboard_chess::board::GameResult;
use bitboard_chess::board::Position;
use bitboard_chess::perft::perft;

#[test]
fn perft1() {
    assert_eq!(perft(&Position::startpos(), 1), 20);
    assert_eq!(perft(&Position::startpos(), 2), 400);
    assert_eq!(perft(&Position::startpos(), 3), 8902);
    assert_eq!(perft(&Position::startpos(), 4), 197281);
}

#[test]
fn perft2() {
    assert_eq!(perft(&Position::from_fen("8/2p5/3p4/KP5r/1R3p1k/8/4P1P1/8 w - - "), 1), 14);
    assert_eq!(perft(&Position::from_fen("8/2p5/3p4/KP5r/1R3p1k/8/4P1P1/8 w - - "), 2), 191);
    assert_eq!(perft(&Position::from_fen("8/2p5/3p4/KP5r/1R3p1k/8/4P1P1/8 w - - "), 3), 2812);
    assert_eq!(perft(&Position::from_fen("8/2p5/3p4/KP5r/1R3p1k/8/4P1P1/8 w - - "), 4), 43238);
}

#[test]
fn perft3() {
    assert_eq!(
        perft(&Position::from_fen("r4rk1/1pp1qppp/p1np1n2/2b1p1B1/2B1P1b1/P1NP1N2/1PP1QPPP/R4RK1 w - - 0 10 "), 1),
        46
    );
    assert_eq!(
        perft(&Position::from_fen("r4rk1/1pp1qppp/p1np1n2/2b1p1B1/2B1P1b1/P1NP1N2/1PP1QPPP/R4RK1 w - - 0 10 "), 2),
        2079
    );
    assert_eq!(
        perft(&Position::from_fen("r4rk1/1pp1qppp/p1np1n2/2b1p1B1/2B1P1b1/P1NP1N2/1PP1QPPP/R4RK1 w - - 0 10 "), 3),
        89890
    );
    assert_eq!(
        perft(&Position::from_fen("r4rk1/1pp1qppp/p1np1n2/2b1p1B1/2B1P1b1/P1NP1N2/1PP1QPPP/R4RK1 w - - 0 10 "), 4),
        3894594
    );
}

// example test
// check that game state is in progress after initialisation
#[test]
fn game_in_progress_after_init() {
    assert_eq!(Position::startpos().game_in_progress(), true);
}

#[test]
fn scolars_mate_from_startpos() {
    let mut pos = Position::startpos();
    assert_eq!(pos.get_legal_moves().len(), 20);
    assert_eq!(pos.game_in_progress(), true);
    pos.make_move("e2e4");
    assert_eq!(pos.game_in_progress(), true);
    pos.make_move("e7e5");
    assert_eq!(pos.game_in_progress(), true);
    pos.make_move("d1h4");
    assert_eq!(pos.game_in_progress(), true);
    pos.make_move("b8c6");
    assert_eq!(pos.game_in_progress(), true);
    pos.make_move("f1c4");
    assert_eq!(pos.game_in_progress(), true);
    pos.make_move("g8f6");
    assert_eq!(pos.game_in_progress(), true);
    pos.make_move("h4f7");
    assert_eq!(pos.game_in_progress(), false);
    assert_eq!(pos.get_result(), GameResult::WhiteWin)
}
