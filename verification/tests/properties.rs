use bitboard_chess::board::Boards;
use bitboard_chess::board::GameResult;
use bitboard_chess::board::Position;
use bitboard_chess::board::Piece;
use bitboard_chess::magic::bishop_magic_attacks;
use bitboard_chess::magic::check_if_magic;
use bitboard_chess::magic::init_magic_tables;
use bitboard_chess::magic::rook_magic_attacks;
use bitboard_chess::masks::king_mask;
use bitboard_chess::masks::w_pawn_capture_mask;
use bitboard_chess::rays::bishop_attacks;
use bitboard_chess::rays::rook_attacks;
use bitboard_chess::rays::rook_blocker_mask;

fn side_boards(s: &Boards) -> [u64; 6] {
    [s.king, s.queen, s.bishop, s.knight, s.rook, s.pawn]
}

fn check_invariants(pos: &Position) {
    let w = side_boards(&pos.w_board);
    let b = side_boards(&pos.b_board);
    // the twelve boards are pairwise disjoint
    for i in 0..6 {
        for j in 0..6 {
            if i != j {
                assert_eq!(w[i] & w[j], 0);
                assert_eq!(b[i] & b[j], 0);
            }
            assert_eq!(w[i] & b[j], 0);
        }
    }
    // each aggregate is the union of its six boards
    assert_eq!(pos.w_all, w.iter().fold(0, |a, x| a | x));
    assert_eq!(pos.b_all, b.iter().fold(0, |a, x| a | x));
    // one king each
    assert_eq!(pos.w_board.king.count_ones(), 1);
    assert_eq!(pos.b_board.king.count_ones(), 1);
    // the en-passant target is empty or a single bit on rank 3 or rank 6
    let ep = pos.en_passent_target_square;
    if ep != 0 {
        assert_eq!(ep.count_ones(), 1);
        assert_ne!(ep & (0xff0000u64 | 0x0000ff0000000000u64), 0);
        assert_eq!(ep & (pos.w_all | pos.b_all), 0);
    }
    // each cached move has a single source bit and a single destination bit
    for m in &pos.legal_moves {
        assert_eq!(m.from.count_ones(), 1);
        assert_eq!(m.destination.count_ones(), 1);
    }
}

#[test]
fn invariants_hold_after_parse_and_moves() {
    let mut pos = Position::startpos();
    check_invariants(&pos);
    pos.make_move("e2e4");
    check_invariants(&pos);
    pos.make_move("e7e5");
    check_invariants(&pos);
    pos.make_move("g1f3");
    check_invariants(&pos);
    let p2 = Position::from_fen("8/2p5/3p4/KP5r/1R3p1k/8/4P1P1/8 w - -");
    check_invariants(&p2);
}

#[test]
fn side_to_move_flips_after_apply() {
    let mut pos = Position::startpos();
    assert!(pos.w_turn);
    pos.make_move("e2e4");
    assert!(!pos.w_turn);
    pos.make_move("e7e5");
    assert!(pos.w_turn);
}

#[test]
fn blocked_pawn_cannot_push_or_double_push() {
    let mut pos = Position::from_fen("k7/8/8/8/8/4p3/4P1K1/8 w - -");
    let from_e2 = pos.get_square_legal_moves("e2");
    assert_eq!(from_e2.len(), 0);
}

#[test]
fn pawn_captures_never_go_sideways_or_wrap() {
    // a white pawn on the a-file with a black pawn on the h-file: pushes
    // only, no capture across the board edge
    let mut pos = Position::from_fen("k7/8/8/8/7p/8/P7/K7 w - -");
    let from_a2 = pos.get_square_legal_moves("a2");
    assert_eq!(from_a2, vec!["a3".to_string(), "a4".to_string()]);
    // the capture mask of a pawn on a1 reaches only b2
    assert_eq!(w_pawn_capture_mask(1u64 << 7), 1u64 << 14);
}

#[test]
fn knight_move_counts_on_empty_board() {
    let mut on_a1 = Position::from_fen("k7/8/8/8/8/8/8/N6K w - -");
    assert_eq!(on_a1.get_square_legal_moves("a1").len(), 2);
    let mut on_d4 = Position::from_fen("k7/8/8/8/3N4/8/8/7K w - -");
    assert_eq!(on_d4.get_square_legal_moves("d4").len(), 8);
}

#[test]
fn en_passant_target_set_by_double_push_and_cleared() {
    let mut pos = Position::startpos();
    assert_eq!(pos.en_passent_target_square, 0);
    pos.make_move("e2e4");
    assert_eq!(pos.en_passent_target_square, 1u64 << 19);
    pos.make_move("g8f6");
    assert_eq!(pos.en_passent_target_square, 0);
}

#[test]
fn en_passant_capture_removes_the_passed_pawn() {
    let mut pos = Position::startpos();
    pos.make_move("e2e4");
    pos.make_move("a7a6");
    pos.make_move("e4e5");
    pos.make_move("d7d5");
    assert_eq!(pos.en_passent_target_square, 1u64 << 44);
    let from_e5 = pos.get_square_legal_moves("e5");
    assert!(from_e5.contains(&"d6".to_string()));
    pos.make_move("e5d6");
    check_after_ep(&pos);
}

fn check_after_ep(pos: &Position) {
    // the captured pawn on d5 is gone and the capturer stands on d6
    assert_eq!(pos.b_board.pawn & (1u64 << 36), 0);
    assert_ne!(pos.w_board.pawn & (1u64 << 44), 0);
}

#[test]
fn promotion_expands_to_four_tokens() {
    let mut pos = Position::from_fen("7k/P7/8/8/8/8/8/K7 w - -");
    let from_a7 = pos.get_square_legal_moves("a7");
    assert_eq!(
        from_a7,
        vec!["a8q".to_string(), "a8r".to_string(), "a8n".to_string(), "a8b".to_string()]
    );
}

#[test]
fn stalemate_reports_draw() {
    let pos = Position::from_fen("7k/5K2/6P1/8/8/8/8/8 b - -");
    assert_eq!(pos.game_in_progress(), false);
    assert_eq!(pos.get_result(), GameResult::Draw);
}

#[test]
fn fools_mate_reports_black_win() {
    let mut pos = Position::startpos();
    pos.make_move("f2f3");
    pos.make_move("e7e5");
    pos.make_move("g2g4");
    pos.make_move("d8h4");
    assert_eq!(pos.game_in_progress(), false);
    assert_eq!(pos.get_result(), GameResult::BlackWin);
}

#[test]
fn startpos_moves_are_long_algebraic() {
    let mut pos = Position::startpos();
    let moves = pos.get_legal_moves();
    assert_eq!(moves.len(), 20);
    for token in ["a2a3", "a2a4", "e2e4", "h2h4", "b1a3", "b1c3", "g1f3", "g1h3"] {
        assert!(moves.contains(&token.to_string()));
    }
}

#[test]
fn king_mask_is_clipped_at_the_corner() {
    assert_eq!(king_mask(1u64 << 0), 0x302);
}

#[test]
fn rook_blocker_mask_has_twelve_bits_at_the_corner() {
    assert_eq!(rook_blocker_mask(0).count_ones(), 12);
}

#[test]
fn magic_lookup_agrees_with_ray_walk() {
    let tables = init_magic_tables().expect("no magic found");
    let mut occ: u64 = 0x1234_5678_9abc_def0;
    for square in 0..64 {
        for _ in 0..8 {
            occ = occ.wrapping_mul(6364136223846793005).wrapping_add(1442695040888963407);
            assert_eq!(rook_magic_attacks(&tables, square, occ), rook_attacks(square, occ));
            assert_eq!(bishop_magic_attacks(&tables, square, occ), bishop_attacks(square, occ));
        }
    }
    let random_occ = rand::random::<u64>();
    let sq = (rand::random::<u64>() % 64) as usize;
    assert_eq!(rook_magic_attacks(&tables, sq, random_occ), rook_attacks(sq, random_occ));
    assert_eq!(
        bishop_magic_attacks(&tables, sq, random_occ),
        bishop_attacks(sq, random_occ)
    );
}

#[test]
fn startpos_square_moves_for_e2() {
    let mut pos = Position::startpos();
    assert_eq!(pos.get_square_legal_moves("e2"), vec!["e3".to_string(), "e4".to_string()]);
}

#[test]
fn castling_tokens_displace_the_rook() {
    let mut pos = Position::from_fen("r3k2r/8/8/8/8/8/8/R3K2R w - -");
    pos.make_move("e1g1");
    // white king on g1, rook h1 moved to f1, rook a1 untouched
    assert_eq!(pos.w_board.king, 1u64 << 1);
    assert_eq!(pos.w_board.rook, (1u64 << 2) | (1u64 << 7));
    check_invariants(&pos);
    pos.make_move("e8c8");
    // black king on c8, rook a8 moved to d8, rook h8 untouched
    assert_eq!(pos.b_board.king, 1u64 << 61);
    assert_eq!(pos.b_board.rook, (1u64 << 60) | (1u64 << 56));
    check_invariants(&pos);
}

#[test]
fn zero_is_never_magic() {
    // the zero multiplier hashes every blocker subset to slot zero, so the
    // first two subsets with different attack sets collide
    assert!(check_if_magic(Piece::Rook, 0, 0).is_none());
    assert!(check_if_magic(Piece::Bishop, 27, 0).is_none());
}

#[test]
fn side_to_move_comes_from_the_second_field() {
    // a 'b' in the en-passant field must not override field 2
    let white = Position::from_fen("4k3/8/8/8/8/8/8/4K3 w - b6 0 1");
    assert!(white.w_turn);
    let black = Position::from_fen("4k3/8/8/8/8/8/8/4K3 b - w6 0 1");
    assert!(!black.w_turn);
}
