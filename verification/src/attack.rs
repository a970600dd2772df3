use vstd::prelude::*;
use crate::board::Boards;
use crate::masks::{
    b_pawn_capture_mask,
    king_mask,
    knight_mask,
    spec_b_pawn_capture,
    spec_king_mask,
    spec_knight_mask,
    spec_w_pawn_capture,
};
use crate::rays::{bishop_attacks, rook_attacks, spec_bishop_attack, spec_rook_attack};
use crate::masks::w_pawn_capture_mask;

verus! {

// The attack test: a square is attacked by a side exactly when one of that
// side's pieces has the square in its attack set.  Reading the mover-colored
// pawn capture mask from the attacked square yields the squares from which
// an opposing pawn attacks it.

/// Square `sq` is attacked by the side holding `att`, with board occupancy
/// `occ`; `att_white` says which side that is.
pub open spec fn spec_attacked(sq: int, occ: u64, att: Boards, att_white: bool) -> bool {
    ||| (if att_white {
        spec_b_pawn_capture(1u64 << sq as u64)
    } else {
        spec_w_pawn_capture(1u64 << sq as u64)
    }) & att.pawn != 0
    ||| spec_king_mask(1u64 << sq as u64) & att.king != 0
    ||| spec_knight_mask(1u64 << sq as u64) & att.knight != 0
    ||| spec_bishop_attack(sq, occ) & (att.bishop | att.queen) != 0
    ||| spec_rook_attack(sq, occ) & (att.rook | att.queen) != 0
}

/// Whether any black piece attacks `square` under occupancy `blocker_board`.
pub fn square_attacked_by_black(att: &Boards, blocker_board: u64, square: usize) -> (r: bool)
    requires
        square < 64,
    ensures
        r == spec_attacked(square as int, blocker_board, *att, false),
{
    let bitboard_square = 1u64 << (square as u64);
    if w_pawn_capture_mask(bitboard_square) & att.pawn != 0 {
        return true;
    }
    if king_mask(bitboard_square) & att.king != 0 {
        return true;
    }
    if knight_mask(bitboard_square) & att.knight != 0 {
        return true;
    }
    if bishop_attacks(square, blocker_board) & (att.bishop | att.queen)
        != 0 {
        return true;
    }
    if rook_attacks(square, blocker_board) & (att.rook | att.queen)
        != 0 {
        return true;
    }
    false
}

/// Whether any white piece attacks `square` under occupancy `blocker_board`.
pub fn square_attacked_by_white(att: &Boards, blocker_board: u64, square: usize) -> (r: bool)
    requires
        square < 64,
    ensures
        r == spec_attacked(square as int, blocker_board, *att, true),
{
    let bitboard_square = 1u64 << (square as u64);
    if b_pawn_capture_mask(bitboard_square) & att.pawn != 0 {
        return true;
    }
    if king_mask(bitboard_square) & att.king != 0 {
        return true;
    }
    if knight_mask(bitboard_square) & att.knight != 0 {
        return true;
    }
    if bishop_attacks(square, blocker_board) & (att.bishop | att.queen)
        != 0 {
        return true;
    }
    if rook_attacks(square, blocker_board) & (att.rook | att.queen)
        != 0 {
        return true;
    }
    false
}

} // verus!
