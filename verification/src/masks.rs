use vstd::prelude::*;
use crate::bits::{
    NOT_ON_A_FILE,
    NOT_ON_AB_FILE,
    NOT_ON_GH_FILE,
    NOT_ON_H_FILE,
    RANK_2,
    RANK_7,
};

verus! {

// Attack masks of the non-sliding pieces, computed from a single-bit source
// square.  Shifts that would wrap from the a-file to the h-file, or back, are
// clipped with the constant file masks first.

pub open spec fn spec_w_pawn_forward(b: u64) -> u64 {
    b << 8
}

/// The square one rank ahead of a white pawn.
pub fn w_pawn_forward_mask(bitboard_square: u64) -> (r: u64)
    ensures
        r == spec_w_pawn_forward(bitboard_square),
{
    bitboard_square << 8
}

pub open spec fn spec_w_pawn_double(b: u64) -> u64 {
    (b & RANK_2) << 16
}

/// The square two ranks ahead of a white pawn on its starting rank.
pub fn w_pawn_doubleforward_mask(bitboard_square: u64) -> (r: u64)
    ensures
        r == spec_w_pawn_double(bitboard_square),
{
    (bitboard_square & RANK_2) << 16
}

pub open spec fn spec_w_pawn_capture(b: u64) -> u64 {
    ((b & NOT_ON_H_FILE) << 7) | ((b & NOT_ON_A_FILE) << 9)
}

/// The two diagonal-forward squares a white pawn attacks.
pub fn w_pawn_capture_mask(bitboard_square: u64) -> (r: u64)
    ensures
        r == spec_w_pawn_capture(bitboard_square),
{
    ((bitboard_square & NOT_ON_H_FILE) << 7) | ((bitboard_square & NOT_ON_A_FILE) << 9)
}

pub open spec fn spec_b_pawn_forward(b: u64) -> u64 {
    b >> 8
}

/// The square one rank ahead of a black pawn.
pub fn b_pawn_forward_mask(bitboard_square: u64) -> (r: u64)
    ensures
        r == spec_b_pawn_forward(bitboard_square),
{
    bitboard_square >> 8
}

pub open spec fn spec_b_pawn_double(b: u64) -> u64 {
    (b & RANK_7) >> 16
}

/// The square two ranks ahead of a black pawn on its starting rank.
pub fn b_pawn_doubleforward_mask(bitboard_square: u64) -> (r: u64)
    ensures
        r == spec_b_pawn_double(bitboard_square),
{
    (bitboard_square & RANK_7) >> 16
}

pub open spec fn spec_b_pawn_capture(b: u64) -> u64 {
    ((b & NOT_ON_H_FILE) >> 9) | ((b & NOT_ON_A_FILE) >> 7)
}

/// The two diagonal-forward squares a black pawn attacks.
pub fn b_pawn_capture_mask(bitboard_square: u64) -> (r: u64)
    ensures
        r == spec_b_pawn_capture(bitboard_square),
{
    ((bitboard_square & NOT_ON_H_FILE) >> 9) | ((bitboard_square & NOT_ON_A_FILE) >> 7)
}

pub open spec fn spec_king_mask(b: u64) -> u64 {
    ((b & NOT_ON_H_FILE) << 7) | ((b & NOT_ON_H_FILE) >> 1) | ((b & NOT_ON_H_FILE) >> 9) | (b << 8)
        | (b >> 8) | ((b & NOT_ON_A_FILE) << 9) | ((b & NOT_ON_A_FILE) << 1) | ((b & NOT_ON_A_FILE)
        >> 7)
}

/// The up-to-eight squares adjacent to the king.
pub fn king_mask(bitboard_square: u64) -> (r: u64)
    ensures
        r == spec_king_mask(bitboard_square),
{
    ((bitboard_square & NOT_ON_H_FILE) << 7) | ((bitboard_square & NOT_ON_H_FILE) >> 1) | ((
    bitboard_square & NOT_ON_H_FILE) >> 9) | (bitboard_square << 8) | (bitboard_square >> 8) | ((
    bitboard_square & NOT_ON_A_FILE) << 9) | ((bitboard_square & NOT_ON_A_FILE) << 1) | ((
    bitboard_square & NOT_ON_A_FILE) >> 7)
}

pub open spec fn spec_knight_mask(b: u64) -> u64 {
    ((b & NOT_ON_A_FILE) << 17) | ((b & NOT_ON_A_FILE) >> 15) | ((b & NOT_ON_H_FILE) << 15) | ((b
        & NOT_ON_H_FILE) >> 17) | ((b & NOT_ON_AB_FILE) << 10) | ((b & NOT_ON_AB_FILE) >> 6) | ((b
        & NOT_ON_GH_FILE) << 6) | ((b & NOT_ON_GH_FILE) >> 10)
}

/// The up-to-eight knight destinations.
pub fn knight_mask(bitboard_square: u64) -> (r: u64)
    ensures
        r == spec_knight_mask(bitboard_square),
{
    ((bitboard_square & NOT_ON_A_FILE) << 17) | ((bitboard_square & NOT_ON_A_FILE) >> 15) | ((
    bitboard_square & NOT_ON_H_FILE) << 15) | ((bitboard_square & NOT_ON_H_FILE) >> 17) | ((
    bitboard_square & NOT_ON_AB_FILE) << 10) | ((bitboard_square & NOT_ON_AB_FILE) >> 6) | ((
    bitboard_square & NOT_ON_GH_FILE) << 6) | ((bitboard_square & NOT_ON_GH_FILE) >> 10)
}

/// A pawn's diagonal captures never wrap around the board: every capture
/// destination sits on a file directly beside the pawn's own file, one rank
/// ahead for white and one rank behind for black.
pub proof fn lemma_pawn_capture_no_wrap(s: u64, t: u64)
    by (bit_vector)
    requires
        s < 64,
        t < 64,
    ensures
        spec_w_pawn_capture(1u64 << s) & (1u64 << t) != 0 <==> ((t == s + 7 && s % 8 != 0) || (t
            == s + 9 && s % 8 != 7)),
        spec_b_pawn_capture(1u64 << s) & (1u64 << t) != 0 <==> ((t + 9 == s && s % 8 != 0) || (t
            + 7 == s && s % 8 != 7)),
        spec_w_pawn_capture(1u64 << s) & (1u64 << t) != 0 ==> (t % 8 == s % 8 + 1 || t % 8 + 1 == s
            % 8),
        spec_b_pawn_capture(1u64 << s) & (1u64 << t) != 0 ==> (t % 8 == s % 8 + 1 || t % 8 + 1 == s
            % 8),
{
}

} // verus!
