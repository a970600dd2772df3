use vstd::prelude::*;
use crate::bits::{lemma_single_bit_eq, lemma_single_bit_in, lemma_subset_nonzero, single_bit, RANK_3, RANK_6};
use crate::board::{
    boards_get,
    boards_with,
    cache_ok,
    ep_ok,
    kings_ok,
    move_ok,
    nonpawn_or,
    pawn_shape,
    side_disjoint,
    side_or,
    wf_boards,
    Boards,
    Move,
    Piece,
    Position,
};
use crate::masks::spec_king_mask;
use crate::position::cache_safe;
use crate::position::spec_legal_moves;
use crate::position::same_but_cache;

verus! {

// Move application: execute a move record against the position, then
// recompute the legal-move cache for the new side to move.  The proofs
// below show that the bitboard invariant survives each mutation step.

/// Pulling any one board out of the six-way union, and each board's
/// inclusion in the union.
proof fn lemma_or6_forms(k: u64, q: u64, bi: u64, n: u64, r: u64, p: u64)
    by (bit_vector)
    ensures
        k | q | bi | n | r | p == k | (q | bi | n | r | p),
        k | q | bi | n | r | p == q | (k | bi | n | r | p),
        k | q | bi | n | r | p == bi | (k | q | n | r | p),
        k | q | bi | n | r | p == n | (k | q | bi | r | p),
        k | q | bi | n | r | p == r | (k | q | bi | n | p),
        k | q | bi | n | r | p == p | (k | q | bi | n | r),
        k & !(k | q | bi | n | r | p) == 0,
        q & !(k | q | bi | n | r | p) == 0,
        bi & !(k | q | bi | n | r | p) == 0,
        n & !(k | q | bi | n | r | p) == 0,
        r & !(k | q | bi | n | r | p) == 0,
        p & !(k | q | bi | n | r | p) == 0,
        (k | q | bi | n | r) & !(k | q | bi | n | r | p) == 0,
{
}

/// With the six boards pairwise disjoint, each is disjoint from the union
/// of the other five.
proof fn lemma_side_rest(k: u64, q: u64, bi: u64, n: u64, r: u64, p: u64)
    by (bit_vector)
    requires
        k & q == 0 && k & bi == 0 && k & n == 0 && k & r == 0 && k & p == 0,
        q & bi == 0 && q & n == 0 && q & r == 0 && q & p == 0,
        bi & n == 0 && bi & r == 0 && bi & p == 0,
        n & r == 0 && n & p == 0,
        r & p == 0,
    ensures
        k & (q | bi | n | r | p) == 0,
        q & (k | bi | n | r | p) == 0,
        bi & (k | q | n | r | p) == 0,
        n & (k | q | bi | r | p) == 0,
        r & (k | q | bi | n | p) == 0,
        p & (k | q | bi | n | r) == 0,
{
}

/// Toggling the source and destination bits of the moved board also
/// toggles them in the union, and keeps the board off the other five.
proof fn lemma_xor_aggregate(x: u64, rest: u64, f: u64, d: u64)
    by (bit_vector)
    requires
        single_bit(f),
        single_bit(d),
        f & x != 0 || x & f != 0,
        f & rest == 0,
        x & rest == 0,
        d & (x | rest) == 0,
    ensures
        (x | rest) ^ (f | d) == (x ^ (f | d)) | rest,
        (x ^ (f | d)) & rest == 0,
        f & !x == 0,
        f & d == 0,
        d & !(x ^ (f | d)) == 0,
{
}

/// The moved board stays disjoint from a board it was disjoint from.
proof fn lemma_xor_keep_disjoint(x: u64, w: u64, f: u64, d: u64)
    by (bit_vector)
    requires
        x & w == 0 || w & x == 0,
        f & !x == 0,
        d & w == 0 || w & d == 0,
    ensures
        (x ^ (f | d)) & w == 0,
        w & (x ^ (f | d)) == 0,
{
}

/// Disjointness from a set passes to its subsets.
proof fn lemma_zero_subset(x: u64, w: u64, big: u64)
    by (bit_vector)
    requires
        x & big == 0,
        w & !big == 0,
    ensures
        x & w == 0,
        w & x == 0,
{
}

/// Clearing a square from all six boards clears it from the union and
/// preserves pairwise disjointness.
proof fn lemma_clear6(k: u64, q: u64, bi: u64, n: u64, r: u64, p: u64, d: u64)
    by (bit_vector)
    requires
        k & q == 0 && k & bi == 0 && k & n == 0 && k & r == 0 && k & p == 0,
        q & bi == 0 && q & n == 0 && q & r == 0 && q & p == 0,
        bi & n == 0 && bi & r == 0 && bi & p == 0,
        n & r == 0 && n & p == 0,
        r & p == 0,
    ensures
        (k & !d) | (q & !d) | (bi & !d) | (n & !d) | (r & !d) | (p & !d) == (k | q | bi | n | r
            | p) & !d,
        (k & !d) & (q & !d) == 0 && (k & !d) & (bi & !d) == 0 && (k & !d) & (n & !d) == 0 && (k
            & !d) & (r & !d) == 0 && (k & !d) & (p & !d) == 0,
        (q & !d) & (bi & !d) == 0 && (q & !d) & (n & !d) == 0 && (q & !d) & (r & !d) == 0 && (q
            & !d) & (p & !d) == 0,
        (bi & !d) & (n & !d) == 0 && (bi & !d) & (r & !d) == 0 && (bi & !d) & (p & !d) == 0,
        (n & !d) & (r & !d) == 0 && (n & !d) & (p & !d) == 0,
        (r & !d) & (p & !d) == 0,
        k & d == 0 || d & k == 0 ==> k & !d == k,
{
}

/// The mover's new aggregate misses the opponent's boards, both when the
/// destination was captured away and when it was free.
proof fn lemma_cross(wa: u64, ba: u64, f: u64, d: u64)
    by (bit_vector)
    requires
        wa & ba == 0 || ba & wa == 0,
        f & !wa == 0,
        single_bit(d),
    ensures
        (wa ^ (f | d)) & (ba & !d) == 0,
        (ba & !d) & (wa ^ (f | d)) == 0,
        ba & d == 0 ==> (wa ^ (f | d)) & ba == 0 && ba & (wa ^ (f | d)) == 0,
{
}

/// Moving the promoted pawn's destination bit from the pawn board to the
/// promotion board leaves the union unchanged.
proof fn lemma_promo_agg(k: u64, q: u64, bi: u64, n: u64, r: u64, px: u64, d: u64)
    by (bit_vector)
    requires
        d & !px == 0,
    ensures
        k | (q | d) | bi | n | r | (px & !d) == k | q | bi | n | r | px,
        k | q | (bi | d) | n | r | (px & !d) == k | q | bi | n | r | px,
        k | q | bi | (n | d) | r | (px & !d) == k | q | bi | n | r | px,
        k | q | bi | n | (r | d) | (px & !d) == k | q | bi | n | r | px,
{
}

/// Disjointness facts for the promotion board and the stripped pawn board.
proof fn lemma_promo_pairs(y: u64, px: u64, w: u64, d: u64)
    by (bit_vector)
    requires
        y & px == 0 || px & y == 0,
        y & w == 0 || w & y == 0,
    ensures
        (y | d) & (px & !d) == 0,
        (px & !d) & (y | d) == 0,
        (y | d) & (w & !d) == 0,
        (w & !d) & (y | d) == 0,
        d & w == 0 ==> (y | d) & w == 0 && w & (y | d) == 0,
{
}

/// Shrinking either operand of a disjoint pair keeps it disjoint.
proof fn lemma_sub_mask(x: u64, w: u64, u: u64)
    by (bit_vector)
    requires
        x & w == 0 || w & x == 0,
    ensures
        x & (w & !u) == 0,
        (w & !u) & x == 0,
        (x & !u) & w == 0,
        w & (x & !u) == 0,
        (x & !u) & !x == 0,
{
}

/// Clearing the en-passant victim from the pawn board clears it from the
/// union, because no other board holds that square.
proof fn lemma_ep_clear(k: u64, q: u64, bi: u64, n: u64, r: u64, p: u64, u: u64)
    by (bit_vector)
    requires
        u & (k | q | bi | n | r) == 0,
    ensures
        k | q | bi | n | r | (p & !u) == (k | q | bi | n | r | p) & !u,
{
}

/// A bit with no part in a union has no part in either operand.
proof fn lemma_or_parts(a: u64, b: u64, x: u64)
    by (bit_vector)
    requires
        x & (a | b) == 0 || (x & a == 0 && x & b == 0),
    ensures
        x & a == 0,
        x & b == 0,
        a & x == 0,
        b & x == 0,
        x & (a | b) == 0,
{
}

/// Displacing the castling rook toggles the union by the rook's two
/// squares and preserves every disjointness the position had.
proof fn lemma_castle(
    k2: u64,
    q: u64,
    bi: u64,
    n: u64,
    r: u64,
    p: u64,
    ba: u64,
    u: u64,
    d: u64,
    f: u64,
    k: u64,
)
    by (bit_vector)
    requires
        single_bit(d),
        u == (d >> 1) | (d << 1) || u == (d >> 1) | (d << 2),
        u & (k | q | bi | n | p) == 0,
        single_bit(f),
        k & f != 0 || f & k != 0,
        k2 == k ^ (f | d),
        k2 & r == 0 && q & r == 0 && bi & r == 0 && n & r == 0 && r & p == 0,
        u & ba == 0,
        (k2 | q | bi | n | r | p) & ba == 0,
    ensures
        k2 | q | bi | n | (r ^ u) | p == (k2 | q | bi | n | r | p) ^ u,
        (r ^ u) & k2 == 0 && (r ^ u) & q == 0 && (r ^ u) & bi == 0 && (r ^ u) & n == 0 && (r ^ u)
            & p == 0,
        k2 & (r ^ u) == 0 && q & (r ^ u) == 0 && bi & (r ^ u) == 0 && n & (r ^ u) == 0 && p & (r
            ^ u) == 0,
        ((k2 | q | bi | n | r | p) ^ u) & ba == 0,
        ba & ((k2 | q | bi | n | r | p) ^ u) == 0,
{
}

/// A genuine king step never looks like the two-square castling shape.
proof fn lemma_king_not_castle(f: u64, d: u64)
    by (bit_vector)
    requires
        single_bit(f),
        single_bit(d),
        d & spec_king_mask(f) != 0,
    ensures
        d != f >> 2,
        d != f << 2,
{
}

/// What a white double push gives the new en-passant target: a single
/// unoccupied bit on rank 3 whose square ahead holds the pushed pawn.
proof fn lemma_double_push_w(f: u64, d: u64, wa: u64, ba: u64)
    by (bit_vector)
    requires
        single_bit(f),
        single_bit(d),
        d == f << 16,
        pawn_shape(f, d, wa | ba, true),
        f & !wa == 0,
        d & wa == 0,
    ensures
        single_bit(f << 8),
        (f << 8) & RANK_3 != 0,
        (f << 8) & (wa ^ (f | d)) == 0,
        (f << 8) & ba == 0,
        (f << 8) << 8 == d,
        d & (crate::bits::RANK_1 | crate::bits::RANK_8) == 0,
{
}

/// The mirrored fact for a black double push, toward rank 6.
proof fn lemma_double_push_b(f: u64, d: u64, wa: u64, ba: u64)
    by (bit_vector)
    requires
        single_bit(f),
        single_bit(d),
        d == f >> 16,
        pawn_shape(f, d, wa | ba, false),
        f & !ba == 0,
        d & ba == 0,
    ensures
        single_bit(f >> 8),
        (f >> 8) & RANK_6 != 0,
        (f >> 8) & (ba ^ (f | d)) == 0,
        (f >> 8) & wa == 0,
        (f >> 8) >> 8 == d,
        d & (crate::bits::RANK_1 | crate::bits::RANK_8) == 0,
{
}

/// The base step of every move: toggling the source and destination bits
/// of the moved piece's board keeps the side disjoint and in step with its
/// aggregate.
proof fn lemma_base_step(s: Boards, all: u64, piece: Piece, f: u64, d: u64)
    requires
        side_disjoint(s),
        all == side_or(s),
        single_bit(f),
        single_bit(d),
        piece != Piece::Void,
        boards_get(s, piece) & f != 0,
        d & all == 0,
    ensures
        ({
            let s2 = boards_with(s, piece, boards_get(s, piece) ^ (f | d));
            &&& side_disjoint(s2)
            &&& all ^ (f | d) == side_or(s2)
            &&& f & !all == 0
            &&& f & d == 0
            &&& d & !boards_get(s2, piece) == 0
            &&& (piece != Piece::King ==> s2.king == s.king)
            &&& (single_bit(s.king) && piece == Piece::King ==> s2.king == d)
        }),
{
    lemma_or6_forms(s.king, s.queen, s.bishop, s.knight, s.rook, s.pawn);
    lemma_side_rest(s.king, s.queen, s.bishop, s.knight, s.rook, s.pawn);
    let s2 = boards_with(s, piece, boards_get(s, piece) ^ (f | d));
    match piece {
        Piece::King => {
            let rest = s.queen | s.bishop | s.knight | s.rook | s.pawn;
            lemma_single_bit_in(f, s.king, rest);
            lemma_subset_nonzero(f, s.king, all);
            lemma_xor_aggregate(s.king, rest, f, d);
            lemma_zero_subset(d, s.queen, all);
            lemma_zero_subset(d, s.bishop, all);
            lemma_zero_subset(d, s.knight, all);
            lemma_zero_subset(d, s.rook, all);
            lemma_zero_subset(d, s.pawn, all);
            lemma_xor_keep_disjoint(s.king, s.queen, f, d);
            lemma_xor_keep_disjoint(s.king, s.bishop, f, d);
            lemma_xor_keep_disjoint(s.king, s.knight, f, d);
            lemma_xor_keep_disjoint(s.king, s.rook, f, d);
            lemma_xor_keep_disjoint(s.king, s.pawn, f, d);
            lemma_or6_forms(s2.king, s2.queen, s2.bishop, s2.knight, s2.rook, s2.pawn);
            if single_bit(s.king) {
                lemma_single_bit_eq(f, s.king);
                let kk = s.king;
                assert(kk ^ (f | d) == d) by (bit_vector)
                    requires
                        kk == f && f & d == 0 && single_bit(f),
                ;
            }
        },
        Piece::Queen => {
            let rest = s.king | s.bishop | s.knight | s.rook | s.pawn;
            lemma_single_bit_in(f, s.queen, rest);
            lemma_subset_nonzero(f, s.queen, all);
            lemma_xor_aggregate(s.queen, rest, f, d);
            lemma_zero_subset(d, s.king, all);
            lemma_zero_subset(d, s.bishop, all);
            lemma_zero_subset(d, s.knight, all);
            lemma_zero_subset(d, s.rook, all);
            lemma_zero_subset(d, s.pawn, all);
            lemma_xor_keep_disjoint(s.queen, s.king, f, d);
            lemma_xor_keep_disjoint(s.queen, s.bishop, f, d);
            lemma_xor_keep_disjoint(s.queen, s.knight, f, d);
            lemma_xor_keep_disjoint(s.queen, s.rook, f, d);
            lemma_xor_keep_disjoint(s.queen, s.pawn, f, d);
            lemma_or6_forms(s2.king, s2.queen, s2.bishop, s2.knight, s2.rook, s2.pawn);
        },
        Piece::Bishop => {
            let rest = s.king | s.queen | s.knight | s.rook | s.pawn;
            lemma_single_bit_in(f, s.bishop, rest);
            lemma_subset_nonzero(f, s.bishop, all);
            lemma_xor_aggregate(s.bishop, rest, f, d);
            lemma_zero_subset(d, s.king, all);
            lemma_zero_subset(d, s.queen, all);
            lemma_zero_subset(d, s.knight, all);
            lemma_zero_subset(d, s.rook, all);
            lemma_zero_subset(d, s.pawn, all);
            lemma_xor_keep_disjoint(s.bishop, s.king, f, d);
            lemma_xor_keep_disjoint(s.bishop, s.queen, f, d);
            lemma_xor_keep_disjoint(s.bishop, s.knight, f, d);
            lemma_xor_keep_disjoint(s.bishop, s.rook, f, d);
            lemma_xor_keep_disjoint(s.bishop, s.pawn, f, d);
            lemma_or6_forms(s2.king, s2.queen, s2.bishop, s2.knight, s2.rook, s2.pawn);
        },
        Piece::Knight => {
            let rest = s.king | s.queen | s.bishop | s.rook | s.pawn;
            lemma_single_bit_in(f, s.knight, rest);
            lemma_subset_nonzero(f, s.knight, all);
            lemma_xor_aggregate(s.knight, rest, f, d);
            lemma_zero_subset(d, s.king, all);
            lemma_zero_subset(d, s.queen, all);
            lemma_zero_subset(d, s.bishop, all);
            lemma_zero_subset(d, s.rook, all);
            lemma_zero_subset(d, s.pawn, all);
            lemma_xor_keep_disjoint(s.knight, s.king, f, d);
            lemma_xor_keep_disjoint(s.knight, s.queen, f, d);
            lemma_xor_keep_disjoint(s.knight, s.bishop, f, d);
            lemma_xor_keep_disjoint(s.knight, s.rook, f, d);
            lemma_xor_keep_disjoint(s.knight, s.pawn, f, d);
            lemma_or6_forms(s2.king, s2.queen, s2.bishop, s2.knight, s2.rook, s2.pawn);
        },
        Piece::Rook => {
            let rest = s.king | s.queen | s.bishop | s.knight | s.pawn;
            lemma_single_bit_in(f, s.rook, rest);
            lemma_subset_nonzero(f, s.rook, all);
            lemma_xor_aggregate(s.rook, rest, f, d);
            lemma_zero_subset(d, s.king, all);
            lemma_zero_subset(d, s.queen, all);
            lemma_zero_subset(d, s.bishop, all);
            lemma_zero_subset(d, s.knight, all);
            lemma_zero_subset(d, s.pawn, all);
            lemma_xor_keep_disjoint(s.rook, s.king, f, d);
            lemma_xor_keep_disjoint(s.rook, s.queen, f, d);
            lemma_xor_keep_disjoint(s.rook, s.bishop, f, d);
            lemma_xor_keep_disjoint(s.rook, s.knight, f, d);
            lemma_xor_keep_disjoint(s.rook, s.pawn, f, d);
            lemma_or6_forms(s2.king, s2.queen, s2.bishop, s2.knight, s2.rook, s2.pawn);
        },
        Piece::Pawn => {
            let rest = s.king | s.queen | s.bishop | s.knight | s.rook;
            lemma_single_bit_in(f, s.pawn, rest);
            lemma_subset_nonzero(f, s.pawn, all);
            lemma_xor_aggregate(s.pawn, rest, f, d);
            lemma_zero_subset(d, s.king, all);
            lemma_zero_subset(d, s.queen, all);
            lemma_zero_subset(d, s.bishop, all);
            lemma_zero_subset(d, s.knight, all);
            lemma_zero_subset(d, s.rook, all);
            lemma_xor_keep_disjoint(s.pawn, s.king, f, d);
            lemma_xor_keep_disjoint(s.pawn, s.queen, f, d);
            lemma_xor_keep_disjoint(s.pawn, s.bishop, f, d);
            lemma_xor_keep_disjoint(s.pawn, s.knight, f, d);
            lemma_xor_keep_disjoint(s.pawn, s.rook, f, d);
            lemma_or6_forms(s2.king, s2.queen, s2.bishop, s2.knight, s2.rook, s2.pawn);
        },
        Piece::Void => {
        },
    }
    lemma_zero_subset(d, f, all);
}

/// Moving the promoted pawn's destination bit onto the promotion board
/// keeps the side disjoint and leaves the aggregate alone.
proof fn lemma_promo_step(s2: Boards, all2: u64, promo: Piece, d: u64)
    requires
        side_disjoint(s2),
        all2 == side_or(s2),
        d & !s2.pawn == 0,
        promo == Piece::Queen || promo == Piece::Rook || promo == Piece::Knight || promo
            == Piece::Bishop,
    ensures
        ({
            let s3 = boards_with(
                boards_with(s2, Piece::Pawn, s2.pawn & !d),
                promo,
                boards_get(s2, promo) | d,
            );
            &&& side_disjoint(s3)
            &&& side_or(s3) == all2
            &&& s3.king == s2.king
        }),
{
    lemma_promo_agg(s2.king, s2.queen, s2.bishop, s2.knight, s2.rook, s2.pawn, d);
    let ks = s2.king;
    let qs = s2.queen;
    let bs = s2.bishop;
    let ns = s2.knight;
    let rs = s2.rook;
    let ps = s2.pawn;
    assert((d & !ps == 0 && ks & ps == 0 ==> d & ks == 0) && (d & !ps == 0 && qs & ps == 0 ==> d
        & qs == 0) && (d & !ps == 0 && bs & ps == 0 ==> d & bs == 0) && (d & !ps == 0 && ns & ps
        == 0 ==> d & ns == 0) && (d & !ps == 0 && rs & ps == 0 ==> d & rs == 0)) by (bit_vector);
    match promo {
        Piece::Queen => {
            lemma_promo_pairs(s2.queen, s2.pawn, s2.king, d);
            lemma_promo_pairs(s2.queen, s2.pawn, s2.bishop, d);
            lemma_promo_pairs(s2.queen, s2.pawn, s2.knight, d);
            lemma_promo_pairs(s2.queen, s2.pawn, s2.rook, d);
            lemma_sub_mask(s2.king, s2.pawn, d);
            lemma_sub_mask(s2.bishop, s2.pawn, d);
            lemma_sub_mask(s2.knight, s2.pawn, d);
            lemma_sub_mask(s2.rook, s2.pawn, d);
        },
        Piece::Rook => {
            lemma_promo_pairs(s2.rook, s2.pawn, s2.king, d);
            lemma_promo_pairs(s2.rook, s2.pawn, s2.queen, d);
            lemma_promo_pairs(s2.rook, s2.pawn, s2.bishop, d);
            lemma_promo_pairs(s2.rook, s2.pawn, s2.knight, d);
            lemma_sub_mask(s2.king, s2.pawn, d);
            lemma_sub_mask(s2.queen, s2.pawn, d);
            lemma_sub_mask(s2.bishop, s2.pawn, d);
            lemma_sub_mask(s2.knight, s2.pawn, d);
        },
        Piece::Knight => {
            lemma_promo_pairs(s2.knight, s2.pawn, s2.king, d);
            lemma_promo_pairs(s2.knight, s2.pawn, s2.queen, d);
            lemma_promo_pairs(s2.knight, s2.pawn, s2.bishop, d);
            lemma_promo_pairs(s2.knight, s2.pawn, s2.rook, d);
            lemma_sub_mask(s2.king, s2.pawn, d);
            lemma_sub_mask(s2.queen, s2.pawn, d);
            lemma_sub_mask(s2.bishop, s2.pawn, d);
            lemma_sub_mask(s2.rook, s2.pawn, d);
        },
        Piece::Bishop => {
            lemma_promo_pairs(s2.bishop, s2.pawn, s2.king, d);
            lemma_promo_pairs(s2.bishop, s2.pawn, s2.queen, d);
            lemma_promo_pairs(s2.bishop, s2.pawn, s2.knight, d);
            lemma_promo_pairs(s2.bishop, s2.pawn, s2.rook, d);
            lemma_sub_mask(s2.king, s2.pawn, d);
            lemma_sub_mask(s2.queen, s2.pawn, d);
            lemma_sub_mask(s2.knight, s2.pawn, d);
            lemma_sub_mask(s2.rook, s2.pawn, d);
        },
        _ => {
        },
    }
    let s3 = boards_with(
        boards_with(s2, Piece::Pawn, s2.pawn & !d),
        promo,
        boards_get(s2, promo) | d,
    );
    lemma_or6_forms(s3.king, s3.queen, s3.bishop, s3.knight, s3.rook, s3.pawn);
    lemma_or6_forms(s2.king, s2.queen, s2.bishop, s2.knight, s2.rook, s2.pawn);
}

/// The two squares the castling rook crosses between: beside the king's
/// destination, toward the rook's corner and toward the king's origin.
pub open spec fn spec_castle_u(m: Move) -> u64 {
    if m.destination == m.from >> 2 {
        (m.destination >> 1) | (m.destination << 1)
    } else {
        (m.destination >> 1) | (m.destination << 2)
    }
}

/// A castling token for white: a two-square king move whose rook path is
/// free of every piece but the castling rook.
pub open spec fn w_castle_ok(p: Position, m: Move) -> bool {
    &&& m.piece == Piece::King
    &&& m.promotion == Piece::Void
    &&& single_bit(m.from)
    &&& single_bit(m.destination)
    &&& p.w_board.king & m.from != 0
    &&& m.destination & p.w_all == 0
    &&& (m.destination == m.from >> 2 || m.destination == m.from << 2)
    &&& spec_castle_u(m) & (p.w_board.king | p.w_board.queen | p.w_board.bishop | p.w_board.knight
        | p.w_board.pawn) == 0
    &&& spec_castle_u(m) & p.b_all == 0
}

/// A castling token for black.
pub open spec fn b_castle_ok(p: Position, m: Move) -> bool {
    &&& m.piece == Piece::King
    &&& m.promotion == Piece::Void
    &&& single_bit(m.from)
    &&& single_bit(m.destination)
    &&& p.b_board.king & m.from != 0
    &&& m.destination & p.b_all == 0
    &&& (m.destination == m.from >> 2 || m.destination == m.from << 2)
    &&& spec_castle_u(m) & (p.b_board.king | p.b_board.queen | p.b_board.bishop | p.b_board.knight
        | p.b_board.pawn) == 0
    &&& spec_castle_u(m) & p.w_all == 0
}

/// The position a white move leads to, before the cache is rebuilt: the
/// mutation rules of make-move, written out.
pub open spec fn spec_make_w(p: Position, m: Move) -> Position {
    let f = m.from;
    let d = m.destination;
    let wb1 = boards_with(p.w_board, m.piece, boards_get(p.w_board, m.piece) ^ (f | d));
    let wa1 = p.w_all ^ (f | d);
    let captured = p.b_all & d != 0;
    let bb1 = if captured {
        Boards {
            king: p.b_board.king & !d,
            queen: p.b_board.queen & !d,
            bishop: p.b_board.bishop & !d,
            knight: p.b_board.knight & !d,
            rook: p.b_board.rook & !d,
            pawn: p.b_board.pawn & !d,
        }
    } else {
        p.b_board
    };
    let ba1 = if captured {
        p.b_all & !d
    } else {
        p.b_all
    };
    let promo = m.promotion != Piece::Void;
    let castle_short = !promo && m.piece == Piece::King && (f >> 2) == d;
    let castle_long = !promo && !castle_short && m.piece == Piece::King && (f << 2) == d;
    let ep_take = !promo && !castle_short && !castle_long && m.piece == Piece::Pawn && d
        == p.en_passent_target_square;
    let wb2 = if promo {
        boards_with(
            boards_with(wb1, m.piece, boards_get(wb1, m.piece) & !d),
            m.promotion,
            boards_get(boards_with(wb1, m.piece, boards_get(wb1, m.piece) & !d), m.promotion) | d,
        )
    } else if castle_short {
        Boards { rook: wb1.rook ^ ((d >> 1) | (d << 1)), ..wb1 }
    } else if castle_long {
        Boards { rook: wb1.rook ^ ((d >> 1) | (d << 2)), ..wb1 }
    } else {
        wb1
    };
    let wa2 = if castle_short {
        wa1 ^ ((d >> 1) | (d << 1))
    } else if castle_long {
        wa1 ^ ((d >> 1) | (d << 2))
    } else {
        wa1
    };
    let bb2 = if ep_take {
        Boards { pawn: bb1.pawn & !(d >> 8), ..bb1 }
    } else {
        bb1
    };
    let ba2 = if ep_take {
        ba1 & !(d >> 8)
    } else {
        ba1
    };
    let ep2 = if m.piece == Piece::Pawn && (f << 16) == d {
        f << 8
    } else {
        0u64
    };
    Position {
        w_board: wb2,
        b_board: bb2,
        w_all: wa2,
        b_all: ba2,
        w_turn: false,
        en_passent_target_square: ep2,
        legal_moves: p.legal_moves,
    }
}

/// The position a black move leads to, before the cache is rebuilt.
pub open spec fn spec_make_b(p: Position, m: Move) -> Position {
    let f = m.from;
    let d = m.destination;
    let bb1 = boards_with(p.b_board, m.piece, boards_get(p.b_board, m.piece) ^ (f | d));
    let ba1 = p.b_all ^ (f | d);
    let captured = p.w_all & d != 0;
    let wb1 = if captured {
        Boards {
            king: p.w_board.king & !d,
            queen: p.w_board.queen & !d,
            bishop: p.w_board.bishop & !d,
            knight: p.w_board.knight & !d,
            rook: p.w_board.rook & !d,
            pawn: p.w_board.pawn & !d,
        }
    } else {
        p.w_board
    };
    let wa1 = if captured {
        p.w_all & !d
    } else {
        p.w_all
    };
    let promo = m.promotion != Piece::Void;
    let castle_short = !promo && m.piece == Piece::King && (f >> 2) == d;
    let castle_long = !promo && !castle_short && m.piece == Piece::King && (f << 2) == d;
    let ep_take = !promo && !castle_short && !castle_long && m.piece == Piece::Pawn && d
        == p.en_passent_target_square;
    let bb2 = if promo {
        boards_with(
            boards_with(bb1, m.piece, boards_get(bb1, m.piece) & !d),
            m.promotion,
            boards_get(boards_with(bb1, m.piece, boards_get(bb1, m.piece) & !d), m.promotion) | d,
        )
    } else if castle_short {
        Boards { rook: bb1.rook ^ ((d >> 1) | (d << 1)), ..bb1 }
    } else if castle_long {
        Boards { rook: bb1.rook ^ ((d >> 1) | (d << 2)), ..bb1 }
    } else {
        bb1
    };
    let ba2 = if castle_short {
        ba1 ^ ((d >> 1) | (d << 1))
    } else if castle_long {
        ba1 ^ ((d >> 1) | (d << 2))
    } else {
        ba1
    };
    let wb2 = if ep_take {
        Boards { pawn: wb1.pawn & !(d << 8), ..wb1 }
    } else {
        wb1
    };
    let wa2 = if ep_take {
        wa1 & !(d << 8)
    } else {
        wa1
    };
    let ep2 = if m.piece == Piece::Pawn && (f >> 16) == d {
        f >> 8
    } else {
        0u64
    };
    Position {
        w_board: wb2,
        b_board: bb2,
        w_all: wa2,
        b_all: ba2,
        w_turn: true,
        en_passent_target_square: ep2,
        legal_moves: p.legal_moves,
    }
}

impl Position {
    /// Plays a white move record: moves the piece, clears a captured piece,
    /// promotes, displaces the castling rook or removes the en-passant
    /// victim, resets the en-passant target, hands the turn to black and
    /// rebuilds the legal-move cache.
    pub fn make_w_move(&mut self, m: Move)
        requires
            old(self).w_turn,
            wf_boards(*old(self)),
            ep_ok(*old(self)),
            move_ok(
                m,
                old(self).w_board,
                old(self).w_all,
                old(self).w_all | old(self).b_all,
                true,
            ) || w_castle_ok(*old(self), m),
        ensures
            same_but_cache(spec_make_w(*old(self), m), *final(self)),
            wf_boards(*final(self)),
            ep_ok(*final(self)),
            cache_ok(*final(self)),
            cache_safe(*final(self)),
            final(self).legal_moves@ == spec_legal_moves(*final(self)),
            !final(self).w_turn,
            final(self).en_passent_target_square == (if m.piece == Piece::Pawn && m.from << 16
                == m.destination {
                m.from << 8
            } else {
                0u64
            }),
            kings_ok(*old(self)) && m.destination & old(self).b_board.king == 0 ==> kings_ok(
                *final(self),
            ),
    {
        let ghost p0 = *old(self);
        let ghost f = m.from;
        let ghost d = m.destination;
        proof {
            lemma_base_step(p0.w_board, p0.w_all, m.piece, f, d);
        }
        let cur = self.w_board.get(m.piece);
        self.w_board.set(m.piece, cur ^ (m.from | m.destination));
        self.w_all = self.w_all ^ (m.from | m.destination);
        proof {
            lemma_cross(p0.w_all, p0.b_all, f, d);
        }
        if self.b_all & m.destination != 0 {
            self.b_all = self.b_all & !m.destination;
            self.b_board.clear_all(m.destination);
            proof {
                lemma_clear6(
                    p0.b_board.king,
                    p0.b_board.queen,
                    p0.b_board.bishop,
                    p0.b_board.knight,
                    p0.b_board.rook,
                    p0.b_board.pawn,
                    d,
                );
            }
        }
        if m.promotion != Piece::Void {
            proof {
                lemma_promo_step(self.w_board, self.w_all, m.promotion, d);
            }
            let pb = self.w_board.get(m.piece);
            self.w_board.set(m.piece, pb & !m.destination);
            let qb = self.w_board.get(m.promotion);
            self.w_board.set(m.promotion, qb | m.destination);
        } else if m.piece == Piece::King && (m.from >> 2) == m.destination {
            proof {
                if !w_castle_ok(p0, m) {
                    lemma_king_not_castle(f, d);
                }
                lemma_sub_mask(spec_castle_u(m), p0.b_all, d);
                lemma_castle(
                    self.w_board.king,
                    self.w_board.queen,
                    self.w_board.bishop,
                    self.w_board.knight,
                    self.w_board.rook,
                    self.w_board.pawn,
                    self.b_all,
                    spec_castle_u(m),
                    d,
                    f,
                    p0.w_board.king,
                );
            }
            self.w_board.rook = self.w_board.rook ^ ((m.destination >> 1) | (m.destination << 1));
            self.w_all = self.w_all ^ ((m.destination >> 1) | (m.destination << 1));
        } else if m.piece == Piece::King && (m.from << 2) == m.destination {
            proof {
                if !w_castle_ok(p0, m) {
                    lemma_king_not_castle(f, d);
                }
                lemma_sub_mask(spec_castle_u(m), p0.b_all, d);
                lemma_castle(
                    self.w_board.king,
                    self.w_board.queen,
                    self.w_board.bishop,
                    self.w_board.knight,
                    self.w_board.rook,
                    self.w_board.pawn,
                    self.b_all,
                    spec_castle_u(m),
                    d,
                    f,
                    p0.w_board.king,
                );
            }
            self.w_board.rook = self.w_board.rook ^ ((m.destination >> 1) | (m.destination << 2));
            self.w_all = self.w_all ^ ((m.destination >> 1) | (m.destination << 2));
        } else if m.piece == Piece::Pawn && m.destination == self.en_passent_target_square {
            proof {
                lemma_or_parts(p0.w_all, p0.b_all, p0.en_passent_target_square);
                lemma_ep_clear(
                    self.b_board.king,
                    self.b_board.queen,
                    self.b_board.bishop,
                    self.b_board.knight,
                    self.b_board.rook,
                    self.b_board.pawn,
                    d >> 8,
                );
                lemma_sub_mask(self.b_board.king, self.b_board.pawn, d >> 8);
                lemma_sub_mask(self.b_board.queen, self.b_board.pawn, d >> 8);
                lemma_sub_mask(self.b_board.bishop, self.b_board.pawn, d >> 8);
                lemma_sub_mask(self.b_board.knight, self.b_board.pawn, d >> 8);
                lemma_sub_mask(self.b_board.rook, self.b_board.pawn, d >> 8);
                lemma_sub_mask(self.w_all, self.b_all, d >> 8);
            }
            self.b_all = self.b_all & !(m.destination >> 8);
            self.b_board.pawn = self.b_board.pawn & !(m.destination >> 8);
        }
        self.en_passent_target_square = 0;
        if m.piece == Piece::Pawn && (m.from << 16) == m.destination {
            proof {
                lemma_double_push_w(f, d, p0.w_all, p0.b_all);
                lemma_or6_forms(
                    p0.w_board.king,
                    p0.w_board.queen,
                    p0.w_board.bishop,
                    p0.w_board.knight,
                    p0.w_board.rook,
                    p0.w_board.pawn,
                );
                lemma_zero_subset(
                    d,
                    p0.w_board.king | p0.w_board.queen | p0.w_board.bishop | p0.w_board.knight
                        | p0.w_board.rook,
                    p0.w_all,
                );
                lemma_sub_mask(f << 8, p0.b_all, d);
                lemma_sub_mask(f << 8, p0.b_all, d >> 8);
                lemma_sub_mask(f << 8, p0.b_all & !d, d >> 8);
                lemma_or_parts(self.w_all, self.b_all, f << 8);
            }
            self.en_passent_target_square = m.from << 8;
        }
        self.w_turn = false;
        self.calculate_legal_moves();
    }
}

impl Position {
    /// Plays a black move record, mirroring `make_w_move`.
    pub fn make_b_move(&mut self, m: Move)
        requires
            !old(self).w_turn,
            wf_boards(*old(self)),
            ep_ok(*old(self)),
            move_ok(
                m,
                old(self).b_board,
                old(self).b_all,
                old(self).w_all | old(self).b_all,
                false,
            ) || b_castle_ok(*old(self), m),
        ensures
            same_but_cache(spec_make_b(*old(self), m), *final(self)),
            wf_boards(*final(self)),
            ep_ok(*final(self)),
            cache_ok(*final(self)),
            cache_safe(*final(self)),
            final(self).legal_moves@ == spec_legal_moves(*final(self)),
            final(self).w_turn,
            final(self).en_passent_target_square == (if m.piece == Piece::Pawn && m.from >> 16
                == m.destination {
                m.from >> 8
            } else {
                0u64
            }),
            kings_ok(*old(self)) && m.destination & old(self).w_board.king == 0 ==> kings_ok(
                *final(self),
            ),
    {
        let ghost p0 = *old(self);
        let ghost f = m.from;
        let ghost d = m.destination;
        proof {
            lemma_base_step(p0.b_board, p0.b_all, m.piece, f, d);
        }
        let cur = self.b_board.get(m.piece);
        self.b_board.set(m.piece, cur ^ (m.from | m.destination));
        self.b_all = self.b_all ^ (m.from | m.destination);
        proof {
            lemma_cross(p0.b_all, p0.w_all, f, d);
        }
        if self.w_all & m.destination != 0 {
            self.w_all = self.w_all & !m.destination;
            self.w_board.clear_all(m.destination);
            proof {
                lemma_clear6(
                    p0.w_board.king,
                    p0.w_board.queen,
                    p0.w_board.bishop,
                    p0.w_board.knight,
                    p0.w_board.rook,
                    p0.w_board.pawn,
                    d,
                );
            }
        }
        if m.promotion != Piece::Void {
            proof {
                lemma_promo_step(self.b_board, self.b_all, m.promotion, d);
            }
            let pb = self.b_board.get(m.piece);
            self.b_board.set(m.piece, pb & !m.destination);
            let qb = self.b_board.get(m.promotion);
            self.b_board.set(m.promotion, qb | m.destination);
        } else if m.piece == Piece::King && (m.from >> 2) == m.destination {
            proof {
                if !b_castle_ok(p0, m) {
                    lemma_king_not_castle(f, d);
                }
                lemma_sub_mask(spec_castle_u(m), p0.w_all, d);
                lemma_castle(
                    self.b_board.king,
                    self.b_board.queen,
                    self.b_board.bishop,
                    self.b_board.knight,
                    self.b_board.rook,
                    self.b_board.pawn,
                    self.w_all,
                    spec_castle_u(m),
                    d,
                    f,
                    p0.b_board.king,
                );
            }
            self.b_board.rook = self.b_board.rook ^ ((m.destination >> 1) | (m.destination << 1));
            self.b_all = self.b_all ^ ((m.destination >> 1) | (m.destination << 1));
        } else if m.piece == Piece::King && (m.from << 2) == m.destination {
            proof {
                if !b_castle_ok(p0, m) {
                    lemma_king_not_castle(f, d);
                }
                lemma_sub_mask(spec_castle_u(m), p0.w_all, d);
                lemma_castle(
                    self.b_board.king,
                    self.b_board.queen,
                    self.b_board.bishop,
                    self.b_board.knight,
                    self.b_board.rook,
                    self.b_board.pawn,
                    self.w_all,
                    spec_castle_u(m),
                    d,
                    f,
                    p0.b_board.king,
                );
            }
            self.b_board.rook = self.b_board.rook ^ ((m.destination >> 1) | (m.destination << 2));
            self.b_all = self.b_all ^ ((m.destination >> 1) | (m.destination << 2));
        } else if m.piece == Piece::Pawn && m.destination == self.en_passent_target_square {
            proof {
                lemma_or_parts(p0.w_all, p0.b_all, p0.en_passent_target_square);
                lemma_ep_clear(
                    self.w_board.king,
                    self.w_board.queen,
                    self.w_board.bishop,
                    self.w_board.knight,
                    self.w_board.rook,
                    self.w_board.pawn,
                    d << 8,
                );
                lemma_sub_mask(self.w_board.king, self.w_board.pawn, d << 8);
                lemma_sub_mask(self.w_board.queen, self.w_board.pawn, d << 8);
                lemma_sub_mask(self.w_board.bishop, self.w_board.pawn, d << 8);
                lemma_sub_mask(self.w_board.knight, self.w_board.pawn, d << 8);
                lemma_sub_mask(self.w_board.rook, self.w_board.pawn, d << 8);
                lemma_sub_mask(self.b_all, self.w_all, d << 8);
            }
            self.w_all = self.w_all & !(m.destination << 8);
            self.w_board.pawn = self.w_board.pawn & !(m.destination << 8);
        }
        self.en_passent_target_square = 0;
        if m.piece == Piece::Pawn && (m.from >> 16) == m.destination {
            proof {
                lemma_double_push_b(f, d, p0.w_all, p0.b_all);
                lemma_or6_forms(
                    p0.b_board.king,
                    p0.b_board.queen,
                    p0.b_board.bishop,
                    p0.b_board.knight,
                    p0.b_board.rook,
                    p0.b_board.pawn,
                );
                lemma_zero_subset(
                    d,
                    p0.b_board.king | p0.b_board.queen | p0.b_board.bishop | p0.b_board.knight
                        | p0.b_board.rook,
                    p0.b_all,
                );
                lemma_sub_mask(f >> 8, p0.w_all, d);
                lemma_sub_mask(f >> 8, p0.w_all, d << 8);
                lemma_sub_mask(f >> 8, p0.w_all & !d, d << 8);
                lemma_or_parts(self.w_all, self.b_all, f >> 8);
            }
            self.en_passent_target_square = m.from >> 8;
        }
        self.w_turn = true;
        self.calculate_legal_moves();
    }
}

} // verus!
