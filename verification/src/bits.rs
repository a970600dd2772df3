use vstd::prelude::*;

verus! {

// Square indexing: bit 0 = h1, bit 7 = a1, bit 56 = h8, bit 63 = a8.
// Within a rank the index increases from the h-file to the a-file, and
// ranks increase from bottom to top, eight indices per rank.

/// All squares of the a-file.
pub const FILE_A: u64 = 0x8080808080808080u64;

/// All squares of the h-file.
pub const FILE_H: u64 = 0x0101010101010101u64;

pub const RANK_1: u64 = 0x00000000000000ffu64;

pub const RANK_2: u64 = 0x000000000000ff00u64;

pub const RANK_3: u64 = 0x0000000000ff0000u64;

pub const RANK_6: u64 = 0x0000ff0000000000u64;

pub const RANK_7: u64 = 0x00ff000000000000u64;

pub const RANK_8: u64 = 0xff00000000000000u64;

/// Every square that is not on the h-file.
pub const NOT_ON_H_FILE: u64 = 0xfefefefefefefefeu64;

/// Every square that is not on the a-file.
pub const NOT_ON_A_FILE: u64 = 0x7f7f7f7f7f7f7f7fu64;

/// Every square that is not on the g-file or the h-file.
pub const NOT_ON_GH_FILE: u64 = 0xfcfcfcfcfcfcfcfcu64;

/// Every square that is not on the a-file or the b-file.
pub const NOT_ON_AB_FILE: u64 = 0x3f3f3f3f3f3f3f3fu64;

/// A bitboard with exactly one bit set.
pub open spec fn single_bit(b: u64) -> bool {
    b != 0 && b & (b - 1) as u64 == 0
}

/// A single bit shifted left stays a single bit or vanishes; shifting `1` by
/// any in-range amount gives a single bit.
pub proof fn lemma_shift_single_bit(i: u64)
    by (bit_vector)
    ensures
        i < 64 ==> single_bit(1u64 << i),
{
}

/// Facts that drive the bit-index loop: halving a non-unit single bit keeps
/// it a single bit one position lower.
pub proof fn lemma_halve_single_bit(x: u64, r: u64, b: u64)
    by (bit_vector)
    requires
        single_bit(x),
        x > 1,
        r < 64,
        b == x << r,
        b != 0,
    ensures
        r < 63,
        single_bit(x >> 1),
        b == (x >> 1) << (r + 1),
        (x >> 1) != 0,
        (x >> 1) < x,
{
}

pub proof fn lemma_shift_zero(b: u64)
    by (bit_vector)
    ensures
        b == b << 0u64,
{
}

/// The index of the one set bit of a single-bit bitboard.
pub fn bit_index(b: u64) -> (r: usize)
    requires
        single_bit(b),
    ensures
        r < 64,
        b == 1u64 << r,
{
    let mut x: u64 = b;
    let mut r: usize = 0;
    proof {
        lemma_shift_zero(b);
    }
    while x > 1
        invariant
            single_bit(x),
            x != 0,
            r < 64,
            b == x << r,
            single_bit(b),
        decreases x,
    {
        proof {
            lemma_halve_single_bit(x, r as u64, b);
        }
        x = x >> 1;
        r = r + 1;
    }
    proof {
        assert(x == 1);
    }
    r
}

/// Zero, complement and idempotence facts of the bitwise operators.
pub proof fn lemma_zero_bits()
    by (bit_vector)
    ensures
        forall|x: u64| #![trigger 0u64 & x] 0u64 & x == 0,
        forall|x: u64| #![trigger x & 0u64] x & 0u64 == 0,
        forall|x: u64| #![trigger x & !x] x & !x == 0,
        forall|x: u64, m: u64| #![trigger (x & m) & m] (x & m) & m == x & m,
{
}

/// Algebra of bitwise or that the loop proofs lean on.
pub proof fn lemma_or_facts()
    by (bit_vector)
    ensures
        forall|x: u64| #![trigger x | 0u64] x | 0u64 == x,
        forall|x: u64| #![trigger 0u64 | x] 0u64 | x == x,
        forall|x: u64, y: u64| #![trigger x | y] x | y == y | x,
        forall|x: u64, y: u64, z: u64| #![trigger (x | y) | z] (x | y) | z == x | (y | z),
        forall|x: u64, y: u64, z: u64| #![trigger x | (y | z)] (x | y) | z == x | (y | z),
{
}

/// A single bit that meets a board lies inside it, and misses every board
/// disjoint from that one.
pub proof fn lemma_single_bit_in(f: u64, a: u64, b: u64)
    by (bit_vector)
    requires
        single_bit(f),
        f & a != 0 || a & f != 0,
        a & b == 0,
    ensures
        f & !a == 0,
        f & b == 0,
        b & f == 0,
{
}

/// Two single bits that share a set position are the same bit.
pub proof fn lemma_single_bit_eq(x: u64, y: u64)
    by (bit_vector)
    requires
        single_bit(x),
        single_bit(y),
        x & y != 0 || y & x != 0,
    ensures
        x == y,
{
}

/// Isolating the lowest set bit of a board that lies inside `t` gives a
/// single bit inside both, and stripping it shrinks the board.
pub proof fn lemma_low_bit(b: u64, t: u64)
    by (bit_vector)
    requires
        b != 0,
        b & !t == 0,
    ensures
        single_bit(b & !((b - 1) as u64)),
        (b & !((b - 1) as u64)) & b != 0,
        (b & !((b - 1) as u64)) & !b == 0,
        (b & !((b - 1) as u64)) & t != 0,
        (b & !((b - 1) as u64)) & !t == 0,
        (b & (b - 1) as u64) < b,
        (b & (b - 1) as u64) & !t == 0,
{
}

/// A single bit inside `t` lies inside any superset of `t`.
pub proof fn lemma_subset_nonzero(l: u64, t: u64, m: u64)
    by (bit_vector)
    requires
        single_bit(l),
        l & !t == 0,
        t & !m == 0,
    ensures
        l & m != 0,
        l & !m == 0,
{
}

/// The square index of a single-bit bitboard.
pub open spec fn sq_of(b: u64) -> int {
    choose|i: int| 0 <= i < 64 && b == 1u64 << i
}

pub proof fn lemma_sq_of(i: u64)
    requires
        i < 64,
    ensures
        sq_of(1u64 << i) == i,
{
    let b = 1u64 << i;
    assert(0 <= i < 64 && b == 1u64 << (i as int));
    let j = sq_of(b);
    assert(0 <= j < 64 && b == 1u64 << j);
    let ju = j as u64;
    assert(1u64 << ju == 1u64 << i && ju < 64 && i < 64 ==> ju == i) by (bit_vector);
}

/// How many of the lowest `i` bit positions of `b` are set.
pub open spec fn count_bits_below(b: u64, i: nat) -> nat
    decreases i,
{
    if i == 0 {
        0
    } else {
        count_bits_below(b, (i - 1) as nat) + (if b >> ((i - 1) as u64) & 1 == 1 {
            1nat
        } else {
            0nat
        })
    }
}

/// The number of set bits of `b`.
pub open spec fn popcount_spec(b: u64) -> nat {
    count_bits_below(b, 64)
}

/// Counts the set bits of a bitboard.
pub fn popcount(b: u64) -> (r: usize)
    ensures
        r == popcount_spec(b),
        r <= 64,
{
    let mut r: usize = 0;
    let mut i: usize = 0;
    while i < 64
        invariant
            i <= 64,
            r == count_bits_below(b, i as nat),
            r <= i,
        decreases 64 - i,
    {
        if (b >> (i as u64)) & 1 == 1 {
            r = r + 1;
        }
        i = i + 1;
    }
    r
}

} // verus!
