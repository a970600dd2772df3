use vstd::prelude::*;
use vstd::pervasive::VecAdditionalExecFns;
use crate::bits::{lemma_zero_bits, popcount, popcount_spec};
use crate::board::Piece;
use crate::rays::{
    bishop_attacks,
    bishop_blocker_mask,
    lemma_bishop_attack_masked,
    lemma_rook_attack_masked,
    rook_attacks,
    rook_blocker_mask,
    spec_bishop_attack,
    spec_bishop_blocker_mask,
    spec_rook_attack,
    spec_rook_blocker_mask,
};
use crate::rng::random_u64;

verus! {

// Magic bitboards: for each square, a magic multiplier and a dense lookup
// table such that hashing any relevant-blocker subset with the multiplier
// yields the slot holding the slider's attack set for those blockers.
// Magics are found by drawing sparse random candidates and checking each
// against every subset, enumerated with the Carry-Rippler step.

/// The hash of a blocker subset under a magic multiplier: the wrapping
/// product, shifted down to the table's index width.
pub open spec fn magic_index(b: u64, magic: u64, shift: u64) -> u64 {
    (((b as nat * magic as nat) % 0x10000000000000000nat) as u64) >> shift
}

/// The relevant-blocker mask of the slider on this square.
pub open spec fn slider_mask(piece: Piece, sq: int) -> u64 {
    if piece == Piece::Rook {
        spec_rook_blocker_mask(sq)
    } else {
        spec_bishop_blocker_mask(sq)
    }
}

/// The slider's attack set from this square under these blockers.
pub open spec fn slider_attack(piece: Piece, sq: int, blockers: u64) -> u64 {
    if piece == Piece::Rook {
        spec_rook_attack(sq, blockers)
    } else {
        spec_bishop_attack(sq, blockers)
    }
}

/// The number of relevant-blocker squares; one table slot per subset.
pub open spec fn slider_bits(piece: Piece, sq: int) -> nat {
    popcount_spec(slider_mask(piece, sq))
}

/// The right-shift width paired with the square's mask.
pub open spec fn slider_shift(piece: Piece, sq: int) -> u64 {
    (64 - slider_bits(piece, sq)) as u64
}

/// Every relevant-blocker subset hashes to a slot holding exactly its
/// attack set.
pub open spec fn magic_table_ok(piece: Piece, sq: int, magic: u64, lookup: Seq<u64>) -> bool {
    &&& 1 <= slider_bits(piece, sq) <= 20
    &&& lookup.len() == 1usize << (slider_bits(piece, sq) as usize)
    &&& forall|b: u64|
        b & slider_mask(piece, sq) == b ==> #[trigger] lookup[magic_index(
            b,
            magic,
            slider_shift(piece, sq),
        ) as int] == slider_attack(piece, sq, b)
}

/// The Carry-Rippler step visits the subsets of a mask in increasing
/// order: the next subset is the least one above the current, and the walk
/// falls back to zero exactly when it leaves the full mask.
proof fn lemma_rippler(s: u64, m: u64, b: u64)
    by (bit_vector)
    requires
        s & m == s,
        b & m == b,
    ensures
        ((s - m) as u64 & m) & m == ((s - m) as u64 & m),
        s != m ==> ((s - m) as u64 & m) > s,
        s == m ==> ((s - m) as u64 & m) == 0,
        b > s ==> b >= ((s - m) as u64 & m),
        s <= m,
        b <= m,
        ((s - m) as u64 & m) <= m,
        0u64 & m == 0,
{
}

/// A hash with at least 44 bits of shift stays below the table size.
proof fn lemma_index_bound(h: u64, k: u64)
    by (bit_vector)
    requires
        1 <= k <= 20,
    ensures
        ({
            let v = h >> ((64 - k) as u64);
            let vs = v as usize;
            let cap = 1usize << (k as usize);
            v < (1u64 << k) && vs < cap && vs as int == v as int && (v as int) < (cap as int)
        }),
{
}

/// Two relevant-blocker subsets whose attack sets differ collide under the
/// candidate: the reason a candidate is rejected.
pub open spec fn destructive_collision(piece: Piece, sq: int, magic: u64) -> bool {
    exists|b1: u64, b2: u64|
        #![auto]
        b1 & slider_mask(piece, sq) == b1 && b2 & slider_mask(piece, sq) == b2 && magic_index(
            b1,
            magic,
            slider_shift(piece, sq),
        ) == magic_index(b2, magic, slider_shift(piece, sq)) && slider_attack(piece, sq, b1)
            != slider_attack(piece, sq, b2)
}

/// Checks one magic candidate for a square: enumerates every subset of the
/// relevant-blocker mask with the Carry-Rippler step and fills the table,
/// rejecting the candidate exactly when two subsets with different attack
/// sets hash to the same slot (or the mask's size is out of range).
#[verifier::rlimit(60)]
pub fn check_if_magic(piece: Piece, square: usize, magic_candidate: u64) -> (r: Option<Vec<u64>>)
    requires
        square < 64,
        piece == Piece::Rook || piece == Piece::Bishop,
    ensures
        r matches Some(lookup) ==> magic_table_ok(piece, square as int, magic_candidate, lookup@),
        r is None ==> slider_bits(piece, square as int) < 1 || slider_bits(piece, square as int)
            > 20 || destructive_collision(piece, square as int, magic_candidate),
{
    let mask = if piece == Piece::Rook {
        rook_blocker_mask(square)
    } else {
        bishop_blocker_mask(square)
    };
    let k = popcount(mask);
    if k == 0 || k > 20 {
        return None;
    }
    let shift: u64 = 64 - k as u64;
    let size: usize = 1usize << k;
    let mut lookup: Vec<u64> = Vec::new();
    let mut written: Vec<bool> = Vec::new();
    while lookup.len() < size
        invariant
            lookup.len() == written.len(),
            lookup.len() <= size,
            forall|j: int| 0 <= j < written@.len() ==> !(#[trigger] written@[j]),
        decreases size - lookup.len(),
    {
        lookup.push(0);
        written.push(false);
    }
    let mut blocker_subset: u64 = 0;
    let mut done = false;
    proof {
        lemma_zero_bits();
        assert(0u64 & mask == 0);
    }
    while !done
        invariant
            square < 64,
            piece == Piece::Rook || piece == Piece::Bishop,
            mask == slider_mask(piece, square as int),
            popcount_spec(mask) == k,
            1 <= k <= 20,
            shift == 64 - k,
            shift == slider_shift(piece, square as int),
            size == 1usize << k,
            lookup.len() == size,
            written.len() == size,
            blocker_subset & mask == blocker_subset,
            !done ==> forall|b: u64|
                b & mask == b && b < blocker_subset ==> (#[trigger] written@[magic_index(
                    b,
                    magic_candidate,
                    shift,
                ) as int] && lookup@[magic_index(b, magic_candidate, shift) as int]
                    == slider_attack(piece, square as int, b)),
            done ==> forall|b: u64|
                b & mask == b ==> (#[trigger] written@[magic_index(b, magic_candidate, shift)
                    as int] && lookup@[magic_index(b, magic_candidate, shift) as int]
                    == slider_attack(piece, square as int, b)),
            forall|j: int|
                0 <= j < size && #[trigger] written@[j] ==> exists|b: u64|
                    #![auto]
                    b & mask == b && magic_index(b, magic_candidate, shift) as int == j && lookup@[j] == slider_attack(piece, square as int, b),
        decreases (if done {
            0int
        } else {
            1int
        }), mask - blocker_subset,
    {
        let move_mask = if piece == Piece::Rook {
            rook_attacks(square, blocker_subset)
        } else {
            bishop_attacks(square, blocker_subset)
        };
        proof {
            lemma_index_bound(blocker_subset.wrapping_mul(magic_candidate), k as u64);
            assert(1usize << ((k as u64) as usize) == 1usize << k);
        }
        let magic_idx = (blocker_subset.wrapping_mul(magic_candidate) >> shift) as usize;
        proof {
            assert(blocker_subset.wrapping_mul(magic_candidate) == ((blocker_subset as nat
                * magic_candidate as nat) % 0x10000000000000000nat) as u64);
            assert(magic_idx == magic_index(blocker_subset, magic_candidate, shift) as usize);
            assert(magic_idx < size);
        }
        if !written[magic_idx] {
            written.set(magic_idx, true);
            lookup.set(magic_idx, move_mask);
            proof {
                assert forall|j: int| 0 <= j < size && #[trigger] written@[j] implies exists|
                    b: u64,
                |
                    #![auto]
                    b & mask == b && magic_index(b, magic_candidate, shift) as int == j && lookup@[j] == slider_attack(piece, square as int, b) by {
                    if j == magic_idx as int {
                        assert(blocker_subset & mask == blocker_subset && magic_index(
                            blocker_subset,
                            magic_candidate,
                            shift,
                        ) as int == j && lookup@[j] == slider_attack(
                            piece,
                            square as int,
                            blocker_subset,
                        ));
                    }
                }
            }
        } else if lookup[magic_idx] == move_mask {
        } else {
            proof {
                let b1 = choose|b: u64|
                    #![auto]
                    b & mask == b && magic_index(b, magic_candidate, shift) as int == magic_idx
                        as int && lookup@[magic_idx as int] == slider_attack(
                        piece,
                        square as int,
                        b,
                    );
                assert(b1 & mask == b1 && blocker_subset & mask == blocker_subset && magic_index(
                    b1,
                    magic_candidate,
                    shift,
                ) == magic_index(blocker_subset, magic_candidate, shift) && slider_attack(
                    piece,
                    square as int,
                    b1,
                ) != slider_attack(piece, square as int, blocker_subset));
            }
            return None;
        }
        proof {
            assert forall|b: u64| b & mask == b && b <= blocker_subset implies (
            #[trigger] written@[magic_index(b, magic_candidate, shift) as int] && lookup@[
                magic_index(b, magic_candidate, shift) as int] == slider_attack(
                piece,
                square as int,
                b,
            )) by {
                lemma_index_bound(
                    ((b as nat * magic_candidate as nat) % 0x10000000000000000nat) as u64,
                    k as u64,
                );
                assert(magic_index(b, magic_candidate, shift) == (((b as nat * magic_candidate
                    as nat) % 0x10000000000000000nat) as u64) >> ((64 - (k as u64)) as u64));
                assert((magic_index(b, magic_candidate, shift) as int) < (size as int));
                if b == blocker_subset {
                    assert(written@[magic_index(b, magic_candidate, shift) as int]);
                    assert(lookup@[magic_index(b, magic_candidate, shift) as int] == move_mask);
                    assert(move_mask == slider_attack(piece, square as int, b));
                } else {
                    assert(b < blocker_subset);
                    assert(written@[magic_index(b, magic_candidate, shift) as int]);
                    assert(lookup@[magic_index(b, magic_candidate, shift) as int]
                        == slider_attack(piece, square as int, b));
                }
            }
        }
        let ghost prev = blocker_subset;
        proof {
            lemma_zero_bits();
            assert(0u64 & mask == 0);
            lemma_rippler(prev, mask, 0);
        }
        blocker_subset = blocker_subset.wrapping_sub(mask) & mask;
        proof {
            assert(blocker_subset == (prev - mask) as u64 & mask) by (bit_vector)
                requires
                    blocker_subset == (if prev < mask {
                        (prev - mask + 0x10000000000000000) as u64
                    } else {
                        (prev - mask) as u64
                    }) & mask,
            ;
        }
        if blocker_subset == 0 {
            proof {
                assert(prev == mask);
                assert forall|b: u64| b & mask == b implies (#[trigger] written@[magic_index(
                    b,
                    magic_candidate,
                    shift,
                ) as int] && lookup@[magic_index(b, magic_candidate, shift) as int]
                    == slider_attack(piece, square as int, b)) by {
                    lemma_rippler(b, mask, 0);
                    lemma_index_bound(((b as nat * magic_candidate as nat) % 0x10000000000000000nat) as u64, k as u64);
                }
            }
            done = true;
        } else {
            proof {
                assert forall|b: u64|
                    b & mask == b && b < blocker_subset implies (#[trigger] written@[magic_index(
                    b,
                    magic_candidate,
                    shift,
                ) as int] && lookup@[magic_index(b, magic_candidate, shift) as int]
                    == slider_attack(piece, square as int, b)) by {
                    lemma_rippler(prev, mask, b);
                    lemma_index_bound(((b as nat * magic_candidate as nat) % 0x10000000000000000nat) as u64, k as u64);
                }
            }
        }
    }
    proof {
        assert forall|b: u64| b & mask == b implies #[trigger] lookup@[magic_index(
            b,
            magic_candidate,
            slider_shift(piece, square as int),
        ) as int] == slider_attack(piece, square as int, b) by {
            lemma_index_bound(
                ((b as nat * magic_candidate as nat) % 0x10000000000000000nat) as u64,
                k as u64,
            );
            assert(written@[magic_index(b, magic_candidate, shift) as int] && lookup@[magic_index(
                b,
                magic_candidate,
                shift,
            ) as int] == slider_attack(piece, square as int, b));
        }
    }
    Some(lookup)
}

/// Draws sparse random candidates until one is magic for the square, and
/// returns it with its filled lookup table.  A few dozen draws succeed in
/// practice; `None` comes back only if a million straight candidates fail.
pub fn find_magic(piece: Piece, square: usize) -> (r: Option<(u64, Vec<u64>)>)
    requires
        square < 64,
        piece == Piece::Rook || piece == Piece::Bishop,
    ensures
        r matches Some(m) ==> magic_table_ok(piece, square as int, m.0, m.1@),
{
    let mut attempts: u32 = 0;
    while attempts < 1000000
        invariant
            square < 64,
            piece == Piece::Rook || piece == Piece::Bishop,
        decreases 1000000 - attempts,
    {
        let maybe_magic = random_u64() & random_u64() & random_u64();
        let result = check_if_magic(piece, square, maybe_magic);
        match result {
            Some(lookup) => {
                return Some((maybe_magic, lookup));
            },
            None => {},
        }
        attempts = attempts + 1;
    }
    None
}

/// The per-square magic multipliers and lookup tables of both sliders.
pub struct MagicTables {
    pub rook_magic: Vec<u64>,
    pub rook_lookup: Vec<Vec<u64>>,
    pub bishop_magic: Vec<u64>,
    pub bishop_lookup: Vec<Vec<u64>>,
}

/// Every square's table answers every relevant-blocker subset correctly.
pub open spec fn tables_wf(t: MagicTables) -> bool {
    &&& t.rook_magic@.len() == 64
    &&& t.rook_lookup@.len() == 64
    &&& t.bishop_magic@.len() == 64
    &&& t.bishop_lookup@.len() == 64
    &&& forall|sq: int|
        0 <= sq < 64 ==> magic_table_ok(
            Piece::Rook,
            sq,
            t.rook_magic@[sq],
            (#[trigger] t.rook_lookup@[sq])@,
        )
    &&& forall|sq: int|
        0 <= sq < 64 ==> magic_table_ok(
            Piece::Bishop,
            sq,
            t.bishop_magic@[sq],
            (#[trigger] t.bishop_lookup@[sq])@,
        )
}

/// Runs the randomized magic search for every square of both sliders.
/// Must be called once before the magic-based attack queries are used;
/// `None` comes back only if some square's search gave up.
pub fn init_magic_tables() -> (r: Option<MagicTables>)
    ensures
        r matches Some(t) ==> tables_wf(t),
{
    let mut t = MagicTables {
        rook_magic: Vec::new(),
        rook_lookup: Vec::new(),
        bishop_magic: Vec::new(),
        bishop_lookup: Vec::new(),
    };
    let mut square: usize = 0;
    while square < 64
        invariant
            square <= 64,
            t.rook_magic@.len() == square,
            t.rook_lookup@.len() == square,
            t.bishop_magic@.len() == square,
            t.bishop_lookup@.len() == square,
            forall|sq: int|
                0 <= sq < square ==> magic_table_ok(
                    Piece::Rook,
                    sq,
                    t.rook_magic@[sq],
                    (#[trigger] t.rook_lookup@[sq])@,
                ),
            forall|sq: int|
                0 <= sq < square ==> magic_table_ok(
                    Piece::Bishop,
                    sq,
                    t.bishop_magic@[sq],
                    (#[trigger] t.bishop_lookup@[sq])@,
                ),
        decreases 64 - square,
    {
        let rook_found = find_magic(Piece::Rook, square);
        let bishop_found = find_magic(Piece::Bishop, square);
        match (rook_found, bishop_found) {
            (Some((rm, rl)), Some((bm, bl))) => {
                t.rook_magic.push(rm);
                t.rook_lookup.push(rl);
                t.bishop_magic.push(bm);
                t.bishop_lookup.push(bl);
            },
            _ => {
                return None;
            },
        }
        square = square + 1;
    }
    Some(t)
}

/// Rook attacks looked up through the magic tables: the hash of the
/// occupancy's relevant blockers finds exactly the attack set under the
/// full occupancy, because blockers outside the relevant mask sit where
/// the rays have already stopped.
pub fn rook_magic_attacks(t: &MagicTables, square: usize, occupancy: u64) -> (r: u64)
    requires
        tables_wf(*t),
        square < 64,
    ensures
        r == spec_rook_attack(square as int, occupancy),
{
    proof {
        lemma_rook_attack_masked(square as int, occupancy);
    }
    let mask = rook_blocker_mask(square);
    let blockers = occupancy & mask;
    let k = popcount(mask);
    proof {
        assert(magic_table_ok(
            Piece::Rook,
            square as int,
            t.rook_magic@[square as int],
            (t.rook_lookup@[square as int])@,
        ));
        lemma_zero_bits();
        assert(blockers & mask == blockers);
    }
    let shift: u64 = 64 - k as u64;
    proof {
        lemma_index_bound(blockers.wrapping_mul(t.rook_magic@[square as int]), k as u64);
        assert(1usize << ((k as u64) as usize) == 1usize << k);
    }
    let idx = (blockers.wrapping_mul(t.rook_magic[square]) >> shift) as usize;
    proof {
        assert(idx as int == magic_index(
            blockers,
            t.rook_magic@[square as int],
            slider_shift(Piece::Rook, square as int),
        ) as int);
    }
    let table = &t.rook_lookup[square];
    table[idx]
}

/// Bishop attacks looked up through the magic tables, exact under the full
/// occupancy as for the rook.
pub fn bishop_magic_attacks(t: &MagicTables, square: usize, occupancy: u64) -> (r: u64)
    requires
        tables_wf(*t),
        square < 64,
    ensures
        r == spec_bishop_attack(square as int, occupancy),
{
    proof {
        lemma_bishop_attack_masked(square as int, occupancy);
    }
    let mask = bishop_blocker_mask(square);
    let blockers = occupancy & mask;
    let k = popcount(mask);
    proof {
        assert(magic_table_ok(
            Piece::Bishop,
            square as int,
            t.bishop_magic@[square as int],
            (t.bishop_lookup@[square as int])@,
        ));
        lemma_zero_bits();
        assert(blockers & mask == blockers);
    }
    let shift: u64 = 64 - k as u64;
    proof {
        lemma_index_bound(blockers.wrapping_mul(t.bishop_magic@[square as int]), k as u64);
        assert(1usize << ((k as u64) as usize) == 1usize << k);
    }
    let idx = (blockers.wrapping_mul(t.bishop_magic[square]) >> shift) as usize;
    proof {
        assert(idx as int == magic_index(
            blockers,
            t.bishop_magic@[square as int],
            slider_shift(Piece::Bishop, square as int),
        ) as int);
    }
    let table = &t.bishop_lookup[square];
    table[idx]
}

} // verus!
