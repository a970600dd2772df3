use vstd::prelude::*;
use crate::bits::{lemma_or_facts, FILE_A, FILE_H, RANK_1, RANK_8};

verus! {

// Sliding-piece attacks by ray walking.  A ray starts on a square, steps in
// one of eight directions, and collects every square it reaches, stopping
// after the first square that meets the blocker set (blockers are capturable
// targets, so that square is included) or at the board edge.

#[derive(Clone, Copy, PartialEq, Eq, Structural)]
pub enum Heading {
    Up,
    Down,
    Left,
    Right,
    UpLeft,
    UpRight,
    DownLeft,
    DownRight,
}

/// Whether a ray in direction `d` can step onward from square `sq`.
pub open spec fn heading_ok(sq: int, d: Heading) -> bool {
    match d {
        Heading::Up => sq < 56,
        Heading::Down => sq >= 8,
        Heading::Left => sq % 8 != 7,
        Heading::Right => sq % 8 != 0,
        Heading::UpLeft => sq < 56 && sq % 8 != 7,
        Heading::UpRight => sq < 56 && sq % 8 != 0,
        Heading::DownLeft => sq >= 8 && sq % 8 != 7,
        Heading::DownRight => sq >= 8 && sq % 8 != 0,
    }
}

/// The next square of a ray in direction `d`.
pub open spec fn heading_next(sq: int, d: Heading) -> int {
    match d {
        Heading::Up => sq + 8,
        Heading::Down => sq - 8,
        Heading::Left => sq + 1,
        Heading::Right => sq - 1,
        Heading::UpLeft => sq + 9,
        Heading::UpRight => sq + 7,
        Heading::DownLeft => sq - 7,
        Heading::DownRight => sq - 9,
    }
}

pub open spec fn heading_measure(sq: int, d: Heading) -> int {
    match d {
        Heading::Up => 64 - sq,
        Heading::Down => sq,
        Heading::Left => 64 - sq,
        Heading::Right => sq,
        Heading::UpLeft => 64 - sq,
        Heading::UpRight => 64 - sq,
        Heading::DownLeft => sq,
        Heading::DownRight => sq,
    }
}

/// The squares a ray from `sq` in direction `d` reaches, given the blocker
/// set; the first blocked square is included, squares past it are not.
pub open spec fn ray(sq: int, d: Heading, blockers: u64) -> u64
    decreases heading_measure(sq, d),
{
    if sq < 0 || 64 <= sq || !heading_ok(sq, d) {
        0u64
    } else {
        let n = heading_next(sq, d);
        let nb = 1u64 << n as u64;
        if nb & blockers != 0 {
            nb
        } else {
            nb | ray(n, d, blockers)
        }
    }
}

/// Rook attacks from `sq` with the given blocker set.
pub open spec fn spec_rook_attack(sq: int, blockers: u64) -> u64 {
    ray(sq, Heading::Up, blockers) | ray(sq, Heading::Down, blockers) | ray(
        sq,
        Heading::Left,
        blockers,
    ) | ray(sq, Heading::Right, blockers)
}

/// Bishop attacks from `sq` with the given blocker set.
pub open spec fn spec_bishop_attack(sq: int, blockers: u64) -> u64 {
    ray(sq, Heading::UpLeft, blockers) | ray(sq, Heading::UpRight, blockers) | ray(
        sq,
        Heading::DownLeft,
        blockers,
    ) | ray(sq, Heading::DownRight, blockers)
}

fn heading_ok_exec(sq: usize, d: Heading) -> (r: bool)
    requires
        sq < 64,
    ensures
        r == heading_ok(sq as int, d),
{
    match d {
        Heading::Up => sq < 56,
        Heading::Down => sq >= 8,
        Heading::Left => sq % 8 != 7,
        Heading::Right => sq % 8 != 0,
        Heading::UpLeft => sq < 56 && sq % 8 != 7,
        Heading::UpRight => sq < 56 && sq % 8 != 0,
        Heading::DownLeft => sq >= 8 && sq % 8 != 7,
        Heading::DownRight => sq >= 8 && sq % 8 != 0,
    }
}

fn heading_next_exec(sq: usize, d: Heading) -> (r: usize)
    requires
        sq < 64,
        heading_ok(sq as int, d),
    ensures
        r == heading_next(sq as int, d),
        r < 64,
{
    match d {
        Heading::Up => sq + 8,
        Heading::Down => sq - 8,
        Heading::Left => sq + 1,
        Heading::Right => sq - 1,
        Heading::UpLeft => sq + 9,
        Heading::UpRight => sq + 7,
        Heading::DownLeft => sq - 7,
        Heading::DownRight => sq - 9,
    }
}

/// Walks one ray and returns the set of reached squares.
pub fn walk_ray(sq0: usize, d: Heading, blockers: u64) -> (r: u64)
    requires
        sq0 < 64,
    ensures
        r == ray(sq0 as int, d, blockers),
{
    proof {
        lemma_or_facts();
    }
    let mut sq: usize = sq0;
    let mut mask: u64 = 0;
    let mut done: bool = false;
    while !done && heading_ok_exec(sq, d)
        invariant
            sq < 64,
            !done ==> mask | ray(sq as int, d, blockers) == ray(sq0 as int, d, blockers),
            done ==> mask == ray(sq0 as int, d, blockers),
            forall|x: u64, y: u64, z: u64| #![trigger (x | y) | z] (x | y) | z == x | (y | z),
            forall|x: u64| #![trigger x | 0u64] x | 0u64 == x,
        decreases heading_measure(sq as int, d), (if done {
            0int
        } else {
            1int
        }),
    {
        let ghost prev: int = sq as int;
        sq = heading_next_exec(sq, d);
        let nb = 1u64 << (sq as u64);
        mask = mask | nb;
        if nb & blockers != 0 {
            done = true;
        }
        proof {
            assert(ray(prev, d, blockers) == (if (1u64 << (heading_next(prev, d) as u64))
                & blockers != 0 {
                1u64 << (heading_next(prev, d) as u64)
            } else {
                (1u64 << (heading_next(prev, d) as u64)) | ray(heading_next(prev, d), d, blockers)
            }));
        }
    }
    if !done {
        assert(ray(sq as int, d, blockers) == 0u64);
    }
    mask
}

/// Rook attacks from `square`, walking the four straight rays.
pub fn rook_attacks(square: usize, blockers: u64) -> (r: u64)
    requires
        square < 64,
    ensures
        r == spec_rook_attack(square as int, blockers),
{
    walk_ray(square, Heading::Up, blockers) | walk_ray(square, Heading::Down, blockers) | walk_ray(
        square,
        Heading::Left,
        blockers,
    ) | walk_ray(square, Heading::Right, blockers)
}

/// Bishop attacks from `square`, walking the four diagonal rays.
pub fn bishop_attacks(square: usize, blockers: u64) -> (r: u64)
    requires
        square < 64,
    ensures
        r == spec_bishop_attack(square as int, blockers),
{
    walk_ray(square, Heading::UpLeft, blockers) | walk_ray(square, Heading::UpRight, blockers)
        | walk_ray(square, Heading::DownLeft, blockers) | walk_ray(
        square,
        Heading::DownRight,
        blockers,
    )
}

/// The rook's relevant-blocker mask: the rest of the square's file without
/// the border ranks, and the rest of its rank without the border files.
pub open spec fn spec_rook_blocker_mask(sq: int) -> u64 {
    (((FILE_H << (sq % 8) as u64) & !(RANK_1 | RANK_8)) ^ ((RANK_1 << (8 * (sq / 8)) as u64) & !(
    FILE_A | FILE_H))) & !(1u64 << sq as u64)
}

pub fn rook_blocker_mask(square: usize) -> (r: u64)
    requires
        square < 64,
    ensures
        r == spec_rook_blocker_mask(square as int),
{
    (((FILE_H << ((square as u64) % 8)) & !(RANK_1 | RANK_8)) ^ ((RANK_1 << (8 * ((square as u64)
        / 8))) & !(FILE_A | FILE_H))) & !(1u64 << (square as u64))
}

/// The bishop's relevant-blocker mask: its diagonals on the empty board,
/// with every edge square removed.
pub open spec fn spec_bishop_blocker_mask(sq: int) -> u64 {
    spec_bishop_attack(sq, 0u64) & !(FILE_A | FILE_H | RANK_1 | RANK_8)
}

pub fn bishop_blocker_mask(square: usize) -> (r: u64)
    requires
        square < 64,
    ensures
        r == spec_bishop_blocker_mask(square as int),
{
    bishop_attacks(square, 0u64) & !(FILE_A | FILE_H | RANK_1 | RANK_8)
}

proof fn lemma_interior_bit(n: u64)
    by (bit_vector)
    requires
        8 <= n < 56,
        n % 8 != 0,
        n % 8 != 7,
    ensures
        (1u64 << n) & (FILE_A | FILE_H | RANK_1 | RANK_8) == 0,
{
}

proof fn lemma_masked_bit(nb: u64, occ: u64, m: u64, u: u64, e: u64)
    by (bit_vector)
    ensures
        nb & !m == 0 ==> nb & (occ & m) == nb & occ,
        nb & !u == 0 && nb & e == 0 ==> nb & !(u & !e) == 0,
        (nb | occ) & !m == 0 ==> nb & !m == 0 && occ & !m == 0,
        nb & !m == 0 && m & !u == 0 ==> nb & !u == 0,
        nb | 0u64 == nb,
{
}

proof fn lemma_or4(a: u64, b: u64, c: u64, d: u64)
    by (bit_vector)
    ensures
        a & !(a | b | c | d) == 0,
        b & !(a | b | c | d) == 0,
        c & !(a | b | c | d) == 0,
        d & !(a | b | c | d) == 0,
{
}

proof fn lemma_rook_bit(sq: u64, n: u64)
    by (bit_vector)
    requires
        sq < 64,
        n < 64,
    ensures
        (n % 8 == sq % 8 && n != sq && 8 <= n < 56) ==> (1u64 << n) & !((((FILE_H << (sq % 8)) & !(
        RANK_1 | RANK_8)) ^ ((RANK_1 << (8 * (sq / 8))) & !(FILE_A | FILE_H))) & !(1u64 << sq))
            == 0,
        (n / 8 == sq / 8 && n != sq && n % 8 != 0 && n % 8 != 7) ==> (1u64 << n) & !((((FILE_H << (
        sq % 8)) & !(RANK_1 | RANK_8)) ^ ((RANK_1 << (8 * (sq / 8))) & !(FILE_A | FILE_H))) & !(
        1u64 << sq)) == 0,
{
}

/// Walking a straight ray, the blockers outside the rook's relevant mask
/// never matter: every square the walk tests before its border lies in the
/// mask, and at the border the walk stops whether or not it hit a blocker.
proof fn lemma_ray_masked_rook(sq: int, p: int, d: Heading, occ: u64)
    requires
        0 <= sq < 64,
        0 <= p < 64,
        d == Heading::Up || d == Heading::Down || d == Heading::Left || d == Heading::Right,
        (d == Heading::Up || d == Heading::Down) ==> p % 8 == sq % 8,
        (d == Heading::Left || d == Heading::Right) ==> p / 8 == sq / 8,
        (d == Heading::Up || d == Heading::Left) ==> p >= sq,
        (d == Heading::Down || d == Heading::Right) ==> p <= sq,
    ensures
        ray(p, d, occ & spec_rook_blocker_mask(sq)) == ray(p, d, occ),
    decreases heading_measure(p, d),
{
    let m = spec_rook_blocker_mask(sq);
    if heading_ok(p, d) {
        let n = heading_next(p, d);
        let nb = 1u64 << n as u64;
        if heading_ok(n, d) {
            lemma_rook_bit(sq as u64, n as u64);
            assert(m == (((FILE_H << ((sq as u64) % 8)) & !(RANK_1 | RANK_8)) ^ ((RANK_1 << (8 * ((
            sq as u64) / 8))) & !(FILE_A | FILE_H))) & !(1u64 << (sq as u64)));
            assert(nb & !m == 0);
            lemma_masked_bit(nb, occ, m, 0, 0);
            lemma_ray_masked_rook(sq, n, d, occ);
        } else {
            assert(ray(n, d, occ & m) == 0 && ray(n, d, occ) == 0);
            lemma_masked_bit(nb, occ, m, 0, 0);
        }
    }
}

/// As `lemma_ray_masked_rook` for a diagonal ray and the bishop's mask:
/// until its border the walk stays on interior squares of its own
/// empty-board ray, all of which the mask keeps.
proof fn lemma_ray_masked_bishop(sq: int, p: int, d: Heading, occ: u64)
    requires
        0 <= sq < 64,
        0 <= p < 64,
        d == Heading::UpLeft || d == Heading::UpRight || d == Heading::DownLeft || d
            == Heading::DownRight,
        ray(p, d, 0) & !ray(sq, d, 0) == 0,
        ray(sq, d, 0) & !spec_bishop_attack(sq, 0) == 0,
    ensures
        ray(p, d, occ & spec_bishop_blocker_mask(sq)) == ray(p, d, occ),
    decreases heading_measure(p, d),
{
    crate::bits::lemma_zero_bits();
    let m = spec_bishop_blocker_mask(sq);
    let u = spec_bishop_attack(sq, 0);
    let full = ray(sq, d, 0);
    if heading_ok(p, d) {
        let n = heading_next(p, d);
        let nb = 1u64 << n as u64;
        let rest = ray(n, d, 0);
        assert(ray(p, d, 0) == nb | rest);
        lemma_masked_bit(nb, rest, full, u, 0);
        assert(nb & !full == 0 && rest & !full == 0);
        if heading_ok(n, d) {
            assert(8 <= n < 56 && n % 8 != 0 && n % 8 != 7);
            lemma_interior_bit(n as u64);
            lemma_masked_bit(nb, occ, full, u, FILE_A | FILE_H | RANK_1 | RANK_8);
            assert(nb & !u == 0);
            assert(nb & !(u & !(FILE_A | FILE_H | RANK_1 | RANK_8)) == 0);
            assert(nb & !m == 0);
            lemma_masked_bit(nb, occ, m, u, 0);
            lemma_ray_masked_bishop(sq, n, d, occ);
        } else {
            assert(ray(n, d, occ & m) == 0 && ray(n, d, occ) == 0);
            lemma_masked_bit(nb, occ, m, u, 0);
        }
    }
}

/// Restricting the occupancy to the rook's relevant-blocker mask does not
/// change the rook's attack set: the blockers it discards sit where the
/// walk has already stopped.
pub proof fn lemma_rook_attack_masked(sq: int, occ: u64)
    requires
        0 <= sq < 64,
    ensures
        spec_rook_attack(sq, occ & spec_rook_blocker_mask(sq)) == spec_rook_attack(sq, occ),
{
    lemma_ray_masked_rook(sq, sq, Heading::Up, occ);
    lemma_ray_masked_rook(sq, sq, Heading::Down, occ);
    lemma_ray_masked_rook(sq, sq, Heading::Left, occ);
    lemma_ray_masked_rook(sq, sq, Heading::Right, occ);
}

/// The bishop's counterpart of `lemma_rook_attack_masked`.
pub proof fn lemma_bishop_attack_masked(sq: int, occ: u64)
    requires
        0 <= sq < 64,
    ensures
        spec_bishop_attack(sq, occ & spec_bishop_blocker_mask(sq)) == spec_bishop_attack(sq, occ),
{
    lemma_or4(
        ray(sq, Heading::UpLeft, 0),
        ray(sq, Heading::UpRight, 0),
        ray(sq, Heading::DownLeft, 0),
        ray(sq, Heading::DownRight, 0),
    );
    crate::bits::lemma_zero_bits();
    lemma_ray_masked_bishop(sq, sq, Heading::UpLeft, occ);
    lemma_ray_masked_bishop(sq, sq, Heading::UpRight, occ);
    lemma_ray_masked_bishop(sq, sq, Heading::DownLeft, occ);
    lemma_ray_masked_bishop(sq, sq, Heading::DownRight, occ);
}

} // verus!
