use vstd::prelude::*;
use crate::bits::single_bit;
use crate::board::{side_disjoint, side_or, wf, Boards, Position};
use crate::position::cache_safe;
use crate::position::spec_legal_moves;

verus! {

// Parsing the textual position description: the first space-separated
// field places the pieces, walking a single-bit pointer from a8 toward h1;
// rank groups are separated by `/`, a digit skips that many squares, and a
// letter places a piece, uppercase for white.  The second field names the
// side to move, `w` or `b`; the fields after it are ignored.

/// The index of the first space of `s` at or after `i`.
pub open spec fn first_space(s: Seq<char>, i: int) -> int
    decreases s.len() - i,
{
    if i < 0 || i >= s.len() {
        i
    } else if s[i] == ' ' {
        i
    } else {
        first_space(s, i + 1)
    }
}

pub open spec fn is_skip_digit(c: char) -> bool {
    49 <= c as u32 <= 57
}

/// Places the piece a letter names on the pointer square.
pub open spec fn place_char(wb: Boards, bb: Boards, ptr: u64, c: char) -> (Boards, Boards) {
    if c == 'r' {
        (wb, Boards { rook: bb.rook | ptr, ..bb })
    } else if c == 'b' {
        (wb, Boards { bishop: bb.bishop | ptr, ..bb })
    } else if c == 'n' {
        (wb, Boards { knight: bb.knight | ptr, ..bb })
    } else if c == 'q' {
        (wb, Boards { queen: bb.queen | ptr, ..bb })
    } else if c == 'k' {
        (wb, Boards { king: bb.king | ptr, ..bb })
    } else if c == 'p' {
        (wb, Boards { pawn: bb.pawn | ptr, ..bb })
    } else if c == 'R' {
        (Boards { rook: wb.rook | ptr, ..wb }, bb)
    } else if c == 'B' {
        (Boards { bishop: wb.bishop | ptr, ..wb }, bb)
    } else if c == 'N' {
        (Boards { knight: wb.knight | ptr, ..wb }, bb)
    } else if c == 'Q' {
        (Boards { queen: wb.queen | ptr, ..wb }, bb)
    } else if c == 'K' {
        (Boards { king: wb.king | ptr, ..wb }, bb)
    } else if c == 'P' {
        (Boards { pawn: wb.pawn | ptr, ..wb }, bb)
    } else {
        (wb, bb)
    }
}

/// How a character moves the pointer onward.
pub open spec fn step_ptr(ptr: u64, c: char) -> u64 {
    if is_skip_digit(c) {
        ptr >> ((c as u32 - 48) as u64)
    } else if c == '/' {
        ptr
    } else {
        ptr >> 1
    }
}

/// The pointer and boards after reading the first `i` characters of the
/// placement field.
pub open spec fn parse_board(s: Seq<char>, i: int) -> (u64, Boards, Boards)
    decreases i,
{
    if i <= 0 {
        (
            1u64 << 63,
            Boards { king: 0, queen: 0, bishop: 0, knight: 0, rook: 0, pawn: 0 },
            Boards { king: 0, queen: 0, bishop: 0, knight: 0, rook: 0, pawn: 0 },
        )
    } else {
        let (ptr, wb, bb) = parse_board(s, i - 1);
        let c = s[i - 1];
        let (wb2, bb2) = place_char(wb, bb, ptr, c);
        (step_ptr(ptr, c), wb2, bb2)
    }
}

/// How many of the first `i` characters equal the piece letter `c` and
/// were consumed while the parser's pointer still sat on a square.  For a
/// placement field that never runs past the 64 squares this is simply the
/// number of occurrences of the letter.
pub open spec fn placed_count(s: Seq<char>, c: char, i: int) -> nat
    decreases i,
{
    if i <= 0 {
        0
    } else {
        let (ptr, wb, bb) = parse_board(s, i - 1);
        placed_count(s, c, i - 1) + (if s[i - 1] == c && ptr != 0 {
            1nat
        } else {
            0nat
        })
    }
}

/// The side to move that a scan of `s` from `i` up to `end` leaves
/// behind: the last `w` or `b` in that range wins, `acc` if none occurs.
pub open spec fn side_scan(s: Seq<char>, i: int, end: int, acc: bool) -> bool
    decreases s.len() - i,
{
    if i < 0 || i >= s.len() || i >= end {
        acc
    } else {
        side_scan(
            s,
            i + 1,
            end,
            if s[i] == 'w' {
                true
            } else if s[i] == 'b' {
                false
            } else {
                acc
            },
        )
    }
}

/// Every board bit lies strictly above the pointer bit.
pub open spec fn above_ptr(b: u64, ptr: u64) -> bool {
    ptr == 0 || b & (ptr | (ptr - 1) as u64) == 0
}

proof fn lemma_fen_shift(b: u64, w: u64, ptr: u64, k: u64)
    by (bit_vector)
    requires
        single_bit(ptr) || ptr == 0,
        above_ptr(b, ptr),
        above_ptr(w, ptr),
        1 <= k <= 9,
    ensures
        single_bit(ptr >> k) || ptr >> k == 0,
        above_ptr(b, ptr >> k),
        above_ptr(w, ptr >> k),
        above_ptr(b | ptr, ptr >> 1),
        ptr & b == 0,
        ptr & w == 0,
        b & ptr == 0,
        w & ptr == 0,
{
}

/// Placing the pointer bit on a board keeps it disjoint from every board
/// that lies above the pointer.
proof fn lemma_fen_pair(x: u64, y: u64, sor: u64, ptr: u64)
    by (bit_vector)
    requires
        x & y == 0 || y & x == 0,
        y & !sor == 0,
        above_ptr(sor, ptr),
        single_bit(ptr) || ptr == 0,
    ensures
        (x | ptr) & y == 0,
        y & (x | ptr) == 0,
{
}

/// Or-ing the pointer into one board ors it into the side's union.
proof fn lemma_fen_or6(k: u64, q: u64, bi: u64, n: u64, r: u64, p: u64, ptr: u64)
    by (bit_vector)
    ensures
        (k | ptr) | q | bi | n | r | p == (k | q | bi | n | r | p) | ptr,
        k | (q | ptr) | bi | n | r | p == (k | q | bi | n | r | p) | ptr,
        k | q | (bi | ptr) | n | r | p == (k | q | bi | n | r | p) | ptr,
        k | q | bi | (n | ptr) | r | p == (k | q | bi | n | r | p) | ptr,
        k | q | bi | n | (r | ptr) | p == (k | q | bi | n | r | p) | ptr,
        k | q | bi | n | r | (p | ptr) == (k | q | bi | n | r | p) | ptr,
        k & !(k | q | bi | n | r | p) == 0,
        q & !(k | q | bi | n | r | p) == 0,
        bi & !(k | q | bi | n | r | p) == 0,
        n & !(k | q | bi | n | r | p) == 0,
        r & !(k | q | bi | n | r | p) == 0,
        p & !(k | q | bi | n | r | p) == 0,
{
}

/// The cross-side union stays disjoint when the pointer bit joins one side.
proof fn lemma_fen_cross(sor: u64, other: u64, ptr: u64)
    by (bit_vector)
    requires
        sor & other == 0 || other & sor == 0,
        above_ptr(other, ptr),
        single_bit(ptr) || ptr == 0,
    ensures
        (sor | ptr) & other == 0,
        other & (sor | ptr) == 0,
{
}

/// The parser's starting state: the pointer is the a8 bit and the empty
/// boards hold nothing at or below it.
proof fn lemma_parse_base(x: u64)
    by (bit_vector)
    ensures
        single_bit(1u64 << 63),
        (0u64 | 0 | 0 | 0 | 0 | 0) == 0,
        0u64 & 0u64 == 0,
        0u64 & (1u64 << 63 | ((1u64 << 63) - 1) as u64) == 0,
        0u64 | x == x,
        x | 0u64 == x,
{
}

/// One placement step of the parser keeps both sides disjoint, in step
/// with their unions, and above the pointer.
proof fn lemma_fen_place(wb: Boards, bb: Boards, ptr: u64, c: char)
    requires
        single_bit(ptr) || ptr == 0,
        above_ptr(side_or(wb), ptr),
        above_ptr(side_or(bb), ptr),
        side_disjoint(wb),
        side_disjoint(bb),
        side_or(wb) & side_or(bb) == 0,
    ensures
        ({
            let (wb2, bb2) = place_char(wb, bb, ptr, c);
            let ptr2 = step_ptr(ptr, c);
            &&& side_disjoint(wb2)
            &&& side_disjoint(bb2)
            &&& side_or(wb2) & side_or(bb2) == 0
            &&& above_ptr(side_or(wb2), ptr2)
            &&& above_ptr(side_or(bb2), ptr2)
            &&& (single_bit(ptr2) || ptr2 == 0)
        }),
{
    let (wb2, bb2) = place_char(wb, bb, ptr, c);
    let wor = side_or(wb);
    let bor = side_or(bb);
    lemma_fen_or6(wb.king, wb.queen, wb.bishop, wb.knight, wb.rook, wb.pawn, ptr);
    lemma_fen_or6(bb.king, bb.queen, bb.bishop, bb.knight, bb.rook, bb.pawn, ptr);
    if is_skip_digit(c) {
        lemma_fen_shift(wor, bor, ptr, (c as u32 - 48) as u64);
    } else if c == '/' {
    } else {
        if wb2 == wb && bb2 == bb {
            lemma_fen_shift(wor, bor, ptr, 1);
        } else if bb2 == bb {
            lemma_fen_pair(wb.king, wb.queen, wor, ptr);
            lemma_fen_pair(wb.king, wb.bishop, wor, ptr);
            lemma_fen_pair(wb.king, wb.knight, wor, ptr);
            lemma_fen_pair(wb.king, wb.rook, wor, ptr);
            lemma_fen_pair(wb.king, wb.pawn, wor, ptr);
            lemma_fen_pair(wb.queen, wb.king, wor, ptr);
            lemma_fen_pair(wb.queen, wb.bishop, wor, ptr);
            lemma_fen_pair(wb.queen, wb.knight, wor, ptr);
            lemma_fen_pair(wb.queen, wb.rook, wor, ptr);
            lemma_fen_pair(wb.queen, wb.pawn, wor, ptr);
            lemma_fen_pair(wb.bishop, wb.king, wor, ptr);
            lemma_fen_pair(wb.bishop, wb.queen, wor, ptr);
            lemma_fen_pair(wb.bishop, wb.knight, wor, ptr);
            lemma_fen_pair(wb.bishop, wb.rook, wor, ptr);
            lemma_fen_pair(wb.bishop, wb.pawn, wor, ptr);
            lemma_fen_pair(wb.knight, wb.king, wor, ptr);
            lemma_fen_pair(wb.knight, wb.queen, wor, ptr);
            lemma_fen_pair(wb.knight, wb.bishop, wor, ptr);
            lemma_fen_pair(wb.knight, wb.rook, wor, ptr);
            lemma_fen_pair(wb.knight, wb.pawn, wor, ptr);
            lemma_fen_pair(wb.rook, wb.king, wor, ptr);
            lemma_fen_pair(wb.rook, wb.queen, wor, ptr);
            lemma_fen_pair(wb.rook, wb.bishop, wor, ptr);
            lemma_fen_pair(wb.rook, wb.knight, wor, ptr);
            lemma_fen_pair(wb.rook, wb.pawn, wor, ptr);
            lemma_fen_pair(wb.pawn, wb.king, wor, ptr);
            lemma_fen_pair(wb.pawn, wb.queen, wor, ptr);
            lemma_fen_pair(wb.pawn, wb.bishop, wor, ptr);
            lemma_fen_pair(wb.pawn, wb.knight, wor, ptr);
            lemma_fen_pair(wb.pawn, wb.rook, wor, ptr);
            lemma_fen_cross(wor, bor, ptr);
            lemma_fen_shift(wor, bor, ptr, 1);
        } else {
            lemma_fen_pair(bb.king, bb.queen, bor, ptr);
            lemma_fen_pair(bb.king, bb.bishop, bor, ptr);
            lemma_fen_pair(bb.king, bb.knight, bor, ptr);
            lemma_fen_pair(bb.king, bb.rook, bor, ptr);
            lemma_fen_pair(bb.king, bb.pawn, bor, ptr);
            lemma_fen_pair(bb.queen, bb.king, bor, ptr);
            lemma_fen_pair(bb.queen, bb.bishop, bor, ptr);
            lemma_fen_pair(bb.queen, bb.knight, bor, ptr);
            lemma_fen_pair(bb.queen, bb.rook, bor, ptr);
            lemma_fen_pair(bb.queen, bb.pawn, bor, ptr);
            lemma_fen_pair(bb.bishop, bb.king, bor, ptr);
            lemma_fen_pair(bb.bishop, bb.queen, bor, ptr);
            lemma_fen_pair(bb.bishop, bb.knight, bor, ptr);
            lemma_fen_pair(bb.bishop, bb.rook, bor, ptr);
            lemma_fen_pair(bb.bishop, bb.pawn, bor, ptr);
            lemma_fen_pair(bb.knight, bb.king, bor, ptr);
            lemma_fen_pair(bb.knight, bb.queen, bor, ptr);
            lemma_fen_pair(bb.knight, bb.bishop, bor, ptr);
            lemma_fen_pair(bb.knight, bb.rook, bor, ptr);
            lemma_fen_pair(bb.knight, bb.pawn, bor, ptr);
            lemma_fen_pair(bb.rook, bb.king, bor, ptr);
            lemma_fen_pair(bb.rook, bb.queen, bor, ptr);
            lemma_fen_pair(bb.rook, bb.bishop, bor, ptr);
            lemma_fen_pair(bb.rook, bb.knight, bor, ptr);
            lemma_fen_pair(bb.rook, bb.pawn, bor, ptr);
            lemma_fen_pair(bb.pawn, bb.king, bor, ptr);
            lemma_fen_pair(bb.pawn, bb.queen, bor, ptr);
            lemma_fen_pair(bb.pawn, bb.bishop, bor, ptr);
            lemma_fen_pair(bb.pawn, bb.knight, bor, ptr);
            lemma_fen_pair(bb.pawn, bb.rook, bor, ptr);
            lemma_fen_cross(bor, wor, ptr);
            lemma_fen_shift(bor, wor, ptr, 1);
        }
    }
}

/// The fold's running state: a single-bit or exhausted pointer, disjoint
/// sides in step with their unions, every placed bit above the pointer.
proof fn lemma_parse_state(s: Seq<char>, i: int)
    ensures
        ({
            let (ptr, wb, bb) = parse_board(s, i);
            &&& (single_bit(ptr) || ptr == 0)
            &&& above_ptr(side_or(wb), ptr)
            &&& above_ptr(side_or(bb), ptr)
            &&& side_disjoint(wb)
            &&& side_disjoint(bb)
            &&& side_or(wb) & side_or(bb) == 0
        }),
    decreases i,
{
    if i <= 0 {
        lemma_parse_base(0);
    } else {
        lemma_parse_state(s, i - 1);
        let (ptr, wb, bb) = parse_board(s, i - 1);
        lemma_fen_place(wb, bb, ptr, s[i - 1]);
    }
}

/// A placement that plants a king letter exactly once, while the pointer
/// is still on the board, yields a single-bit king board; one that never
/// plants it leaves the king board empty.
pub proof fn lemma_parse_kings(s: Seq<char>, i: int)
    ensures
        ({
            let (ptr, wb, bb) = parse_board(s, i);
            &&& (placed_count(s, 'K', i) == 0 ==> wb.king == 0)
            &&& (placed_count(s, 'K', i) == 1 ==> single_bit(wb.king))
            &&& (placed_count(s, 'k', i) == 0 ==> bb.king == 0)
            &&& (placed_count(s, 'k', i) == 1 ==> single_bit(bb.king))
        }),
    decreases i,
{
    if i > 0 {
        lemma_parse_kings(s, i - 1);
        lemma_parse_state(s, i - 1);
        let (ptr, wb, bb) = parse_board(s, i - 1);
        let c = s[i - 1];
        if ptr != 0 {
            lemma_parse_base(ptr);
            if c == 'K' && wb.king == 0 {
                assert(wb.king | ptr == ptr);
            }
            if c == 'k' && bb.king == 0 {
                assert(bb.king | ptr == ptr);
            }
        } else {
            lemma_parse_base(wb.king);
            lemma_parse_base(bb.king);
        }
    }
}

impl Position {
    /// Builds a position from a textual position description.  The piece
    /// placement becomes the twelve bitboards exactly as `parse_board`
    /// folds it, the side to move is the last `w` or `b` of the remaining
    /// fields, the en-passant target starts unset, and the legal-move
    /// cache is computed for the side to move.
    pub fn from_fen(fen_string: &str) -> (r: Position)
        requires
            exists|i: int| 0 <= i < fen_string@.len() && fen_string@[i] == ' ',
        ensures
            ({
                let sep = first_space(fen_string@, 0);
                let (ptr, wb, bb) = parse_board(fen_string@.subrange(0, sep), sep);
                &&& r.w_board == wb
                &&& r.b_board == bb
                &&& r.w_turn == side_scan(
                    fen_string@,
                    sep + 1,
                    first_space(fen_string@, sep + 1),
                    true,
                )
                &&& r.en_passent_target_square == 0
                &&& wf(r)
                &&& cache_safe(r)
                &&& r.legal_moves@ == spec_legal_moves(r)
                &&& (placed_count(fen_string@.subrange(0, sep), 'K', sep) == 1 ==> single_bit(
                    r.w_board.king,
                ))
                &&& (placed_count(fen_string@.subrange(0, sep), 'k', sep) == 1 ==> single_bit(
                    r.b_board.king,
                ))
            }),
    {
        let n = fen_string.unicode_len();
        let mut separator: usize = 0;
        while fen_string.get_char(separator) != ' '
            invariant
                0 <= separator < n,
                n == fen_string@.len(),
                first_space(fen_string@, 0) == first_space(fen_string@, separator as int),
                exists|i: int| separator <= i < fen_string@.len() && fen_string@[i] == ' ',
            decreases n - separator,
        {
            separator = separator + 1;
            assert(separator < n);
        }
        let ghost s = fen_string@.subrange(0, separator as int);
        let mut ptr: u64 = 1u64 << 63;
        let mut wb = Boards { king: 0, queen: 0, bishop: 0, knight: 0, rook: 0, pawn: 0 };
        let mut bb = Boards { king: 0, queen: 0, bishop: 0, knight: 0, rook: 0, pawn: 0 };
        proof {
            lemma_parse_base(0);
        }
        let mut i: usize = 0;
        while i < separator
            invariant
                i <= separator,
                separator < n,
                n == fen_string@.len(),
                s == fen_string@.subrange(0, separator as int),
                (ptr, wb, bb) == parse_board(s, i as int),
                single_bit(ptr) || ptr == 0,
                above_ptr(side_or(wb), ptr),
                above_ptr(side_or(bb), ptr),
                side_disjoint(wb),
                side_disjoint(bb),
                side_or(wb) & side_or(bb) == 0,
            decreases separator - i,
        {
            let c = fen_string.get_char(i);
            proof {
                lemma_fen_place(wb, bb, ptr, c);
            }
            let v = c as u32;
            if 49 <= v && v <= 57 {
                ptr = ptr >> ((v - 48) as u64);
            } else {
                if c == 'r' {
                    bb.rook = bb.rook | ptr;
                } else if c == 'b' {
                    bb.bishop = bb.bishop | ptr;
                } else if c == 'n' {
                    bb.knight = bb.knight | ptr;
                } else if c == 'q' {
                    bb.queen = bb.queen | ptr;
                } else if c == 'k' {
                    bb.king = bb.king | ptr;
                } else if c == 'p' {
                    bb.pawn = bb.pawn | ptr;
                } else if c == 'R' {
                    wb.rook = wb.rook | ptr;
                } else if c == 'B' {
                    wb.bishop = wb.bishop | ptr;
                } else if c == 'N' {
                    wb.knight = wb.knight | ptr;
                } else if c == 'Q' {
                    wb.queen = wb.queen | ptr;
                } else if c == 'K' {
                    wb.king = wb.king | ptr;
                } else if c == 'P' {
                    wb.pawn = wb.pawn | ptr;
                }
                if c != '/' {
                    ptr = ptr >> 1;
                }
            }
            i = i + 1;
        }
        let mut field_end: usize = separator + 1;
        while field_end < n && fen_string.get_char(field_end) != ' '
            invariant
                separator + 1 <= field_end <= n,
                n == fen_string@.len(),
                first_space(fen_string@, separator as int + 1) == first_space(
                    fen_string@,
                    field_end as int,
                ),
            decreases n - field_end,
        {
            field_end = field_end + 1;
        }
        proof {
            assert(first_space(fen_string@, field_end as int) == field_end);
        }
        let mut w_turn = true;
        let mut j: usize = separator + 1;
        while j < field_end
            invariant
                separator + 1 <= j <= field_end,
                field_end <= n,
                n == fen_string@.len(),
                side_scan(fen_string@, separator as int + 1, field_end as int, true)
                    == side_scan(fen_string@, j as int, field_end as int, w_turn),
            decreases field_end - j,
        {
            let c = fen_string.get_char(j);
            if c == 'w' {
                w_turn = true;
            } else if c == 'b' {
                w_turn = false;
            }
            j = j + 1;
        }
        proof {
            lemma_parse_kings(s, separator as int);
        }
        let w_all = wb.king | wb.queen | wb.bishop | wb.knight | wb.rook | wb.pawn;
        let b_all = bb.king | bb.queen | bb.bishop | bb.knight | bb.rook | bb.pawn;
        let mut position = Position {
            w_board: wb,
            b_board: bb,
            w_all,
            b_all,
            w_turn,
            en_passent_target_square: 0,
            legal_moves: Vec::new(),
        };
        position.calculate_legal_moves();
        position
    }

    /// The standard starting position.
    pub fn startpos() -> (r: Position)
        ensures
            ({
                let t = "rnbqkbnr/pppppppp/8/8/8/8/PPPPPPPP/RNBQKBNR w KQkq - 0 1";
                let sep = first_space(t@, 0);
                let (ptr, wb, bb) = parse_board(t@.subrange(0, sep), sep);
                &&& r.w_board == wb
                &&& r.b_board == bb
                &&& r.w_turn
                &&& r.en_passent_target_square == 0
                &&& wf(r)
                &&& cache_safe(r)
                &&& r.legal_moves@ == spec_legal_moves(r)
            }),
    {
        let t = "rnbqkbnr/pppppppp/8/8/8/8/PPPPPPPP/RNBQKBNR w KQkq - 0 1";
        proof {
            reveal_strlit("rnbqkbnr/pppppppp/8/8/8/8/PPPPPPPP/RNBQKBNR w KQkq - 0 1");
            assert(t@.len() == 56);
            assert(t@[43] == ' ');
            assert(first_space(t@, 43) == 43);
            assert(t@[42] == 'R' && first_space(t@, 42) == 43);
            assert(t@[41] == 'N' && first_space(t@, 41) == 43);
            assert(t@[40] == 'B' && first_space(t@, 40) == 43);
            assert(t@[39] == 'K' && first_space(t@, 39) == 43);
            assert(t@[38] == 'Q' && first_space(t@, 38) == 43);
            assert(t@[37] == 'B' && first_space(t@, 37) == 43);
            assert(t@[36] == 'N' && first_space(t@, 36) == 43);
            assert(t@[35] == 'R' && first_space(t@, 35) == 43);
            assert(t@[34] == '/' && first_space(t@, 34) == 43);
            assert(t@[33] == 'P' && first_space(t@, 33) == 43);
            assert(t@[32] == 'P' && first_space(t@, 32) == 43);
            assert(t@[31] == 'P' && first_space(t@, 31) == 43);
            assert(t@[30] == 'P' && first_space(t@, 30) == 43);
            assert(t@[29] == 'P' && first_space(t@, 29) == 43);
            assert(t@[28] == 'P' && first_space(t@, 28) == 43);
            assert(t@[27] == 'P' && first_space(t@, 27) == 43);
            assert(t@[26] == 'P' && first_space(t@, 26) == 43);
            assert(t@[25] == '/' && first_space(t@, 25) == 43);
            assert(t@[24] == '8' && first_space(t@, 24) == 43);
            assert(t@[23] == '/' && first_space(t@, 23) == 43);
            assert(t@[22] == '8' && first_space(t@, 22) == 43);
            assert(t@[21] == '/' && first_space(t@, 21) == 43);
            assert(t@[20] == '8' && first_space(t@, 20) == 43);
            assert(t@[19] == '/' && first_space(t@, 19) == 43);
            assert(t@[18] == '8' && first_space(t@, 18) == 43);
            assert(t@[17] == '/' && first_space(t@, 17) == 43);
            assert(t@[16] == 'p' && first_space(t@, 16) == 43);
            assert(t@[15] == 'p' && first_space(t@, 15) == 43);
            assert(t@[14] == 'p' && first_space(t@, 14) == 43);
            assert(t@[13] == 'p' && first_space(t@, 13) == 43);
            assert(t@[12] == 'p' && first_space(t@, 12) == 43);
            assert(t@[11] == 'p' && first_space(t@, 11) == 43);
            assert(t@[10] == 'p' && first_space(t@, 10) == 43);
            assert(t@[9] == 'p' && first_space(t@, 9) == 43);
            assert(t@[8] == '/' && first_space(t@, 8) == 43);
            assert(t@[7] == 'r' && first_space(t@, 7) == 43);
            assert(t@[6] == 'n' && first_space(t@, 6) == 43);
            assert(t@[5] == 'b' && first_space(t@, 5) == 43);
            assert(t@[4] == 'k' && first_space(t@, 4) == 43);
            assert(t@[3] == 'q' && first_space(t@, 3) == 43);
            assert(t@[2] == 'b' && first_space(t@, 2) == 43);
            assert(t@[1] == 'n' && first_space(t@, 1) == 43);
            assert(t@[0] == 'r' && first_space(t@, 0) == 43);
            assert(t@[45] == ' ' && first_space(t@, 45) == 45);
            assert(t@[44] == 'w' && first_space(t@, 44) == 45);
            assert(side_scan(t@, 45, 45, true));
            assert(side_scan(t@, 44, 45, true));
        }
        Position::from_fen(t)
    }
}

} // verus!
