use vstd::prelude::*;
use crate::attack::{spec_attacked, square_attacked_by_black, square_attacked_by_white};
use crate::bits::{
    bit_index,
    lemma_low_bit,
    lemma_zero_bits,
    lemma_shift_single_bit,
    lemma_single_bit_in,
    lemma_sq_of,
    lemma_subset_nonzero,
    single_bit,
    sq_of,
    RANK_1,
    RANK_8,
};
use crate::board::{
    boards_get,
    boards_with,
    cache_ok,
    ep_ok,
    pawn_shape,
    pos_move_ok,
    spec_piece_at,
    wf_boards,
    Boards,
    GameResult,
    Move,
    Piece,
    Position,
};
use crate::masks::{
    b_pawn_capture_mask,
    b_pawn_doubleforward_mask,
    b_pawn_forward_mask,
    king_mask,
    knight_mask,
    spec_b_pawn_capture,
    spec_b_pawn_double,
    spec_b_pawn_forward,
    spec_king_mask,
    spec_knight_mask,
    spec_w_pawn_capture,
    spec_w_pawn_double,
    spec_w_pawn_forward,
    w_pawn_capture_mask,
    w_pawn_doubleforward_mask,
    w_pawn_forward_mask,
};
use crate::rays::{bishop_attacks, rook_attacks, spec_bishop_attack, spec_rook_attack};

verus! {

// Pseudo-legal move enumeration and the king-safety filter.  For each piece
// of the side to move, the attack set is intersected with the legality
// masks and one move record is emitted per set destination bit; a
// pseudo-legal move survives the filter when the mover's king is not
// attacked after playing it.

/// The white pawn target set stays off white's pieces, and every single bit
/// of it has a pawn move's shape.
proof fn lemma_w_pawn_targets(from: u64, w_all: u64, b_all: u64, ep: u64, d: u64)
    by (bit_vector)
    requires
        single_bit(from),
        w_all & b_all == 0,
        ep & (w_all | b_all) == 0,
    ensures
        ({
            let occ = w_all | b_all;
            let t = (spec_w_pawn_forward(from) & !occ) | (spec_w_pawn_double(from) & !(occ | occ
                << 8)) | (spec_w_pawn_capture(from) & (b_all | ep));
            t & w_all == 0 && (single_bit(d) && d & t != 0 ==> pawn_shape(from, d, occ, true))
        }),
{
}

/// The black pawn target set stays off black's pieces, and every single bit
/// of it has a pawn move's shape.
proof fn lemma_b_pawn_targets(from: u64, w_all: u64, b_all: u64, ep: u64, d: u64)
    by (bit_vector)
    requires
        single_bit(from),
        w_all & b_all == 0,
        ep & (w_all | b_all) == 0,
    ensures
        ({
            let occ = w_all | b_all;
            let t = (spec_b_pawn_forward(from) & !occ) | (spec_b_pawn_double(from) & !(occ | occ
                >> 8)) | (spec_b_pawn_capture(from) & (w_all | ep));
            t & b_all == 0 && (single_bit(d) && d & t != 0 ==> pawn_shape(from, d, occ, false))
        }),
{
}

/// A pawn on its starting rank with a blocker one square ahead cannot
/// double-push: the two-squares-forward destination never enters the
/// pawn's target set.
pub proof fn lemma_blocked_double_push(from: u64, w_all: u64, b_all: u64, ep: u64)
    by (bit_vector)
    requires
        single_bit(from),
        (from << 8) & (w_all | b_all) != 0,
    ensures
        ({
            let occ = w_all | b_all;
            let t = (spec_w_pawn_forward(from) & !occ) | (spec_w_pawn_double(from) & !(occ | occ
                << 8)) | (spec_w_pawn_capture(from) & (b_all | ep));
            t & (from << 16) == 0 && t & (from << 8) == 0
        }),
{
}

/// Masking an attack set with the complement of the own-side board keeps it
/// off the own-side board and inside the attack set.
proof fn lemma_and_not_own(a: u64, b: u64, own: u64)
    by (bit_vector)
    ensures
        (a & !own) & own == 0,
        (a & !own) & !a == 0,
        ((a & !own) | (b & !own)) & own == 0,
        ((a & !own) | (b & !own)) & !(a | b) == 0,
{
}

/// The two positions agree on everything but the legal-move cache.
pub open spec fn same_but_cache(a: Position, b: Position) -> bool {
    &&& a.w_board == b.w_board
    &&& a.b_board == b.b_board
    &&& a.w_all == b.w_all
    &&& a.b_all == b.b_all
    &&& a.w_turn == b.w_turn
    &&& a.en_passent_target_square == b.en_passent_target_square
}

/// How a single king bit relates to the scan frontier: once the scan
/// passes the king's square it has pinned the king down.
proof fn lemma_king_scan(wk: u64, sq: u64)
    by (bit_vector)
    requires
        single_bit(wk),
        sq < 64,
    ensures
        (wk >> sq != 0 && wk >> ((sq + 1) as u64) == 0) ==> wk == 1u64 << sq,
        wk == 1u64 << sq ==> wk >> ((sq + 1) as u64) == 0,
        wk >> sq == 0 ==> wk >> ((sq + 1) as u64) == 0 && wk & (1u64 << sq) != 1u64 << sq,
        wk >> 64u64 == 0,
        wk >> 0u64 != 0,
        wk & wk != 0,
        wk & wk == wk,
{
}

/// The boards, occupancy and king square that the king-safety filter tests
/// for a tentatively played white move.
pub open spec fn w_filter_state(p: Position, m: Move, king_pos: int) -> (u64, Boards, int) {
    let wb = boards_with(p.w_board, m.piece, boards_get(p.w_board, m.piece) ^ (m.from
        | m.destination));
    let w_all2 = p.w_all ^ (m.from | m.destination);
    let captured = p.b_all & m.destination != 0;
    let bb1 = if captured {
        Boards {
            king: p.b_board.king & !m.destination,
            queen: p.b_board.queen & !m.destination,
            bishop: p.b_board.bishop & !m.destination,
            knight: p.b_board.knight & !m.destination,
            rook: p.b_board.rook & !m.destination,
            pawn: p.b_board.pawn & !m.destination,
        }
    } else {
        p.b_board
    };
    let b_all1 = if captured {
        p.b_all & !m.destination
    } else {
        p.b_all
    };
    let ep_capture = m.piece == Piece::Pawn && m.destination == p.en_passent_target_square;
    let bb2 = if ep_capture {
        Boards { pawn: bb1.pawn & !(m.destination >> 8), ..bb1 }
    } else {
        bb1
    };
    let b_all2 = if ep_capture {
        b_all1 & !(m.destination >> 8)
    } else {
        b_all1
    };
    let ksq = if m.piece == Piece::King {
        sq_of(m.destination)
    } else {
        king_pos
    };
    (w_all2 | b_all2, bb2, ksq)
}

/// As `w_filter_state`, for a tentatively played black move.
pub open spec fn b_filter_state(p: Position, m: Move, king_pos: int) -> (u64, Boards, int) {
    let bb = boards_with(p.b_board, m.piece, boards_get(p.b_board, m.piece) ^ (m.from
        | m.destination));
    let b_all2 = p.b_all ^ (m.from | m.destination);
    let captured = p.w_all & m.destination != 0;
    let wb1 = if captured {
        Boards {
            king: p.w_board.king & !m.destination,
            queen: p.w_board.queen & !m.destination,
            bishop: p.w_board.bishop & !m.destination,
            knight: p.w_board.knight & !m.destination,
            rook: p.w_board.rook & !m.destination,
            pawn: p.w_board.pawn & !m.destination,
        }
    } else {
        p.w_board
    };
    let w_all1 = if captured {
        p.w_all & !m.destination
    } else {
        p.w_all
    };
    let ep_capture = m.piece == Piece::Pawn && m.destination == p.en_passent_target_square;
    let wb2 = if ep_capture {
        Boards { pawn: wb1.pawn & !(m.destination << 8), ..wb1 }
    } else {
        wb1
    };
    let w_all2 = if ep_capture {
        w_all1 & !(m.destination << 8)
    } else {
        w_all1
    };
    let ksq = if m.piece == Piece::King {
        sq_of(m.destination)
    } else {
        king_pos
    };
    (w_all2 | b_all2, wb2, ksq)
}

/// Playing the move leaves the mover's king unattacked, whenever the
/// mover has a single king to protect.
pub open spec fn pos_move_safe(p: Position, m: Move) -> bool {
    if p.w_turn {
        single_bit(p.w_board.king) ==> ({
            let (occ, bb, ksq) = w_filter_state(p, m, sq_of(p.w_board.king));
            !spec_attacked(ksq, occ, bb, false)
        })
    } else {
        single_bit(p.b_board.king) ==> ({
            let (occ, wb, ksq) = b_filter_state(p, m, sq_of(p.b_board.king));
            !spec_attacked(ksq, occ, wb, true)
        })
    }
}

/// Every cached legal move passes the king-safety filter.
pub open spec fn cache_safe(p: Position) -> bool {
    forall|i: int|
        0 <= i < p.legal_moves@.len() ==> pos_move_safe(p, #[trigger] p.legal_moves@[i])
}

/// The records emitted for one destination bit: the four promotions for a
/// pawn reaching the last rank, otherwise the single move.
pub open spec fn promo_records(from: u64, dest: u64, piece: Piece) -> Seq<Move> {
    if piece == Piece::Pawn && dest & (RANK_1 | RANK_8) != 0 {
        seq![
            Move { from, destination: dest, piece, promotion: Piece::Queen },
            Move { from, destination: dest, piece, promotion: Piece::Rook },
            Move { from, destination: dest, piece, promotion: Piece::Knight },
            Move { from, destination: dest, piece, promotion: Piece::Bishop },
        ]
    } else {
        seq![Move { from, destination: dest, piece, promotion: Piece::Void }]
    }
}

/// A pawn move reaching the last rank expands to exactly four records, one
/// per promotion piece in the order queen, rook, knight, bishop; every
/// other move is emitted as exactly one record without a promotion.
/// `add_moves` appends `emit_bits`, which applies this to each target bit.
pub proof fn lemma_promotion_expansion(from: u64, dest: u64, piece: Piece)
    ensures
        piece == Piece::Pawn && dest & (RANK_1 | RANK_8) != 0 ==> promo_records(from, dest, piece)
            == seq![
            (Move { from, destination: dest, piece, promotion: Piece::Queen }),
            (Move { from, destination: dest, piece, promotion: Piece::Rook }),
            (Move { from, destination: dest, piece, promotion: Piece::Knight }),
            (Move { from, destination: dest, piece, promotion: Piece::Bishop }),
        ],
        !(piece == Piece::Pawn && dest & (RANK_1 | RANK_8) != 0) ==> promo_records(
            from,
            dest,
            piece,
        ) == seq![(Move { from, destination: dest, piece, promotion: Piece::Void })],
        promo_records(from, dest, piece).len() == (if piece == Piece::Pawn && dest & (RANK_1
            | RANK_8) != 0 {
            4int
        } else {
            1int
        }),
{
}

/// The records for every set bit of `targets` at position `i` or above, in
/// ascending bit order — the order the emission loop produces.
pub open spec fn emit_bits(targets: u64, from: u64, piece: Piece, i: int) -> Seq<Move>
    decreases 64 - i,
{
    if i < 0 || i >= 64 {
        Seq::empty()
    } else {
        let rest = emit_bits(targets, from, piece, i + 1);
        if (1u64 << i as u64) & targets != 0 {
            promo_records(from, 1u64 << i as u64, piece) + rest
        } else {
            rest
        }
    }
}

/// Two target sets that agree from bit `i` upward emit the same records.
proof fn lemma_bit_step(b1: u64, b2: u64, i: u64)
    by (bit_vector)
    requires
        b1 >> i == b2 >> i,
        i < 64,
    ensures
        (1u64 << i) & b1 == (1u64 << i) & b2,
        b1 >> ((i + 1) as u64) == b2 >> ((i + 1) as u64),
{
}

proof fn lemma_emit_agree(b1: u64, b2: u64, from: u64, piece: Piece, i: int)
    requires
        0 <= i <= 64,
        b1 >> (i as u64) == b2 >> (i as u64),
    ensures
        emit_bits(b1, from, piece, i) == emit_bits(b2, from, piece, i),
    decreases 64 - i,
{
    if i < 64 {
        lemma_bit_step(b1, b2, i as u64);
        lemma_emit_agree(b1, b2, from, piece, i + 1);
    }
}

/// How the lowest set bit relates to the rest of the board: the stripped
/// board agrees above it and is clear at and below it.
proof fn lemma_low_split(b: u64, li: u64, j: u64)
    by (bit_vector)
    requires
        b != 0,
        b & !((b - 1) as u64) == 1u64 << li,
        li < 64,
        j <= li,
    ensures
        b >> ((li + 1) as u64) == (b & (b - 1) as u64) >> ((li + 1) as u64),
        (1u64 << li) & b != 0,
        (1u64 << li) & (b & (b - 1) as u64) == 0,
        j < li ==> (1u64 << j) & b == 0 && (1u64 << j) & (b & (b - 1) as u64) == 0,
{
}

/// Emitting a target set is emitting its lowest bit's records first, then
/// the rest of the set.
proof fn lemma_emit_low(b: u64, from: u64, piece: Piece, li: u64, i: int)
    requires
        b != 0,
        b & !((b - 1) as u64) == 1u64 << li,
        li < 64,
        0 <= i <= li,
    ensures
        emit_bits(b, from, piece, i) == promo_records(from, 1u64 << li, piece) + emit_bits(
            b & (b - 1) as u64,
            from,
            piece,
            i,
        ),
    decreases li - i,
{
    lemma_low_split(b, li, i as u64);
    if i == li {
        lemma_emit_agree(b, b & (b - 1) as u64, from, piece, i + 1);
    } else {
        lemma_emit_low(b, from, piece, li, i + 1);
    }
}

/// An empty target set emits nothing.
proof fn lemma_emit_none(from: u64, piece: Piece, i: int)
    ensures
        emit_bits(0u64, from, piece, i) == Seq::<Move>::empty(),
    decreases 64 - i,
{
    lemma_zero_bits();
    if 0 <= i < 64 {
        lemma_emit_none(from, piece, i + 1);
    }
}

/// The records the generator emits for one square of the position: the
/// piece found there, its target set per the movement rules, one record per
/// target bit.
pub open spec fn spec_square_moves(p: Position, sq: int) -> Seq<Move> {
    let bb = 1u64 << sq as u64;
    let occ = p.w_all | p.b_all;
    if p.w_turn {
        match spec_piece_at(p.w_board, bb) {
            Piece::Queen => emit_bits(
                (spec_rook_attack(sq, occ) & !p.w_all) | (spec_bishop_attack(sq, occ) & !p.w_all),
                bb,
                Piece::Queen,
                0,
            ),
            Piece::Rook => emit_bits(spec_rook_attack(sq, occ) & !p.w_all, bb, Piece::Rook, 0),
            Piece::Bishop => emit_bits(
                spec_bishop_attack(sq, occ) & !p.w_all,
                bb,
                Piece::Bishop,
                0,
            ),
            Piece::Knight => emit_bits(spec_knight_mask(bb) & !p.w_all, bb, Piece::Knight, 0),
            Piece::Pawn => emit_bits(
                spec_w_pawn_forward(bb) & !occ | spec_w_pawn_double(bb) & !(occ | occ << 8) | (
                spec_w_pawn_capture(bb) & (p.b_all | p.en_passent_target_square)),
                bb,
                Piece::Pawn,
                0,
            ),
            Piece::King => emit_bits(spec_king_mask(bb) & !p.w_all, bb, Piece::King, 0),
            Piece::Void => Seq::empty(),
        }
    } else {
        match spec_piece_at(p.b_board, bb) {
            Piece::Queen => emit_bits(
                (spec_rook_attack(sq, occ) & !p.b_all) | (spec_bishop_attack(sq, occ) & !p.b_all),
                bb,
                Piece::Queen,
                0,
            ),
            Piece::Rook => emit_bits(spec_rook_attack(sq, occ) & !p.b_all, bb, Piece::Rook, 0),
            Piece::Bishop => emit_bits(
                spec_bishop_attack(sq, occ) & !p.b_all,
                bb,
                Piece::Bishop,
                0,
            ),
            Piece::Knight => emit_bits(spec_knight_mask(bb) & !p.b_all, bb, Piece::Knight, 0),
            Piece::Pawn => emit_bits(
                spec_b_pawn_forward(bb) & !occ | spec_b_pawn_double(bb) & !(occ | occ >> 8) | (
                spec_b_pawn_capture(bb) & (p.w_all | p.en_passent_target_square)),
                bb,
                Piece::Pawn,
                0,
            ),
            Piece::King => emit_bits(spec_king_mask(bb) & !p.b_all, bb, Piece::King, 0),
            Piece::Void => Seq::empty(),
        }
    }
}

/// The pseudo-legal records of the squares below `sq`, in scan order.
pub open spec fn spec_pseudo_upto(p: Position, sq: int) -> Seq<Move>
    decreases sq,
{
    if sq <= 0 {
        Seq::empty()
    } else {
        spec_pseudo_upto(p, sq - 1) + spec_square_moves(p, sq - 1)
    }
}

/// The king square the scan of the squares below `sq` leaves behind: the
/// last own-king square seen, or zero when none was.
pub open spec fn spec_king_pos_upto(p: Position, sq: int) -> int
    decreases sq,
{
    if sq <= 0 {
        0
    } else {
        let bb = 1u64 << (sq - 1) as u64;
        let pc = if p.w_turn {
            spec_piece_at(p.w_board, bb)
        } else {
            spec_piece_at(p.b_board, bb)
        };
        if pc == Piece::King {
            sq - 1
        } else {
            spec_king_pos_upto(p, sq - 1)
        }
    }
}

/// Whether the king-safety filter keeps the move.
pub open spec fn spec_keep(p: Position, m: Move, kp: int) -> bool {
    if p.w_turn {
        ({
            let (occ, bb, ksq) = w_filter_state(p, m, kp);
            !spec_attacked(ksq, occ, bb, false)
        })
    } else {
        ({
            let (occ, wb, ksq) = b_filter_state(p, m, kp);
            !spec_attacked(ksq, occ, wb, true)
        })
    }
}

/// The first `i` records of `s` that the filter keeps, in order.
pub open spec fn spec_filter_upto(p: Position, s: Seq<Move>, kp: int, i: int) -> Seq<Move>
    decreases i,
{
    if i <= 0 {
        Seq::empty()
    } else {
        let pre = spec_filter_upto(p, s, kp, i - 1);
        if spec_keep(p, s[i - 1], kp) {
            pre.push(s[i - 1])
        } else {
            pre
        }
    }
}

/// The legal moves of the position: the pseudo-legal records of all 64
/// squares, in scan order, with every move that leaves the mover's king
/// attacked filtered out.  The cached list equals exactly this.
pub open spec fn spec_legal_moves(p: Position) -> Seq<Move> {
    let pseudo = spec_pseudo_upto(p, 64);
    spec_filter_upto(p, pseudo, spec_king_pos_upto(p, 64), pseudo.len() as int)
}

/// None of the legal-move specs reads the cache: two positions that agree
/// on everything else have the same legal moves.
proof fn lemma_square_moves_same(a: Position, b: Position, sq: int)
    requires
        same_but_cache(a, b),
    ensures
        spec_square_moves(a, sq) == spec_square_moves(b, sq),
        spec_king_pos_upto(a, sq) == spec_king_pos_upto(b, sq),
    decreases sq,
{
    if sq > 0 {
        lemma_square_moves_same(a, b, sq - 1);
    }
}

proof fn lemma_pseudo_same(a: Position, b: Position, sq: int)
    requires
        same_but_cache(a, b),
    ensures
        spec_pseudo_upto(a, sq) == spec_pseudo_upto(b, sq),
    decreases sq,
{
    if sq > 0 {
        lemma_pseudo_same(a, b, sq - 1);
        lemma_square_moves_same(a, b, sq);
    }
}

proof fn lemma_filter_same(a: Position, b: Position, s: Seq<Move>, kp: int, i: int)
    requires
        same_but_cache(a, b),
    ensures
        spec_filter_upto(a, s, kp, i) == spec_filter_upto(b, s, kp, i),
    decreases i,
{
    if i > 0 {
        lemma_filter_same(a, b, s, kp, i - 1);
    }
}

/// The legal-move list depends on the boards, the turn and the en-passant
/// target alone, never on the cache.
pub proof fn lemma_legal_moves_same(a: Position, b: Position)
    requires
        same_but_cache(a, b),
    ensures
        spec_legal_moves(a) == spec_legal_moves(b),
{
    lemma_pseudo_same(a, b, 64);
    lemma_square_moves_same(a, b, 64);
    lemma_filter_same(a, b, spec_pseudo_upto(a, 64), spec_king_pos_upto(a, 64), spec_pseudo_upto(
        a,
        64,
    ).len() as int);
}

impl Position {
    /// Whether the game is still in progress: true exactly when the side to
    /// move has a legal move.  Use `get_result` when it returns false.
    pub fn game_in_progress(&self) -> (r: bool)
        ensures
            r == (self.legal_moves@.len() != 0),
            self.legal_moves@ == spec_legal_moves(*self) ==> r == (spec_legal_moves(
                *self,
            ).len() != 0),
    {
        self.legal_moves.len() != 0
    }

    /// The first white piece found on the given single-bit square, or `Void`.
    pub fn get_w_piece(&self, bitboard_square: u64) -> (r: Piece)
        ensures
            r == spec_piece_at(self.w_board, bitboard_square),
    {
        if self.w_board.pawn & bitboard_square == bitboard_square {
            Piece::Pawn
        } else if self.w_board.knight & bitboard_square == bitboard_square {
            Piece::Knight
        } else if self.w_board.bishop & bitboard_square == bitboard_square {
            Piece::Bishop
        } else if self.w_board.rook & bitboard_square == bitboard_square {
            Piece::Rook
        } else if self.w_board.queen & bitboard_square == bitboard_square {
            Piece::Queen
        } else if self.w_board.king & bitboard_square == bitboard_square {
            Piece::King
        } else {
            Piece::Void
        }
    }

    /// The first black piece found on the given single-bit square, or `Void`.
    pub fn get_b_piece(&self, bitboard_square: u64) -> (r: Piece)
        ensures
            r == spec_piece_at(self.b_board, bitboard_square),
    {
        if self.b_board.pawn & bitboard_square == bitboard_square {
            Piece::Pawn
        } else if self.b_board.knight & bitboard_square == bitboard_square {
            Piece::Knight
        } else if self.b_board.bishop & bitboard_square == bitboard_square {
            Piece::Bishop
        } else if self.b_board.rook & bitboard_square == bitboard_square {
            Piece::Rook
        } else if self.b_board.queen & bitboard_square == bitboard_square {
            Piece::Queen
        } else if self.b_board.king & bitboard_square == bitboard_square {
            Piece::King
        } else {
            Piece::Void
        }
    }

    /// The game's outcome once no legal move remains: a win for the side
    /// that delivered mate, or a draw on stalemate.
    pub fn get_result(&self) -> (r: GameResult)
        requires
            self.w_turn ==> single_bit(self.w_board.king),
            !self.w_turn ==> single_bit(self.b_board.king),
        ensures
            self.w_turn ==> r == (if spec_attacked(
                sq_of(self.w_board.king),
                self.w_all | self.b_all,
                self.b_board,
                false,
            ) {
                GameResult::BlackWin
            } else {
                GameResult::Draw
            }),
            !self.w_turn ==> r == (if spec_attacked(
                sq_of(self.b_board.king),
                self.w_all | self.b_all,
                self.w_board,
                true,
            ) {
                GameResult::WhiteWin
            } else {
                GameResult::Draw
            }),
    {
        let blocker_board = self.w_all | self.b_all;
        if self.w_turn {
            let king_pos = bit_index(self.w_board.king);
            proof {
                lemma_sq_of(king_pos as u64);
            }
            if square_attacked_by_black(&self.b_board, blocker_board, king_pos) {
                return GameResult::BlackWin;
            }
        } else {
            let king_pos = bit_index(self.b_board.king);
            proof {
                lemma_sq_of(king_pos as u64);
            }
            if square_attacked_by_white(&self.w_board, blocker_board, king_pos) {
                return GameResult::WhiteWin;
            }
        }
        GameResult::Draw
    }

    /// Tests whether the white king stays safe after playing `m`.
    fn w_king_capture_filter(&self, m: Move, king_pos: usize) -> (r: bool)
        requires
            king_pos < 64,
            single_bit(m.destination),
        ensures
            ({
                let (occ, bb, ksq) = w_filter_state(*self, m, king_pos as int);
                r == !spec_attacked(ksq, occ, bb, false)
            }),
    {
        let mut king_pos_copy = king_pos;
        let mut wb = self.w_board;
        let mut bb = self.b_board;
        let mut w_all = self.w_all;
        let mut b_all = self.b_all;

        let cur = wb.get(m.piece);
        wb.set(m.piece, cur ^ (m.from | m.destination));
        w_all = w_all ^ (m.from | m.destination);

        if b_all & m.destination != 0 {
            b_all = b_all & !m.destination;
            bb.clear_all(m.destination);
        }
        if m.piece == Piece::Pawn && m.destination == self.en_passent_target_square {
            b_all = b_all & !(m.destination >> 8);
            bb.pawn = bb.pawn & !(m.destination >> 8);
        }
        if m.piece == Piece::King {
            king_pos_copy = bit_index(m.destination);
            proof {
                lemma_sq_of(king_pos_copy as u64);
            }
        }
        let blocker_board = w_all | b_all;
        !square_attacked_by_black(&bb, blocker_board, king_pos_copy)
    }

    /// Tests whether the black king stays safe after playing `m`.
    fn b_king_capture_filter(&self, m: Move, king_pos: usize) -> (r: bool)
        requires
            king_pos < 64,
            single_bit(m.destination),
        ensures
            ({
                let (occ, wb, ksq) = b_filter_state(*self, m, king_pos as int);
                r == !spec_attacked(ksq, occ, wb, true)
            }),
    {
        let mut king_pos_copy = king_pos;
        let mut wb = self.w_board;
        let mut bb = self.b_board;
        let mut w_all = self.w_all;
        let mut b_all = self.b_all;

        let cur = bb.get(m.piece);
        bb.set(m.piece, cur ^ (m.from | m.destination));
        b_all = b_all ^ (m.from | m.destination);

        if w_all & m.destination != 0 {
            w_all = w_all & !m.destination;
            wb.clear_all(m.destination);
        }
        if m.piece == Piece::Pawn && m.destination == self.en_passent_target_square {
            w_all = w_all & !(m.destination << 8);
            wb.pawn = wb.pawn & !(m.destination << 8);
        }
        if m.piece == Piece::King {
            king_pos_copy = bit_index(m.destination);
            proof {
                lemma_sq_of(king_pos_copy as u64);
            }
        }
        let blocker_board = w_all | b_all;
        !square_attacked_by_white(&wb, blocker_board, king_pos_copy)
    }

    /// Emits one move per set bit of `bitboard`, expanding pawn moves to the
    /// last rank into the four promotions.
    fn add_moves(&mut self, bitboard: u64, from: u64, piece: Piece)
        requires
            cache_ok(*old(self)),
            single_bit(from),
            piece != Piece::Void,
            old(self).w_turn ==> boards_get(old(self).w_board, piece) & from != 0 && bitboard
                & old(self).w_all == 0,
            !old(self).w_turn ==> boards_get(old(self).b_board, piece) & from != 0 && bitboard
                & old(self).b_all == 0,
            piece == Piece::King ==> bitboard & !spec_king_mask(from) == 0,
            piece == Piece::Knight ==> bitboard & !spec_knight_mask(from) == 0,
            piece == Piece::Rook ==> bitboard & !spec_rook_attack(
                sq_of(from),
                old(self).w_all | old(self).b_all,
            ) == 0,
            piece == Piece::Bishop ==> bitboard & !spec_bishop_attack(
                sq_of(from),
                old(self).w_all | old(self).b_all,
            ) == 0,
            piece == Piece::Queen ==> bitboard & !(spec_rook_attack(
                sq_of(from),
                old(self).w_all | old(self).b_all,
            ) | spec_bishop_attack(sq_of(from), old(self).w_all | old(self).b_all)) == 0,
            piece == Piece::Pawn ==> forall|d: u64|
                single_bit(d) && d & bitboard != 0 ==> pawn_shape(
                    from,
                    d,
                    old(self).w_all | old(self).b_all,
                    old(self).w_turn,
                ),
        ensures
            same_but_cache(*old(self), *final(self)),
            cache_ok(*final(self)),
            final(self).legal_moves@ == old(self).legal_moves@ + emit_bits(
                bitboard,
                from,
                piece,
                0,
            ),
    {
        let mut bb = bitboard;
        proof {
            lemma_zero_bits();
        }
        while bb != 0
            invariant
                bb & !bitboard == 0,
                cache_ok(*self),
                self.w_board == old(self).w_board,
                self.b_board == old(self).b_board,
                self.w_all == old(self).w_all,
                self.b_all == old(self).b_all,
                self.w_turn == old(self).w_turn,
                self.en_passent_target_square == old(self).en_passent_target_square,
                single_bit(from),
                piece != Piece::Void,
                self.w_turn ==> boards_get(self.w_board, piece) & from != 0 && bitboard
                    & self.w_all == 0,
                !self.w_turn ==> boards_get(self.b_board, piece) & from != 0 && bitboard
                    & self.b_all == 0,
                piece == Piece::King ==> bitboard & !spec_king_mask(from) == 0,
                piece == Piece::Knight ==> bitboard & !spec_knight_mask(from) == 0,
                piece == Piece::Rook ==> bitboard & !spec_rook_attack(
                    sq_of(from),
                    self.w_all | self.b_all,
                ) == 0,
                piece == Piece::Bishop ==> bitboard & !spec_bishop_attack(
                    sq_of(from),
                    self.w_all | self.b_all,
                ) == 0,
                piece == Piece::Queen ==> bitboard & !(spec_rook_attack(
                    sq_of(from),
                    self.w_all | self.b_all,
                ) | spec_bishop_attack(sq_of(from), self.w_all | self.b_all)) == 0,
                piece == Piece::Pawn ==> forall|d: u64|
                    single_bit(d) && d & bitboard != 0 ==> pawn_shape(
                        from,
                        d,
                        self.w_all | self.b_all,
                        self.w_turn,
                    ),
                self.legal_moves@.len() >= old(self).legal_moves@.len(),
                forall|i: int|
                    0 <= i < old(self).legal_moves@.len() ==> self.legal_moves@[i] == old(
                        self,
                    ).legal_moves@[i],
                old(self).legal_moves@ + emit_bits(bitboard, from, piece, 0)
                    == self.legal_moves@ + emit_bits(bb, from, piece, 0),
            decreases bb,
        {
            proof {
                lemma_low_bit(bb, bitboard);
            }
            let ghost bb0 = bb;
            let last_bit: u64 = bb & !(bb - 1);
            let li = bit_index(last_bit);
            bb = bb & (bb - 1);
            proof {
                if self.w_turn {
                    lemma_single_bit_in(last_bit, bitboard, self.w_all);
                } else {
                    lemma_single_bit_in(last_bit, bitboard, self.b_all);
                }
                if piece == Piece::King {
                    lemma_subset_nonzero(last_bit, bitboard, spec_king_mask(from));
                }
                if piece == Piece::Knight {
                    lemma_subset_nonzero(last_bit, bitboard, spec_knight_mask(from));
                }
                if piece == Piece::Rook {
                    lemma_subset_nonzero(
                        last_bit,
                        bitboard,
                        spec_rook_attack(sq_of(from), self.w_all | self.b_all),
                    );
                }
                if piece == Piece::Bishop {
                    lemma_subset_nonzero(
                        last_bit,
                        bitboard,
                        spec_bishop_attack(sq_of(from), self.w_all | self.b_all),
                    );
                }
                if piece == Piece::Queen {
                    lemma_subset_nonzero(
                        last_bit,
                        bitboard,
                        spec_rook_attack(sq_of(from), self.w_all | self.b_all)
                            | spec_bishop_attack(sq_of(from), self.w_all | self.b_all),
                    );
                }
                lemma_emit_low(bb0, from, piece, li as u64, 0);
            }
            let ghost pre = self.legal_moves@;
            if piece == Piece::Pawn && last_bit & (RANK_1 | RANK_8) != 0 {
                self.legal_moves.push(
                    Move { from, destination: last_bit, piece, promotion: Piece::Queen },
                );
                self.legal_moves.push(
                    Move { from, destination: last_bit, piece, promotion: Piece::Rook },
                );
                self.legal_moves.push(
                    Move { from, destination: last_bit, piece, promotion: Piece::Knight },
                );
                self.legal_moves.push(
                    Move { from, destination: last_bit, piece, promotion: Piece::Bishop },
                );
            } else {
                self.legal_moves.push(
                    Move { from, destination: last_bit, piece, promotion: Piece::Void },
                );
            }
            proof {
                assert(self.legal_moves@ =~= pre + promo_records(from, last_bit, piece));
                assert(old(self).legal_moves@ + emit_bits(bitboard, from, piece, 0)
                    =~= self.legal_moves@ + emit_bits(bb, from, piece, 0));
            }
        }
        proof {
            lemma_emit_none(from, piece, 0);
            assert(final(self).legal_moves@ =~= old(self).legal_moves@ + emit_bits(
                bitboard,
                from,
                piece,
                0,
            ));
        }
    }

    fn add_w_pawn_moves(&mut self, square: usize, blocker_board: u64, bitboard_square: u64)
        requires
            old(self).w_turn,
            square < 64,
            bitboard_square == 1u64 << square as u64,
            boards_get(old(self).w_board, Piece::Pawn) & bitboard_square != 0,
            blocker_board == old(self).w_all | old(self).b_all,
            old(self).w_all & old(self).b_all == 0,
            old(self).en_passent_target_square & (old(self).w_all | old(self).b_all) == 0,
            cache_ok(*old(self)),
        ensures
            same_but_cache(*old(self), *final(self)),
            cache_ok(*final(self)),
            final(self).legal_moves@ == old(self).legal_moves@ + emit_bits(
                spec_w_pawn_forward(bitboard_square) & !(old(self).w_all | old(self).b_all)
                | spec_w_pawn_double(bitboard_square) & !((old(self).w_all | old(self).b_all) | (
            old(self).w_all | old(self).b_all) << 8) | (spec_w_pawn_capture(bitboard_square) & (
            old(self).b_all | old(self).en_passent_target_square)),
                bitboard_square,
                Piece::Pawn,
                0,
            ),
    {
        proof {
            lemma_shift_single_bit(square as u64);
        }
        let legal_moves = w_pawn_forward_mask(bitboard_square) & !blocker_board
            | w_pawn_doubleforward_mask(bitboard_square) & !(blocker_board | blocker_board << 8) | (
        w_pawn_capture_mask(bitboard_square) & (self.b_all | self.en_passent_target_square));
        proof {
            lemma_w_pawn_targets(
                bitboard_square,
                self.w_all,
                self.b_all,
                self.en_passent_target_square,
                0,
            );
            assert forall|d: u64| single_bit(d) && d & legal_moves != 0 implies pawn_shape(
                bitboard_square,
                d,
                self.w_all | self.b_all,
                true,
            ) by {
                lemma_w_pawn_targets(
                    bitboard_square,
                    self.w_all,
                    self.b_all,
                    self.en_passent_target_square,
                    d,
                );
            }
        }
        self.add_moves(legal_moves, bitboard_square, Piece::Pawn);
    }

    fn add_w_king_moves(&mut self, square: usize, bitboard_square: u64)
        requires
            old(self).w_turn,
            square < 64,
            bitboard_square == 1u64 << square as u64,
            boards_get(old(self).w_board, Piece::King) & bitboard_square != 0,
            cache_ok(*old(self)),
        ensures
            same_but_cache(*old(self), *final(self)),
            cache_ok(*final(self)),
            final(self).legal_moves@ == old(self).legal_moves@ + emit_bits(
                spec_king_mask(bitboard_square) & !old(self).w_all,
                bitboard_square,
                Piece::King,
                0,
            ),
    {
        proof {
            lemma_shift_single_bit(square as u64);
            lemma_and_not_own(spec_king_mask(bitboard_square), 0, old(self).w_all);
        }
        let legal_moves = king_mask(bitboard_square) & !self.w_all;
        self.add_moves(legal_moves, bitboard_square, Piece::King);
    }

    fn add_w_knight_moves(&mut self, square: usize, bitboard_square: u64)
        requires
            old(self).w_turn,
            square < 64,
            bitboard_square == 1u64 << square as u64,
            boards_get(old(self).w_board, Piece::Knight) & bitboard_square != 0,
            cache_ok(*old(self)),
        ensures
            same_but_cache(*old(self), *final(self)),
            cache_ok(*final(self)),
            final(self).legal_moves@ == old(self).legal_moves@ + emit_bits(
                spec_knight_mask(bitboard_square) & !old(self).w_all,
                bitboard_square,
                Piece::Knight,
                0,
            ),
    {
        proof {
            lemma_shift_single_bit(square as u64);
            lemma_and_not_own(spec_knight_mask(bitboard_square), 0, old(self).w_all);
        }
        let legal_moves = knight_mask(bitboard_square) & !self.w_all;
        self.add_moves(legal_moves, bitboard_square, Piece::Knight);
    }

    fn add_w_bishop_moves(&mut self, square: usize, blocker_board: u64, bitboard_square: u64)
        requires
            old(self).w_turn,
            square < 64,
            bitboard_square == 1u64 << square as u64,
            blocker_board == old(self).w_all | old(self).b_all,
            boards_get(old(self).w_board, Piece::Bishop) & bitboard_square != 0,
            cache_ok(*old(self)),
        ensures
            same_but_cache(*old(self), *final(self)),
            cache_ok(*final(self)),
            final(self).legal_moves@ == old(self).legal_moves@ + emit_bits(
                crate::rays::spec_bishop_attack(square as int, blocker_board) & !old(self).w_all,
                bitboard_square,
                Piece::Bishop,
                0,
            ),
    {
        proof {
            lemma_shift_single_bit(square as u64);
            lemma_sq_of(square as u64);
            lemma_and_not_own(
                crate::rays::spec_bishop_attack(square as int, blocker_board),
                0,
                old(self).w_all,
            );
        }
        let legal_moves = bishop_attacks(square, blocker_board) & !self.w_all;
        self.add_moves(legal_moves, bitboard_square, Piece::Bishop);
    }

    fn add_w_rook_moves(&mut self, square: usize, blocker_board: u64, bitboard_square: u64)
        requires
            old(self).w_turn,
            square < 64,
            bitboard_square == 1u64 << square as u64,
            blocker_board == old(self).w_all | old(self).b_all,
            boards_get(old(self).w_board, Piece::Rook) & bitboard_square != 0,
            cache_ok(*old(self)),
        ensures
            same_but_cache(*old(self), *final(self)),
            cache_ok(*final(self)),
            final(self).legal_moves@ == old(self).legal_moves@ + emit_bits(
                crate::rays::spec_rook_attack(square as int, blocker_board) & !old(self).w_all,
                bitboard_square,
                Piece::Rook,
                0,
            ),
    {
        proof {
            lemma_shift_single_bit(square as u64);
            lemma_sq_of(square as u64);
            lemma_and_not_own(
                crate::rays::spec_rook_attack(square as int, blocker_board),
                0,
                old(self).w_all,
            );
        }
        let legal_moves = rook_attacks(square, blocker_board) & !self.w_all;
        self.add_moves(legal_moves, bitboard_square, Piece::Rook);
    }

    fn add_w_queen_moves(&mut self, square: usize, blocker_board: u64, bitboard_square: u64)
        requires
            old(self).w_turn,
            square < 64,
            bitboard_square == 1u64 << square as u64,
            blocker_board == old(self).w_all | old(self).b_all,
            boards_get(old(self).w_board, Piece::Queen) & bitboard_square != 0,
            cache_ok(*old(self)),
        ensures
            same_but_cache(*old(self), *final(self)),
            cache_ok(*final(self)),
            final(self).legal_moves@ == old(self).legal_moves@ + emit_bits(
                (crate::rays::spec_rook_attack(square as int, blocker_board) & !old(self).w_all)
                | (crate::rays::spec_bishop_attack(square as int, blocker_board) & !old(
            self,
            ).w_all),
                bitboard_square,
                Piece::Queen,
                0,
            ),
    {
        proof {
            lemma_shift_single_bit(square as u64);
            lemma_sq_of(square as u64);
            lemma_and_not_own(
                crate::rays::spec_rook_attack(square as int, blocker_board),
                crate::rays::spec_bishop_attack(square as int, blocker_board),
                old(self).w_all,
            );
        }
        let legal_rook_moves = rook_attacks(square, blocker_board) & !self.w_all;
        let legal_bishop_moves = bishop_attacks(square, blocker_board) & !self.w_all;
        let legal_moves = legal_rook_moves | legal_bishop_moves;
        self.add_moves(legal_moves, bitboard_square, Piece::Queen);
    }

    fn add_b_pawn_moves(&mut self, square: usize, blocker_board: u64, bitboard_square: u64)
        requires
            !old(self).w_turn,
            square < 64,
            bitboard_square == 1u64 << square as u64,
            boards_get(old(self).b_board, Piece::Pawn) & bitboard_square != 0,
            blocker_board == old(self).w_all | old(self).b_all,
            old(self).w_all & old(self).b_all == 0,
            old(self).en_passent_target_square & (old(self).w_all | old(self).b_all) == 0,
            cache_ok(*old(self)),
        ensures
            same_but_cache(*old(self), *final(self)),
            cache_ok(*final(self)),
            final(self).legal_moves@ == old(self).legal_moves@ + emit_bits(
                spec_b_pawn_forward(bitboard_square) & !(old(self).w_all | old(self).b_all)
                | spec_b_pawn_double(bitboard_square) & !((old(self).w_all | old(self).b_all) | (
            old(self).w_all | old(self).b_all) >> 8) | (spec_b_pawn_capture(bitboard_square) & (
            old(self).w_all | old(self).en_passent_target_square)),
                bitboard_square,
                Piece::Pawn,
                0,
            ),
    {
        proof {
            lemma_shift_single_bit(square as u64);
        }
        let legal_moves = b_pawn_forward_mask(bitboard_square) & !blocker_board
            | b_pawn_doubleforward_mask(bitboard_square) & !(blocker_board | blocker_board >> 8) | (
        b_pawn_capture_mask(bitboard_square) & (self.w_all | self.en_passent_target_square));
        proof {
            lemma_b_pawn_targets(
                bitboard_square,
                self.w_all,
                self.b_all,
                self.en_passent_target_square,
                0,
            );
            assert forall|d: u64| single_bit(d) && d & legal_moves != 0 implies pawn_shape(
                bitboard_square,
                d,
                self.w_all | self.b_all,
                false,
            ) by {
                lemma_b_pawn_targets(
                    bitboard_square,
                    self.w_all,
                    self.b_all,
                    self.en_passent_target_square,
                    d,
                );
            }
        }
        self.add_moves(legal_moves, bitboard_square, Piece::Pawn);
    }

    fn add_b_king_moves(&mut self, square: usize, bitboard_square: u64)
        requires
            !old(self).w_turn,
            square < 64,
            bitboard_square == 1u64 << square as u64,
            boards_get(old(self).b_board, Piece::King) & bitboard_square != 0,
            cache_ok(*old(self)),
        ensures
            same_but_cache(*old(self), *final(self)),
            cache_ok(*final(self)),
            final(self).legal_moves@ == old(self).legal_moves@ + emit_bits(
                spec_king_mask(bitboard_square) & !old(self).b_all,
                bitboard_square,
                Piece::King,
                0,
            ),
    {
        proof {
            lemma_shift_single_bit(square as u64);
            lemma_and_not_own(spec_king_mask(bitboard_square), 0, old(self).b_all);
        }
        let legal_moves = king_mask(bitboard_square) & !self.b_all;
        self.add_moves(legal_moves, bitboard_square, Piece::King);
    }

    fn add_b_knight_moves(&mut self, square: usize, bitboard_square: u64)
        requires
            !old(self).w_turn,
            square < 64,
            bitboard_square == 1u64 << square as u64,
            boards_get(old(self).b_board, Piece::Knight) & bitboard_square != 0,
            cache_ok(*old(self)),
        ensures
            same_but_cache(*old(self), *final(self)),
            cache_ok(*final(self)),
            final(self).legal_moves@ == old(self).legal_moves@ + emit_bits(
                spec_knight_mask(bitboard_square) & !old(self).b_all,
                bitboard_square,
                Piece::Knight,
                0,
            ),
    {
        proof {
            lemma_shift_single_bit(square as u64);
            lemma_and_not_own(spec_knight_mask(bitboard_square), 0, old(self).b_all);
        }
        let legal_moves = knight_mask(bitboard_square) & !self.b_all;
        self.add_moves(legal_moves, bitboard_square, Piece::Knight);
    }

    fn add_b_bishop_moves(&mut self, square: usize, blocker_board: u64, bitboard_square: u64)
        requires
            !old(self).w_turn,
            square < 64,
            bitboard_square == 1u64 << square as u64,
            blocker_board == old(self).w_all | old(self).b_all,
            boards_get(old(self).b_board, Piece::Bishop) & bitboard_square != 0,
            cache_ok(*old(self)),
        ensures
            same_but_cache(*old(self), *final(self)),
            cache_ok(*final(self)),
            final(self).legal_moves@ == old(self).legal_moves@ + emit_bits(
                crate::rays::spec_bishop_attack(square as int, blocker_board) & !old(self).b_all,
                bitboard_square,
                Piece::Bishop,
                0,
            ),
    {
        proof {
            lemma_shift_single_bit(square as u64);
            lemma_sq_of(square as u64);
            lemma_and_not_own(
                crate::rays::spec_bishop_attack(square as int, blocker_board),
                0,
                old(self).b_all,
            );
        }
        let legal_moves = bishop_attacks(square, blocker_board) & !self.b_all;
        self.add_moves(legal_moves, bitboard_square, Piece::Bishop);
    }

    fn add_b_rook_moves(&mut self, square: usize, blocker_board: u64, bitboard_square: u64)
        requires
            !old(self).w_turn,
            square < 64,
            bitboard_square == 1u64 << square as u64,
            blocker_board == old(self).w_all | old(self).b_all,
            boards_get(old(self).b_board, Piece::Rook) & bitboard_square != 0,
            cache_ok(*old(self)),
        ensures
            same_but_cache(*old(self), *final(self)),
            cache_ok(*final(self)),
            final(self).legal_moves@ == old(self).legal_moves@ + emit_bits(
                crate::rays::spec_rook_attack(square as int, blocker_board) & !old(self).b_all,
                bitboard_square,
                Piece::Rook,
                0,
            ),
    {
        proof {
            lemma_shift_single_bit(square as u64);
            lemma_sq_of(square as u64);
            lemma_and_not_own(
                crate::rays::spec_rook_attack(square as int, blocker_board),
                0,
                old(self).b_all,
            );
        }
        let legal_moves = rook_attacks(square, blocker_board) & !self.b_all;
        self.add_moves(legal_moves, bitboard_square, Piece::Rook);
    }

    fn add_b_queen_moves(&mut self, square: usize, blocker_board: u64, bitboard_square: u64)
        requires
            !old(self).w_turn,
            square < 64,
            bitboard_square == 1u64 << square as u64,
            blocker_board == old(self).w_all | old(self).b_all,
            boards_get(old(self).b_board, Piece::Queen) & bitboard_square != 0,
            cache_ok(*old(self)),
        ensures
            same_but_cache(*old(self), *final(self)),
            cache_ok(*final(self)),
            final(self).legal_moves@ == old(self).legal_moves@ + emit_bits(
                (crate::rays::spec_rook_attack(square as int, blocker_board) & !old(self).b_all)
                | (crate::rays::spec_bishop_attack(square as int, blocker_board) & !old(
            self,
            ).b_all),
                bitboard_square,
                Piece::Queen,
                0,
            ),
    {
        proof {
            lemma_shift_single_bit(square as u64);
            lemma_sq_of(square as u64);
            lemma_and_not_own(
                crate::rays::spec_rook_attack(square as int, blocker_board),
                crate::rays::spec_bishop_attack(square as int, blocker_board),
                old(self).b_all,
            );
        }
        let legal_rook_moves = rook_attacks(square, blocker_board) & !self.b_all;
        let legal_bishop_moves = bishop_attacks(square, blocker_board) & !self.b_all;
        let legal_moves = legal_rook_moves | legal_bishop_moves;
        self.add_moves(legal_moves, bitboard_square, Piece::Queen);
    }

    /// Rebuilds the legal-move cache for the side to move: pseudo-legal
    /// enumeration square by square, then the king-safety filter.
    pub fn calculate_legal_moves(&mut self)
        requires
            wf_boards(*old(self)),
            ep_ok(*old(self)),
        ensures
            same_but_cache(*old(self), *final(self)),
            cache_ok(*final(self)),
            cache_safe(*final(self)),
            final(self).legal_moves@ == spec_legal_moves(*final(self)),
    {
        proof {
            lemma_zero_bits();
        }
        self.legal_moves = Vec::new();
        let blocker_board = self.w_all | self.b_all;
        let mut king_pos: usize = 0;
        let mut square: usize = 0;
        proof {
            if single_bit(self.w_board.king) {
                lemma_king_scan(self.w_board.king, 0);
            }
            if single_bit(self.b_board.king) {
                lemma_king_scan(self.b_board.king, 0);
            }
        }
        while square < 64
            invariant
                square <= 64,
                king_pos < 64,
                same_but_cache(*old(self), *self),
                cache_ok(*self),
                wf_boards(*old(self)),
                ep_ok(*old(self)),
                blocker_board == self.w_all | self.b_all,
                forall|x: u64| #![trigger 0u64 & x] 0u64 & x == 0,
                self.w_turn && single_bit(self.w_board.king) && self.w_board.king >> (square
                    as u64) == 0 ==> self.w_board.king == 1u64 << (king_pos as u64),
                !self.w_turn && single_bit(self.b_board.king) && self.b_board.king >> (square
                    as u64) == 0 ==> self.b_board.king == 1u64 << (king_pos as u64),
                self.legal_moves@ == spec_pseudo_upto(*old(self), square as int),
                king_pos == spec_king_pos_upto(*old(self), square as int),
            decreases 64 - square,
        {
            let bitboard_square = 1u64 << (square as u64);
            proof {
                lemma_shift_single_bit(square as u64);
                if single_bit(self.w_board.king) {
                    lemma_king_scan(self.w_board.king, square as u64);
                    if self.w_board.king == bitboard_square {
                        lemma_single_bit_in(bitboard_square, self.w_board.king, self.w_board.pawn);
                        lemma_single_bit_in(
                            bitboard_square,
                            self.w_board.king,
                            self.w_board.knight,
                        );
                        lemma_single_bit_in(
                            bitboard_square,
                            self.w_board.king,
                            self.w_board.bishop,
                        );
                        lemma_single_bit_in(bitboard_square, self.w_board.king, self.w_board.rook);
                        lemma_single_bit_in(
                            bitboard_square,
                            self.w_board.king,
                            self.w_board.queen,
                        );
                    }
                }
                if single_bit(self.b_board.king) {
                    lemma_king_scan(self.b_board.king, square as u64);
                    if self.b_board.king == bitboard_square {
                        lemma_single_bit_in(bitboard_square, self.b_board.king, self.b_board.pawn);
                        lemma_single_bit_in(
                            bitboard_square,
                            self.b_board.king,
                            self.b_board.knight,
                        );
                        lemma_single_bit_in(
                            bitboard_square,
                            self.b_board.king,
                            self.b_board.bishop,
                        );
                        lemma_single_bit_in(bitboard_square, self.b_board.king, self.b_board.rook);
                        lemma_single_bit_in(
                            bitboard_square,
                            self.b_board.king,
                            self.b_board.queen,
                        );
                    }
                }
            }
            if self.w_turn {
                match self.get_w_piece(bitboard_square) {
                    Piece::Queen => self.add_w_queen_moves(square, blocker_board, bitboard_square),
                    Piece::Rook => self.add_w_rook_moves(square, blocker_board, bitboard_square),
                    Piece::Bishop => self.add_w_bishop_moves(
                        square,
                        blocker_board,
                        bitboard_square,
                    ),
                    Piece::Knight => self.add_w_knight_moves(square, bitboard_square),
                    Piece::Pawn => self.add_w_pawn_moves(square, blocker_board, bitboard_square),
                    Piece::King => {
                        self.add_w_king_moves(square, bitboard_square);
                        king_pos = square;
                    },
                    Piece::Void => (),
                }
            } else {
                match self.get_b_piece(bitboard_square) {
                    Piece::Queen => self.add_b_queen_moves(square, blocker_board, bitboard_square),
                    Piece::Rook => self.add_b_rook_moves(square, blocker_board, bitboard_square),
                    Piece::Bishop => self.add_b_bishop_moves(
                        square,
                        blocker_board,
                        bitboard_square,
                    ),
                    Piece::Knight => self.add_b_knight_moves(square, bitboard_square),
                    Piece::Pawn => self.add_b_pawn_moves(square, blocker_board, bitboard_square),
                    Piece::King => {
                        self.add_b_king_moves(square, bitboard_square);
                        king_pos = square;
                    },
                    Piece::Void => (),
                }
            }
            proof {
                assert(self.legal_moves@ =~= spec_pseudo_upto(*old(self), square as int
                    + 1));
            }
            square = square + 1;
        }
        proof {
            if single_bit(self.w_board.king) {
                lemma_king_scan(self.w_board.king, 63);
            }
            if single_bit(self.b_board.king) {
                lemma_king_scan(self.b_board.king, 63);
            }
            lemma_sq_of(king_pos as u64);
        }
        let n = self.legal_moves.len();
        let mut kept: Vec<Move> = Vec::new();
        let mut i: usize = 0;
        while i < n
            invariant
                i <= n,
                king_pos < 64,
                n == self.legal_moves@.len(),
                same_but_cache(*old(self), *self),
                cache_ok(*self),
                self.w_turn && single_bit(self.w_board.king) ==> sq_of(self.w_board.king)
                    == king_pos,
                !self.w_turn && single_bit(self.b_board.king) ==> sq_of(self.b_board.king)
                    == king_pos,
                forall|j: int| 0 <= j < kept@.len() ==> pos_move_ok(*self, #[trigger] kept@[j]),
                forall|j: int| 0 <= j < kept@.len() ==> pos_move_safe(*self, #[trigger] kept@[j]),
                self.legal_moves@ == spec_pseudo_upto(*old(self), 64),
                king_pos == spec_king_pos_upto(*old(self), 64),
                kept@ == spec_filter_upto(
                    *old(self),
                    self.legal_moves@,
                    king_pos as int,
                    i as int,
                ),
            decreases n - i,
        {
            let m = self.legal_moves[i];
            let keep = if self.w_turn {
                self.w_king_capture_filter(m, king_pos)
            } else {
                self.b_king_capture_filter(m, king_pos)
            };
            proof {
                assert(keep == spec_keep(*old(self), m, king_pos as int));
            }
            if keep {
                kept.push(m);
            }
            i = i + 1;
            proof {
                assert(kept@ =~= spec_filter_upto(
                    *old(self),
                    self.legal_moves@,
                    king_pos as int,
                    i as int,
                ));
            }
        }
        self.legal_moves = kept;
        proof {
            lemma_legal_moves_same(*old(self), *self);
        }
    }
}

} // verus!
