use vstd::prelude::*;
use crate::bits::{single_bit, RANK_1, RANK_3, RANK_6, RANK_8};
use crate::bits::sq_of;
use crate::masks::{
    spec_b_pawn_capture,
    spec_king_mask,
    spec_knight_mask,
    spec_w_pawn_capture,
};
use crate::rays::{spec_bishop_attack, spec_rook_attack};

verus! {

// The board model: twelve per-piece bitboards, six per side, two aggregate
// bitboards, the side to move, the en-passant target square and the cached
// list of legal moves of the side to move.

#[derive(Clone, Copy, Debug, PartialEq, Eq, Structural)]
pub enum Piece {
    King,
    Queen,
    Bishop,
    Knight,
    Rook,
    Pawn,
    Void,
}

#[derive(Clone, Copy, Debug, PartialEq, Eq, Structural)]
pub enum GameResult {
    WhiteWin,
    BlackWin,
    Draw,
}

/// A move record: single-bit source and destination boards, the moving
/// piece, and the promotion piece or the `Void` sentinel.
#[derive(Clone, Copy, Debug, PartialEq, Eq, Structural)]
pub struct Move {
    pub from: u64,
    pub destination: u64,
    pub piece: Piece,
    pub promotion: Piece,
}

/// One side's six piece bitboards.
#[derive(Clone, Copy, Debug, PartialEq, Eq, Structural)]
pub struct Boards {
    pub king: u64,
    pub queen: u64,
    pub bishop: u64,
    pub knight: u64,
    pub rook: u64,
    pub pawn: u64,
}

pub open spec fn boards_get(s: Boards, p: Piece) -> u64 {
    match p {
        Piece::King => s.king,
        Piece::Queen => s.queen,
        Piece::Bishop => s.bishop,
        Piece::Knight => s.knight,
        Piece::Rook => s.rook,
        Piece::Pawn => s.pawn,
        Piece::Void => 0u64,
    }
}

pub open spec fn boards_with(s: Boards, p: Piece, v: u64) -> Boards {
    match p {
        Piece::King => Boards { king: v, ..s },
        Piece::Queen => Boards { queen: v, ..s },
        Piece::Bishop => Boards { bishop: v, ..s },
        Piece::Knight => Boards { knight: v, ..s },
        Piece::Rook => Boards { rook: v, ..s },
        Piece::Pawn => Boards { pawn: v, ..s },
        Piece::Void => s,
    }
}

/// The union of one side's six bitboards.
pub open spec fn side_or(s: Boards) -> u64 {
    s.king | s.queen | s.bishop | s.knight | s.rook | s.pawn
}

/// The union of one side's bitboards other than the pawns.
pub open spec fn nonpawn_or(s: Boards) -> u64 {
    s.king | s.queen | s.bishop | s.knight | s.rook
}

/// One side's six bitboards are pairwise disjoint.
pub open spec fn side_disjoint(s: Boards) -> bool {
    &&& s.king & s.queen == 0
    &&& s.king & s.bishop == 0
    &&& s.king & s.knight == 0
    &&& s.king & s.rook == 0
    &&& s.king & s.pawn == 0
    &&& s.queen & s.bishop == 0
    &&& s.queen & s.knight == 0
    &&& s.queen & s.rook == 0
    &&& s.queen & s.pawn == 0
    &&& s.bishop & s.knight == 0
    &&& s.bishop & s.rook == 0
    &&& s.bishop & s.pawn == 0
    &&& s.knight & s.rook == 0
    &&& s.knight & s.pawn == 0
    &&& s.rook & s.pawn == 0
}

impl Boards {
    pub fn get(&self, p: Piece) -> (r: u64)
        ensures
            r == boards_get(*self, p),
    {
        match p {
            Piece::King => self.king,
            Piece::Queen => self.queen,
            Piece::Bishop => self.bishop,
            Piece::Knight => self.knight,
            Piece::Rook => self.rook,
            Piece::Pawn => self.pawn,
            Piece::Void => 0u64,
        }
    }

    pub fn set(&mut self, p: Piece, v: u64)
        ensures
            *final(self) == boards_with(*old(self), p, v),
    {
        match p {
            Piece::King => self.king = v,
            Piece::Queen => self.queen = v,
            Piece::Bishop => self.bishop = v,
            Piece::Knight => self.knight = v,
            Piece::Rook => self.rook = v,
            Piece::Pawn => self.pawn = v,
            Piece::Void => (),
        }
    }

    /// Clears the given squares from all six bitboards.
    pub fn clear_all(&mut self, d: u64)
        ensures
            final(self).king == old(self).king & !d,
            final(self).queen == old(self).queen & !d,
            final(self).bishop == old(self).bishop & !d,
            final(self).knight == old(self).knight & !d,
            final(self).rook == old(self).rook & !d,
            final(self).pawn == old(self).pawn & !d,
    {
        self.king = self.king & !d;
        self.queen = self.queen & !d;
        self.bishop = self.bishop & !d;
        self.knight = self.knight & !d;
        self.rook = self.rook & !d;
        self.pawn = self.pawn & !d;
    }
}

/// The first piece, in the probe order pawn, knight, bishop, rook, queen,
/// king, whose bitboard covers `b`; `Void` when none does.
pub open spec fn spec_piece_at(s: Boards, b: u64) -> Piece {
    if s.pawn & b == b {
        Piece::Pawn
    } else if s.knight & b == b {
        Piece::Knight
    } else if s.bishop & b == b {
        Piece::Bishop
    } else if s.rook & b == b {
        Piece::Rook
    } else if s.queen & b == b {
        Piece::Queen
    } else if s.king & b == b {
        Piece::King
    } else {
        Piece::Void
    }
}

/// A position.  Use `startpos` or `from_fen` to create one.
#[derive(Clone, Debug)]
pub struct Position {
    pub w_board: Boards,
    pub b_board: Boards,
    pub w_all: u64,
    pub b_all: u64,
    /// True when it is white's turn.
    pub w_turn: bool,
    pub en_passent_target_square: u64,
    pub legal_moves: Vec<Move>,
}

/// The twelve bitboards are pairwise disjoint and each aggregate equals the
/// union of its side's six boards.
pub open spec fn wf_boards(p: Position) -> bool {
    &&& side_disjoint(p.w_board)
    &&& side_disjoint(p.b_board)
    &&& p.w_all == side_or(p.w_board)
    &&& p.b_all == side_or(p.b_board)
    &&& p.w_all & p.b_all == 0
}

/// The en-passant target is unset, or a single unoccupied bit on rank 6
/// (white to move) or rank 3 (black to move) whose skipped-over pawn square
/// holds no piece of the pushed side other than a pawn.
pub open spec fn ep_ok(p: Position) -> bool {
    ||| p.en_passent_target_square == 0
    ||| (single_bit(p.en_passent_target_square) && p.en_passent_target_square & (p.w_all | p.b_all)
        == 0 && (if p.w_turn {
        p.en_passent_target_square & RANK_6 != 0 && (p.en_passent_target_square >> 8) & nonpawn_or(
            p.b_board,
        ) == 0
    } else {
        p.en_passent_target_square & RANK_3 != 0 && (p.en_passent_target_square << 8) & nonpawn_or(
            p.w_board,
        ) == 0
    }))
}

/// Each side has exactly one king.
pub open spec fn kings_ok(p: Position) -> bool {
    single_bit(p.w_board.king) && single_bit(p.b_board.king)
}

/// The shape of a pawn move: a single push, a double push from the starting
/// rank whose skipped-over square is empty under the occupancy `occ`, or a
/// diagonal capture.
pub open spec fn pawn_shape(from: u64, dest: u64, occ: u64, white: bool) -> bool {
    if white {
        ||| dest == from << 8
        ||| (dest == from << 16 && from & crate::bits::RANK_2 != 0 && (from << 8) & occ == 0)
        ||| dest & spec_w_pawn_capture(from) != 0
    } else {
        ||| dest == from >> 8
        ||| (dest == from >> 16 && from & crate::bits::RANK_7 != 0 && (from >> 8) & occ == 0)
        ||| dest & spec_b_pawn_capture(from) != 0
    }
}

/// A structurally sound move of the side whose boards are `own`: single-bit
/// source and destination, the source holds the moving piece, the
/// destination is not occupied by the mover, promotions appear exactly on
/// pawn moves to the last rank, king moves stay within the king's reach,
/// and pawn moves have a pawn move's shape.
pub open spec fn move_ok(m: Move, own: Boards, own_all: u64, occ: u64, white: bool) -> bool {
    &&& single_bit(m.from)
    &&& single_bit(m.destination)
    &&& m.piece != Piece::Void
    &&& boards_get(own, m.piece) & m.from != 0
    &&& m.destination & own_all == 0
    &&& (match m.promotion {
        Piece::Void => !(m.piece == Piece::Pawn && m.destination & (RANK_1 | RANK_8) != 0),
        Piece::Queen | Piece::Rook | Piece::Knight | Piece::Bishop => m.piece == Piece::Pawn
            && m.destination & (RANK_1 | RANK_8) != 0,
        _ => false,
    })
    &&& (m.piece == Piece::King ==> m.destination & spec_king_mask(m.from) != 0)
    &&& (m.piece == Piece::Knight ==> m.destination & spec_knight_mask(m.from) != 0)
    &&& (m.piece == Piece::Rook ==> m.destination & spec_rook_attack(sq_of(m.from), occ) != 0)
    &&& (m.piece == Piece::Bishop ==> m.destination & spec_bishop_attack(sq_of(m.from), occ) != 0)
    &&& (m.piece == Piece::Queen ==> m.destination & (spec_rook_attack(sq_of(m.from), occ)
        | spec_bishop_attack(sq_of(m.from), occ)) != 0)
    &&& (m.piece == Piece::Pawn ==> pawn_shape(m.from, m.destination, occ, white))
}

/// The cached move is structurally sound for the side to move.
pub open spec fn pos_move_ok(p: Position, m: Move) -> bool {
    if p.w_turn {
        move_ok(m, p.w_board, p.w_all, p.w_all | p.b_all, true)
    } else {
        move_ok(m, p.b_board, p.b_all, p.w_all | p.b_all, false)
    }
}

/// Every cached legal move is structurally sound.
pub open spec fn cache_ok(p: Position) -> bool {
    forall|i: int|
        0 <= i < p.legal_moves@.len() ==> pos_move_ok(p, #[trigger] p.legal_moves@[i])
}

/// The position invariant held after parsing and after every move.
pub open spec fn wf(p: Position) -> bool {
    wf_boards(p) && ep_ok(p) && cache_ok(p)
}

} // verus!
