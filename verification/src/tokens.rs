use vstd::prelude::*;
use crate::bits::{bit_index, lemma_sq_of, sq_of};
use crate::board::{cache_ok, kings_ok, spec_piece_at, wf, Move, Piece, Position};
use crate::moveapply::{b_castle_ok, spec_make_b, spec_make_w, w_castle_ok};
use crate::position::cache_safe;
use crate::position::spec_legal_moves;
use crate::position::same_but_cache;

verus! {

// Long-algebraic move tokens: a source square name, a destination square
// name, and for promotions one of `q r b n`.  A square name is its file
// letter followed by its rank digit.

/// The file letter of a square: `h` for index 0 up to `a` for index 7
/// within each rank.
pub open spec fn file_char(sq: int) -> char {
    ((104 - sq % 8) as u8) as char
}

/// The rank digit of a square.
pub open spec fn rank_char(sq: int) -> char {
    ((49 + sq / 8) as u8) as char
}

pub open spec fn spec_square_name(sq: int) -> Seq<char> {
    seq![file_char(sq), rank_char(sq)]
}

/// The promotion suffix of a move token.
pub open spec fn promo_chars(p: Piece) -> Seq<char> {
    match p {
        Piece::Queen => seq!['q'],
        Piece::Rook => seq!['r'],
        Piece::Knight => seq!['n'],
        Piece::Bishop => seq!['b'],
        _ => Seq::empty(),
    }
}

/// The token that names a move.
pub open spec fn token_of(m: Move) -> Seq<char> {
    spec_square_name(sq_of(m.from)) + spec_square_name(sq_of(m.destination)) + promo_chars(
        m.promotion,
    )
}

/// The square index a file letter and rank digit name.
pub open spec fn tok_sq(cf: char, cr: char) -> int {
    (cr as u32 - 49) * 8 + 7 - (cf as u32 - 97)
}

pub open spec fn valid_sq_chars(cf: char, cr: char) -> bool {
    97 <= cf as u32 <= 104 && 49 <= cr as u32 <= 56
}

/// A syntactically well-formed move token.
pub open spec fn valid_token(s: Seq<char>) -> bool {
    &&& (s.len() == 4 || s.len() == 5)
    &&& valid_sq_chars(s[0], s[1])
    &&& valid_sq_chars(s[2], s[3])
}

pub open spec fn tok_from(s: Seq<char>) -> u64 {
    1u64 << tok_sq(s[0], s[1]) as u64
}

pub open spec fn tok_dest(s: Seq<char>) -> u64 {
    1u64 << tok_sq(s[2], s[3]) as u64
}

pub open spec fn tok_promo(s: Seq<char>) -> Piece {
    if s.len() > 4 {
        if s[4] == 'q' {
            Piece::Queen
        } else if s[4] == 'r' {
            Piece::Rook
        } else if s[4] == 'b' {
            Piece::Bishop
        } else if s[4] == 'n' {
            Piece::Knight
        } else {
            Piece::Void
        }
    } else {
        Piece::Void
    }
}

/// The move record a token denotes in a position: squares and promotion
/// from the token, the moving piece read off the mover's boards.
pub open spec fn token_move(p: Position, s: Seq<char>) -> Move {
    Move {
        from: tok_from(s),
        destination: tok_dest(s),
        piece: if p.w_turn {
            spec_piece_at(p.w_board, tok_from(s))
        } else {
            spec_piece_at(p.b_board, tok_from(s))
        },
        promotion: tok_promo(s),
    }
}

/// Relies on String::push: appends exactly the one character.
#[verifier::external_body]
fn push_char(s: &mut String, c: char)
    ensures
        final(s)@ == old(s)@.push(c),
{
    s.push(c);
}

/// Appends the square's name to the string.
fn push_square_name(s: &mut String, square: usize)
    requires
        square < 64,
    ensures
        final(s)@ == old(s)@ + spec_square_name(square as int),
{
    let fc = (104 - (square as u8 % 8)) as char;
    let rc = (49 + (square as u8 / 8)) as char;
    push_char(s, fc);
    push_char(s, rc);
    proof {
        assert(s@ =~= old(s)@ + spec_square_name(square as int));
    }
}

/// The suffix tokens of the cached moves that start on the named square.
pub open spec fn suffix_tokens(cache: Seq<Move>, sq: Seq<char>, i: int) -> Seq<Seq<char>>
    decreases i,
{
    if i <= 0 {
        Seq::empty()
    } else {
        let pre = suffix_tokens(cache, sq, i - 1);
        let t = token_of(cache[i - 1]);
        if sq.len() == 2 && t[0] == sq[0] && t[1] == sq[1] {
            pre.push(t.subrange(2, t.len() as int))
        } else {
            pre
        }
    }
}

impl Position {
    /// Lists the legal moves of the side to move as long-algebraic tokens,
    /// in cache order.
    pub fn get_legal_moves(&mut self) -> (moves: Vec<String>)
        requires
            cache_ok(*old(self)),
        ensures
            *final(self) == *old(self),
            moves@.len() == old(self).legal_moves@.len(),
            forall|i: int|
                0 <= i < moves@.len() ==> (#[trigger] moves@[i])@ == token_of(
                    old(self).legal_moves@[i],
                ),
    {
        let mut moves: Vec<String> = Vec::new();
        let n = self.legal_moves.len();
        let mut i: usize = 0;
        while i < n
            invariant
                i <= n,
                *self == *old(self),
                n == self.legal_moves@.len(),
                cache_ok(*self),
                moves@.len() == i,
                forall|j: int|
                    0 <= j < i ==> (#[trigger] moves@[j])@ == token_of(self.legal_moves@[j]),
            decreases n - i,
        {
            let m = self.legal_moves[i];
            let fi = bit_index(m.from);
            let di = bit_index(m.destination);
            proof {
                lemma_sq_of(fi as u64);
                lemma_sq_of(di as u64);
            }
            let mut t = String::new();
            push_square_name(&mut t, fi);
            push_square_name(&mut t, di);
            match m.promotion {
                Piece::Queen => push_char(&mut t, 'q'),
                Piece::Rook => push_char(&mut t, 'r'),
                Piece::Knight => push_char(&mut t, 'n'),
                Piece::Bishop => push_char(&mut t, 'b'),
                _ => (),
            }
            proof {
                assert(t@ =~= token_of(self.legal_moves@[i as int]));
            }
            moves.push(t);
            i = i + 1;
        }
        moves
    }

    /// Lists, for the cached moves that start on the named square, the rest
    /// of each token: the destination square name and any promotion letter.
    pub fn get_square_legal_moves(&mut self, square: &str) -> (moves: Vec<String>)
        requires
            cache_ok(*old(self)),
        ensures
            *final(self) == *old(self),
            moves@.map_values(|t: String| t@) == suffix_tokens(
                old(self).legal_moves@,
                square@,
                old(self).legal_moves@.len() as int,
            ),
    {
        let two = square.unicode_len() == 2;
        let mut moves: Vec<String> = Vec::new();
        let n = self.legal_moves.len();
        let mut i: usize = 0;
        while i < n
            invariant
                i <= n,
                *self == *old(self),
                n == self.legal_moves@.len(),
                cache_ok(*self),
                two == (square@.len() == 2),
                moves@.map_values(|t: String| t@) =~= suffix_tokens(
                    self.legal_moves@,
                    square@,
                    i as int,
                ),
            decreases n - i,
        {
            let m = self.legal_moves[i];
            let fi = bit_index(m.from);
            let di = bit_index(m.destination);
            proof {
                lemma_sq_of(fi as u64);
                lemma_sq_of(di as u64);
            }
            let fc = (104 - (fi as u8 % 8)) as char;
            let rc = (49 + (fi as u8 / 8)) as char;
            if two && fc == square.get_char(0) && rc == square.get_char(1) {
                let mut t = String::new();
                push_square_name(&mut t, di);
                match m.promotion {
                    Piece::Queen => push_char(&mut t, 'q'),
                    Piece::Rook => push_char(&mut t, 'r'),
                    Piece::Knight => push_char(&mut t, 'n'),
                    Piece::Bishop => push_char(&mut t, 'b'),
                    _ => (),
                }
                proof {
                    let tk = token_of(self.legal_moves@[i as int]);
                    assert(t@ =~= tk.subrange(2, tk.len() as int));
                }
                moves.push(t);
            }
            i = i + 1;
        }
        moves
    }

    /// Plays a move given as a long-algebraic token.  The token must name a
    /// cached legal move, or a castling move whose rook path is sound; the
    /// move is executed exactly as `make_w_move` or `make_b_move` would.
    pub fn make_move(&mut self, m: &str)
        requires
            valid_token(m@),
            wf(*old(self)),
            (exists|i: int|
                0 <= i < old(self).legal_moves@.len() && old(self).legal_moves@[i] == token_move(
                    *old(self),
                    m@,
                )) || (if old(self).w_turn {
                w_castle_ok(*old(self), token_move(*old(self), m@))
            } else {
                b_castle_ok(*old(self), token_move(*old(self), m@))
            }),
        ensures
            wf(*final(self)),
            cache_safe(*final(self)),
            final(self).legal_moves@ == spec_legal_moves(*final(self)),
            final(self).w_turn == !old(self).w_turn,
            old(self).w_turn ==> same_but_cache(
                spec_make_w(*old(self), token_move(*old(self), m@)),
                *final(self),
            ),
            !old(self).w_turn ==> same_but_cache(
                spec_make_b(*old(self), token_move(*old(self), m@)),
                *final(self),
            ),
            kings_ok(*old(self)) && token_move(*old(self), m@).destination & (if old(
                self,
            ).w_turn {
                old(self).b_board.king
            } else {
                old(self).w_board.king
            }) == 0 ==> kings_ok(*final(self)),
    {
        let c0 = m.get_char(0);
        let c1 = m.get_char(1);
        let c2 = m.get_char(2);
        let c3 = m.get_char(3);
        let from_sq: u32 = (c1 as u32 - 49) * 8 + 7 - (c0 as u32 - 97);
        let dest_sq: u32 = (c3 as u32 - 49) * 8 + 7 - (c2 as u32 - 97);
        let from: u64 = 1u64 << (from_sq as u64);
        let destination: u64 = 1u64 << (dest_sq as u64);
        let promotion = if m.unicode_len() == 5 {
            let c4 = m.get_char(4);
            if c4 == 'q' {
                Piece::Queen
            } else if c4 == 'r' {
                Piece::Rook
            } else if c4 == 'b' {
                Piece::Bishop
            } else if c4 == 'n' {
                Piece::Knight
            } else {
                Piece::Void
            }
        } else {
            Piece::Void
        };
        let piece = if self.w_turn {
            self.get_w_piece(from)
        } else {
            self.get_b_piece(from)
        };
        let mv = Move { from, destination, piece, promotion };
        proof {
            assert(mv == token_move(*old(self), m@));
        }
        if self.w_turn {
            self.make_w_move(mv);
        } else {
            self.make_b_move(mv);
        }
    }
}

} // verus!
