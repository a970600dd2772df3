use vstd::prelude::*;
use crate::board::{wf, Move, Position};
use crate::moveapply::{spec_make_b, spec_make_w};
use crate::position::{lemma_legal_moves_same, same_but_cache, spec_legal_moves};

verus! {

// The perft driver: the recursive leaf count of the move-generation tree,
// used as a differential oracle against published node counts.

/// The node count of the move tree: the number of legal moves at depth
/// one, and otherwise the sum over every legal move of the count one level
/// deeper.
pub open spec fn spec_perft(p: Position, depth: nat) -> nat
    decreases depth, 1int, 0int,
{
    if depth <= 1 {
        spec_legal_moves(p).len()
    } else {
        spec_perft_prefix(p, spec_legal_moves(p), spec_legal_moves(p).len() as int, depth)
    }
}

/// The sum of the subtree counts of the first `i` legal moves.
pub open spec fn spec_perft_prefix(p: Position, moves: Seq<Move>, i: int, depth: nat) -> nat
    decreases depth, 0int, i,
{
    if i <= 0 || depth < 2 {
        0
    } else {
        let child = if p.w_turn {
            spec_make_w(p, moves[i - 1])
        } else {
            spec_make_b(p, moves[i - 1])
        };
        spec_perft_prefix(p, moves, i - 1, depth) + spec_perft(child, (depth - 1) as nat)
    }
}

/// The count ignores the stale cache a spec-level move application leaves
/// in the child position.
proof fn lemma_perft_same(a: Position, b: Position, depth: nat)
    requires
        same_but_cache(a, b),
    ensures
        spec_perft(a, depth) == spec_perft(b, depth),
    decreases depth, 1int, 0int,
{
    lemma_legal_moves_same(a, b);
    if depth > 1 {
        lemma_perft_prefix_same(a, b, spec_legal_moves(a), spec_legal_moves(a).len() as int, depth);
    }
}

proof fn lemma_perft_prefix_same(a: Position, b: Position, moves: Seq<Move>, i: int, depth: nat)
    requires
        same_but_cache(a, b),
    ensures
        spec_perft_prefix(a, moves, i, depth) == spec_perft_prefix(b, moves, i, depth),
    decreases depth, 0int, i,
{
    if i > 0 && depth >= 2 {
        lemma_perft_prefix_same(a, b, moves, i - 1, depth);
        if a.w_turn {
            lemma_perft_same(spec_make_w(a, moves[i - 1]), spec_make_w(b, moves[i - 1]), (depth
                - 1) as nat);
        } else {
            lemma_perft_same(spec_make_b(a, moves[i - 1]), spec_make_b(b, moves[i - 1]), (depth
                - 1) as nat);
        }
    }
}

/// Counts the nodes of the move tree at the given depth.  The count is
/// exactly `spec_perft`, saturating at the largest machine count if the
/// true sum cannot be held.
pub fn perft(pos: &Position, depth: u8) -> (r: usize)
    requires
        wf(*pos),
        pos.legal_moves@ == spec_legal_moves(*pos),
        depth >= 1,
    ensures
        ({
            let n = spec_perft(*pos, depth as nat);
            if n <= usize::MAX {
                r == n
            } else {
                r == usize::MAX
            }
        }),
    decreases depth,
{
    if depth == 1 {
        return pos.legal_moves.len();
    }
    let mut count: usize = 0;
    let n = pos.legal_moves.len();
    let mut i: usize = 0;
    while i < n
        invariant
            i <= n,
            depth >= 2,
            wf(*pos),
            pos.legal_moves@ == spec_legal_moves(*pos),
            n == pos.legal_moves@.len(),
            ({
                let pre = spec_perft_prefix(*pos, pos.legal_moves@, i as int, depth as nat);
                if pre <= usize::MAX {
                    count == pre
                } else {
                    count == usize::MAX
                }
            }),
        decreases n - i,
    {
        let m = pos.legal_moves[i];
        let mut pos_clone = Position {
            w_board: pos.w_board,
            b_board: pos.b_board,
            w_all: pos.w_all,
            b_all: pos.b_all,
            w_turn: pos.w_turn,
            en_passent_target_square: pos.en_passent_target_square,
            legal_moves: Vec::new(),
        };
        if pos.w_turn {
            pos_clone.make_w_move(m);
            proof {
                lemma_perft_same(pos_clone, spec_make_w(*pos, m), (depth - 1) as nat);
            }
        } else {
            pos_clone.make_b_move(m);
            proof {
                lemma_perft_same(pos_clone, spec_make_b(*pos, m), (depth - 1) as nat);
            }
        }
        let sub = perft(&pos_clone, depth - 1);
        count = count.checked_add(sub).unwrap_or(usize::MAX);
        i = i + 1;
    }
    count
}

} // verus!
