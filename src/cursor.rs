//! The cursor word: `left` in the low half, `right` in the high half, each end
//! moved by a single `fetch_add` / `fetch_sub` on the whole word.
use vstd::prelude::*;
use crate::word::{half, hi_of, lo_of, packed, word_range, lemma_halves_of_packed};

verus! {

/// One update that an operation makes to the cursor word once it has
/// succeeded on its slot.
pub enum CursorMove {
    /// A completed `push_front`: `fetch_sub(FRONT_STEP)`.
    PushFront,
    /// A delivering `pop_front`: `fetch_add(FRONT_STEP)`.
    PopFront,
    /// A completed `push_back`: `fetch_add(BACK_STEP)`.
    PushBack,
    /// A delivering `pop_back`: `fetch_sub(BACK_STEP)`.
    PopBack,
}

/// How far a move shifts the whole word, as a mathematical integer.
pub open spec fn move_delta(m: CursorMove) -> int {
    match m {
        CursorMove::PushFront => -1,
        CursorMove::PopFront => 1,
        CursorMove::PushBack => half(),
        CursorMove::PopBack => -half(),
    }
}

/// How a move shifts `left`.
pub open spec fn left_shift(m: CursorMove) -> int {
    match m {
        CursorMove::PushFront => -1,
        CursorMove::PopFront => 1,
        _ => 0,
    }
}

/// How a move shifts `right`.
pub open spec fn right_shift(m: CursorMove) -> int {
    match m {
        CursorMove::PushBack => 1,
        CursorMove::PopBack => -1,
        _ => 0,
    }
}

/// A move shifts the word by its shift of `left` in the low half plus its
/// shift of `right` in the high half.
pub proof fn lemma_move_delta_halves(m: CursorMove)
    ensures
        move_delta(m) == left_shift(m) + right_shift(m) * half(),
{
}

/// The word after one move: atomic `fetch_add` / `fetch_sub` wrap modulo `2^64`.
pub open spec fn apply_move(w: u64, m: CursorMove) -> u64 {
    ((w as int + move_delta(m)) % word_range()) as u64
}

/// The word after a sequence of moves, in the order they landed.
pub open spec fn apply_moves(w: u64, ms: Seq<CursorMove>) -> u64
    decreases ms.len(),
{
    if ms.len() == 0 {
        w
    } else {
        apply_move(apply_moves(w, ms.drop_last()), ms.last())
    }
}

/// How many of the moves are `m`.
pub open spec fn count_moves(ms: Seq<CursorMove>, m: CursorMove) -> nat
    decreases ms.len(),
{
    if ms.len() == 0 {
        0
    } else {
        count_moves(ms.drop_last(), m) + if ms.last() == m {
            1nat
        } else {
            0nat
        }
    }
}

/// The net change that the moves make to `left`.
pub open spec fn net_left(ms: Seq<CursorMove>) -> int {
    count_moves(ms, CursorMove::PopFront) - count_moves(ms, CursorMove::PushFront)
}

/// The net change that the moves make to `right`.
pub open spec fn net_right(ms: Seq<CursorMove>) -> int {
    count_moves(ms, CursorMove::PushBack) - count_moves(ms, CursorMove::PopBack)
}

proof fn lemma_apply_moves_sum(w: u64, ms: Seq<CursorMove>)
    ensures
        apply_moves(w, ms) as int == (w as int + net_left(ms) + net_right(ms) * half())
            % word_range(),
    decreases ms.len(),
{
    if ms.len() == 0 {
        vstd::arithmetic::div_mod::lemma_small_mod(w as nat, word_range() as nat);
    } else {
        let rest = ms.drop_last();
        lemma_apply_moves_sum(w, rest);
        let d = w as int + net_left(rest) + net_right(rest) * half();
        let m = ms.last();
        assert(net_left(ms) + net_right(ms) * half() == net_left(rest) + net_right(rest) * half()
            + move_delta(m)) by (nonlinear_arith)
            requires
                net_left(ms) == net_left(rest) + if m == CursorMove::PopFront {
                    1int
                } else if m == CursorMove::PushFront {
                    -1int
                } else {
                    0int
                },
                net_right(ms) == net_right(rest) + if m == CursorMove::PushBack {
                    1int
                } else if m == CursorMove::PopBack {
                    -1int
                } else {
                    0int
                },
                move_delta(m) == match m {
                    CursorMove::PushFront => -1,
                    CursorMove::PopFront => 1,
                    CursorMove::PushBack => half(),
                    CursorMove::PopBack => -half(),
                },
        ;
        assert((d % word_range() + move_delta(m)) % word_range() == (d + move_delta(m))
            % word_range()) by {
            vstd::arithmetic::div_mod::lemma_add_mod_noop(d, move_delta(m), word_range());
            vstd::arithmetic::div_mod::lemma_add_mod_noop(d % word_range(), move_delta(m), word_range());
            vstd::arithmetic::div_mod::lemma_mod_twice(d, word_range());
        }
    }
}

/// The two halves of the cursor are independent counters: whatever order a set
/// of moves lands in, `left` ends at its start plus the net of front moves and
/// `right` at its start plus the net of back moves, as long as neither half
/// leaves the 32-bit range.
pub proof fn lemma_moves_shift_halves(w: u64, ms: Seq<CursorMove>)
    requires
        0 <= lo_of(w) + net_left(ms) <= u32::MAX,
        0 <= hi_of(w) + net_right(ms) <= u32::MAX,
    ensures
        lo_of(apply_moves(w, ms)) == lo_of(w) + net_left(ms),
        hi_of(apply_moves(w, ms)) == hi_of(w) + net_right(ms),
{
    lemma_apply_moves_sum(w, ms);
    crate::word::lemma_packed_of_halves(w);
    let lo = (lo_of(w) + net_left(ms)) as u32;
    let hi = (hi_of(w) + net_right(ms)) as u32;
    crate::word::lemma_packed_bounds(lo, hi);
    lemma_halves_of_packed(lo, hi);
    let total = w as int + net_left(ms) + net_right(ms) * half();
    assert(total == hi as int * half() + lo as int) by (nonlinear_arith)
        requires
            w as int == hi_of(w) as int * half() + lo_of(w) as int,
            total == w as int + net_left(ms) + net_right(ms) * half(),
            lo == lo_of(w) + net_left(ms),
            hi == hi_of(w) + net_right(ms),
    ;
    vstd::arithmetic::div_mod::lemma_small_mod(total as nat, word_range() as nat);
    assert(apply_moves(w, ms) == packed(lo, hi));
}

/// Front pushes only lower `left` and only a delivering front pop raises it:
/// after `pushes` completed front pushes and at most `pops` delivering front
/// pops, in any order and mixed with any back moves, `left` is at most its start
/// minus `pushes - pops`.
pub proof fn lemma_left_bound(w: u64, ms: Seq<CursorMove>, pushes: nat, pops: nat)
    requires
        count_moves(ms, CursorMove::PushFront) == pushes,
        count_moves(ms, CursorMove::PopFront) <= pops,
        0 <= lo_of(w) + net_left(ms) <= u32::MAX,
        0 <= hi_of(w) + net_right(ms) <= u32::MAX,
    ensures
        lo_of(apply_moves(w, ms)) <= lo_of(w) - (pushes - pops),
{
    lemma_moves_shift_halves(w, ms);
}

/// Back pushes only raise `right` and only a delivering back pop lowers it:
/// after `pushes` completed back pushes and at most `pops` delivering back
/// pops, in any order and mixed with any front moves, `right` is at least its
/// start plus `pushes - pops`.
pub proof fn lemma_right_bound(w: u64, ms: Seq<CursorMove>, pushes: nat, pops: nat)
    requires
        count_moves(ms, CursorMove::PushBack) == pushes,
        count_moves(ms, CursorMove::PopBack) <= pops,
        0 <= lo_of(w) + net_left(ms) <= u32::MAX,
        0 <= hi_of(w) + net_right(ms) <= u32::MAX,
    ensures
        hi_of(apply_moves(w, ms)) >= hi_of(w) + (pushes - pops),
{
    lemma_moves_shift_halves(w, ms);
}

} // verus!
