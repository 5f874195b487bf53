//! The decisions a push or a pop takes on the values it has just read from the
//! shared words: which op-ID it holds, which way the cursor moves, what a taken
//! record means, and when a push stops waiting on an occupied slot.
use vstd::prelude::*;
use crate::arena::Taken;
use crate::cursor::{CursorMove, move_delta};
use crate::ring::End;
use crate::word::{hi_of, lo_of, low_half, high_half, half, FRONT_STEP, BACK_STEP};

verus! {

/// The op-ID that a draw yields when the op-ID counter read `prior`: the next
/// value, as long as the counter has not gone below `floor` (the last op-ID this
/// call held) and the result fits in 32 bits.
pub open spec fn drawn_op(prior: u64, floor: u32) -> Option<u32> {
    if floor <= prior < u32::MAX {
        Some((prior + 1) as u32)
    } else {
        None
    }
}

/// Decides a draw on the counter value `prior`; `None` means op-IDs are used up.
pub fn next_op(prior: u64, floor: u32) -> (r: Option<u32>)
    ensures
        r == drawn_op(prior, floor),
        r is Some <==> floor <= prior < u32::MAX,
        r is Some ==> r->0 == prior + 1 && r->0 > floor,
{
    if prior < floor as u64 || prior >= u32::MAX as u64 {
        None
    } else {
        Some((prior + 1) as u32)
    }
}

/// The cursor move of a completed push on `end`.
pub open spec fn push_move_of(end: End) -> CursorMove {
    match end {
        End::Front => CursorMove::PushFront,
        End::Back => CursorMove::PushBack,
    }
}

/// The cursor move of a delivering pop on `end`.
pub open spec fn pop_move_of(end: End) -> CursorMove {
    match end {
        End::Front => CursorMove::PopFront,
        End::Back => CursorMove::PopBack,
    }
}

/// The cursor move of a completed push on `end`.
pub fn push_move(end: End) -> (m: CursorMove)
    ensures
        m == push_move_of(end),
{
    match end {
        End::Front => CursorMove::PushFront,
        End::Back => CursorMove::PushBack,
    }
}

/// The cursor move of a delivering pop on `end`.
pub fn pop_move(end: End) -> (m: CursorMove)
    ensures
        m == pop_move_of(end),
{
    match end {
        End::Front => CursorMove::PopFront,
        End::Back => CursorMove::PopBack,
    }
}

/// The read-modify-write that performs `m`: whether it adds (else subtracts) and
/// the amount, which together shift the word by exactly `move_delta(m)`.
pub fn cursor_step(m: CursorMove) -> (r: (bool, u64))
    ensures
        r.0 ==> r.1 as int == move_delta(m),
        !r.0 ==> -(r.1 as int) == move_delta(m),
        r.1 == FRONT_STEP || r.1 == BACK_STEP,
{
    assert(BACK_STEP as int == half());
    match m {
        CursorMove::PushFront => (false, FRONT_STEP),
        CursorMove::PopFront => (true, FRONT_STEP),
        CursorMove::PushBack => (true, BACK_STEP),
        CursorMove::PopBack => (false, BACK_STEP),
    }
}

/// What a pop does once its claim on a slot has landed.
pub enum PopOutcome<V> {
    /// Hand out the payload and move the cursor.
    Deliver(V, CursorMove),
    /// The producer has not published yet: put the slot entry back, report empty.
    Restore,
    /// The slot names no cell, or a cell published by another op: put the slot
    /// entry back and report the inconsistency.
    Corrupt,
}

/// The outcome of a landed claim on `end`, given whether the slot's cell lies in
/// the arena and what taking that cell found.
pub open spec fn pop_result<V>(end: End, cell_in_range: bool, taken: Taken<V>) -> PopOutcome<V> {
    if !cell_in_range {
        PopOutcome::Corrupt
    } else {
        match taken {
            Taken::Delivered(v) => PopOutcome::Deliver(v, pop_move_of(end)),
            Taken::Unpublished => PopOutcome::Restore,
            Taken::Mismatch => PopOutcome::Corrupt,
        }
    }
}

/// Decides what a pop on `end` does after its claim landed.
pub fn pop_outcome<V>(end: End, cell_in_range: bool, taken: Taken<V>) -> (r: PopOutcome<V>)
    ensures
        r == pop_result(end, cell_in_range, taken),
{
    if !cell_in_range {
        PopOutcome::Corrupt
    } else {
        match taken {
            Taken::Delivered(v) => PopOutcome::Deliver(v, pop_move(end)),
            Taken::Unpublished => PopOutcome::Restore,
            Taken::Mismatch => PopOutcome::Corrupt,
        }
    }
}

/// After this many consecutive reads of the same cursor word and the same
/// occupied target entry, a push gives up: the cursor and the ring disagree.
pub const STALL_LIMIT: u32 = 0x10_0000;

/// How many consecutive times a push has found its target occupied with the
/// cursor word and the target entry unchanged, given the previous such reads.
pub open spec fn stall_count(last: Option<(u64, u64)>, streak: u32, cursor: u64, seen: u64) -> u32 {
    if last == Some((cursor, seen)) {
        (streak + 1) as u32
    } else {
        1
    }
}

/// Counts a push's consecutive finds of an occupied target under an unchanged
/// cursor word and entry.
pub fn next_stall(last: Option<(u64, u64)>, streak: u32, cursor: u64, seen: u64) -> (r: u32)
    requires
        streak < STALL_LIMIT,
    ensures
        r == stall_count(last, streak, cursor, seen),
        1 <= r <= STALL_LIMIT,
{
    let same = match last {
        Some((c, e)) => c == cursor && e == seen,
        None => false,
    };
    if same {
        streak + 1
    } else {
        1
    }
}

/// The two positions stored in a cursor word.
pub fn cursor_halves(word: u64) -> (r: (u32, u32))
    ensures
        r == (lo_of(word), hi_of(word)),
{
    (low_half(word), high_half(word))
}

/// The positions in a cursor word, counted from the construction values: the
/// stored halves less the offset `origin`.
pub fn logical_extent(word: u64, origin: u32) -> (r: (i64, i64))
    ensures
        r.0 == lo_of(word) - origin,
        r.1 == hi_of(word) - origin,
{
    let (left, right) = cursor_halves(word);
    (left as i64 - origin as i64, right as i64 - origin as i64)
}

} // verus!
