//! The slot ring: which slot each operation targets, when the cursor shows the
//! deque empty or full, and the state machine that a slot entry follows.
use vstd::prelude::*;
use crate::word::{hi_of, lo_of, packed, pack, low_half, high_half};

verus! {

/// The end of the deque that an operation works on.
#[derive(Clone, Copy)]
pub enum End {
    Front,
    Back,
}

/// The ring slot of cursor position `pos`.
pub open spec fn slot_of(pos: int, width: int) -> int {
    pos % width
}

/// The position a push writes: just outside the occupied interval.
pub open spec fn push_pos(end: End, left: int, right: int) -> int {
    match end {
        End::Front => left,
        End::Back => right,
    }
}

/// The position a pop reads: the outermost occupied cell.
pub open spec fn pop_pos(end: End, left: int, right: int) -> int {
    match end {
        End::Front => left + 1,
        End::Back => right - 1,
    }
}

/// The cursor shows no occupied cell: the interval `(left, right)` holds zero
/// or one position, counted modulo the width.
pub open spec fn looks_empty(left: int, right: int, width: int) -> bool {
    right - left <= 1 || (right - left) % width <= 1
}

/// The cursor shows `width - 2` occupied cells: one more would make the
/// interval wrap onto itself.
pub open spec fn looks_full(left: int, right: int, width: int) -> bool {
    right - left >= width - 1
}

/// The slot that a push on `end` targets.
pub fn push_slot(end: End, left: u32, right: u32, width: u32) -> (t: usize)
    requires
        width > 0,
    ensures
        t == slot_of(push_pos(end, left as int, right as int), width as int),
        t < width,
{
    match end {
        End::Front => (left % width) as usize,
        End::Back => (right % width) as usize,
    }
}

/// The slot that a pop on `end` targets.
pub fn pop_slot(end: End, left: u32, right: u32, width: u32) -> (t: usize)
    requires
        width > 0,
    ensures
        t == slot_of(pop_pos(end, left as int, right as int), width as int),
        t < width,
{
    match end {
        End::Front => ((left as u64 + 1) % width as u64) as usize,
        End::Back => {
            proof {
                vstd::arithmetic::div_mod::lemma_mod_add_multiples_vanish(
                    right as int - 1,
                    width as int,
                );
            }
            ((right as u64 + width as u64 - 1) % width as u64) as usize
        },
    }
}

/// Whether a cursor read as `(left, right)` shows the deque empty.
pub fn observes_empty(left: u32, right: u32, width: u32) -> (r: bool)
    requires
        width > 0,
    ensures
        r == looks_empty(left as int, right as int, width as int),
{
    right <= left || right - left <= 1 || (right - left) % width <= 1
}

/// Whether a cursor read as `(left, right)` shows the ring full.
pub fn observes_full(left: u32, right: u32, width: u32) -> (r: bool)
    requires
        width > 0,
    ensures
        r == looks_full(left as int, right as int, width as int),
{
    right >= left && right - left >= width - 1
}

/// What a slot entry says about its slot.
pub enum SlotState {
    /// No operation has touched the slot (`op_id == 0`, no cell).
    Unwritten,
    /// Push `op` installed a reference to arena cell `cell`.
    Occupied { op: u32, cell: u32 },
    /// Pop `op` claimed the slot and left no cell.
    Cleared { op: u32 },
}

/// The state of a slot holding `entry` (`cell` in the low half, `op_id` in the
/// high half).
pub open spec fn state_of(entry: u64) -> SlotState {
    if lo_of(entry) != 0 {
        SlotState::Occupied { op: hi_of(entry), cell: lo_of(entry) }
    } else if hi_of(entry) == 0 {
        SlotState::Unwritten
    } else {
        SlotState::Cleared { op: hi_of(entry) }
    }
}

/// The slot transitions that the protocol allows: a push fills an unwritten or
/// cleared slot, a pop clears an occupied one.
pub open spec fn transition_permitted(from: SlotState, to: SlotState) -> bool {
    match (from, to) {
        (SlotState::Unwritten, SlotState::Occupied { .. }) => true,
        (SlotState::Cleared { .. }, SlotState::Occupied { .. }) => true,
        (SlotState::Occupied { .. }, SlotState::Cleared { .. }) => true,
        _ => false,
    }
}

/// The entry that push `op` installs over `seen` to publish cell `cell`, or
/// `None` when `seen` is occupied.
pub open spec fn entry_for_push(seen: u64, op: u32, cell: u32) -> Option<u64> {
    if state_of(seen) is Occupied {
        None
    } else {
        Some(packed(cell, op))
    }
}

/// The cleared entry that pop `op` installs over `seen`, or `None` when `seen`
/// holds no cell.
pub open spec fn entry_for_pop(seen: u64, op: u32) -> Option<u64> {
    if state_of(seen) is Occupied {
        Some(packed(0, op))
    } else {
        None
    }
}

/// Reads a slot entry.
pub fn slot_state(entry: u64) -> (s: SlotState)
    ensures
        s == state_of(entry),
{
    let cell = low_half(entry);
    let op = high_half(entry);
    if cell != 0 {
        SlotState::Occupied { op, cell }
    } else if op == 0 {
        SlotState::Unwritten
    } else {
        SlotState::Cleared { op }
    }
}

/// The entry that push `op` installs over the observed entry `seen` to publish
/// arena cell `cell`; `None` when `seen` is occupied, which a push never
/// overwrites.
pub fn push_entry(seen: u64, op: u32, cell: u32) -> (r: Option<u64>)
    requires
        op >= 1,
        cell >= 1,
    ensures
        r == entry_for_push(seen, op, cell),
        r is Some <==> !(state_of(seen) is Occupied),
        r is Some ==> r->0 == packed(cell, op),
        r is Some ==> state_of(r->0) == (SlotState::Occupied { op, cell }),
        r is Some ==> transition_permitted(state_of(seen), state_of(r->0)),
{
    if low_half(seen) != 0 {
        None
    } else {
        Some(pack(cell, op))
    }
}

/// The cleared entry that pop `op` installs over the observed entry `seen`;
/// `None` when `seen` holds no cell, so there is nothing to claim.
pub fn pop_entry(seen: u64, op: u32) -> (r: Option<u64>)
    requires
        op >= 1,
    ensures
        r == entry_for_pop(seen, op),
        r is Some <==> state_of(seen) is Occupied,
        r is Some ==> r->0 == packed(0, op),
        r is Some ==> state_of(r->0) == (SlotState::Cleared { op }),
        r is Some ==> transition_permitted(state_of(seen), state_of(r->0)),
{
    if low_half(seen) == 0 {
        None
    } else {
        Some(pack(0, op))
    }
}

} // verus!
