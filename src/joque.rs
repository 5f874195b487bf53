//! The deque itself: a ring of tagged slot entries, a packed cursor and an
//! arena, shared by any number of threads through `&self`.
use vstd::prelude::*;
use std::sync::atomic::{AtomicU64, Ordering};
use crate::arena::{Arena, Taken};
use crate::cursor::CursorMove;
use crate::ring::{
    End, SlotState, push_slot, pop_slot, observes_empty, observes_full, slot_state, push_entry,
    pop_entry,
};
use crate::step::{
    PopOutcome, STALL_LIMIT, next_op, push_move, cursor_step, pop_outcome, next_stall,
    cursor_halves, logical_extent,
};
use crate::word::{pack, lo_of, hi_of};

verus! {

/// The smallest ring width accepted.
pub const MIN_WIDTH: u32 = 10;

/// The largest ring width accepted: cursor positions, arena indices and the
/// arena's `4 × width` cells must all stay within 32 bits.
pub const MAX_WIDTH: u32 = 0x1000_0000;

/// Why a push handed its payload back.
pub enum PushError<T> {
    /// Every arena cell has been handed out; cells are not reclaimed.
    ArenaExhausted(Box<T>),
    /// The cursor showed `width - 2` payloads in the ring.
    Full(Box<T>),
    /// The 32-bit op-ID space is used up.
    TagsExhausted(Box<T>),
    /// The target slot stayed occupied while the cursor did not move: the
    /// cursor and the ring disagree, and a push never overwrites a payload.
    Occupied(Box<T>),
}

/// Why a pop reported a fault instead of a payload.
pub enum PopError {
    /// The claimed slot named no cell of the arena, or a cell published by a
    /// different op. The slot entry was put back and the cell left untouched.
    TagMismatch,
    /// The 32-bit op-ID space is used up, so no slot can be claimed.
    TagsExhausted,
}

impl<T> PushError<T> {
    /// The payload that was handed back.
    pub open spec fn payload(self) -> Box<T> {
        match self {
            PushError::ArenaExhausted(p) => p,
            PushError::Full(p) => p,
            PushError::TagsExhausted(p) => p,
            PushError::Occupied(p) => p,
        }
    }

    /// Gives the payload back to the caller.
    pub fn into_payload(self) -> (p: Box<T>)
        ensures
            p == self.payload(),
    {
        match self {
            PushError::ArenaExhausted(p) => p,
            PushError::Full(p) => p,
            PushError::TagsExhausted(p) => p,
            PushError::Occupied(p) => p,
        }
    }
}

/// A double-ended queue of owned payloads for any number of threads.
///
/// Slot claims and cursor moves are single atomic operations that never wait.
/// The one wait is on an arena cell: its exchange takes a short lock of its own,
/// held for that exchange only.
///
/// Positions in the cursor are stored offset by `origin`, a multiple of the
/// width larger than the number of pushes the arena allows, so that neither
/// half ever borrows from or carries into the other and `position % width`
/// names the same slot before and after the offset.
#[verifier::reject_recursive_types(T)]
pub struct Joque<T> {
    slots: Vec<AtomicU64>,
    leftright: AtomicU64,
    width: u32,
    origin: u32,
    arena: Arena<Box<T>>,
    op_id: AtomicU64,
}

impl<T> Joque<T> {
    #[verifier::type_invariant]
    spec fn well_formed(&self) -> bool {
        &&& MIN_WIDTH <= self.width <= MAX_WIDTH
        &&& self.slots@.len() == self.width
        &&& self.arena.len() == 4 * self.width
        &&& self.origin == 4 * self.width
    }

    /// The ring width chosen at construction.
    pub closed spec fn capacity(&self) -> nat {
        self.width as nat
    }

    /// The number of arena cells.
    pub closed spec fn arena_len(&self) -> nat {
        self.arena.len()
    }

    /// Every payload the deque holds or hands out satisfies this predicate,
    /// chosen at construction.
    pub closed spec fn admits(&self) -> spec_fn(Box<T>) -> bool {
        self.arena.admits()
    }

    /// An empty deque over a ring of `width` slots and an arena of
    /// `4 × width` cells, with `left = width / 2` and `right = left + 1`,
    /// that admits every payload.
    pub fn new(width: u32) -> (d: Self)
        requires
            MIN_WIDTH <= width <= MAX_WIDTH,
        ensures
            d.capacity() == width,
            d.arena_len() == 4 * width,
            forall|p: Box<T>| #[trigger] (d.admits())(p),
    {
        Self::with_invariant(width, Ghost(|p: Box<T>| true))
    }

    /// An empty deque like `new`, whose payloads all satisfy `admits`: pushes
    /// must hand in such payloads, and pops hand out only such payloads.
    pub fn with_invariant(width: u32, admits: Ghost<spec_fn(Box<T>) -> bool>) -> (d: Self)
        requires
            MIN_WIDTH <= width <= MAX_WIDTH,
        ensures
            d.capacity() == width,
            d.arena_len() == 4 * width,
            d.admits() == admits@,
    {
        let mut slots: Vec<AtomicU64> = Vec::new();
        let mut i: u32 = 0;
        while i < width
            invariant
                slots@.len() == i,
                i <= width,
            decreases width - i,
        {
            slots.push(AtomicU64::new(0));
            i = i + 1;
        }
        let origin = 4 * width;
        let left = origin + width / 2;
        Joque {
            slots,
            leftright: AtomicU64::new(pack(left, left + 1)),
            width,
            origin,
            arena: Arena::new(4 * width, admits),
            op_id: AtomicU64::new(0),
        }
    }

    /// The cursor word, read with acquire ordering, and its two stored halves.
    fn fetch_extent_acq(&self) -> (r: (u64, u32, u32))
        ensures
            r.1 == lo_of(r.0),
            r.2 == hi_of(r.0),
    {
        let muxed = self.leftright.load(Ordering::Acquire);
        let (left, right) = cursor_halves(muxed);
        (muxed, left, right)
    }

    /// The cursor word, read relaxed (a pop uses it only as a hint), and its two
    /// stored halves.
    fn fetch_extent_rel(&self) -> (r: (u64, u32, u32))
        ensures
            r.1 == lo_of(r.0),
            r.2 == hi_of(r.0),
    {
        let muxed = self.leftright.load(Ordering::Relaxed);
        let (left, right) = cursor_halves(muxed);
        (muxed, left, right)
    }

    /// The cursor as `(left, right)`, counted from the construction values
    /// `(width / 2, width / 2 + 1)`: `logical_extent` of the word read. Under
    /// concurrent updates it may be stale by the time it is returned.
    pub fn extent(&self) -> (r: (i64, i64))
        ensures
            exists|w: u64|
                r.0 == lo_of(w) - 4 * self.capacity() && r.1 == #[trigger] hi_of(w) - 4
                    * self.capacity(),
    {
        proof {
            use_type_invariant(self);
        }
        let muxed = self.leftright.load(Ordering::Acquire);
        let r = logical_extent(muxed, self.origin);
        assert(r.1 == hi_of(muxed) - 4 * self.capacity());
        r
    }

    /// Applies `m` to the cursor word with the one read-modify-write that
    /// `cursor_step` chooses, which shifts the word by `move_delta(m)`.
    fn advance(&self, m: CursorMove) {
        let (up, amount) = cursor_step(m);
        if up {
            self.leftright.fetch_add(amount, Ordering::AcqRel);
        } else {
            self.leftright.fetch_sub(amount, Ordering::AcqRel);
        }
    }

    /// Draws an op-ID: `next_op` of the counter value fetched.
    fn draw_op(&self, floor: u32) -> (r: Option<u32>)
        ensures
            r is Some ==> r->0 > floor,
    {
        let prior = self.op_id.fetch_add(1, Ordering::AcqRel);
        next_op(prior, floor)
    }

    /// The push protocol on either end: reserve a cell, claim the target slot
    /// with a fresh tagged entry, publish the payload, then move the cursor.
    /// A lost claim is retried with a fresh op-ID, so the retries are bounded by
    /// the op-ID space; a target found occupied under the same cursor word
    /// `STALL_LIMIT` times in a row ends the push with `Occupied`.
    fn push_at(&self, end: End, item: Box<T>) -> (r: Result<(), PushError<T>>)
        requires
            (self.admits())(item),
        ensures
            r is Err ==> r->Err_0.payload() == item,
    {
        proof {
            use_type_invariant(self);
        }
        let cell = match self.arena.reserve() {
            Some(c) => c,
            None => {
                return Err(PushError::ArenaExhausted(item));
            },
        };
        let mut floor: u32 = 0;
        let mut last: Option<(u64, u64)> = None;
        let mut streak: u32 = 0;
        loop
            invariant
                MIN_WIDTH <= self.width <= MAX_WIDTH,
                self.slots@.len() == self.width,
                self.arena.len() == 4 * self.width,
                1 <= cell < self.arena.len(),
                streak < STALL_LIMIT,
                (self.admits())(item),
            decreases u32::MAX - floor,
        {
            let (word, left, right) = self.fetch_extent_acq();
            if observes_full(left, right, self.width) {
                return Err(PushError::Full(item));
            }
            let t = push_slot(end, left, right, self.width);
            let seen = self.slots[t].load(Ordering::Acquire);
            let op = match self.draw_op(floor) {
                Some(op) => op,
                None => {
                    return Err(PushError::TagsExhausted(item));
                },
            };
            floor = op;
            match push_entry(seen, op, cell) {
                None => {
                    streak = next_stall(last, streak, word, seen);
                    if streak >= STALL_LIMIT {
                        return Err(PushError::Occupied(item));
                    }
                    last = Some((word, seen));
                },
                Some(entry) => {
                    last = None;
                    streak = 0;
                    if self.slots[t].compare_exchange(seen, entry, Ordering::AcqRel, Ordering::Acquire).is_ok() {
                        self.arena.publish(cell, op, item);
                        self.advance(push_move(end));
                        return Ok(());
                    }
                },
            }
        }
    }

    /// The pop protocol on either end: read the cursor, claim the outermost
    /// occupied slot with a cleared entry, take the record its producer
    /// published, then act as `pop_outcome` decides: deliver and move the
    /// cursor, or put the slot entry back and report empty (not yet published)
    /// or a fault (the slot and the arena disagree).
    fn pop_at(&self, end: End) -> (r: Result<Option<Box<T>>, PopError>)
        ensures
            r matches Ok(Some(p)) ==> (self.admits())(p),
    {
        proof {
            use_type_invariant(self);
        }
        let mut floor: u32 = 0;
        loop
            invariant
                MIN_WIDTH <= self.width <= MAX_WIDTH,
                self.slots@.len() == self.width,
                self.arena.len() == 4 * self.width,
            decreases u32::MAX - floor,
        {
            let (_word, left, right) = self.fetch_extent_rel();
            if observes_empty(left, right, self.width) {
                return Ok(None);
            }
            let t = pop_slot(end, left, right, self.width);
            let seen = self.slots[t].load(Ordering::Acquire);
            let (cell, producer) = match slot_state(seen) {
                SlotState::Occupied { op, cell } => (cell, op),
                _ => {
                    return Ok(None);
                },
            };
            let op = match self.draw_op(floor) {
                Some(op) => op,
                None => {
                    return Err(PopError::TagsExhausted);
                },
            };
            floor = op;
            if let Some(cleared) = pop_entry(seen, op) {
                if self.slots[t].compare_exchange(seen, cleared, Ordering::AcqRel, Ordering::Acquire).is_ok() {
                    let in_range = (cell as usize) < self.arena.cell_count();
                    let taken = if in_range {
                        self.arena.take_tagged(cell, producer)
                    } else {
                        Taken::Mismatch
                    };
                    match pop_outcome(end, in_range, taken) {
                        PopOutcome::Deliver(payload, m) => {
                            self.advance(m);
                            return Ok(Some(payload));
                        },
                        PopOutcome::Restore => {
                            let _ = self.slots[t].compare_exchange(
                                cleared,
                                seen,
                                Ordering::AcqRel,
                                Ordering::Acquire,
                            );
                            return Ok(None);
                        },
                        PopOutcome::Corrupt => {
                            let _ = self.slots[t].compare_exchange(
                                cleared,
                                seen,
                                Ordering::AcqRel,
                                Ordering::Acquire,
                            );
                            return Err(PopError::TagMismatch);
                        },
                    }
                }
            }
        }
    }

    /// Pushes `item` on the left end. On failure the payload comes back in the
    /// error.
    pub fn push_front(&self, item: Box<T>) -> (r: Result<(), PushError<T>>)
        requires
            (self.admits())(item),
        ensures
            r is Err ==> r->Err_0.payload() == item,
    {
        self.push_at(End::Front, item)
    }

    /// Pushes `item` on the right end. On failure the payload comes back in the
    /// error.
    pub fn push_back(&self, item: Box<T>) -> (r: Result<(), PushError<T>>)
        requires
            (self.admits())(item),
        ensures
            r is Err ==> r->Err_0.payload() == item,
    {
        self.push_at(End::Back, item)
    }

    /// Pops the leftmost payload: `Ok(None)` when the deque looks empty or the
    /// payload's producer has not published it yet, `Err` when the claimed slot
    /// and the arena disagree.
    pub fn try_pop_front(&self) -> (r: Result<Option<Box<T>>, PopError>)
        ensures
            r matches Ok(Some(p)) ==> (self.admits())(p),
    {
        self.pop_at(End::Front)
    }

    /// Pops the rightmost payload: `Ok(None)` when the deque looks empty or the
    /// payload's producer has not published it yet, `Err` when the claimed slot
    /// and the arena disagree.
    pub fn try_pop_back(&self) -> (r: Result<Option<Box<T>>, PopError>)
        ensures
            r matches Ok(Some(p)) ==> (self.admits())(p),
    {
        self.pop_at(End::Back)
    }

    /// Pops the leftmost payload, or `None` when none was delivered: see
    /// `try_pop_front`, whose fault this reports as `None`.
    pub fn pop_front(&self) -> (r: Option<Box<T>>)
        ensures
            r matches Some(p) ==> (self.admits())(p),
    {
        match self.pop_at(End::Front) {
            Ok(r) => r,
            Err(_) => None,
        }
    }

    /// Pops the rightmost payload, or `None` when none was delivered: see
    /// `try_pop_back`, whose fault this reports as `None`.
    pub fn pop_back(&self) -> (r: Option<Box<T>>)
        ensures
            r matches Some(p) ==> (self.admits())(p),
    {
        match self.pop_at(End::Back) {
            Ok(r) => r,
            Err(_) => None,
        }
    }

    /// The deque itself.
    pub fn borrow(&self) -> (r: &Self)
        ensures
            r == self,
    {
        self
    }
}

} // verus!
