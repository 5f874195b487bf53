//! The backing arena: cells that hold each payload between its publication by
//! a push and its delivery by a pop.
//!
//! A cell is exchanged as a whole under a short lock of its own (safe code has
//! no atomic owning pointer), held only for the exchange, so a reader sees
//! either the vacant record or a complete published one and never a torn state.
use vstd::prelude::*;
use vstd::rwlock::{RwLock, RwLockPredicate};
use std::sync::atomic::{AtomicU64, Ordering};

verus! {

/// What an arena cell holds.
pub enum ArenaRecord<V> {
    /// No payload: never published, or already delivered.
    Vacant,
    /// The payload that push `op` published.
    Published { op: u32, payload: V },
}

/// What a pop finds when it takes the record of the cell its slot names.
pub enum Taken<V> {
    /// The record was published by the expected op: its payload.
    Delivered(V),
    /// The cell is still vacant: the producer has not published yet.
    Unpublished,
    /// The record was published by another op: the slot and the arena disagree.
    Mismatch,
}

/// The record hands its payload to a pop that claimed the slot of op `expected`.
pub open spec fn delivers<V>(rec: ArenaRecord<V>, expected: u32) -> bool {
    match rec {
        ArenaRecord::Published { op, .. } => op == expected,
        ArenaRecord::Vacant => false,
    }
}

/// The payload of a published record.
pub open spec fn payload_of<V>(rec: ArenaRecord<V>) -> V
    recommends
        rec is Published,
{
    match rec {
        ArenaRecord::Published { payload, .. } => payload,
        ArenaRecord::Vacant => arbitrary(),
    }
}

/// What goes back into the cell, and what the pop of op `expected` finds: the
/// payload only when the record was published by exactly that op; otherwise the
/// record stays as it was.
pub open spec fn take_outcome<V>(rec: ArenaRecord<V>, expected: u32) -> (ArenaRecord<V>, Taken<V>) {
    match rec {
        ArenaRecord::Vacant => (ArenaRecord::Vacant, Taken::Unpublished),
        ArenaRecord::Published { op, payload } => if op == expected {
            (ArenaRecord::Vacant, Taken::Delivered(payload))
        } else {
            (rec, Taken::Mismatch)
        },
    }
}

/// Splits a record taken from a cell into what goes back into the cell and what
/// the pop of op `expected` finds.
pub fn settle<V>(rec: ArenaRecord<V>, expected: u32) -> (r: (ArenaRecord<V>, Taken<V>))
    ensures
        r == take_outcome(rec, expected),
        r.1 is Delivered <==> delivers(rec, expected),
{
    match rec {
        ArenaRecord::Published { op, payload } => {
            if op == expected {
                (ArenaRecord::Vacant, Taken::Delivered(payload))
            } else {
                (ArenaRecord::Published { op, payload }, Taken::Mismatch)
            }
        },
        ArenaRecord::Vacant => (ArenaRecord::Vacant, Taken::Unpublished),
    }
}

/// The cell index that a reservation yields when the index counter read `prior`
/// on an arena of `cells` cells: `prior` itself when it names a cell other than
/// the reserved cell `0`.
pub open spec fn claimed_cell(prior: u64, cells: u64) -> Option<u32> {
    if 1 <= prior < cells {
        Some(prior as u32)
    } else {
        None
    }
}

/// Decides a reservation on the counter value `prior`; `None` means the arena is
/// exhausted.
pub fn claim_cell(prior: u64, cells: u64) -> (r: Option<u32>)
    requires
        cells <= u32::MAX,
    ensures
        r == claimed_cell(prior, cells),
        r is Some <==> 1 <= prior < cells,
        r is Some ==> r->0 == prior,
{
    if prior == 0 || prior >= cells {
        None
    } else {
        Some(prior as u32)
    }
}

/// The invariant each cell's lock keeps: a published record carries a real
/// op-ID (op-IDs start at one) and a payload that `admits` accepts.
#[verifier::reject_recursive_types(V)]
pub struct TaggedRecord<V> {
    pub admits: spec_fn(V) -> bool,
}

impl<V> RwLockPredicate<ArenaRecord<V>> for TaggedRecord<V> {
    open spec fn inv(self, rec: ArenaRecord<V>) -> bool {
        match rec {
            ArenaRecord::Published { op, payload } => op >= 1 && (self.admits)(payload),
            ArenaRecord::Vacant => true,
        }
    }
}

/// A fixed array of payload cells and the counter that hands out their indices.
/// Index `0` is never handed out: in a slot entry it means "no cell". Every cell
/// holds only payloads that `admits` accepts.
#[verifier::reject_recursive_types(V)]
pub(crate) struct Arena<V> {
    cells: Vec<RwLock<ArenaRecord<V>, TaggedRecord<V>>>,
    next: AtomicU64,
    admits: Ghost<spec_fn(V) -> bool>,
}

impl<V> Arena<V> {
    #[verifier::type_invariant]
    spec fn cells_keep_admits(&self) -> bool {
        forall|i: int|
            0 <= i < self.cells@.len() ==> (#[trigger] self.cells@[i]).pred() == (TaggedRecord {
                admits: self.admits@,
            })
    }

    /// The number of cells.
    pub(crate) closed spec fn len(&self) -> nat {
        self.cells@.len()
    }

    /// What every payload in the arena satisfies.
    pub(crate) closed spec fn admits(&self) -> spec_fn(V) -> bool {
        self.admits@
    }

    /// An arena of `len` vacant cells whose first handed-out index is `1`.
    pub(crate) fn new(len: u32, admits: Ghost<spec_fn(V) -> bool>) -> (a: Self)
        ensures
            a.len() == len,
            a.admits() == admits@,
    {
        let mut cells: Vec<RwLock<ArenaRecord<V>, TaggedRecord<V>>> = Vec::new();
        let mut i: u32 = 0;
        while i < len
            invariant
                cells.len() == i,
                i <= len,
                forall|j: int|
                    0 <= j < cells@.len() ==> (#[trigger] cells@[j]).pred() == (TaggedRecord {
                        admits: admits@,
                    }),
            decreases len - i,
        {
            cells.push(RwLock::new(ArenaRecord::Vacant, Ghost(TaggedRecord { admits: admits@ })));
            i = i + 1;
        }
        Arena { cells, next: AtomicU64::new(1), admits }
    }

    /// The number of cells.
    pub(crate) fn cell_count(&self) -> (n: usize)
        ensures
            n == self.len(),
    {
        self.cells.len()
    }

    /// Reserves a fresh cell index. Indices are never reused: `None` once the
    /// counter has passed the last cell, as `claim_cell` decides.
    pub(crate) fn reserve(&self) -> (r: Option<u32>)
        requires
            self.len() <= u32::MAX,
        ensures
            r is Some ==> 1 <= r->0 < self.len(),
    {
        let prior = self.next.fetch_add(1, Ordering::AcqRel);
        claim_cell(prior, self.cells.len() as u64)
    }

    /// Publishes `payload` as the output of push `op` into cell `idx`.
    pub(crate) fn publish(&self, idx: u32, op: u32, payload: V)
        requires
            idx < self.len(),
            op >= 1,
            (self.admits())(payload),
    {
        proof {
            use_type_invariant(self);
        }
        let (_prior, handle) = self.cells[idx as usize].acquire_write();
        handle.release_write(ArenaRecord::Published { op, payload });
    }

    /// Takes the payload out of cell `idx` if push `expected` published it;
    /// otherwise leaves the cell as it was. What was found is what `settle`
    /// decides on the record read under the cell's lock; a payload handed out
    /// is one the arena admits.
    pub(crate) fn take_tagged(&self, idx: u32, expected: u32) -> (r: Taken<V>)
        requires
            idx < self.len(),
        ensures
            r matches Taken::Delivered(p) ==> (self.admits())(p),
    {
        proof {
            use_type_invariant(self);
        }
        let (rec, handle) = self.cells[idx as usize].acquire_write();
        let (keep, out) = settle(rec, expected);
        handle.release_write(keep);
        out
    }
}

} // verus!
