//! The protocol as one thread sees it when no other operation is in flight.
//!
//! Each step is composed of the spec functions that the executable decisions
//! ensure (`ring`, `arena`, `step`): the cell and op-ID claimed, the target
//! slot, the empty and full tests, the entries installed, what taking a cell
//! finds, and the cursor move. Between operations every compare-and-swap lands
//! on the first try and every counter holds the model's value, so a push or pop
//! is a function of the state. The laws below are stated over this model; that
//! `Joque` acts on its decisions as these steps do is by construction, not proved.
use vstd::prelude::*;
use vstd::multiset::Multiset;
use crate::word::{packed, lo_of, hi_of, lemma_halves_of_packed};
use crate::ring::{
    End, slot_of, push_pos, pop_pos, looks_empty, looks_full, state_of, entry_for_push,
    entry_for_pop,
};
use crate::arena::{ArenaRecord, Taken, delivers, payload_of, claimed_cell, take_outcome};
use crate::cursor::{left_shift, right_shift};
use crate::step::{PopOutcome, drawn_op, pop_result, push_move_of};
use crate::joque::{MIN_WIDTH, MAX_WIDTH};

verus! {

/// The whole state of a quiescent deque. `left` and `right` are the cursor
/// positions counted as in the construction values `(width / 2, width / 2 + 1)`.
pub struct DequeModel<V> {
    pub width: int,
    pub left: int,
    pub right: int,
    pub slots: Seq<u64>,
    pub cells: Seq<ArenaRecord<V>>,
    pub next_cell: int,
    pub next_op: int,
}

/// A freshly constructed deque of ring width `width`.
pub open spec fn initial<V>(width: int) -> DequeModel<V> {
    DequeModel {
        width,
        left: width / 2,
        right: width / 2 + 1,
        slots: Seq::new(width as nat, |i: int| 0u64),
        cells: Seq::new((4 * width) as nat, |i: int| ArenaRecord::Vacant),
        next_cell: 1,
        next_op: 0,
    }
}

/// The slot entry at cursor position `pos`.
pub open spec fn entry_at<V>(s: DequeModel<V>, pos: int) -> u64 {
    s.slots[slot_of(pos, s.width)]
}

/// The arena cell that position `pos` refers to.
pub open spec fn cell_at<V>(s: DequeModel<V>, pos: int) -> int {
    lo_of(entry_at(s, pos)) as int
}

/// The payload that position `pos` refers to.
pub open spec fn payload_at<V>(s: DequeModel<V>, pos: int) -> V {
    payload_of(s.cells[cell_at(s, pos)])
}

/// The payloads in the deque, leftmost first.
pub open spec fn contents<V>(s: DequeModel<V>) -> Seq<V> {
    Seq::new((s.right - s.left - 1) as nat, |i: int| payload_at(s, s.left + 1 + i))
}

/// Position `pos` refers to a cell, handed out earlier, that its own push
/// published.
pub open spec fn holds_published<V>(s: DequeModel<V>, pos: int) -> bool {
    &&& 1 <= cell_at(s, pos) < s.next_cell
    &&& cell_at(s, pos) < s.cells.len()
    &&& delivers(s.cells[cell_at(s, pos)], hi_of(entry_at(s, pos)))
}

/// The state invariant: every occupied position refers to its own published
/// cell, and every slot outside the occupied interval holds no cell.
pub open spec fn inv<V>(s: DequeModel<V>) -> bool {
    &&& MIN_WIDTH <= s.width <= MAX_WIDTH
    &&& s.slots.len() == s.width
    &&& s.cells.len() == 4 * s.width
    &&& 1 <= s.right - s.left <= s.width - 1
    &&& 1 <= s.next_cell
    &&& 0 <= s.next_op <= u32::MAX
    &&& forall|p: int| s.left < p < s.right ==> #[trigger] holds_published(s, p)
    &&& forall|p: int, q: int|
        s.left < p < q < s.right ==> #[trigger] cell_at(s, p) != #[trigger] cell_at(s, q)
    &&& forall|p: int| s.right <= p <= s.left + s.width ==> #[trigger] cell_at(s, p) == 0
}

/// Whether a push on a quiescent deque succeeds: a cell is left, the ring is
/// not full and an op-ID is left.
pub open spec fn push_succeeds<V>(s: DequeModel<V>) -> bool {
    &&& s.next_cell < s.cells.len()
    &&& !looks_full(s.left, s.right, s.width)
    &&& s.next_op < u32::MAX
}

/// The cell that the index counter `next` claims on an arena of `cells` cells,
/// as `claim_cell` decides on the fetched value.
pub open spec fn counter_claim(next: int, cells: int) -> Option<u32> {
    if 0 <= next <= u64::MAX && 0 <= cells <= u64::MAX {
        claimed_cell(next as u64, cells as u64)
    } else {
        None
    }
}

/// `push_front` / `push_back` of `x`: the new state and whether it succeeded.
/// Each decision is the one the executable push takes on the values it reads:
/// `claim_cell`, `observes_full`, `next_op`, `push_entry`, then the record
/// published and `push_move`. Where the executable push finds its target
/// occupied it waits for the cursor to move, up to `STALL_LIMIT` unchanged
/// reads; between operations nothing moves it, so here that push fails at once.
/// Under `inv` the target is never occupied.
pub open spec fn model_push<V>(s: DequeModel<V>, end: End, x: V) -> (DequeModel<V>, bool) {
    let spent = DequeModel { next_cell: s.next_cell + 1, ..s };
    match counter_claim(s.next_cell, s.cells.len() as int) {
        None => (spent, false),
        Some(a) => if looks_full(s.left, s.right, s.width) {
            (spent, false)
        } else {
            match drawn_op(s.next_op as u64, 0) {
                None => (spent, false),
                Some(op) => {
                    let t = slot_of(push_pos(end, s.left, s.right), s.width);
                    match entry_for_push(s.slots[t], op, a) {
                        None => (DequeModel { next_op: op as int, ..spent }, false),
                        Some(e) => {
                            let m = push_move_of(end);
                            (
                                DequeModel {
                                    slots: s.slots.update(t, e),
                                    cells: s.cells.update(
                                        a as int,
                                        ArenaRecord::Published { op, payload: x },
                                    ),
                                    left: s.left + left_shift(m),
                                    right: s.right + right_shift(m),
                                    next_cell: s.next_cell + 1,
                                    next_op: op as int,
                                    ..s
                                },
                                true,
                            )
                        },
                    }
                },
            }
        },
    }
}

/// `pop_front` / `pop_back`: the new state and the payload delivered. Each
/// decision is the one the executable pop takes on the values it reads:
/// `observes_empty`, `slot_state`, `next_op`, `pop_entry`, `settle`, then
/// `pop_outcome`. A fault (`PopError`) is reported as `None` here, as
/// `pop_front` / `pop_back` report it.
pub open spec fn model_pop<V>(s: DequeModel<V>, end: End) -> (DequeModel<V>, Option<V>) {
    if looks_empty(s.left, s.right, s.width) {
        (s, None)
    } else {
        let t = slot_of(pop_pos(end, s.left, s.right), s.width);
        let seen = s.slots[t];
        if !(state_of(seen) is Occupied) {
            (s, None)
        } else {
            match drawn_op(s.next_op as u64, 0) {
                None => (s, None),
                Some(op) => match entry_for_pop(seen, op) {
                    None => (s, None),
                    Some(cleared) => {
                        let cell = lo_of(seen) as int;
                        let in_range = cell < s.cells.len();
                        let taken = if in_range {
                            take_outcome(s.cells[cell], hi_of(seen))
                        } else {
                            (ArenaRecord::Vacant, Taken::Mismatch)
                        };
                        let cells = if in_range {
                            s.cells.update(cell, taken.0)
                        } else {
                            s.cells
                        };
                        match pop_result(end, in_range, taken.1) {
                            PopOutcome::Deliver(v, m) => (
                                DequeModel {
                                    slots: s.slots.update(t, cleared),
                                    cells,
                                    left: s.left + left_shift(m),
                                    right: s.right + right_shift(m),
                                    next_op: op as int,
                                    ..s
                                },
                                Some(v),
                            ),
                            _ => (DequeModel { cells, next_op: op as int, ..s }, None),
                        }
                    },
                },
            }
        }
    }
}

proof fn lemma_slot_range(p: int, w: int)
    requires
        w > 0,
    ensures
        0 <= slot_of(p, w) < w,
{
    vstd::arithmetic::div_mod::lemma_mod_bound(p, w);
}

/// Positions less than a width apart use different slots.
proof fn lemma_slots_differ(p: int, q: int, w: int)
    requires
        w > 0,
        0 < q - p < w,
    ensures
        slot_of(p, w) != slot_of(q, w),
{
    vstd::arithmetic::div_mod::lemma_mod_equivalence(q, p, w);
    vstd::arithmetic::div_mod::lemma_small_mod((q - p) as nat, w as nat);
}

/// Positions a width apart use the same slot.
proof fn lemma_slot_period(p: int, w: int)
    requires
        w > 0,
    ensures
        slot_of(p + w, w) == slot_of(p, w),
{
    vstd::arithmetic::div_mod::lemma_mod_add_multiples_vanish(p, w);
}

/// Storing every position offset by a multiple of the width, as the deque's
/// cursor does, changes neither the slot of a position nor the empty and full
/// tests, which read only the difference of the two positions.
pub proof fn lemma_offset_positions(pos: int, left: int, right: int, width: int, k: int)
    requires
        width > 0,
    ensures
        slot_of(pos + k * width, width) == slot_of(pos, width),
        looks_empty(left + k * width, right + k * width, width) == looks_empty(left, right, width),
        looks_full(left + k * width, right + k * width, width) == looks_full(left, right, width),
{
    vstd::arithmetic::div_mod::lemma_mod_multiples_vanish(k, pos, width);
    assert(width * k + pos == pos + k * width) by (nonlinear_arith);
}

/// A fresh deque satisfies the invariant and is empty.
pub proof fn lemma_initial<V>(width: int)
    requires
        MIN_WIDTH <= width <= MAX_WIDTH,
    ensures
        inv(initial::<V>(width)),
        contents(initial::<V>(width)).len() == 0,
{
    let s = initial::<V>(width);
    assert forall|p: int| s.right <= p <= s.left + s.width implies #[trigger] cell_at(s, p) == 0 by {
        lemma_slot_range(p, width);
        crate::word::lemma_halves_of_packed(0, 0);
        assert(0u64 == packed(0, 0));
    }
}

/// A push on a quiescent deque succeeds exactly when a cell, a free ring slot
/// and an op-ID are left; on success the payload becomes the new leftmost
/// (front) or rightmost (back) element, and on failure nothing is added.
#[verifier::spinoff_prover]
pub proof fn lemma_push<V>(s: DequeModel<V>, end: End, x: V)
    requires
        inv(s),
    ensures
        inv(model_push(s, end, x).0),
        model_push(s, end, x).1 == push_succeeds(s),
        model_push(s, end, x).1 ==> contents(model_push(s, end, x).0) == match end {
            End::Front => seq![x] + contents(s),
            End::Back => contents(s).push(x),
        },
        !model_push(s, end, x).1 ==> contents(model_push(s, end, x).0) == contents(s),
{
    let w = s.width;
    let a = s.next_cell;
    let r = model_push(s, end, x);
    let s2 = r.0;
    if !push_succeeds(s) {
        assert forall|p: int| #[trigger] cell_at(s2, p) == cell_at(s, p) by {}
        assert forall|p: int| s2.left < p < s2.right implies #[trigger] holds_published(s2, p) by {
            assert(holds_published(s, p));
        }
        assert(contents(s2) =~= contents(s));
        return;
    }
    let pos = push_pos(end, s.left, s.right);
    let t = slot_of(pos, w);
    lemma_slot_range(pos, w);
    // the target lies outside the occupied interval
    assert(cell_at(s, pos) == 0) by {
        match end {
            End::Front => {
                lemma_slot_period(s.left, w);
                assert(cell_at(s, s.left + w) == 0);
            },
            End::Back => {},
        }
    }
    let op = s.next_op + 1;
    let e = packed(a as u32, op as u32);
    lemma_halves_of_packed(a as u32, op as u32);
    assert(s2.slots == s.slots.update(t, e));
    assert(lo_of(e) == a && hi_of(e) == op);
    // every other position in range keeps its slot
    assert forall|p: int| s2.left < p < s2.right + 1 && p != pos && p <= s.left + w implies
        #[trigger] entry_at(s2, p) == entry_at(s, p) by {
        lemma_slot_range(p, w);
        match end {
            End::Front => {
                lemma_slots_differ(pos, p, w);
            },
            End::Back => {
                if p < pos {
                    lemma_slots_differ(p, pos, w);
                } else {
                    lemma_slots_differ(pos, p, w);
                }
            },
        }
    }
    assert(entry_at(s2, pos) == e);
    assert forall|p: int| s2.left < p < s2.right implies #[trigger] holds_published(s2, p) by {
        if p != pos {
            assert(holds_published(s, p));
            assert(entry_at(s2, p) == entry_at(s, p));
        }
    }
    assert forall|p: int, q: int| s2.left < p < q < s2.right implies #[trigger] cell_at(s2, p)
        != #[trigger] cell_at(s2, q) by {
        if p != pos && q != pos {
            assert(entry_at(s2, p) == entry_at(s, p));
            assert(entry_at(s2, q) == entry_at(s, q));
            assert(cell_at(s, p) != cell_at(s, q));
        } else if p == pos {
            assert(cell_at(s2, p) == a);
            assert(entry_at(s2, q) == entry_at(s, q));
            assert(holds_published(s, q));
        } else {
            assert(cell_at(s2, q) == a);
            assert(entry_at(s2, p) == entry_at(s, p));
            assert(holds_published(s, p));
        }
    }
    assert forall|p: int| s2.right <= p <= s2.left + w implies #[trigger] cell_at(s2, p) == 0 by {
        match end {
            End::Front => {
                lemma_slot_range(p, w);
                lemma_slots_differ(pos, p, w);
                assert(entry_at(s2, p) == entry_at(s, p));
                assert(cell_at(s, p) == 0);
            },
            End::Back => {
                lemma_slot_range(p, w);
                if p < pos + w {
                    lemma_slots_differ(pos, p, w);
                }
                assert(entry_at(s2, p) == entry_at(s, p));
                assert(cell_at(s, p) == 0);
            },
        }
    }
    match end {
        End::Front => {
            assert forall|i: int| 0 <= i < contents(s2).len() implies contents(s2)[i] == (seq![x]
                + contents(s))[i] by {
                if i > 0 {
                    let p = s2.left + 1 + i;
                    assert(entry_at(s2, p) == entry_at(s, p));
                    assert(holds_published(s, p));
                }
            }
            assert(contents(s2) =~= seq![x] + contents(s));
        },
        End::Back => {
            assert forall|i: int| 0 <= i < contents(s2).len() implies contents(s2)[i] == contents(
                s,
            ).push(x)[i] by {
                let p = s2.left + 1 + i;
                if p != pos {
                    assert(entry_at(s2, p) == entry_at(s, p));
                    assert(holds_published(s, p));
                }
            }
            assert(contents(s2) =~= contents(s).push(x));
        },
    }
}

/// Under the invariant the cursor looks empty exactly when no payload is held.
proof fn lemma_empty_iff<V>(s: DequeModel<V>)
    requires
        inv(s),
    ensures
        looks_empty(s.left, s.right, s.width) <==> contents(s).len() == 0,
{
    if s.right - s.left >= 2 {
        vstd::arithmetic::div_mod::lemma_small_mod((s.right - s.left) as nat, s.width as nat);
    }
}

/// A pop on a quiescent deque delivers exactly when the deque holds a payload
/// and an op-ID is left: the leftmost (front) or rightmost (back) payload, which
/// then leaves the deque. Otherwise the contents stay as they were.
#[verifier::spinoff_prover]
pub proof fn lemma_pop<V>(s: DequeModel<V>, end: End)
    requires
        inv(s),
    ensures
        inv(model_pop(s, end).0),
        model_pop(s, end).1 is Some <==> (contents(s).len() > 0 && s.next_op < u32::MAX),
        model_pop(s, end).1 is Some ==> match end {
            End::Front => model_pop(s, end).1 == Some(contents(s)[0]) && contents(
                model_pop(s, end).0,
            ) == contents(s).drop_first(),
            End::Back => model_pop(s, end).1 == Some(contents(s).last()) && contents(
                model_pop(s, end).0,
            ) == contents(s).drop_last(),
        },
        model_pop(s, end).1 is None ==> contents(model_pop(s, end).0) == contents(s),
{
    let w = s.width;
    let r = model_pop(s, end);
    let s2 = r.0;
    lemma_empty_iff(s);
    if contents(s).len() == 0 || s.next_op >= u32::MAX {
        assert forall|p: int| #[trigger] cell_at(s2, p) == cell_at(s, p) by {}
        assert forall|p: int| s2.left < p < s2.right implies #[trigger] holds_published(s2, p) by {
            assert(holds_published(s, p));
        }
        assert(contents(s2) =~= contents(s));
        return;
    }
    let pos = pop_pos(end, s.left, s.right);
    let t = slot_of(pos, w);
    lemma_slot_range(pos, w);
    assert(holds_published(s, pos));
    let cell = cell_at(s, pos);
    let op = s.next_op + 1;
    let e = packed(0, op as u32);
    lemma_halves_of_packed(0, op as u32);
    assert(s2.slots == s.slots.update(t, e));
    assert(s2.cells == s.cells.update(cell, ArenaRecord::Vacant));
    assert(r.1 == Some(payload_at(s, pos)));
    // positions that stay occupied, and the free ones, keep their slots
    assert forall|p: int| s.left < p <= s.left + w && p != pos implies #[trigger] entry_at(s2, p)
        == entry_at(s, p) by {
        lemma_slot_range(p, w);
        if p < pos {
            lemma_slots_differ(p, pos, w);
        } else {
            lemma_slots_differ(pos, p, w);
        }
    }
    assert(entry_at(s2, pos) == e);
    assert forall|p: int| s2.left < p < s2.right implies #[trigger] holds_published(s2, p) by {
        assert(entry_at(s2, p) == entry_at(s, p));
        assert(holds_published(s, p));
        if pos < p {
            assert(cell_at(s, pos) != cell_at(s, p));
        } else {
            assert(cell_at(s, p) != cell_at(s, pos));
        }
    }
    assert forall|p: int, q: int| s2.left < p < q < s2.right implies #[trigger] cell_at(s2, p)
        != #[trigger] cell_at(s2, q) by {
        assert(entry_at(s2, p) == entry_at(s, p));
        assert(entry_at(s2, q) == entry_at(s, q));
        assert(cell_at(s, p) != cell_at(s, q));
    }
    assert forall|p: int| s2.right <= p <= s2.left + w implies #[trigger] cell_at(s2, p) == 0 by {
        if p == pos {
        } else if p == s.left + 1 + w {
            lemma_slot_period(s.left + 1, w);
            assert(entry_at(s2, p) == entry_at(s2, pos));
        } else {
            assert(entry_at(s2, p) == entry_at(s, p));
            assert(cell_at(s, p) == 0);
        }
    }
    match end {
        End::Front => {
            assert forall|i: int| 0 <= i < contents(s2).len() implies contents(s2)[i]
                == contents(s).drop_first()[i] by {
                let p = s2.left + 1 + i;
                assert(entry_at(s2, p) == entry_at(s, p));
                assert(holds_published(s, p));
                assert(cell_at(s, pos) != cell_at(s, p));
            }
            assert(contents(s2) =~= contents(s).drop_first());
        },
        End::Back => {
            assert forall|i: int| 0 <= i < contents(s2).len() implies contents(s2)[i]
                == contents(s).drop_last()[i] by {
                let p = s2.left + 1 + i;
                assert(entry_at(s2, p) == entry_at(s, p));
                assert(holds_published(s, p));
                assert(cell_at(s, p) != cell_at(s, pos));
            }
            assert(contents(s2) =~= contents(s).drop_last());
        },
    }
}

/// One operation of a single-threaded run.
pub enum Step<V> {
    Push(End, V),
    Pop(End),
}

/// Runs `steps` in order from `s`: the final state, the payloads whose push
/// succeeded, and the payloads delivered, each in order.
pub open spec fn run<V>(s: DequeModel<V>, steps: Seq<Step<V>>) -> (DequeModel<V>, Seq<V>, Seq<V>)
    decreases steps.len(),
{
    if steps.len() == 0 {
        (s, Seq::empty(), Seq::empty())
    } else {
        let prior = run(s, steps.drop_last());
        match steps.last() {
            Step::Push(end, x) => {
                let (s2, ok) = model_push(prior.0, end, x);
                (s2, if ok {
                    prior.1.push(x)
                } else {
                    prior.1
                }, prior.2)
            },
            Step::Pop(end) => {
                let (s2, out) = model_pop(prior.0, end);
                (s2, prior.1, match out {
                    Some(y) => prior.2.push(y),
                    None => prior.2,
                })
            },
        }
    }
}

/// Payloads are conserved: what the deque held plus what was pushed equals, as a
/// multiset, what it holds afterwards plus what was delivered.
#[verifier::spinoff_prover]
pub proof fn lemma_run_conserves<V>(s: DequeModel<V>, steps: Seq<Step<V>>)
    requires
        inv(s),
    ensures
        inv(run(s, steps).0),
        (contents(s) + run(s, steps).1).to_multiset() == (contents(run(s, steps).0) + run(
            s,
            steps,
        ).2).to_multiset(),
    decreases steps.len(),
{
    broadcast use vstd::seq_lib::group_to_multiset_ensures;
    broadcast use vstd::multiset::group_multiset_axioms;

    if steps.len() == 0 {
        assert(contents(s) + Seq::<V>::empty() =~= contents(s));
        return;
    }
    let prior = run(s, steps.drop_last());
    lemma_run_conserves(s, steps.drop_last());
    let c0 = contents(s);
    let c1 = contents(prior.0);
    vstd::seq_lib::lemma_multiset_commutative(c0, prior.1);
    vstd::seq_lib::lemma_multiset_commutative(c1, prior.2);
    match steps.last() {
        Step::Push(end, x) => {
            lemma_push(prior.0, end, x);
            let (s2, ok) = model_push(prior.0, end, x);
            let c2 = contents(s2);
            vstd::seq_lib::lemma_multiset_commutative(c2, prior.2);
            if ok {
                vstd::seq_lib::lemma_multiset_commutative(c0, prior.1.push(x));
                match end {
                    End::Front => {
                        vstd::seq_lib::lemma_multiset_commutative(seq![x], c1);
                        assert(seq![x] =~= Seq::<V>::empty().push(x));
                        assert(seq![x].to_multiset() =~= Multiset::<V>::empty().insert(x));
                    },
                    End::Back => {},
                }
                assert(prior.1.push(x).to_multiset() =~= prior.1.to_multiset().insert(x));
                assert(c2.to_multiset() =~= c1.to_multiset().insert(x));
                assert forall|v: V| #[trigger] (c0 + prior.1.push(x)).to_multiset().count(v) == (c2
                    + prior.2).to_multiset().count(v) by {
                    assert((c0 + prior.1).to_multiset().count(v) == (c1 + prior.2).to_multiset().count(
                        v,
                    ));
                }
                assert((c0 + prior.1.push(x)).to_multiset() =~= (c2 + prior.2).to_multiset());
            }
        },
        Step::Pop(end) => {
            lemma_pop(prior.0, end);
            let (s2, out) = model_pop(prior.0, end);
            let c2 = contents(s2);
            match out {
                Some(y) => {
                    vstd::seq_lib::lemma_multiset_commutative(c2, prior.2.push(y));
                    match end {
                        End::Front => {
                            assert(c1 =~= seq![y] + c2);
                            vstd::seq_lib::lemma_multiset_commutative(seq![y], c2);
                            assert(seq![y] =~= Seq::<V>::empty().push(y));
                            assert(seq![y].to_multiset() =~= Multiset::<V>::empty().insert(y));
                        },
                        End::Back => {
                            assert(c1 =~= c2.push(y));
                        },
                    }
                    assert(c1.to_multiset() =~= c2.to_multiset().insert(y));
                    assert(prior.2.push(y).to_multiset() =~= prior.2.to_multiset().insert(y));
                    assert((c1 + prior.2).to_multiset() =~= (c2 + prior.2.push(y)).to_multiset());
                },
                None => {},
            }
        },
    }
}

/// No duplication and, once drained, no loss: in any single-threaded run from a
/// fresh deque, each payload is delivered at most as many times as it was
/// successfully pushed, and exactly as many times when the deque ends empty.
pub proof fn lemma_no_duplication<V>(width: int, steps: Seq<Step<V>>, v: V)
    requires
        MIN_WIDTH <= width <= MAX_WIDTH,
    ensures
        run(initial::<V>(width), steps).2.to_multiset().count(v) <= run(
            initial::<V>(width),
            steps,
        ).1.to_multiset().count(v),
        contents(run(initial::<V>(width), steps).0).len() == 0 ==> run(
            initial::<V>(width),
            steps,
        ).2.to_multiset() == run(initial::<V>(width), steps).1.to_multiset(),
{
    broadcast use vstd::multiset::group_multiset_axioms;

    let s = initial::<V>(width);
    lemma_initial::<V>(width);
    lemma_run_conserves(s, steps);
    let r = run(s, steps);
    assert(contents(s) =~= Seq::<V>::empty());
    assert(contents(s) + r.1 =~= r.1);
    vstd::seq_lib::lemma_multiset_commutative(contents(r.0), r.2);
    if contents(r.0).len() == 0 {
        assert(contents(r.0) + r.2 =~= r.2);
    }
}

/// No corruption: in any single-threaded run from a fresh deque, every delivered
/// payload is one whose push succeeded.
pub proof fn lemma_no_corruption<V>(width: int, steps: Seq<Step<V>>, v: V)
    requires
        MIN_WIDTH <= width <= MAX_WIDTH,
        run(initial::<V>(width), steps).2.contains(v),
    ensures
        run(initial::<V>(width), steps).1.contains(v),
{
    broadcast use vstd::seq_lib::group_to_multiset_ensures;

    lemma_no_duplication(width, steps, v);
}

/// End order: on a quiescent deque with room for two more payloads,
/// `push(a); push(b)` on one end followed by two pops from that end delivers
/// `b` and then `a`, and leaves the contents as they were.
#[verifier::spinoff_prover]
pub proof fn lemma_end_order<V>(s: DequeModel<V>, end: End, a: V, b: V)
    requires
        inv(s),
        s.next_cell + 2 <= s.cells.len(),
        s.right - s.left + 2 <= s.width - 1,
        s.next_op + 4 <= u32::MAX,
    ensures
        ({
            let s1 = model_push(s, end, a).0;
            let s2 = model_push(s1, end, b).0;
            let (s3, first) = model_pop(s2, end);
            let (s4, second) = model_pop(s3, end);
            &&& first == Some(b)
            &&& second == Some(a)
            &&& contents(s4) == contents(s)
        }),
{
    let c = contents(s);
    let s1 = model_push(s, end, a).0;
    lemma_push(s, end, a);
    assert(push_succeeds(s));
    let s2 = model_push(s1, end, b).0;
    lemma_push(s1, end, b);
    assert(push_succeeds(s1));
    let (s3, first) = model_pop(s2, end);
    lemma_pop(s2, end);
    let (s4, second) = model_pop(s3, end);
    lemma_pop(s3, end);
    match end {
        End::Front => {
            assert(contents(s1) == seq![a] + c);
            assert(contents(s2) == seq![b] + (seq![a] + c));
            assert((seq![b] + (seq![a] + c))[0] == b);
            assert((seq![b] + (seq![a] + c)).drop_first() =~= seq![a] + c);
            assert(contents(s3) == seq![a] + c);
            assert((seq![a] + c)[0] == a);
            assert((seq![a] + c).drop_first() =~= c);
        },
        End::Back => {
            assert(contents(s1) == c.push(a));
            assert(contents(s2) == c.push(a).push(b));
            assert(c.push(a).push(b).drop_last() =~= c.push(a));
            assert(contents(s3) == c.push(a));
            assert(c.push(a).drop_last() =~= c);
        },
    }
}

/// Cross-end transit: on an empty quiescent deque with a cell and two op-IDs
/// left, `push_back(x)` then `pop_front()` delivers `x`, and so does
/// `push_front(x)` then `pop_back()`.
pub proof fn lemma_cross_end<V>(s: DequeModel<V>, x: V)
    requires
        inv(s),
        contents(s).len() == 0,
        s.next_cell < s.cells.len(),
        s.next_op + 2 <= u32::MAX,
    ensures
        model_pop(model_push(s, End::Back, x).0, End::Front).1 == Some(x),
        model_pop(model_push(s, End::Front, x).0, End::Back).1 == Some(x),
{
    lemma_push(s, End::Back, x);
    lemma_pop(model_push(s, End::Back, x).0, End::Front);
    lemma_push(s, End::Front, x);
    lemma_pop(model_push(s, End::Front, x).0, End::Back);
}

/// The steps `push_front(x); pop_back()` for each `x` of `xs` in turn.
pub open spec fn front_to_back<V>(xs: Seq<V>) -> Seq<Step<V>>
    decreases xs.len(),
{
    if xs.len() == 0 {
        Seq::empty()
    } else {
        front_to_back(xs.drop_last()) + seq![Step::Push(End::Front, xs.last()), Step::Pop(End::Back)]
    }
}

/// Wrap: alternating `push_front` and `pop_back` on an empty quiescent deque,
/// for any number of rounds (the cursor passing round the ring as often as it
/// may), accepts and delivers every payload in order and ends empty, as long as
/// cells and op-IDs last.
#[verifier::spinoff_prover]
pub proof fn lemma_wrap<V>(s: DequeModel<V>, xs: Seq<V>)
    requires
        inv(s),
        contents(s).len() == 0,
        s.next_cell + xs.len() <= s.cells.len(),
        s.next_op + 2 * xs.len() <= u32::MAX,
    ensures
        inv(run(s, front_to_back(xs)).0),
        run(s, front_to_back(xs)).1 == xs,
        run(s, front_to_back(xs)).2 == xs,
        contents(run(s, front_to_back(xs)).0).len() == 0,
        run(s, front_to_back(xs)).0.next_cell == s.next_cell + xs.len(),
        run(s, front_to_back(xs)).0.next_op == s.next_op + 2 * xs.len(),
        run(s, front_to_back(xs)).0.width == s.width,
    decreases xs.len(),
{
    if xs.len() == 0 {
        assert(xs =~= Seq::<V>::empty());
        assert(front_to_back(xs) =~= Seq::<Step<V>>::empty());
        return;
    }
    let ys = xs.drop_last();
    let x = xs.last();
    lemma_wrap(s, ys);
    let steps = front_to_back(xs);
    let pushed = front_to_back(ys) + seq![Step::Push(End::Front, x)];
    assert(steps.drop_last() =~= pushed);
    assert(pushed.drop_last() =~= front_to_back(ys));
    let before = run(s, front_to_back(ys));
    let mid = before.0;
    lemma_push(mid, End::Front, x);
    let pushed_state = model_push(mid, End::Front, x).0;
    lemma_pop(pushed_state, End::Back);
    assert(pushed.last() == Step::Push(End::Front, x));
    assert(push_succeeds(mid));
    assert(run(s, pushed) == (pushed_state, before.1.push(x), before.2));
    assert(contents(pushed_state) =~= seq![x]);
    assert(ys.push(x) =~= xs);
}

} // verus!
