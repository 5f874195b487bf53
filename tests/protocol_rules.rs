use joque::arena::{claim_cell, settle, ArenaRecord, Taken};
use joque::cursor::CursorMove;
use joque::step::{
    cursor_halves, cursor_step, logical_extent, next_op, next_stall, pop_move, pop_outcome,
    push_move, PopOutcome, STALL_LIMIT,
};
use joque::ring::{
    observes_empty, observes_full, pop_entry, pop_slot, push_entry, push_slot, slot_state, End,
    SlotState,
};
use joque::word::{high_half, low_half, pack, BACK_STEP, FRONT_STEP, HALF};

#[test]
fn pack_puts_first_field_low() {
    let w = pack(3, 5);
    assert_eq!(5 * 0x1_0000_0000u64 + 3, w);
    assert_eq!(3, low_half(w));
    assert_eq!(5, high_half(w));
    assert_eq!(u64::MAX, pack(u32::MAX, u32::MAX));
    assert_eq!(0, pack(0, 0));
}

#[test]
fn cursor_steps_touch_one_half() {
    let w = pack(12, 13);
    assert_eq!(pack(11, 13), w - FRONT_STEP);
    assert_eq!(pack(12, 14), w + BACK_STEP);
    assert_eq!(HALF, BACK_STEP);
}

#[test]
fn target_slots() {
    assert_eq!(12, push_slot(End::Front, 12, 13, 25));
    assert_eq!(13, push_slot(End::Back, 12, 13, 25));
    assert_eq!(13, pop_slot(End::Front, 12, 14, 25));
    assert_eq!(13, pop_slot(End::Back, 12, 14, 25));
    assert_eq!(0, pop_slot(End::Front, 24, 26, 25));
    assert_eq!(24, pop_slot(End::Back, 0, 0, 25));
    assert_eq!(2, push_slot(End::Front, 102, 103, 25));
}

#[test]
fn empty_and_full_tests() {
    assert!(observes_empty(12, 13, 25));
    assert!(observes_empty(12, 12, 25));
    assert!(observes_empty(13, 12, 25));
    assert!(observes_empty(0, 26, 25));
    assert!(!observes_empty(11, 13, 25));
    assert!(observes_full(0, 24, 25));
    assert!(!observes_full(0, 23, 25));
    assert!(!observes_full(5, 0, 25));
}

#[test]
fn slot_states() {
    assert!(matches!(slot_state(0), SlotState::Unwritten));
    assert!(matches!(slot_state(pack(4, 7)), SlotState::Occupied { op: 7, cell: 4 }));
    assert!(matches!(slot_state(pack(0, 9)), SlotState::Cleared { op: 9 }));
}

#[test]
fn push_never_overwrites_an_occupied_slot() {
    assert_eq!(Some(pack(5, 1)), push_entry(0, 1, 5));
    assert_eq!(Some(pack(6, 4)), push_entry(pack(0, 3), 4, 6));
    assert_eq!(None, push_entry(pack(5, 1), 2, 6));
}

#[test]
fn pop_claims_only_an_occupied_slot() {
    assert_eq!(Some(pack(0, 2)), pop_entry(pack(5, 1), 2));
    assert_eq!(None, pop_entry(0, 2));
    assert_eq!(None, pop_entry(pack(0, 3), 4));
}

#[test]
fn settle_delivers_only_the_expected_publication() {
    let (keep, out) = settle(ArenaRecord::Published { op: 3, payload: "x" }, 3);
    assert!(matches!(keep, ArenaRecord::Vacant));
    assert!(matches!(out, Taken::Delivered("x")));

    let (keep, out) = settle(ArenaRecord::Published { op: 3, payload: "y" }, 4);
    assert!(matches!(keep, ArenaRecord::Published { op: 3, payload: "y" }));
    assert!(matches!(out, Taken::Mismatch));

    let (keep, out) = settle(ArenaRecord::<&str>::Vacant, 1);
    assert!(matches!(keep, ArenaRecord::Vacant));
    assert!(matches!(out, Taken::Unpublished));
}

#[test]
fn claim_cell_hands_out_only_real_cells() {
    assert_eq!(Some(1), claim_cell(1, 40));
    assert_eq!(Some(39), claim_cell(39, 40));
    assert_eq!(None, claim_cell(40, 40));
    assert_eq!(None, claim_cell(0, 40));
    assert_eq!(None, claim_cell(u64::MAX, 40));
}

#[test]
fn next_op_is_the_counter_plus_one() {
    assert_eq!(Some(1), next_op(0, 0));
    assert_eq!(Some(8), next_op(7, 5));
    assert_eq!(None, next_op(4, 5));
    assert_eq!(Some(u32::MAX), next_op(u32::MAX as u64 - 1, 0));
    assert_eq!(None, next_op(u32::MAX as u64, 0));
}

#[test]
fn moves_and_steps() {
    assert!(matches!(push_move(End::Front), CursorMove::PushFront));
    assert!(matches!(push_move(End::Back), CursorMove::PushBack));
    assert!(matches!(pop_move(End::Front), CursorMove::PopFront));
    assert!(matches!(pop_move(End::Back), CursorMove::PopBack));
    assert_eq!((false, FRONT_STEP), cursor_step(CursorMove::PushFront));
    assert_eq!((true, FRONT_STEP), cursor_step(CursorMove::PopFront));
    assert_eq!((true, BACK_STEP), cursor_step(CursorMove::PushBack));
    assert_eq!((false, BACK_STEP), cursor_step(CursorMove::PopBack));
}

#[test]
fn pop_outcomes() {
    match pop_outcome(End::Back, true, Taken::Delivered(5u8)) {
        PopOutcome::Deliver(v, m) => {
            assert_eq!(5, v);
            assert!(matches!(m, CursorMove::PopBack));
        }
        _ => panic!("a matching record is delivered"),
    }
    assert!(matches!(pop_outcome(End::Front, true, Taken::<u8>::Unpublished), PopOutcome::Restore));
    assert!(matches!(pop_outcome(End::Front, true, Taken::<u8>::Mismatch), PopOutcome::Corrupt));
    assert!(matches!(pop_outcome(End::Front, false, Taken::Delivered(1u8)), PopOutcome::Corrupt));
}

#[test]
fn stall_counts_only_unchanged_reads() {
    assert_eq!(1, next_stall(None, 0, 10, 20));
    assert_eq!(4, next_stall(Some((10, 20)), 3, 10, 20));
    assert_eq!(1, next_stall(Some((10, 20)), 3, 11, 20));
    assert_eq!(1, next_stall(Some((10, 20)), 3, 10, 21));
    assert_eq!(STALL_LIMIT, next_stall(Some((1, 2)), STALL_LIMIT - 1, 1, 2));
}

#[test]
fn cursor_reads() {
    assert_eq!((7, 9), cursor_halves(pack(7, 9)));
    assert_eq!((12, 13), logical_extent(pack(112, 113), 100));
    assert_eq!((-3, 1), logical_extent(pack(97, 101), 100));
}
