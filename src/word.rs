//! Two 32-bit halves packed into one 64-bit word.
//!
//! Both the cursor `(left, right)` and every slot entry `(op_id, cell)` use this
//! layout: the first field in the low half, the second in the high half.
use vstd::prelude::*;

verus! {

/// `2^32`: the weight of the high half.
pub const HALF: u64 = 0x1_0000_0000;

/// What `fetch_add` / `fetch_sub` move the cursor word by on the left end.
pub const FRONT_STEP: u64 = 1;

/// What `fetch_add` / `fetch_sub` move the cursor word by on the right end.
pub const BACK_STEP: u64 = 0x1_0000_0000;

pub open spec fn half() -> int {
    0x1_0000_0000
}

pub open spec fn word_range() -> int {
    0x1_0000_0000_0000_0000
}

/// The low half of a word.
pub open spec fn lo_of(w: u64) -> u32 {
    (w as int % half()) as u32
}

/// The high half of a word.
pub open spec fn hi_of(w: u64) -> u32 {
    (w as int / half()) as u32
}

/// The word whose low half is `lo` and whose high half is `hi`.
pub open spec fn packed(lo: u32, hi: u32) -> u64 {
    (hi as int * half() + lo as int) as u64
}

pub proof fn lemma_packed_bounds(lo: u32, hi: u32)
    ensures
        0 <= hi as int * half() + lo as int <= u64::MAX,
{
    assert(hi as int * half() <= (u32::MAX as int) * half()) by (nonlinear_arith)
        requires
            hi <= u32::MAX,
    ;
}

/// Packing then reading the halves gives the halves back.
pub proof fn lemma_halves_of_packed(lo: u32, hi: u32)
    ensures
        lo_of(packed(lo, hi)) == lo,
        hi_of(packed(lo, hi)) == hi,
{
    lemma_packed_bounds(lo, hi);
    let w = hi as int * half() + lo as int;
    assert(w % half() == lo as int && w / half() == hi as int) by (nonlinear_arith)
        requires
            w == hi as int * half() + lo as int,
            0 <= lo < half(),
            half() > 0,
    {
        vstd::arithmetic::div_mod::lemma_fundamental_div_mod_converse(w, half(), hi as int, lo as int);
    }
}

proof fn lemma_high_half_fits(w: u64)
    ensures
        0 <= w as int / half() < half(),
{
    let x = w as int;
    vstd::arithmetic::div_mod::lemma_fundamental_div_mod(x, half());
    vstd::arithmetic::div_mod::lemma_mod_pos_bound(x, half());
    let q = x / half();
    assert(0 <= q < half()) by (nonlinear_arith)
        requires
            x == half() * q + x % half(),
            0 <= x % half(),
            0 <= x < word_range(),
            half() * half() == word_range(),
    ;
}

/// Reading the halves of a word and packing them again gives the word back.
pub proof fn lemma_packed_of_halves(w: u64)
    ensures
        packed(lo_of(w), hi_of(w)) == w,
{
    let x = w as int;
    vstd::arithmetic::div_mod::lemma_fundamental_div_mod(x, half());
    lemma_high_half_fits(w);
    assert(x / half() * half() == half() * (x / half())) by (nonlinear_arith);
}

/// Packs two halves into one word.
pub fn pack(lo: u32, hi: u32) -> (w: u64)
    ensures
        w == packed(lo, hi),
        lo_of(w) == lo,
        hi_of(w) == hi,
{
    proof {
        lemma_packed_bounds(lo, hi);
        lemma_halves_of_packed(lo, hi);
    }
    (hi as u64) * HALF + lo as u64
}

/// The low half of `w`.
pub fn low_half(w: u64) -> (r: u32)
    ensures
        r == lo_of(w),
{
    (w % HALF) as u32
}

/// The high half of `w`.
pub fn high_half(w: u64) -> (r: u32)
    ensures
        r == hi_of(w),
{
    proof {
        lemma_packed_of_halves(w);
        lemma_high_half_fits(w);
    }
    (w / HALF) as u32
}

} // verus!
