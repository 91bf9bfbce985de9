//! Primitive word operations: halves of a double, shift-or and rotation,
//! addition modulo 2^16, aggregates of a portion, and the small-prime lookup.
use vstd::prelude::*;
use crate::tables::BYTE_PRIMES;

verus! {

/// The upper half of a 32-bit value.
pub fn omega(num: u32) -> (r: u32)
    ensures
        r == num / 0x10000,
{
    let r = (num & 0xffff0000u32) >> 16u32;
    assert((num & 0xffff0000u32) >> 16u32 == num / 0x10000) by (bit_vector);
    r
}

/// The lower half of a 32-bit value.
pub fn epsilon(num: u32) -> (r: u32)
    ensures
        r == num % 0x10000,
{
    let r = num & 0x0000ffffu32;
    assert(num & 0x0000ffffu32 == num % 0x10000) by (bit_vector);
    r
}

/// Shift-or of a word held in 32 bits: `num` moved up by `by` bits, joined with
/// the bits that a 16-bit rotation would carry round.
pub open spec fn lamed_spec(num: u32, by: u32) -> u32 {
    (num << by) | (num >> (16 - by) as u32)
}

pub fn lamed(num: u32, by: u32) -> (r: u32)
    requires
        by <= 16,
    ensures
        r == lamed_spec(num, by),
{
    (num << by) | (num >> (16 - by))
}

/// The word rotation used in mixing: the shift-or of `lamed`, whose upper
/// half is taken when it no longer fits in 16 bits.
pub open spec fn gorda_spec(num: u16, by: u32) -> u16 {
    let res = lamed_spec(num as u32, by);
    if res > 0xffff {
        (res / 0x10000) as u16
    } else {
        res as u16
    }
}

pub fn gorda(num: u16, by: u32) -> (r: u16)
    requires
        by <= 16,
    ensures
        r == gorda_spec(num, by),
{
    let mut res = num as u32;
    res = lamed(res, by);
    if res > 0xffffu32 {
        res = omega(res);
    }
    res as u16
}

/// Addition modulo 2^16.
pub fn tasu(a: u16, b: u16) -> (r: u16)
    ensures
        r == (a + b) % 0x10000,
{
    let mut a_plus_b: u32 = a as u32 + b as u32;
    if a_plus_b > 0xffffu32 {
        a_plus_b = epsilon(a_plus_b);
    }
    a_plus_b as u16
}

/// Sum of the products of the first `n` pairs of `a` and `w`.
pub open spec fn dot_spec(a: Seq<u16>, w: Seq<u16>, n: nat) -> int
    decreases n,
{
    if n == 0 {
        0
    } else {
        dot_spec(a, w, (n - 1) as nat) + a[n - 1] * w[n - 1]
    }
}

/// Sum of the first `n` words of `a`.
pub open spec fn sum_spec(a: Seq<u16>, n: nat) -> int
    decreases n,
{
    if n == 0 {
        0
    } else {
        sum_spec(a, (n - 1) as nat) + a[n - 1]
    }
}

/// Weights whose products with the words each fit in a word.
pub open spec fn products_fit(a: Seq<u16>, w: Seq<u16>) -> bool {
    forall|i: int| 0 <= i < 4 ==> #[trigger] a[i] * w[i] <= 0xffff
}

proof fn lemma_dot_bound(a: Seq<u16>, w: Seq<u16>, n: nat)
    requires
        n <= 4,
        a.len() >= 4,
        w.len() >= 4,
        products_fit(a, w),
    ensures
        0 <= dot_spec(a, w, n) <= n * 0xffff,
    decreases n,
{
    if n > 0 {
        lemma_dot_bound(a, w, (n - 1) as nat);
        assert(a[n - 1] * w[n - 1] <= 0xffff);
        assert(0 <= a[n - 1] * w[n - 1]) by (nonlinear_arith);
    }
}

proof fn lemma_sum_bound(a: Seq<u16>, n: nat)
    requires
        n <= a.len(),
    ensures
        0 <= sum_spec(a, n) <= n * 0xffff,
    decreases n,
{
    if n > 0 {
        lemma_sum_bound(a, (n - 1) as nat);
    }
}

fn dot4(arr: &[u16], weights: &[u16]) -> (r: u32)
    requires
        arr@.len() >= 4,
        weights@.len() >= 4,
        products_fit(arr@, weights@),
    ensures
        r == dot_spec(arr@, weights@, 4),
{
    let mut total: u32 = 0;
    let mut i: usize = 0;
    while i < 4
        invariant
            i <= 4,
            arr@.len() >= 4,
            weights@.len() >= 4,
            products_fit(arr@, weights@),
            total == dot_spec(arr@, weights@, i as nat),
        decreases 4 - i,
    {
        proof {
            lemma_dot_bound(arr@, weights@, (i + 1) as nat);
        }
        assert(arr@[i as int] * weights@[i as int] <= 0xffff);
        total = total + (arr[i] * weights[i]) as u32;
        i = i + 1;
    }
    total
}

fn sum4(arr: &[u16]) -> (r: u32)
    requires
        arr@.len() >= 4,
    ensures
        r == sum_spec(arr@, 4),
{
    let mut total: u32 = 0;
    let mut i: usize = 0;
    while i < 4
        invariant
            i <= 4,
            arr@.len() >= 4,
            total == sum_spec(arr@, i as nat),
        decreases 4 - i,
    {
        proof {
            lemma_sum_bound(arr@, (i + 1) as nat);
        }
        total = total + arr[i] as u32;
        i = i + 1;
    }
    total
}

/// Weighted centroid of a portion: the weighted sum divided by four.
pub fn centum(arr: &[u16], weights: &[u16]) -> (r: u16)
    requires
        arr@.len() >= 4,
        weights@.len() >= 4,
        products_fit(arr@, weights@),
    ensures
        r == dot_spec(arr@, weights@, 4) / 4,
{
    proof {
        lemma_dot_bound(arr@, weights@, 4);
    }
    let mut wtmt = dot4(arr, weights);
    wtmt = wtmt / 4;
    if wtmt > 0xffffu32 {
        wtmt = omega(wtmt);
    }
    wtmt as u16
}

/// Weighted median-like value of a portion: the weighted sum plus one, halved,
/// modulo 2^16.
pub fn satum(arr: &[u16], weights: &[u16]) -> (r: u16)
    requires
        arr@.len() >= 4,
        weights@.len() >= 4,
        products_fit(arr@, weights@),
    ensures
        r == ((dot_spec(arr@, weights@, 4) + 1) / 2) % 0x10000,
{
    proof {
        lemma_dot_bound(arr@, weights@, 4);
    }
    let mut wdca = dot4(arr, weights);
    wdca = (wdca + 1) / 2;
    if wdca > 0xffffu32 {
        wdca = epsilon(wdca);
    }
    wdca as u16
}

/// Mean of a portion, rounded down.
pub fn tamaam(arr: &[u16]) -> (r: u16)
    requires
        arr@.len() >= 4,
    ensures
        r == sum_spec(arr@, 4) / 4,
{
    proof {
        lemma_sum_bound(arr@, 4);
    }
    let mut wtmt = sum4(arr);
    wtmt = wtmt / 4;
    if wtmt > 0xffffu32 {
        wtmt = omega(wtmt);
    }
    wtmt as u16
}

/// Half of a portion's sum, rounded up, modulo 2^16.
pub fn deca(arr: &[u16]) -> (r: u16)
    requires
        arr@.len() >= 4,
    ensures
        r == ((sum_spec(arr@, 4) + 1) / 2) % 0x10000,
{
    proof {
        lemma_sum_bound(arr@, 4);
    }
    let mut wdca = sum4(arr);
    wdca = (wdca + 1) / 2;
    if wdca > 0xffffu32 {
        wdca = epsilon(wdca);
    }
    wdca as u16
}

/// The small prime that a word selects: the table entry at `num mod 54`.
pub open spec fn byte_prime(num: u16) -> u16 {
    BYTE_PRIMES[(num % 54) as int]
}

pub fn get_8b_prime(num: u16) -> (r: u16)
    ensures
        r == byte_prime(num),
        2 <= r <= 0xfb,
{
    BYTE_PRIMES[(num as usize) % 54]
}

} // verus!
