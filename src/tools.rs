//! Small helpers over word arrays: extremes with their first index, the floor
//! of the base-2 logarithm, and copying a register.
use vstd::prelude::*;

verus! {

/// Index of the first largest element among the first `n` elements of `a`.
pub open spec fn argmax_spec(a: Seq<u16>, n: nat) -> nat
    decreases n,
{
    if n <= 1 {
        0
    } else {
        let k = argmax_spec(a, (n - 1) as nat);
        if a[n - 1] > a[k as int] {
            (n - 1) as nat
        } else {
            k
        }
    }
}

/// Index of the first smallest element among the first `n` elements of `a`.
pub open spec fn argmin_spec(a: Seq<u16>, n: nat) -> nat
    decreases n,
{
    if n <= 1 {
        0
    } else {
        let k = argmin_spec(a, (n - 1) as nat);
        if a[n - 1] < a[k as int] {
            (n - 1) as nat
        } else {
            k
        }
    }
}

/// `argmax_spec` picks the first position that holds the largest value.
pub proof fn lemma_argmax(a: Seq<u16>, n: nat)
    requires
        1 <= n <= a.len(),
    ensures
        argmax_spec(a, n) < n,
        forall|i: int| 0 <= i < n ==> #[trigger] a[i] <= a[argmax_spec(a, n) as int],
        forall|i: int| 0 <= i < argmax_spec(a, n) ==> #[trigger] a[i] < a[argmax_spec(a, n) as int],
    decreases n,
{
    if n > 1 {
        lemma_argmax(a, (n - 1) as nat);
    }
}

/// `argmin_spec` picks the first position that holds the smallest value.
pub proof fn lemma_argmin(a: Seq<u16>, n: nat)
    requires
        1 <= n <= a.len(),
    ensures
        argmin_spec(a, n) < n,
        forall|i: int| 0 <= i < n ==> a[argmin_spec(a, n) as int] <= #[trigger] a[i],
        forall|i: int| 0 <= i < argmin_spec(a, n) ==> a[argmin_spec(a, n) as int] < #[trigger] a[i],
    decreases n,
{
    if n > 1 {
        lemma_argmin(a, (n - 1) as nat);
    }
}

/// The largest of the first `size_arr` words and the first index holding it.
pub fn max_and_argmax(arr: &[u16], size_arr: usize) -> (r: (u16, usize))
    requires
        1 <= size_arr <= arr@.len(),
    ensures
        r.1 == argmax_spec(arr@, size_arr as nat),
        r.0 == arr@[r.1 as int],
        r.1 < size_arr,
        forall|i: int| 0 <= i < size_arr ==> arr@[i] <= r.0,
        forall|i: int| 0 <= i < r.1 ==> arr@[i] < r.0,
{
    let mut curr_max = arr[0];
    let mut curr_index: usize = 0;
    let mut i: usize = 1;
    while i < size_arr
        invariant
            1 <= i <= size_arr <= arr@.len(),
            curr_index == argmax_spec(arr@, i as nat),
            curr_max == arr@[curr_index as int],
        decreases size_arr - i,
    {
        proof {
            lemma_argmax(arr@, i as nat);
        }
        if arr[i] > curr_max {
            curr_max = arr[i];
            curr_index = i;
        }
        i = i + 1;
    }
    proof {
        lemma_argmax(arr@, size_arr as nat);
    }
    (curr_max, curr_index)
}

/// The smallest of the first `size_arr` words and the first index holding it.
pub fn min_and_argmin(arr: &[u16], size_arr: usize) -> (r: (u16, usize))
    requires
        1 <= size_arr <= arr@.len(),
    ensures
        r.1 == argmin_spec(arr@, size_arr as nat),
        r.0 == arr@[r.1 as int],
        r.1 < size_arr,
        forall|i: int| 0 <= i < size_arr ==> r.0 <= arr@[i],
        forall|i: int| 0 <= i < r.1 ==> r.0 < arr@[i],
{
    let mut curr_min = arr[0];
    let mut curr_index: usize = 0;
    let mut i: usize = 1;
    while i < size_arr
        invariant
            1 <= i <= size_arr <= arr@.len(),
            curr_index == argmin_spec(arr@, i as nat),
            curr_min == arr@[curr_index as int],
        decreases size_arr - i,
    {
        proof {
            lemma_argmin(arr@, i as nat);
        }
        if arr[i] < curr_min {
            curr_min = arr[i];
            curr_index = i;
        }
        i = i + 1;
    }
    proof {
        lemma_argmin(arr@, size_arr as nat);
    }
    (curr_min, curr_index)
}

/// Floor of the base-2 logarithm by repeated halving; zero for 0 and 1.
pub open spec fn log2_spec(n: nat) -> nat
    decreases n,
{
    if n > 1 {
        1 + log2_spec(n / 2)
    } else {
        0
    }
}

/// `log2_spec(n)` is the exponent of the largest power of two not above `n`.
pub proof fn lemma_log2_bounds(n: nat)
    requires
        n >= 1,
    ensures
        vstd::arithmetic::power2::pow2(log2_spec(n)) <= n,
        n < vstd::arithmetic::power2::pow2(log2_spec(n) + 1),
    decreases n,
{
    vstd::arithmetic::power2::lemma2_to64();
    if n > 1 {
        lemma_log2_bounds(n / 2);
        vstd::arithmetic::power2::lemma_pow2_unfold(log2_spec(n));
        vstd::arithmetic::power2::lemma_pow2_unfold(log2_spec(n) + 1);
    } else {
        vstd::arithmetic::power2::lemma_pow2_unfold(1);
    }
}

proof fn lemma_log2_below(n: nat)
    ensures
        log2_spec(n) <= n,
    decreases n,
{
    if n > 1 {
        lemma_log2_below(n / 2);
    }
}

/// Floor of the base-2 logarithm of `num`, zero for 0 and 1.
pub fn log2n(num: u16) -> (r: u16)
    ensures
        r == log2_spec(num as nat),
        r < 16,
        num >= 1 ==> vstd::arithmetic::power2::pow2(r as nat) <= num
            < vstd::arithmetic::power2::pow2(r as nat + 1),
    decreases num,
{
    proof {
        if num >= 1 {
            lemma_log2_bounds(num as nat);
            vstd::arithmetic::power2::lemma2_to64();
            if log2_spec(num as nat) > 16 {
                vstd::arithmetic::power2::lemma_pow2_strictly_increases(16, log2_spec(num as nat));
            }
        }
    }
    if num > 1 {
        let h = log2n(num / 2);
        1 + h
    } else {
        0
    }
}

/// A copy of the first four words of `arr`.
pub fn copy_array(arr: &[u16]) -> (r: [u16; 4])
    requires
        arr@.len() >= 4,
    ensures
        r@ == arr@.subrange(0, 4),
{
    let r = [arr[0], arr[1], arr[2], arr[3]];
    assert(r@ =~= arr@.subrange(0, 4));
    r
}

} // verus!
