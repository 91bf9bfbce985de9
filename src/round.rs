//! One mixing round: alphabet operations, prime diffusion, the fixed shuffle,
//! and addition of the working register into the state.
use vstd::prelude::*;
use crate::alphabet::{alpha, alpha_spec, delta, delta_spec, gamma, gamma_spec, theta, theta_spec};
use crate::ops::tasu;
use crate::tables::{COMB_BIONOM, MASKS_ARRAY, ROUND_PRIMES};
use crate::tools::copy_array;

verus! {

/// The four alphabet operations in order: alpha, delta, theta, gamma.
pub open spec fn alphabet_spec(a: Seq<u16>) -> Seq<u16> {
    gamma_spec(theta_spec(delta_spec(alpha_spec(a))))
}

/// The permutation step after round prime `pnum`: four distinct positions
/// starting at `pnum mod 4` receive, in turn, a masked xor, an and with a
/// round prime, a masked xor and an or; masks and primes are chosen by words
/// of the register.
pub open spec fn bahman_spec(a: Seq<u16>, pnum: u16) -> Seq<u16> {
    let cica = (pnum % 4) as int;
    let mica = (cica + 1) % 4;
    let nica = (mica + 2) % 4;
    let wica = (nica + 3) % 4;
    let mianju = (a[cica] % 4) as int;
    let mianja = (a[mica] % 4) as int;
    let sosu = (a[nica] % 90) as int;
    let sosa = (a[wica] % 90) as int;
    let c1 = a.update(cica, a[cica] ^ ((a[mica] << cica) & MASKS_ARRAY[mianju]));
    let c2 = c1.update(wica, c1[wica] & (c1[wica] ^ ROUND_PRIMES[sosu]));
    let c3 = c2.update(nica, c2[nica] ^ ((c2[cica] << (wica * 2)) & MASKS_ARRAY[mianja]));
    c3.update(mica, c3[mica] | (c3[nica] | ROUND_PRIMES[sosa]))
}

/// Each word reduced modulo `p`.
pub open spec fn reduce_spec(a: Seq<u16>, p: u16) -> Seq<u16> {
    seq![a[0] % p, a[1] % p, a[2] % p, a[3] % p]
}

/// The register after the first `k` round primes: each reduces the four
/// words and is followed by the permutation step.
pub open spec fn prime_steps(a: Seq<u16>, k: nat) -> Seq<u16>
    decreases k,
{
    if k == 0 {
        a
    } else {
        let p = ROUND_PRIMES[k - 1];
        bahman_spec(reduce_spec(prime_steps(a, (k - 1) as nat), p), p)
    }
}

/// The register after the first `k` swaps of the shuffle.
pub open spec fn swaps_spec(a: Seq<u16>, k: nat) -> Seq<u16>
    decreases k,
{
    if k == 0 {
        a
    } else {
        let b = swaps_spec(a, (k - 1) as nat);
        let (i, j) = COMB_BIONOM[k - 1];
        b.update(i as int, b[j as int]).update(j as int, b[i as int])
    }
}

/// Word-wise addition modulo 2^16.
pub open spec fn add_spec(f: Seq<u16>, t: Seq<u16>) -> Seq<u16> {
    seq![
        ((f[0] + t[0]) % 0x10000) as u16,
        ((f[1] + t[1]) % 0x10000) as u16,
        ((f[2] + t[2]) % 0x10000) as u16,
        ((f[3] + t[3]) % 0x10000) as u16,
    ]
}

/// The four words in reverse order.
pub open spec fn reversed(a: Seq<u16>) -> Seq<u16> {
    seq![a[3], a[2], a[1], a[0]]
}

/// One full round on the state.
pub open spec fn one_round_spec(f: Seq<u16>) -> Seq<u16> {
    add_spec(f, reversed(prime_steps(alphabet_spec(f), 90)))
}

pub fn apply_alphabet_operation(temp_array: &[u16]) -> (r: [u16; 4])
    requires
        temp_array@.len() == 4,
    ensures
        r@ == alphabet_spec(temp_array@),
{
    let mut c = copy_array(temp_array);
    c = alpha(&c);
    c = delta(&c);
    c = theta(&c);
    c = gamma(&c);
    c
}

/// The permutation step that follows each round prime.
pub fn apply_bahman(temp_array: &[u16], pnum: u16) -> (r: [u16; 4])
    requires
        temp_array@.len() == 4,
    ensures
        r@ == bahman_spec(temp_array@, pnum),
{
    let mut c = copy_array(temp_array);
    let cica: usize = (pnum % 4) as usize;
    let mica: usize = (cica + 1) % 4;
    let nica: usize = (mica + 2) % 4;
    let wica: usize = (nica + 3) % 4;

    let mianju: usize = (temp_array[cica] % 4) as usize;
    let mianja: usize = (temp_array[mica] % 4) as usize;
    let sosu: usize = (temp_array[nica] % 90) as usize;
    let sosa: usize = (temp_array[wica] % 90) as usize;

    c[cica] = c[cica] ^ ((c[mica] << cica) & MASKS_ARRAY[mianju]);
    c[wica] = c[wica] & (c[wica] ^ ROUND_PRIMES[sosu]);
    c[nica] = c[nica] ^ ((c[cica] << (wica * 2)) & MASKS_ARRAY[mianja]);
    c[mica] = c[mica] | (c[nica] | ROUND_PRIMES[sosa]);
    assert(c@ =~= bahman_spec(temp_array@, pnum));
    c
}

/// Prime diffusion: for each round prime in order, reduce the register by it
/// and apply the permutation step.
pub fn apply_prime(temp_array: &[u16]) -> (r: [u16; 4])
    requires
        temp_array@.len() == 4,
    ensures
        r@ == prime_steps(temp_array@, 90),
{
    let mut c = copy_array(temp_array);
    assert(c@ =~= temp_array@);
    let mut i: usize = 0;
    while i < 90
        invariant
            i <= 90,
            c@ == prime_steps(temp_array@, i as nat),
        decreases 90 - i,
    {
        let p = ROUND_PRIMES[i];
        c[0] = c[0] % p;
        c[1] = c[1] % p;
        c[2] = c[2] % p;
        c[3] = c[3] % p;
        assert(c@ =~= reduce_spec(prime_steps(temp_array@, i as nat), p));
        c = apply_bahman(&c, p);
        i = i + 1;
    }
    c
}

/// Adds the working register into the state, word by word, modulo 2^16.
pub fn apply_add_temp_to_facts(factor_array: &[u16], temp_array: &[u16]) -> (r: [u16; 4])
    requires
        factor_array@.len() == 4,
        temp_array@.len() == 4,
    ensures
        r@ == add_spec(factor_array@, temp_array@),
{
    let mut f = copy_array(factor_array);
    f[0] = tasu(f[0], temp_array[0]);
    f[1] = tasu(f[1], temp_array[1]);
    f[2] = tasu(f[2], temp_array[2]);
    f[3] = tasu(f[3], temp_array[3]);
    assert(f@ =~= add_spec(factor_array@, temp_array@));
    f
}

/// The fixed shuffle: the six swaps of all position pairs, which together
/// reverse the register.
pub fn apply_shuffle(temp_array: &[u16]) -> (r: [u16; 4])
    requires
        temp_array@.len() == 4,
    ensures
        r@ == reversed(temp_array@),
{
    let mut c = copy_array(temp_array);
    assert(c@ =~= temp_array@);
    let mut i: usize = 0;
    while i < 6
        invariant
            i <= 6,
            c@.len() == 4,
            c@ == swaps_spec(temp_array@, i as nat),
        decreases 6 - i,
    {
        let (iof, iwith) = COMB_BIONOM[i];
        let tmp = c[iof];
        c[iof] = c[iwith];
        c[iwith] = tmp;
        i = i + 1;
        assert(c@ =~= swaps_spec(temp_array@, i as nat));
    }
    proof {
        reveal_with_fuel(swaps_spec, 7);
        assert(swaps_spec(temp_array@, 6) =~= reversed(temp_array@));
    }
    c
}

/// One round: alphabet operations, prime diffusion and shuffle on a working
/// copy of the state, which is then added into the state.
pub fn one_round(factor_array: &[u16]) -> (r: [u16; 4])
    requires
        factor_array@.len() == 4,
    ensures
        r@ == one_round_spec(factor_array@),
{
    let mut temp_array: [u16; 4] = copy_array(factor_array);
    assert(temp_array@ =~= factor_array@);
    temp_array = apply_alphabet_operation(&temp_array);
    temp_array = apply_prime(&temp_array);
    temp_array = apply_shuffle(&temp_array);
    apply_add_temp_to_facts(factor_array, &temp_array)
}

} // verus!
