//! The four alphabet operations that open every round: alpha, delta, theta
//! and gamma, each a pure map from a four-word register to a new one.
use vstd::prelude::*;
use crate::ops::{byte_prime, dot_spec, get_8b_prime, gorda, gorda_spec, centum, satum, products_fit};
use crate::tables::{BYTE_PRIMES, MAGIC_PRIMES, SINGLE_DIGIT_PRIMES};
use crate::tools::{argmax_spec, argmin_spec, copy_array, log2_spec, log2n, max_and_argmax, min_and_argmin};

verus! {

/// The register after `alpha`: with `theh` and `gaaf` drawn from the low byte
/// of `a[0] ^ a[1]` and the high byte of `a[2] ^ a[3]`, words 0, 1 and 2 are
/// shifted right.
pub open spec fn alpha_spec(a: Seq<u16>) -> Seq<u16> {
    let aleph = (a[0] ^ a[1]) & 0x00ff;
    let daal = (a[2] ^ a[3]) & 0xff00;
    let theh = (aleph | daal) % BYTE_PRIMES[0];
    let gaaf = (aleph ^ daal) % BYTE_PRIMES[1];
    seq![a[0] >> theh, a[1] >> ((theh + gaaf) % 2 + 1), a[2] >> gaaf, a[3]]
}

/// First alphabet operation: shifts words 0, 1 and 2 right by amounts drawn
/// from xors of the register's halves.
pub fn alpha(temp_array: &[u16]) -> (r: [u16; 4])
    requires
        temp_array@.len() == 4,
    ensures
        r@ == alpha_spec(temp_array@),
{
    let aleph: u16 = (temp_array[0] ^ temp_array[1]) & 0x00ff;
    let daal: u16 = (temp_array[2] ^ temp_array[3]) & 0xff00;
    let theh: u16 = (aleph | daal) % BYTE_PRIMES[0];
    let gaaf: u16 = (aleph ^ daal) % BYTE_PRIMES[1];

    let mut c = copy_array(temp_array);
    c[0] = c[0] >> theh;
    c[1] = c[1] >> ((theh + gaaf) % 2 + 1);
    c[2] = c[2] >> gaaf;
    assert(c@ =~= alpha_spec(temp_array@));
    c
}

/// One refinement pass over the four intermediates of `delta`.
pub open spec fn delta_pass(t: (u16, u16, u16, u16)) -> (u16, u16, u16, u16) {
    let (alaf, dalat, tit, gaman) = t;
    let alaf2 = alaf >> SINGLE_DIGIT_PRIMES[(dalat % 3) as int];
    let dalat2 = gorda_spec(dalat, 2);
    let tit2 = tit >> SINGLE_DIGIT_PRIMES[(gaman % 3) as int];
    let gaman2 = gaman ^ ((alaf2 ^ 0x00ff) >> SINGLE_DIGIT_PRIMES[(tit2 % 3) as int]);
    (alaf2, dalat2, tit2, gaman2)
}

/// The intermediates of `delta` after `k` refinement passes.
pub open spec fn delta_passes(t: (u16, u16, u16, u16), k: nat) -> (u16, u16, u16, u16)
    decreases k,
{
    if k == 0 {
        t
    } else {
        delta_pass(delta_passes(t, (k - 1) as nat))
    }
}

/// The four intermediates of `delta` before refinement: each word, xored or
/// masked with a fixed word, modulo the small prime it selects.
pub open spec fn delta_start(a: Seq<u16>) -> (u16, u16, u16, u16) {
    (
        (a[0] ^ 0xfff0) % byte_prime(a[0]),
        (a[1] ^ 0xf00f) % byte_prime(a[1]),
        (a[2] & 0x0fff) % byte_prime(a[2]),
        (a[3] & 0xff00) % byte_prime(a[3]),
    )
}

/// The register after `delta`: words 1, 2 and 3 xored with terms of the
/// refined intermediates.
pub open spec fn delta_spec(a: Seq<u16>) -> Seq<u16> {
    let (alaf, dalat, tit, gaman) = delta_passes(delta_start(a), 4);
    seq![
        a[0],
        a[1] ^ (a[2] % MAGIC_PRIMES[(alaf % 2) as int]),
        a[2] ^ ((alaf + tit) as u16),
        a[3] ^ ((tit + gaman) as u16),
    ]
}

proof fn lemma_byte_bounds(x: u16, y: u16, s: u16)
    requires
        x < 256,
        y < 256,
    ensures
        x ^ y < 256,
        x >> s <= x,
        (x ^ 0x00ff) >> s < 256,
{
    assert(x ^ y < 256) by (bit_vector)
        requires
            x < 256,
            y < 256,
    ;
    assert(x >> s <= x) by (bit_vector);
    assert((x ^ 0x00ff) >> s < 256) by (bit_vector)
        requires
            x < 256,
    ;
}

/// Second alphabet operation: four intermediates reduced by the small primes
/// the words select, refined in four passes, then xored into words 1, 2 and 3.
pub fn delta(temp_array: &[u16]) -> (r: [u16; 4])
    requires
        temp_array@.len() == 4,
    ensures
        r@ == delta_spec(temp_array@),
{
    let ghost start = delta_start(temp_array@);
    let mut alaf: u16 = (temp_array[0] ^ 0xfff0) % get_8b_prime(temp_array[0]);
    let mut dalat: u16 = (temp_array[1] ^ 0xf00f) % get_8b_prime(temp_array[1]);
    let mut tit: u16 = (temp_array[2] & 0x0fff) % get_8b_prime(temp_array[2]);
    let mut gaman: u16 = (temp_array[3] & 0xff00) % get_8b_prime(temp_array[3]);

    let mut i: usize = 0;
    while i < 4
        invariant
            i <= 4,
            (alaf, dalat, tit, gaman) == delta_passes(start, i as nat),
            alaf < 256,
            tit < 256,
            gaman < 256,
        decreases 4 - i,
    {
        let s1 = SINGLE_DIGIT_PRIMES[(dalat % 3) as usize];
        proof {
            lemma_byte_bounds(alaf, 0, s1);
        }
        alaf = alaf >> s1;
        dalat = gorda(dalat, 2);
        let s2 = SINGLE_DIGIT_PRIMES[(gaman % 3) as usize];
        proof {
            lemma_byte_bounds(tit, 0, s2);
        }
        tit = tit >> s2;
        let s3 = SINGLE_DIGIT_PRIMES[(tit % 3) as usize];
        let m = (alaf ^ 0x00ff) >> s3;
        proof {
            lemma_byte_bounds(alaf, 0, s3);
            lemma_byte_bounds(gaman, m, 0);
        }
        gaman = gaman ^ m;
        i = i + 1;
    }

    let mut c = copy_array(temp_array);
    c[1] = c[1] ^ (temp_array[2] % MAGIC_PRIMES[(alaf % 2) as usize]);
    c[2] = c[2] ^ (alaf + tit);
    c[3] = c[3] ^ (tit + gaman);
    assert(c@ =~= delta_spec(temp_array@));
    c
}

/// The parity bit of each of the four words.
pub open spec fn parities(a: Seq<u16>) -> Seq<u16> {
    seq![a[0] % 2, a[1] % 2, a[2] % 2, a[3] % 2]
}

/// The register after `theta`: words 0 and 3 xored with masked, shifted forms
/// of the parity-weighted centroid and median-like value.
pub open spec fn theta_spec(a: Seq<u16>) -> Seq<u16> {
    let p = parities(a);
    let ctm = (dot_spec(a, p, 4) / 4) as u16;
    let stm = (((dot_spec(a, p, 4) + 1) / 2) % 0x10000) as u16;
    seq![
        a[0] ^ (((ctm >> p[3]) ^ 0x00ff) & 0x000f),
        a[1],
        a[2],
        a[3] ^ (((stm << p[0]) ^ 0xf0f0) & 0xf000),
    ]
}

proof fn lemma_parity_products_fit(a: Seq<u16>)
    requires
        a.len() >= 4,
    ensures
        products_fit(a, parities(a)),
{
    assert forall|i: int| 0 <= i < 4 implies #[trigger] a[i] * parities(a)[i] <= 0xffff by {
        let p = parities(a)[i];
        assert(p == 0 || p == 1);
        assert(a[i] * p <= 0xffff) by (nonlinear_arith)
            requires
                p == 0 || p == 1,
                a[i] <= 0xffff,
        ;
    }
}

/// Third alphabet operation: the parity-weighted centroid and median-like
/// value of the register, masked into words 0 and 3.
pub fn theta(temp_array: &[u16]) -> (r: [u16; 4])
    requires
        temp_array@.len() == 4,
    ensures
        r@ == theta_spec(temp_array@),
{
    let alef: u16 = temp_array[0] % 2;
    let dalet: u16 = temp_array[1] % 2;
    let tet: u16 = temp_array[2] % 2;
    let gimmel: u16 = temp_array[3] % 2;
    let weights: [u16; 4] = [alef, dalet, tet, gimmel];
    assert(weights@ =~= parities(temp_array@));
    proof {
        lemma_parity_products_fit(temp_array@);
    }

    let ctm: u16 = centum(temp_array, &weights);
    let stm: u16 = satum(temp_array, &weights);

    let mut c = copy_array(temp_array);
    c[0] = c[0] ^ (((ctm >> gimmel) ^ 0x00ff) & 0x000f);
    c[3] = c[3] ^ (((stm << alef) ^ 0xf0f0) & 0xf000);
    assert(c@ =~= theta_spec(temp_array@));
    c
}

/// The register after `gamma`. Positions come from where the first smallest
/// and first largest words sit; the updates apply in order, so two of them may
/// fall on one word.
pub open spec fn gamma_spec(a: Seq<u16>) -> Seq<u16> {
    let argmin = argmin_spec(a, 4) as int;
    let argmax = argmax_spec(a, 4) as int;
    let mmin = a[argmin];
    let mmax = a[argmax];
    let ay = argmin % 2;
    let dee = (argmax + 2) % 4;
    let thorn = argmin;
    let gee = argmax;
    let alaph = a[ay] % byte_prime(a[thorn]);
    let dalath = (byte_prime(mmax) ^ 0x0f0f) % byte_prime(mmin);
    let teth = mmax % byte_prime(mmax);
    let gamal = a[dee] % byte_prime(((mmin + mmax) / 2) as u16);
    let c1 = a.update(ay, a[ay] >> ((alaph ^ 0x00f0) % 16));
    let c2 = c1.update(dee, c1[dee] >> ((gamal ^ 0xf000) % ((mmax % 2 + 1) as u16)));
    let c3 = c2.update(thorn, c2[thorn] ^ ((log2_spec(dalath as nat) as u16) & 0x0fff));
    c3.update(gee, c3[gee] ^ ((log2_spec(teth as nat) as u16) >> (gamal % 2 + 1)))
}

/// Fourth alphabet operation: positions drawn from where the smallest and
/// largest words sit are shifted right or xored with logarithms of
/// prime-reduced extremes.
pub fn gamma(temp_array: &[u16]) -> (r: [u16; 4])
    requires
        temp_array@.len() == 4,
    ensures
        r@ == gamma_spec(temp_array@),
{
    let ghost a = temp_array@;
    let t = copy_array(temp_array);
    assert(t@ =~= a);
    let (mmin, argmin) = min_and_argmin(&t, 4);
    let (mmax, argmax) = max_and_argmax(&t, 4);
    let ay: usize = argmin & 1;
    let dee: usize = argmax ^ 2;
    let thorn: usize = argmin & 3;
    let gee: usize = argmax ^ 0;
    assert(ay == argmin % 2 && thorn == argmin) by (bit_vector)
        requires
            ay == argmin & 1,
            thorn == argmin & 3,
            argmin < 4,
    ;
    assert(dee == (argmax + 2) % 4 && gee == argmax) by (bit_vector)
        requires
            dee == argmax ^ 2,
            gee == argmax ^ 0,
            argmax < 4,
    ;

    let alaph: u16 = t[ay] % get_8b_prime(t[thorn]);
    let dalath: u16 = (get_8b_prime(mmax) ^ 0x0f0f) % get_8b_prime(mmin);
    let teth: u16 = mmax % get_8b_prime(mmax);
    let gamal: u16 = t[dee] % get_8b_prime((((mmin as u32) + (mmax as u32)) / 2) as u16);

    let mut c = t;
    c[ay] = c[ay] >> ((alaph ^ 0x00f0) % 16);
    c[dee] = c[dee] >> ((gamal ^ 0xf000) % (mmax % 2 + 1));
    c[thorn] = c[thorn] ^ (log2n(dalath) & 0x0fff);
    c[gee] = c[gee] ^ (log2n(teth) >> (gamal % 2 + 1));
    assert(c@ =~= gamma_spec(a));
    c
}

} // verus!
