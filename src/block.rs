//! The block processor: each portion of a block is injected into the state
//! before each of its 31 rounds.
use vstd::prelude::*;
use crate::ops::{byte_prime, deca, get_8b_prime, sum_spec, tamaam};
use crate::round::{one_round, one_round_spec};
use crate::tools::copy_array;

verus! {

/// Number of rounds each portion goes through.
pub const ROUND_NUM: u16 = 31;

/// The toggle masks, rotated indices and corrective terms of byte injection.
pub struct Injection {
    pub tmt: u16,
    pub dca: u16,
    pub tmt_odd_factor: u16,
    pub dca_odd_factor: u16,
    pub ng: int,
    pub chu: int,
    pub yo: int,
    pub eo: int,
    pub zam: u16,
    pub pez: u16,
    pub dit: u16,
    pub kit: u16,
}

/// The toggle masks, rotated indices and corrective terms that `portion`
/// yields before round `index`.
pub open spec fn injection(portion: Seq<u16>, index: u16) -> Injection {
    let tmt = (sum_spec(portion, 4) / 4) as u16;
    let dca = (((sum_spec(portion, 4) + 1) / 2) % 0x10000) as u16;
    let ng = (portion[0] + index) % 4;
    let chu = (portion[1] + index) % 4;
    let yo = (portion[2] + index) % 4;
    let eo = (portion[3] + index) % 4;
    Injection {
        tmt,
        dca,
        tmt_odd_factor: 0xffff ^ (((tmt as int) % (dca + 2)) as u16),
        dca_odd_factor: 0xffff ^ (((dca as int) % (tmt + 3)) as u16),
        ng,
        chu,
        yo,
        eo,
        zam: portion[0] % byte_prime(portion[chu]),
        pez: portion[1] % byte_prime(portion[yo]),
        dit: portion[2] % byte_prime(portion[eo]),
        kit: portion[3] % byte_prime(portion[ng]),
    }
}

/// The four xor updates of byte injection, at the rotated indices.
pub open spec fn inject_xor_spec(f: Seq<u16>, portion: Seq<u16>, v: Injection) -> Seq<u16> {
    let (ng, chu, yo, eo) = (v.ng, v.chu, v.yo, v.eo);
    let c1 = f.update(ng, f[ng] ^ ((((portion[eo] >> chu) | v.tmt) ^ v.dca_odd_factor) | v.zam));
    let c2 = c1.update(chu, c1[chu] ^ (((portion[yo] & v.dca) ^ v.tmt_odd_factor) ^ v.pez));
    let c3 = c2.update(yo, c2[yo] ^ (((portion[chu] ^ v.tmt) ^ v.dca_odd_factor) | v.dit));
    c3.update(eo, c3[eo] ^ ((((portion[ng] >> yo) | v.dca) ^ v.tmt_odd_factor) ^ v.kit))
}

/// The four adjustments of byte injection that follow the xor updates.
pub open spec fn inject_shift_spec(c: Seq<u16>, portion: Seq<u16>, v: Injection) -> Seq<u16> {
    seq![
        c[0] >> (portion[3] % ((v.ng + 1) as u16)),
        c[1] >> (portion[2] % ((v.chu + 1) as u16)),
        c[2] ^ (portion[1] >> (v.dca % 2)),
        c[3] >> (portion[0] % ((v.eo + 1) as u16)),
    ]
}

/// Byte injection: mixes a portion into the state before round `index`.
pub open spec fn apply_bytes_spec(f: Seq<u16>, portion: Seq<u16>, index: u16) -> Seq<u16> {
    let v = injection(portion, index);
    inject_shift_spec(inject_xor_spec(f, portion, v), portion, v)
}

/// The state after the first `m` rounds on one portion, each preceded by
/// byte injection with its round index.
pub open spec fn rounds_spec(f: Seq<u16>, portion: Seq<u16>, m: nat) -> Seq<u16>
    decreases m,
{
    if m == 0 {
        f
    } else {
        let g = rounds_spec(f, portion, (m - 1) as nat);
        one_round_spec(apply_bytes_spec(g, portion, (m - 1) as u16))
    }
}

/// The `p`-th four-word portion of a block.
pub open spec fn portion_of(block: Seq<u16>, p: nat) -> Seq<u16> {
    block.subrange(4 * (p as int), 4 * (p as int) + 4)
}

/// The state after the first `p` portions of a block (four portions to each of
/// its four chunks, taken in order).
pub open spec fn portions_spec(f: Seq<u16>, block: Seq<u16>, p: nat) -> Seq<u16>
    decreases p,
{
    if p == 0 {
        f
    } else {
        rounds_spec(portions_spec(f, block, (p - 1) as nat), portion_of(block, (p - 1) as nat), 31)
    }
}

/// The state after one block of 64 words.
#[verifier::opaque]
pub open spec fn process_block_spec(f: Seq<u16>, block: Seq<u16>) -> Seq<u16> {
    portions_spec(f, block, 16)
}

/// `0xffff ^ (a mod (b + k))`, the toggle mask of byte injection.
fn odd_factor(a: u16, b: u16, k: u32) -> (r: u16)
    requires
        2 <= k <= 3,
    ensures
        r == 0xffff ^ (((a as int) % (b + k)) as u16),
{
    0xffff ^ (((a as u32) % (b as u32 + k)) as u16)
}

/// `(w + index) mod 4`, a rotated register position.
fn rotated_index(w: u16, index: u16) -> (r: usize)
    ensures
        r == (w + index) % 4,
{
    ((w as u32 + index as u32) % 4) as usize
}

/// Byte injection of `portion` into the state before round `index`.
pub fn apply_bytes(factor_array: &[u16], portion: &[u16], index: u16) -> (r: [u16; 4])
    requires
        factor_array@.len() == 4,
        portion@.len() == 4,
        index < ROUND_NUM,
    ensures
        r@ == apply_bytes_spec(factor_array@, portion@, index),
{
    let tmt = tamaam(portion);
    let dca = deca(portion);
    let tmt_odd_factor = odd_factor(tmt, dca, 2);
    let dca_odd_factor = odd_factor(dca, tmt, 3);

    let ng = rotated_index(portion[0], index);
    let chu = rotated_index(portion[1], index);
    let yo = rotated_index(portion[2], index);
    let eo = rotated_index(portion[3], index);

    let zam = portion[0] % get_8b_prime(portion[chu]);
    let pez = portion[1] % get_8b_prime(portion[yo]);
    let dit = portion[2] % get_8b_prime(portion[eo]);
    let kit = portion[3] % get_8b_prime(portion[ng]);

    let ghost v = injection(portion@, index);
    assert(v.tmt == tmt && v.dca == dca);
    assert(v.tmt_odd_factor == tmt_odd_factor && v.dca_odd_factor == dca_odd_factor);
    assert(v.ng == ng && v.chu == chu && v.yo == yo && v.eo == eo);
    assert(v.zam == zam && v.pez == pez && v.dit == dit && v.kit == kit);
    let mut c = copy_array(factor_array);
    c[ng] = c[ng] ^ ((((portion[eo] >> chu) | tmt) ^ dca_odd_factor) | zam);
    c[chu] = c[chu] ^ (((portion[yo] & dca) ^ tmt_odd_factor) ^ pez);
    c[yo] = c[yo] ^ (((portion[chu] ^ tmt) ^ dca_odd_factor) | dit);
    c[eo] = c[eo] ^ ((((portion[ng] >> yo) | dca) ^ tmt_odd_factor) ^ kit);

    assert(c@ =~= inject_xor_spec(factor_array@, portion@, v));
    let ghost mid = c@;

    c[0] = c[0] >> (portion[3] % ((ng + 1) as u16));
    c[1] = c[1] >> (portion[2] % ((chu + 1) as u16));
    c[2] = c[2] ^ (portion[1] >> (dca % 2));
    c[3] = c[3] >> (portion[0] % ((eo + 1) as u16));
    assert(c@ =~= inject_shift_spec(mid, portion@, v));
    c
}

/// Runs one block through the state: each of its 16 portions, in order, gets
/// 31 rounds, each preceded by byte injection.
pub fn process_block(factor_array: &[u16], block: &[u16]) -> (r: [u16; 4])
    requires
        factor_array@.len() == 4,
        block@.len() == 64,
    ensures
        r@ == process_block_spec(factor_array@, block@),
{
    reveal(process_block_spec);
    let mut f = copy_array(factor_array);
    assert(f@ =~= factor_array@);
    let mut chunk: usize = 0;
    while chunk < 4
        invariant
            chunk <= 4,
            block@.len() == 64,
            f@ == portions_spec(factor_array@, block@, 4 * chunk as nat),
        decreases 4 - chunk,
    {
        let mut q: usize = 0;
        while q < 4
            invariant
                chunk < 4,
                q <= 4,
                block@.len() == 64,
                f@ == portions_spec(factor_array@, block@, (4 * chunk + q) as nat),
            decreases 4 - q,
        {
            let j: usize = 16 * chunk + 4 * q;
            let portion: [u16; 4] = [block[j], block[j + 1], block[j + 2], block[j + 3]];
            assert(portion@ =~= portion_of(block@, (4 * chunk + q) as nat));
            let ghost start = f@;
            let mut m: u16 = 0;
            while m < ROUND_NUM
                invariant
                    m <= ROUND_NUM,
                    portion@.len() == 4,
                    f@ == rounds_spec(start, portion@, m as nat),
                decreases ROUND_NUM - m,
            {
                f = apply_bytes(&f, &portion, m);
                f = one_round(&f);
                m = m + 1;
            }
            q = q + 1;
        }
        chunk = chunk + 1;
    }
    f
}

} // verus!
