//! What holds of every digest: determinism, fixed widths, consistent views,
//! and the digest of the empty message.
use vstd::prelude::*;
use crate::convert::lemma_encode_len;
use crate::digest::{hash_words, is_digest_of, PoxDigest};
use crate::pad::octopad_spec;
use crate::tables::{
    BIN_CHARS, DUO_CHARS, HEX_CHARS, INITIAL_PRIMES, OCT_CHARS, SEN_CHARS, SEX_CHARS, TET_CHARS,
    VIG_CHARS,
};

verus! {

/// Two digests agree in every rendering.
pub open spec fn same_digest(d1: PoxDigest, d2: PoxDigest) -> bool {
    &&& d1.sexdigest@ == d2.sexdigest@
    &&& d1.vigdigest@ == d2.vigdigest@
    &&& d1.hexdigest@ == d2.hexdigest@
    &&& d1.tetdigest@ == d2.tetdigest@
    &&& d1.duodigest@ == d2.duodigest@
    &&& d1.octdigest@ == d2.octdigest@
    &&& d1.sendigest@ == d2.sendigest@
    &&& d1.bindigest@ == d2.bindigest@
    &&& d1.bytes@ == d2.bytes@
    &&& d1.words@ == d2.words@
    &&& d1.doubles@ == d2.doubles@
    &&& d1.quad == d2.quad
}

/// Hashing is deterministic: two digests of the same message agree in every
/// rendering.
pub proof fn lemma_hash_deterministic(message: Seq<u8>, d1: PoxDigest, d2: PoxDigest)
    requires
        is_digest_of(d1, message),
        is_digest_of(d2, message),
    ensures
        same_digest(d1, d2),
{
}

/// Every textual digest has four fields of its base's fixed width: 12
/// base-60 characters, 16 base-20, 16 hex, 20 base-14, 20 base-12, 24 octal,
/// 28 base-6 and 64 binary.
pub proof fn lemma_digest_widths(message: Seq<u8>, d: PoxDigest)
    requires
        is_digest_of(d, message),
    ensures
        d.sexdigest@.len() == 12,
        d.vigdigest@.len() == 16,
        d.hexdigest@.len() == 16,
        d.tetdigest@.len() == 20,
        d.duodigest@.len() == 20,
        d.octdigest@.len() == 24,
        d.sendigest@.len() == 28,
        d.bindigest@.len() == 64,
{
    let w = hash_words(message);
    lemma_encode_len(w, 60, 3, SEX_CHARS@);
    lemma_encode_len(w, 20, 4, VIG_CHARS@);
    lemma_encode_len(w, 16, 4, HEX_CHARS@);
    lemma_encode_len(w, 14, 5, TET_CHARS@);
    lemma_encode_len(w, 12, 5, DUO_CHARS@);
    lemma_encode_len(w, 8, 6, OCT_CHARS@);
    lemma_encode_len(w, 6, 7, SEN_CHARS@);
    lemma_encode_len(w, 2, 16, BIN_CHARS@);
}

/// The numeric views agree with the words: each word is its two bytes, low
/// first; each double packs two words, low first; the quad packs all four.
pub proof fn lemma_views_consistent(message: Seq<u8>, d: PoxDigest)
    requires
        is_digest_of(d, message),
    ensures
        forall|i: int|
            0 <= i < 4 ==> #[trigger] d.words[i] == (d.bytes[2 * i] as u16) | ((d.bytes[2 * i
                + 1] as u16) << 8u16),
        d.doubles[0] == (d.words[0] as u32) | ((d.words[1] as u32) << 16u32),
        d.doubles[1] == (d.words[2] as u32) | ((d.words[3] as u32) << 16u32),
        d.quad == (d.words[0] as u64) | ((d.words[1] as u64) << 16u64) | ((d.words[2] as u64)
            << 32u64) | ((d.words[3] as u64) << 48u64),
{
    assert forall|i: int| 0 <= i < 4 implies #[trigger] d.words[i] == (d.bytes[2 * i] as u16) | ((
    d.bytes[2 * i + 1] as u16) << 8u16) by {
        let w = d.words[i];
        let lo = d.bytes[2 * i];
        let hi = d.bytes[2 * i + 1];
        assert(lo == w % 256 && hi == w / 256);
        assert(w == (lo as u16) | ((hi as u16) << 8u16)) by (bit_vector)
            requires
                lo == w % 256,
                hi == w / 256,
        ;
    }
    let (a, b, c, e) = (d.words[0], d.words[1], d.words[2], d.words[3]);
    let (x, y) = (d.doubles[0], d.doubles[1]);
    assert(x == (a as u32) | ((b as u32) << 16u32)) by (bit_vector)
        requires
            x == a + b * 0x10000,
    ;
    assert(y == (c as u32) | ((e as u32) << 16u32)) by (bit_vector)
        requires
            y == c + e * 0x10000,
    ;
    let q = d.quad;
    assert(q == (a as u64) | ((b as u64) << 16u64) | ((c as u64) << 32u64) | ((e as u64) << 48u64))
        by (bit_vector)
        requires
            q == a + b * 0x10000 + c * 0x1_0000_0000 + e * 0x1_0000_0000_0000,
    ;
}

/// The empty message has no blocks to mix: its digest renders the initial
/// primes unchanged.
pub proof fn lemma_empty_message(d: PoxDigest)
    requires
        is_digest_of(d, Seq::empty()),
    ensures
        d.words@ == INITIAL_PRIMES@,
{
    assert(octopad_spec(Seq::<u8>::empty()) =~= Seq::<u16>::empty());
}

} // verus!
