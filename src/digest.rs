//! The digest record and the hash of a whole message.
use vstd::prelude::*;
use vstd::string::StringExecFns;
use crate::block::{process_block, process_block_spec};
use crate::convert::{
    bytes_spec, doubles_spec, encode_spec, lemma_encode_len, quad_spec, word_array_to_bin_digest,
    word_array_to_byte_array, word_array_to_double_array, word_array_to_duo_digest,
    word_array_to_hex_digest, word_array_to_oct_digest, word_array_to_quad,
    word_array_to_sen_digest, word_array_to_sex_digest, word_array_to_tet_digest,
    word_array_to_vig_digest,
};
use crate::pad::{lemma_octopad_len, octopad, octopad_spec, BLOCK_NUM};
use crate::tables::{
    BIN_CHARS, DUO_CHARS, HEX_CHARS, INITIAL_PRIMES, OCT_CHARS, SEN_CHARS, SEX_CHARS, TET_CHARS,
    VIG_CHARS,
};

verus! {

/// Every rendering of a final state.
#[derive(Clone, Debug)]
pub struct PoxDigest {
    pub sexdigest: String,
    pub vigdigest: String,
    pub hexdigest: String,
    pub tetdigest: String,
    pub duodigest: String,
    pub octdigest: String,
    pub sendigest: String,
    pub bindigest: String,
    pub bytes: [u8; 8],
    pub words: [u16; 4],
    pub doubles: [u32; 2],
    pub quad: u64,
}

impl Default for PoxDigest {
    /// A digest not yet computed: every text reads `unset`, every number is zero.
    fn default() -> (r: Self)
        ensures
            r.sexdigest@ == "unset"@,
            r.vigdigest@ == "unset"@,
            r.hexdigest@ == "unset"@,
            r.tetdigest@ == "unset"@,
            r.duodigest@ == "unset"@,
            r.octdigest@ == "unset"@,
            r.sendigest@ == "unset"@,
            r.bindigest@ == "unset"@,
            r.bytes@ == seq![0u8; 8],
            r.words@ == seq![0u16; 4],
            r.doubles@ == seq![0u32; 2],
            r.quad == 0,
    {
        let r = PoxDigest {
            sexdigest: String::from_str("unset"),
            vigdigest: String::from_str("unset"),
            hexdigest: String::from_str("unset"),
            tetdigest: String::from_str("unset"),
            duodigest: String::from_str("unset"),
            octdigest: String::from_str("unset"),
            sendigest: String::from_str("unset"),
            bindigest: String::from_str("unset"),
            bytes: [0u8; 8],
            words: [0u16; 4],
            doubles: [0u32; 2],
            quad: 0,
        };
        assert(r.bytes@ =~= seq![0u8; 8]);
        assert(r.words@ =~= seq![0u16; 4]);
        assert(r.doubles@ =~= seq![0u32; 2]);
        r
    }
}

/// The state after the first `k` blocks of a padded message.
pub open spec fn blocks_spec(f: Seq<u16>, padded: Seq<u16>, k: nat) -> Seq<u16>
    decreases k,
{
    if k == 0 {
        f
    } else {
        let g = blocks_spec(f, padded, (k - 1) as nat);
        process_block_spec(g, padded.subrange(64 * (k - 1), 64 * (k as int)))
    }
}

/// The final state for a message: the initial primes, run through every block
/// of the padded message in order.
pub open spec fn hash_words(message: Seq<u8>) -> Seq<u16> {
    let padded = octopad_spec(message);
    blocks_spec(INITIAL_PRIMES@, padded, padded.len() / 64)
}

/// `d` renders the four words `w` in every form.
pub open spec fn renders(d: PoxDigest, w: Seq<u16>) -> bool {
    &&& d.words@ == w
    &&& d.sexdigest@ == encode_spec(w, 60, 3, SEX_CHARS@)
    &&& d.vigdigest@ == encode_spec(w, 20, 4, VIG_CHARS@)
    &&& d.hexdigest@ == encode_spec(w, 16, 4, HEX_CHARS@)
    &&& d.tetdigest@ == encode_spec(w, 14, 5, TET_CHARS@)
    &&& d.duodigest@ == encode_spec(w, 12, 5, DUO_CHARS@)
    &&& d.octdigest@ == encode_spec(w, 8, 6, OCT_CHARS@)
    &&& d.sendigest@ == encode_spec(w, 6, 7, SEN_CHARS@)
    &&& d.bindigest@ == encode_spec(w, 2, 16, BIN_CHARS@)
    &&& d.bytes@ == bytes_spec(w)
    &&& d.doubles@ == doubles_spec(w)
    &&& d.quad == quad_spec(w)
}

/// `d` is the digest of `message`.
pub open spec fn is_digest_of(d: PoxDigest, message: Seq<u8>) -> bool {
    renders(d, hash_words(message))
}

/// Hashes `message`. The empty message has no blocks, so its digest renders
/// the initial primes.
pub fn pox_hash(message: &Vec<u8>) -> (r: PoxDigest)
    ensures
        is_digest_of(r, message@),
{
    let padded_u16 = octopad(message);
    proof {
        lemma_octopad_len(message@);
    }
    let mut factor_array: [u16; 4] = INITIAL_PRIMES;
    let nblocks: usize = padded_u16.len() / BLOCK_NUM;
    assert(padded_u16@.len() == 64 * nblocks);
    let mut k: usize = 0;
    while k < nblocks
        invariant
            padded_u16@ == octopad_spec(message@),
            padded_u16@.len() == 64 * nblocks,
            64 * nblocks <= usize::MAX,
            nblocks == padded_u16@.len() / 64,
            k <= nblocks,
            factor_array@ == blocks_spec(INITIAL_PRIMES@, padded_u16@, k as nat),
        decreases nblocks - k,
    {
        let start: usize = k * BLOCK_NUM;
        let block = &padded_u16.as_slice()[start..start + BLOCK_NUM];
        factor_array = process_block(&factor_array, block);
        k = k + 1;
    }
    let sexdigest = word_array_to_sex_digest(&factor_array);
    let vigdigest = word_array_to_vig_digest(&factor_array);
    let hexdigest = word_array_to_hex_digest(&factor_array);
    let tetdigest = word_array_to_tet_digest(&factor_array);
    let duodigest = word_array_to_duo_digest(&factor_array);
    let octdigest = word_array_to_oct_digest(&factor_array);
    let sendigest = word_array_to_sen_digest(&factor_array);
    let bindigest = word_array_to_bin_digest(&factor_array);
    let bytes = word_array_to_byte_array(&factor_array);
    let words: [u16; 4] = [factor_array[0], factor_array[1], factor_array[2], factor_array[3]];
    assert(words@ =~= factor_array@);
    let doubles = word_array_to_double_array(&factor_array);
    let quad = word_array_to_quad(&factor_array);
    PoxDigest {
        sexdigest,
        vigdigest,
        hexdigest,
        tetdigest,
        duodigest,
        octdigest,
        sendigest,
        bindigest,
        bytes,
        words,
        doubles,
        quad,
    }
}

} // verus!
