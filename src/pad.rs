//! Content-driven padding of a message to whole blocks of 64 words.
use vstd::prelude::*;

verus! {

/// Number of words in a block.
pub const BLOCK_NUM: usize = 64;

/// Each byte widened to a word.
pub open spec fn widen(bytes: Seq<u8>) -> Seq<u16> {
    bytes.map_values(|b: u8| b as u16)
}

/// How many words bring a message of `len` words to a whole number of blocks.
pub open spec fn pad_count(len: nat) -> nat {
    if len % 64 == 0 {
        0
    } else {
        (64 - len % 64) as nat
    }
}

/// The next pad word for cursor `n`: the message word at `n mod len`,
/// xored with the low byte of `n`.
pub open spec fn pad_word(orig: Seq<u16>, n: nat) -> u16 {
    orig[(n % orig.len()) as int] ^ ((n % 256) as u16)
}

/// The `k` pad words that the walk appends from cursor `n`; after each word
/// the cursor advances by the word just appended.
pub open spec fn pad_walk(orig: Seq<u16>, n: nat, k: nat) -> Seq<u16>
    decreases k,
{
    if k == 0 || orig.len() == 0 {
        Seq::empty()
    } else {
        let w = pad_word(orig, n);
        seq![w] + pad_walk(orig, n + w as nat, (k - 1) as nat)
    }
}

/// The padded message: the widened bytes, then the content-driven pad words.
pub open spec fn octopad_spec(bytes: Seq<u8>) -> Seq<u16> {
    widen(bytes) + pad_walk(widen(bytes), bytes.len(), pad_count(bytes.len()))
}

proof fn lemma_pad_walk_len(orig: Seq<u16>, n: nat, k: nat)
    requires
        orig.len() > 0,
    ensures
        pad_walk(orig, n, k).len() == k,
    decreases k,
{
    if k > 0 {
        let w = pad_word(orig, n);
        lemma_pad_walk_len(orig, n + w as nat, (k - 1) as nat);
    }
}

proof fn lemma_pad_walk_bytes(orig: Seq<u16>, n: nat, k: nat)
    requires
        forall|i: int| 0 <= i < orig.len() ==> #[trigger] orig[i] < 256,
    ensures
        forall|i: int|
            0 <= i < pad_walk(orig, n, k).len() ==> #[trigger] pad_walk(orig, n, k)[i] < 256,
    decreases k,
{
    if k > 0 && orig.len() > 0 {
        let w = pad_word(orig, n);
        let a = orig[(n % orig.len()) as int];
        let b = (n % 256) as u16;
        assert(a ^ b < 256) by (bit_vector)
            requires
                a < 256,
                b < 256,
        ;
        lemma_pad_walk_bytes(orig, n + w as nat, (k - 1) as nat);
        let tail = pad_walk(orig, n + w as nat, (k - 1) as nat);
        assert forall|i: int| 0 <= i < pad_walk(orig, n, k).len() implies #[trigger] pad_walk(
            orig,
            n,
            k,
        )[i] < 256 by {
            if i > 0 {
                assert(pad_walk(orig, n, k)[i] == tail[i - 1]);
            }
        }
    }
}

/// Every padded word is a byte value: message bytes widened, and pad words
/// that xor a message byte with the cursor's low byte.
pub proof fn lemma_octopad_bytes(bytes: Seq<u8>)
    ensures
        forall|i: int| 0 <= i < octopad_spec(bytes).len() ==> #[trigger] octopad_spec(bytes)[i] < 256,
{
    let orig = widen(bytes);
    let tail = pad_walk(orig, bytes.len(), pad_count(bytes.len()));
    lemma_pad_walk_bytes(orig, bytes.len(), pad_count(bytes.len()));
    assert forall|i: int| 0 <= i < octopad_spec(bytes).len() implies #[trigger] octopad_spec(
        bytes,
    )[i] < 256 by {
        if i >= orig.len() {
            assert(octopad_spec(bytes)[i] == tail[i - orig.len()]);
        }
    }
}

/// The padded message has a whole number of blocks and starts with the message.
pub proof fn lemma_octopad_len(bytes: Seq<u8>)
    ensures
        octopad_spec(bytes).len() % 64 == 0,
        octopad_spec(bytes).len() >= bytes.len(),
        octopad_spec(bytes).len() < bytes.len() + 64,
        octopad_spec(bytes).subrange(0, bytes.len() as int) == widen(bytes),
{
    let orig = widen(bytes);
    let l = bytes.len();
    if l > 0 {
        lemma_pad_walk_len(orig, l, pad_count(l));
    } else {
        assert(pad_walk(orig, l, pad_count(l)) =~= Seq::<u16>::empty());
    }
    assert(octopad_spec(bytes).subrange(0, l as int) =~= orig);
}

/// The message widened to words and padded to a whole number of 64-word blocks.
pub fn octopad(byte_array: &Vec<u8>) -> (r: Vec<u16>)
    ensures
        r@ == octopad_spec(byte_array@),
        r@.len() % 64 == 0,
        byte_array@.len() <= r@.len() < byte_array@.len() + 64,
        r@.subrange(0, byte_array@.len() as int) == widen(byte_array@),
        forall|i: int| 0 <= i < r@.len() ==> #[trigger] r@[i] < 256,
{
    proof {
        lemma_octopad_len(byte_array@);
        lemma_octopad_bytes(byte_array@);
    }
    let message_len = byte_array.len();
    let ghost orig = widen(byte_array@);
    let mut word_vec: Vec<u16> = Vec::new();
    let mut i: usize = 0;
    while i < message_len
        invariant
            i <= message_len == byte_array@.len(),
            orig == widen(byte_array@),
            word_vec@ == orig.subrange(0, i as int),
        decreases message_len - i,
    {
        word_vec.push(byte_array[i] as u16);
        i = i + 1;
        assert(word_vec@ =~= orig.subrange(0, i as int));
    }
    assert(word_vec@ =~= orig);
    proof {
        if message_len > 0 {
            lemma_pad_walk_len(orig, message_len as nat, pad_count(message_len as nat));
        }
    }
    let mut n: u128 = message_len as u128;
    let ghost mut remaining: nat = pad_count(message_len as nat);
    let ghost mut steps: nat = 0;
    while word_vec.len() % BLOCK_NUM != 0
        invariant
            orig == widen(byte_array@),
            orig.len() == message_len,
            word_vec@.len() == message_len + steps,
            word_vec@.subrange(0, message_len as int) == orig,
            steps + remaining == pad_count(message_len as nat),
            remaining <= 64,
            n <= message_len + 255 * steps,
            word_vec@ + pad_walk(orig, n as nat, remaining) == octopad_spec(byte_array@),
            message_len > 0 ==> pad_walk(orig, n as nat, remaining).len() == remaining,
        decreases remaining,
    {
        proof {
            if message_len == 0 || remaining == 0 {
                assert((message_len + pad_count(message_len as nat)) % 64 == 0);
                assert(false);
            }
            lemma_pad_walk_len(orig, n as nat, remaining);
        }
        let idx: usize = (n % (message_len as u128)) as usize;
        let low: u128 = n & 0xffu128;
        assert(n & 0xffu128 == n % 256) by (bit_vector);
        assert(word_vec@[idx as int] == orig[idx as int]);
        let word: u16 = word_vec[idx] ^ (low as u16);
        proof {
            assert(word == pad_word(orig, n as nat));
            let tail = pad_walk(orig, n as nat + word as nat, (remaining - 1) as nat);
            assert(pad_walk(orig, n as nat, remaining) == seq![word] + tail);
            assert(word_vec@.push(word) + tail =~= word_vec@ + (seq![word] + tail));
            let a = word_vec@[idx as int];
            let b = low as u16;
            assert(a < 256);
            assert(b < 256);
            assert(a ^ b < 256) by (bit_vector)
                requires
                    a < 256,
                    b < 256,
            ;
        }
        word_vec.push(word);
        assert(word_vec@.subrange(0, message_len as int) =~= orig);
        n = n + word as u128;
        proof {
            remaining = (remaining - 1) as nat;
            steps = steps + 1;
        }
    }
    proof {
        if remaining > 0 {
            assert((message_len + pad_count(message_len as nat)) % 64 == 0);
            assert(false);
        }
        assert(pad_walk(orig, n as nat, 0) =~= Seq::<u16>::empty());
        assert(word_vec@ + Seq::<u16>::empty() =~= word_vec@);
    }
    word_vec
}

} // verus!
