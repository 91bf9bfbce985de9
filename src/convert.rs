//! Rendering a final state: positional-base digests and the byte, double and
//! quad views.
use vstd::prelude::*;
use vstd::string::StrSliceExecFns;
use vstd::string::StringExecFns;
use crate::tables::{BIN_CHARS, DUO_CHARS, HEX_CHARS, OCT_CHARS, SEN_CHARS, SEX_CHARS, TET_CHARS, VIG_CHARS};

verus! {

/// The `width` digits of `x` in base `base`, most significant first; digits
/// above the width are dropped.
pub open spec fn digits_spec(x: nat, base: nat, width: nat) -> Seq<nat>
    decreases width,
{
    if width == 0 {
        Seq::empty()
    } else {
        digits_spec(x / base, base, (width - 1) as nat).push(x % base)
    }
}

/// One word as a zero-padded field of `width` digit characters.
pub open spec fn field_spec(x: nat, base: nat, width: nat, chars: Seq<char>) -> Seq<char> {
    digits_spec(x, base, width).map_values(|d: nat| chars[d as int])
}

/// The four words as consecutive fields.
pub open spec fn encode_spec(words: Seq<u16>, base: nat, width: nat, chars: Seq<char>) -> Seq<char> {
    field_spec(words[0] as nat, base, width, chars) + field_spec(words[1] as nat, base, width, chars)
        + field_spec(words[2] as nat, base, width, chars) + field_spec(words[3] as nat, base, width, chars)
}

/// The number that a digit sequence denotes in base `base`.
pub open spec fn digits_value(d: Seq<nat>, base: nat) -> nat
    decreases d.len(),
{
    if d.len() == 0 {
        0
    } else {
        digits_value(d.drop_last(), base) * base + d.last()
    }
}

/// A field holds digits below the base, and denotes `x` reduced modulo
/// `base^width`: where the width suffices, exactly `x`.
pub proof fn lemma_field_value(x: nat, base: nat, width: nat)
    requires
        base > 1,
    ensures
        forall|i: int|
            0 <= i < digits_spec(x, base, width).len() ==> #[trigger] digits_spec(x, base, width)[i]
                < base,
        digits_value(digits_spec(x, base, width), base) == (x as int) % vstd::arithmetic::power::pow(
            base as int,
            width,
        ),
    decreases width,
{
    let p = vstd::arithmetic::power::pow(base as int, width);
    if width == 0 {
        vstd::arithmetic::power::lemma_pow0(base as int);
        assert(digits_spec(x, base, 0) =~= Seq::<nat>::empty());
    } else {
        let q = vstd::arithmetic::power::pow(base as int, (width - 1) as nat);
        lemma_field_value(x / base, base, (width - 1) as nat);
        let d = digits_spec(x, base, width);
        let rest = digits_spec(x / base, base, (width - 1) as nat);
        assert(d == rest.push(x % base));
        assert(d.drop_last() =~= rest);
        vstd::arithmetic::power::lemma_pow_positive(base as int, (width - 1) as nat);
        vstd::arithmetic::power::lemma_pow_adds(base as int, (width - 1) as nat, 1);
        vstd::arithmetic::power::lemma_pow1(base as int);
        assert(p == base * q) by (nonlinear_arith)
            requires
                p == vstd::arithmetic::power::pow(base as int, ((width - 1) + 1) as nat),
                vstd::arithmetic::power::pow(base as int, ((width - 1) + 1) as nat)
                    == q * vstd::arithmetic::power::pow(base as int, 1),
                vstd::arithmetic::power::pow(base as int, 1) == base,
        ;
        vstd::arithmetic::div_mod::lemma_breakdown(x as int, base as int, q);
        assert((x as int) % p == base * (((x / base) as int) % q) + x % base);
        assert(digits_value(d, base) == digits_value(rest, base) * base + x % base);
        assert(digits_value(rest, base) == ((x / base) as int) % q);
    }
}

proof fn lemma_digits_len(x: nat, base: nat, width: nat)
    requires
        base > 0,
    ensures
        digits_spec(x, base, width).len() == width,
    decreases width,
{
    if width > 0 {
        lemma_digits_len(x / base, base, (width - 1) as nat);
        assert(digits_spec(x, base, width) == digits_spec(x / base, base, (width - 1) as nat).push(
            x % base,
        ));
    } else {
        assert(digits_spec(x, base, width) == Seq::<nat>::empty());
    }
}

/// Each field of an encoding has `width` characters.
pub proof fn lemma_encode_len(words: Seq<u16>, base: nat, width: nat, chars: Seq<char>)
    requires
        base > 0,
    ensures
        encode_spec(words, base, width, chars).len() == 4 * width,
{
    lemma_digits_len(words[0] as nat, base, width);
    lemma_digits_len(words[1] as nat, base, width);
    lemma_digits_len(words[2] as nat, base, width);
    lemma_digits_len(words[3] as nat, base, width);
}

fn append_field(out: &mut String, word: u16, base: u16, width: usize, chars: &str)
    requires
        2 <= base,
        chars@.len() == base,
        width <= 16,
    ensures
        final(out)@ == old(out)@ + field_spec(word as nat, base as nat, width as nat, chars@),
{
    let mut digits: Vec<u16> = vec![0u16; width];
    let mut decimal: u16 = word;
    let mut k: usize = width;
    proof {
        lemma_digits_len(word as nat, base as nat, width as nat);
    }
    while k > 0
        invariant
            2 <= base,
            k <= width,
            digits@.len() == width,
            forall|i: int| 0 <= i < digits@.len() ==> digits@[i] < base,
            digits_spec(word as nat, base as nat, width as nat)
                == digits_spec(decimal as nat, base as nat, k as nat) + digits@.subrange(
                k as int,
                width as int,
            ).map_values(|d: u16| d as nat),
        decreases k,
    {
        k = k - 1;
        let ghost before = digits@.subrange(k as int + 1, width as int).map_values(|d: u16| d as nat);
        digits.set(k, decimal % base);
        proof {
            let after = digits@.subrange(k as int, width as int).map_values(|d: u16| d as nat);
            assert(after =~= seq![(decimal % base) as nat] + before);
            let rest = digits_spec(decimal as nat / base as nat, base as nat, k as nat);
            assert(digits_spec(decimal as nat, base as nat, (k + 1) as nat) == rest.push(
                decimal as nat % base as nat,
            ));
            assert(rest.push(decimal as nat % base as nat) + before =~= rest + after);
        }
        decimal = decimal / base;
    }
    assert(digits@.subrange(0, width as int) =~= digits@);
    let ghost target = field_spec(word as nat, base as nat, width as nat, chars@);
    assert(digits_spec(word as nat, base as nat, width as nat) =~= digits@.map_values(
        |d: u16| d as nat,
    ));
    let ghost start = out@;
    let mut j: usize = 0;
    while j < width
        invariant
            j <= width,
            digits@.len() == width,
            chars@.len() == base,
            forall|i: int| 0 <= i < digits@.len() ==> digits@[i] < base,
            target == digits@.map_values(|d: u16| d as nat).map_values(|d: nat| chars@[d as int]),
            out@ == start + target.subrange(0, j as int),
        decreases width - j,
    {
        let d = digits[j] as usize;
        let piece = chars.substring_char(d, d + 1);
        out.append(piece);
        proof {
            assert(piece@ =~= seq![target[j as int]]);
            assert(target.subrange(0, j as int + 1) =~= target.subrange(0, j as int) + seq![target[j as int]]);
        }
        j = j + 1;
    }
    assert(target.subrange(0, width as int) =~= target);
}

fn encode(word_array: &[u16], base: u16, width: usize, chars: &str) -> (r: String)
    requires
        word_array@.len() == 4,
        2 <= base,
        chars@.len() == base,
        width <= 16,
    ensures
        r@ == encode_spec(word_array@, base as nat, width as nat, chars@),
{
    let mut digest = String::new();
    let mut i: usize = 0;
    while i < 4
        invariant
            i <= 4,
            word_array@.len() == 4,
            2 <= base,
            chars@.len() == base,
            width <= 16,
            i == 0 ==> digest@ == Seq::<char>::empty(),
            i == 1 ==> digest@ == field_spec(word_array@[0] as nat, base as nat, width as nat, chars@),
            i == 2 ==> digest@ == field_spec(word_array@[0] as nat, base as nat, width as nat, chars@)
                + field_spec(word_array@[1] as nat, base as nat, width as nat, chars@),
            i == 3 ==> digest@ == field_spec(word_array@[0] as nat, base as nat, width as nat, chars@)
                + field_spec(word_array@[1] as nat, base as nat, width as nat, chars@)
                + field_spec(word_array@[2] as nat, base as nat, width as nat, chars@),
            i == 4 ==> digest@ == encode_spec(word_array@, base as nat, width as nat, chars@),
        decreases 4 - i,
    {
        append_field(&mut digest, word_array[i], base, width, chars);
        proof {
            if i == 0 {
                assert(digest@ =~= field_spec(word_array@[0] as nat, base as nat, width as nat, chars@));
            }
        }
        i = i + 1;
    }
    digest
}

/// The base-60 digest: each word as three digits, most significant first.
pub fn word_array_to_sex_digest(word_array: &[u16]) -> (r: String)
    requires
        word_array@.len() == 4,
    ensures
        r@ == encode_spec(word_array@, 60, 3, SEX_CHARS@),
        r@.len() == 12,
{
    proof {
        reveal_strlit("0123456789ABCDEFGHIJKLMNOPQRSTUVWXYZabcdefghijklmnopqrstuvwx");
        lemma_encode_len(word_array@, 60, 3, SEX_CHARS@);
    }
    encode(word_array, 60, 3, SEX_CHARS)
}

/// The base-20 digest: each word as four digits, most significant first.
pub fn word_array_to_vig_digest(word_array: &[u16]) -> (r: String)
    requires
        word_array@.len() == 4,
    ensures
        r@ == encode_spec(word_array@, 20, 4, VIG_CHARS@),
        r@.len() == 16,
{
    proof {
        reveal_strlit("ABCDEFGHIJ@^&*$+!;:~");
        lemma_encode_len(word_array@, 20, 4, VIG_CHARS@);
    }
    encode(word_array, 20, 4, VIG_CHARS)
}

/// The base-16 digest: each word as four digits, most significant first.
pub fn word_array_to_hex_digest(word_array: &[u16]) -> (r: String)
    requires
        word_array@.len() == 4,
    ensures
        r@ == encode_spec(word_array@, 16, 4, HEX_CHARS@),
        r@.len() == 16,
{
    proof {
        reveal_strlit("0123456789ABCDEF");
        lemma_encode_len(word_array@, 16, 4, HEX_CHARS@);
    }
    encode(word_array, 16, 4, HEX_CHARS)
}

/// The base-14 digest: each word as five digits, most significant first.
pub fn word_array_to_tet_digest(word_array: &[u16]) -> (r: String)
    requires
        word_array@.len() == 4,
    ensures
        r@ == encode_spec(word_array@, 14, 5, TET_CHARS@),
        r@.len() == 20,
{
    proof {
        reveal_strlit("0123456789TEWR");
        lemma_encode_len(word_array@, 14, 5, TET_CHARS@);
    }
    encode(word_array, 14, 5, TET_CHARS)
}

/// The base-12 digest: each word as five digits, most significant first.
pub fn word_array_to_duo_digest(word_array: &[u16]) -> (r: String)
    requires
        word_array@.len() == 4,
    ensures
        r@ == encode_spec(word_array@, 12, 5, DUO_CHARS@),
        r@.len() == 20,
{
    proof {
        reveal_strlit("0123456789*#");
        lemma_encode_len(word_array@, 12, 5, DUO_CHARS@);
    }
    encode(word_array, 12, 5, DUO_CHARS)
}

/// The base-8 digest: each word as six digits, most significant first.
pub fn word_array_to_oct_digest(word_array: &[u16]) -> (r: String)
    requires
        word_array@.len() == 4,
    ensures
        r@ == encode_spec(word_array@, 8, 6, OCT_CHARS@),
        r@.len() == 24,
{
    proof {
        reveal_strlit("01234567");
        lemma_encode_len(word_array@, 8, 6, OCT_CHARS@);
    }
    encode(word_array, 8, 6, OCT_CHARS)
}

/// The base-6 digest: each word as seven digits, most significant first.
pub fn word_array_to_sen_digest(word_array: &[u16]) -> (r: String)
    requires
        word_array@.len() == 4,
    ensures
        r@ == encode_spec(word_array@, 6, 7, SEN_CHARS@),
        r@.len() == 28,
{
    proof {
        reveal_strlit("012345");
        lemma_encode_len(word_array@, 6, 7, SEN_CHARS@);
    }
    encode(word_array, 6, 7, SEN_CHARS)
}

/// The base-2 digest: each word as sixteen digits, most significant first.
pub fn word_array_to_bin_digest(word_array: &[u16]) -> (r: String)
    requires
        word_array@.len() == 4,
    ensures
        r@ == encode_spec(word_array@, 2, 16, BIN_CHARS@),
        r@.len() == 64,
{
    proof {
        reveal_strlit("01");
        lemma_encode_len(word_array@, 2, 16, BIN_CHARS@);
    }
    encode(word_array, 2, 16, BIN_CHARS)
}

/// The low and the high byte of a word.
fn single_word_to_byte(word: u16) -> (r: (u8, u8))
    ensures
        r.0 == word % 256,
        r.1 == word / 256,
{
    let lower: u8 = (word & 0x00ff) as u8;
    let upper: u8 = ((word & 0xff00) >> 8u16) as u8;
    assert(word & 0x00ff == word % 256) by (bit_vector);
    assert((word & 0xff00) >> 8u16 == word / 256) by (bit_vector);
    (lower, upper)
}

/// Two words packed low first: `w1 | (w2 << 16)`.
fn word_to_double(w1: u16, w2: u16) -> (r: u32)
    ensures
        r == w1 + w2 * 0x10000,
{
    let mut res: u32 = 0;
    res = res | w1 as u32;
    res = res | ((w2 as u32) << 16u32);
    let (a, b) = (w1 as u32, w2 as u32);
    assert((0u32 | a) | (b << 16u32) == a + b * 0x10000) by (bit_vector)
        requires
            a < 0x10000,
            b < 0x10000,
    ;
    res
}

/// The byte view: low byte, then high byte, of each word in order.
pub open spec fn bytes_spec(w: Seq<u16>) -> Seq<u8> {
    seq![
        (w[0] % 256) as u8,
        (w[0] / 256) as u8,
        (w[1] % 256) as u8,
        (w[1] / 256) as u8,
        (w[2] % 256) as u8,
        (w[2] / 256) as u8,
        (w[3] % 256) as u8,
        (w[3] / 256) as u8,
    ]
}

/// The double view: words 0 and 1, then words 2 and 3, each pair packed low first.
pub open spec fn doubles_spec(w: Seq<u16>) -> Seq<u32> {
    seq![(w[0] + w[1] * 0x10000) as u32, (w[2] + w[3] * 0x10000) as u32]
}

/// The quad view: the four words packed low first.
pub open spec fn quad_spec(w: Seq<u16>) -> u64 {
    (w[0] + w[1] * 0x10000 + w[2] * 0x1_0000_0000 + w[3] * 0x1_0000_0000_0000) as u64
}

pub fn word_array_to_byte_array(word_array: &[u16]) -> (r: [u8; 8])
    requires
        word_array@.len() == 4,
    ensures
        r@ == bytes_spec(word_array@),
{
    let (b0, b1) = single_word_to_byte(word_array[0]);
    let (b2, b3) = single_word_to_byte(word_array[1]);
    let (b4, b5) = single_word_to_byte(word_array[2]);
    let (b6, b7) = single_word_to_byte(word_array[3]);
    let r = [b0, b1, b2, b3, b4, b5, b6, b7];
    assert(r@ =~= bytes_spec(word_array@));
    r
}

pub fn word_array_to_double_array(word_array: &[u16]) -> (r: [u32; 2])
    requires
        word_array@.len() == 4,
    ensures
        r@ == doubles_spec(word_array@),
{
    let lower = word_to_double(word_array[0], word_array[1]);
    let upper = word_to_double(word_array[2], word_array[3]);
    let r = [lower, upper];
    assert(r@ =~= doubles_spec(word_array@));
    r
}

pub fn word_array_to_quad(word_array: &[u16]) -> (r: u64)
    requires
        word_array@.len() == 4,
    ensures
        r == quad_spec(word_array@),
{
    let mut quad: u64 = 0;
    let (a, b, c, d) = (word_array[0] as u64, word_array[1] as u64, word_array[2] as u64, word_array[3] as u64);
    quad = quad | a;
    quad = quad | (b << 16u64);
    quad = quad | (c << 32u64);
    quad = quad | (d << 48u64);
    assert((((0u64 | a) | (b << 16u64)) | (c << 32u64)) | (d << 48u64)
        == a + b * 0x10000 + c * 0x1_0000_0000 + d * 0x1_0000_0000_0000) by (bit_vector)
        requires
            a < 0x10000,
            b < 0x10000,
            c < 0x10000,
            d < 0x10000,
    ;
    quad
}

} // verus!
