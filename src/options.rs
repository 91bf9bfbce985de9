//! Command-line rules of the runner: flag validation, argument kinds and
//! byte-list literals.
use vstd::prelude::*;
use vstd::string::StrSliceExecFns;
use vstd::string::StringExecFns;

verus! {

pub const FLAG_BENCHMARK: char = '^';
pub const FLAG_JOIN: char = '+';
pub const FLAG_EVERYTHING: char = '*';
pub const FLAG_ALL_NON_DEC: char = 'N';
pub const FLAG_ALL_DECIMAL: char = 'D';
pub const FLAG_BYTES: char = '8';
pub const FLAG_WORDS: char = '4';
pub const FLAG_DOUBLES: char = '2';
pub const FLAG_QUAD: char = '1';
pub const FLAG_SEX: char = 'g';
pub const FLAG_VIG: char = 'v';
pub const FLAG_HEX: char = 'h';
pub const FLAG_TET: char = 't';
pub const FLAG_DUO: char = 'd';
pub const FLAG_OCT: char = 'o';
pub const FLAG_SEN: char = 's';
pub const FLAG_BIN: char = 'b';
pub const FLAG_NS: char = '9';
pub const FLAG_US: char = '6';
pub const FLAG_MS: char = '3';
pub const FLAG_SS: char = '5';
pub const FLAG_MM: char = '0';
pub const FLAG_HELP: char = '?';
pub const FLAG_DASH: char = '-';
pub const FLAG_NHEADER: char = 'z';
pub const FLAG_ECHO: char = 'e';

/// What a malformed flag argument or integer list is refused for.
#[derive(Clone, Copy, Debug, PartialEq, Eq, Structural)]
pub enum ArgError {
    /// No flag argument was given.
    NoFlags,
    /// The flag argument is shorter than 3 or longer than 24 characters.
    BadFlagLength,
    /// The flag argument does not begin and end with `-`.
    NotDashed,
    /// A character that is a common slip for a flag: the character and the
    /// flag it probably meant.
    WrongFlag(char, char),
    /// `?` was given with other flags.
    HelpWithOthers,
    /// `^` appears more than twice.
    TooManyBenchmarks,
    /// A flag other than `^` appears twice.
    RepeatedFlag(char),
    /// No message follows the flags.
    NoMessage,
    /// A time unit was given without `^`.
    TimeWithoutBenchmark,
    /// A time unit was given with `^^`, which prints every unit.
    TimeWithDoubleBenchmark,
    /// `*` was given with `N` or `D`.
    EverythingWithGroup,
    /// `N` or `D` was given with `*`.
    GroupWithEverything,
    /// A decimal view was given with `*` or `D`.
    DecimalWithGroup,
    /// A positional digest was given with `*` or `N`.
    NonDecimalWithGroup,
    /// `-` inside the flags.
    DashInside,
    /// A character that is no flag.
    UnknownFlag(char),
    /// A byte literal with more digits than its base allows (8 binary, 5 octal,
    /// 2 hexadecimal).
    NumberTooLong,
    /// A literal without a base prefix that holds something other than
    /// decimal digits.
    NotDecimal,
    /// A literal with no digits, a digit outside its base, or a value above 255.
    BadNumber,
}

/// What a valid command line asks for.
#[derive(Clone, Copy, Debug, PartialEq, Eq, Structural)]
pub enum Command {
    /// Print the help text.
    Help,
    /// Hash the messages.
    Hash,
}

/// How often `c` occurs in `s`.
pub open spec fn count_char(s: Seq<char>, c: char) -> nat
    decreases s.len(),
{
    if s.len() == 0 {
        0
    } else {
        count_char(s.drop_last(), c) + if s.last() == c {
            1nat
        } else {
            0nat
        }
    }
}

/// `c` occurs in the flag argument before its closing character.
pub open spec fn has_flag(s: Seq<char>, c: char) -> bool {
    exists|i: int| 0 <= i < s.len() - 1 && s[i] == c
}

/// Whether the flag argument holds `must_have` before its last character.
pub fn arg_has_flag(flags_arg: &String, must_have: char) -> (r: bool)
    requires
        flags_arg@.len() >= 1,
    ensures
        r == has_flag(flags_arg@, must_have),
{
    let s = flags_arg.as_str();
    let n = s.unicode_len();
    let mut i: usize = 0;
    while i < n - 1
        invariant
            n == flags_arg@.len() >= 1,
            s@ == flags_arg@,
            i <= n - 1,
            forall|j: int| 0 <= j < i ==> flags_arg@[j] != must_have,
        decreases n - 1 - i,
    {
        if s.get_char(i) == must_have {
            return true;
        }
        i = i + 1;
    }
    false
}

/// Whether no value in `bools` is true.
pub fn all_are_false(bools: Vec<bool>) -> (r: bool)
    ensures
        r == forall|i: int| 0 <= i < bools@.len() ==> !bools@[i],
{
    let mut i: usize = 0;
    while i < bools.len()
        invariant
            i <= bools@.len(),
            forall|j: int| 0 <= j < i ==> !bools@[j],
        decreases bools@.len() - i,
    {
        if bools[i] {
            return false;
        }
        i = i + 1;
    }
    true
}

/// `s` is `prefix` followed by at least one more character.
pub open spec fn has_long_prefix(s: Seq<char>, prefix: Seq<char>) -> bool {
    s.len() > prefix.len() && s.subrange(0, prefix.len() as int) == prefix
}

fn starts_with_more(arg: &str, prefix: &str) -> (r: bool)
    ensures
        r == has_long_prefix(arg@, prefix@),
{
    let n = arg.unicode_len();
    let m = prefix.unicode_len();
    if n <= m {
        return false;
    }
    let mut i: usize = 0;
    while i < m
        invariant
            m < n,
            n == arg@.len(),
            m == prefix@.len(),
            i <= m,
            forall|j: int| 0 <= j < i ==> arg@[j] == prefix@[j],
        decreases m - i,
    {
        if arg.get_char(i) != prefix.get_char(i) {
            assert(arg@.subrange(0, m as int)[i as int] != prefix@[i as int]);
            return false;
        }
        i = i + 1;
    }
    assert(arg@.subrange(0, m as int) =~= prefix@);
    true
}

/// The prefix that marks an argument as a path to read.
pub const FILE_PREFIX: &'static str = "file=";

/// The prefix that marks an argument as a list of byte literals.
pub const INT_PREFIX: &'static str = "int=";

/// Whether the argument names a file: `file=` and a path.
pub fn assert_file(arg: &String) -> (r: bool)
    ensures
        r == has_long_prefix(arg@, FILE_PREFIX@),
{
    starts_with_more(arg.as_str(), FILE_PREFIX)
}

/// Whether the argument is a byte list: `int=` and the list.
pub fn assert_int(arg: &String) -> (r: bool)
    ensures
        r == has_long_prefix(arg@, INT_PREFIX@),
{
    starts_with_more(arg.as_str(), INT_PREFIX)
}

/// The part of a path after its last `/`: the whole path when it has none.
pub open spec fn last_segment(s: Seq<char>) -> Seq<char>
    decreases s.len(),
{
    if s.len() == 0 || s.last() == '/' {
        Seq::empty()
    } else {
        last_segment(s.drop_last()).push(s.last())
    }
}

/// The program's name: its path after the last `/`.
pub fn get_exec_name(argv0: &String) -> (r: String)
    ensures
        r@ == last_segment(argv0@),
{
    let s = argv0.as_str();
    let n = s.unicode_len();
    let mut start: usize = n;
    assert(argv0@.subrange(0, n as int) =~= argv0@);
    assert(argv0@.subrange(n as int, n as int) =~= Seq::<char>::empty());
    assert(argv0@ + Seq::<char>::empty() =~= argv0@);
    while start > 0 && s.get_char(start - 1) != '/'
        invariant
            n == argv0@.len(),
            s@ == argv0@,
            start <= n,
            last_segment(argv0@) == last_segment(argv0@.subrange(0, start as int)) + argv0@.subrange(
                start as int,
                n as int,
            ),
        decreases start,
    {
        let ghost pre = argv0@.subrange(0, start as int);
        assert(pre.drop_last() =~= argv0@.subrange(0, start - 1));
        assert(argv0@.subrange(start - 1, n as int) =~= seq![pre.last()] + argv0@.subrange(
            start as int,
            n as int,
        ));
        assert(last_segment(pre.drop_last()).push(pre.last()) + argv0@.subrange(start as int, n as int)
            =~= last_segment(pre.drop_last()) + argv0@.subrange(start - 1, n as int));
        start = start - 1;
    }
    assert(last_segment(argv0@.subrange(0, start as int)) =~= Seq::<char>::empty());
    assert(Seq::<char>::empty() + argv0@.subrange(start as int, n as int) =~= argv0@.subrange(
        start as int,
        n as int,
    ));
    String::from_str(s.substring_char(start, n))
}

/// Where the bytes of a message argument come from.
#[derive(Clone, Copy, Debug, PartialEq, Eq, Structural)]
pub enum ArgKind {
    /// The argument's own text.
    Text,
    /// The file named after `file=`.
    File,
    /// The byte literals listed after `int=`.
    Ints,
}

/// How a message argument is read: a byte list takes precedence over a file,
/// and anything else is hashed as it stands.
pub fn classify_arg(arg: &String) -> (r: ArgKind)
    ensures
        r == (if has_long_prefix(arg@, INT_PREFIX@) {
            ArgKind::Ints
        } else if has_long_prefix(arg@, FILE_PREFIX@) {
            ArgKind::File
        } else {
            ArgKind::Text
        }),
{
    if assert_int(arg) {
        ArgKind::Ints
    } else if assert_file(arg) {
        ArgKind::File
    } else {
        ArgKind::Text
    }
}

fn count_in(s: &str, c: char) -> (r: usize)
    ensures
        r == count_char(s@, c),
{
    let n = s.unicode_len();
    let mut total: usize = 0;
    let mut i: usize = 0;
    while i < n
        invariant
            n == s@.len(),
            i <= n,
            total == count_char(s@.subrange(0, i as int), c),
            total <= i,
        decreases n - i,
    {
        let ch = s.get_char(i);
        assert(s@.subrange(0, i as int + 1).drop_last() =~= s@.subrange(0, i as int));
        if ch == c {
            total = total + 1;
        }
        i = i + 1;
    }
    assert(s@.subrange(0, n as int) =~= s@);
    total
}

/// The first character of `s` that occurs in it more than once, scanning from
/// position `i`.
pub open spec fn first_repeated(s: Seq<char>, i: nat) -> Option<char>
    decreases s.len() - i,
{
    if i >= s.len() {
        None
    } else if count_char(s, s[i as int]) > 1 {
        Some(s[i as int])
    } else {
        first_repeated(s, i + 1)
    }
}

/// The repeated flag of a flag list: `^` when it appears exactly twice, else the
/// first flag that appears more than once, else `'\0'`. More than two `^` are
/// refused.
pub open spec fn reoccurrance_spec(s: Seq<char>) -> Result<char, ArgError> {
    if count_char(s, FLAG_BENCHMARK) == 2 {
        Ok(FLAG_BENCHMARK)
    } else if count_char(s, FLAG_BENCHMARK) > 2 {
        Err(ArgError::TooManyBenchmarks)
    } else {
        match first_repeated(s, 0) {
            Some(c) => Ok(c),
            None => Ok('\0'),
        }
    }
}

pub fn search_for_flag_reocurrance(flags_arg: &String) -> (r: Result<char, ArgError>)
    ensures
        r == reoccurrance_spec(flags_arg@),
{
    let s = flags_arg.as_str();
    let count_benchmark = count_in(s, FLAG_BENCHMARK);
    if count_benchmark == 2 {
        return Ok(FLAG_BENCHMARK);
    } else if count_benchmark > 2 {
        return Err(ArgError::TooManyBenchmarks);
    }
    let n = s.unicode_len();
    let mut i: usize = 0;
    while i < n
        invariant
            n == s@.len(),
            s@ == flags_arg@,
            i <= n,
            count_char(s@, FLAG_BENCHMARK) < 2,
            first_repeated(s@, 0) == first_repeated(s@, i as nat),
        decreases n - i,
    {
        let ch = s.get_char(i);
        if count_in(s, ch) > 1 {
            assert(first_repeated(s@, i as nat) == Some(ch));
            return Ok(ch);
        }
        i = i + 1;
    }
    Ok('\0')
}

/// The items of `s` between commas; an empty `s` is one empty item.
pub open spec fn split_commas(s: Seq<char>) -> Seq<Seq<char>>
    decreases s.len(),
{
    if s.len() == 0 {
        seq![Seq::empty()]
    } else {
        let rest = split_commas(s.drop_last());
        if s.last() == ',' {
            rest.push(Seq::empty())
        } else {
            rest.update(rest.len() - 1, rest.last().push(s.last()))
        }
    }
}

/// The value of a digit character: `0`-`9`, then `a`-`z` or `A`-`Z` from 10;
/// 36 for any other character.
pub open spec fn char_digit(c: char) -> nat {
    if '0' <= c <= '9' {
        (c as u32 - '0' as u32) as nat
    } else if 'a' <= c <= 'z' {
        (c as u32 - 'a' as u32 + 10) as nat
    } else if 'A' <= c <= 'Z' {
        (c as u32 - 'A' as u32 + 10) as nat
    } else {
        36
    }
}

/// The number that the digits `d` denote in base `radix`, if all are digits of it.
pub open spec fn number_value(d: Seq<char>, radix: nat) -> Option<nat>
    decreases d.len(),
{
    if d.len() == 0 {
        Some(0)
    } else {
        match number_value(d.drop_last(), radix) {
            None => None,
            Some(v) => if char_digit(d.last()) < radix {
                Some(v * radix + char_digit(d.last()))
            } else {
                None
            },
        }
    }
}

/// A byte written in base `radix` with at least one digit.
pub open spec fn parse_radix(d: Seq<char>, radix: nat) -> Result<u8, ArgError> {
    if d.len() == 0 {
        Err(ArgError::BadNumber)
    } else {
        match number_value(d, radix) {
            Some(v) => if v <= 255 {
                Ok(v as u8)
            } else {
                Err(ArgError::BadNumber)
            },
            None => Err(ArgError::BadNumber),
        }
    }
}

/// `n` starts with `0` and then `c`.
pub open spec fn has_base_prefix(n: Seq<char>, c: char) -> bool {
    n.len() >= 2 && n[0] == '0' && n[1] == c
}

/// One byte literal: `0b` and up to 8 binary digits, `0o` and up to 5 octal
/// digits, `0x` and up to 2 hexadecimal digits, or decimal digits alone.
pub open spec fn parse_item(n: Seq<char>) -> Result<u8, ArgError> {
    let rest = n.subrange(2, n.len() as int);
    if has_base_prefix(n, 'b') {
        if rest.len() > 8 {
            Err(ArgError::NumberTooLong)
        } else {
            parse_radix(rest, 2)
        }
    } else if has_base_prefix(n, 'o') {
        if rest.len() > 5 {
            Err(ArgError::NumberTooLong)
        } else {
            parse_radix(rest, 8)
        }
    } else if has_base_prefix(n, 'x') {
        if rest.len() > 2 {
            Err(ArgError::NumberTooLong)
        } else {
            parse_radix(rest, 16)
        }
    } else if exists|i: int| 0 <= i < n.len() && !('0' <= #[trigger] n[i] <= '9') {
        Err(ArgError::NotDecimal)
    } else {
        parse_radix(n, 10)
    }
}

/// The bytes of all items, or the error of the first item that is no byte.
pub open spec fn parse_all(items: Seq<Seq<char>>) -> Result<Seq<u8>, ArgError>
    decreases items.len(),
{
    if items.len() == 0 {
        Ok(Seq::empty())
    } else {
        match parse_all(items.drop_last()) {
            Err(e) => Err(e),
            Ok(v) => match parse_item(items.last()) {
                Err(e) => Err(e),
                Ok(b) => Ok(v.push(b)),
            },
        }
    }
}

proof fn lemma_number_value_prefix(d: Seq<char>, radix: nat, i: nat)
    requires
        i <= d.len(),
        radix >= 1,
        number_value(d, radix) is Some,
    ensures
        number_value(d.subrange(0, i as int), radix) is Some,
        number_value(d.subrange(0, i as int), radix)->0 <= number_value(d, radix)->0,
    decreases d.len(),
{
    if i < d.len() {
        assert(d.drop_last() == d.subrange(0, d.len() - 1));
        lemma_number_value_prefix(d.drop_last(), radix, i);
        assert(d.drop_last().subrange(0, i as int) =~= d.subrange(0, i as int));
        let v = number_value(d.drop_last(), radix)->0;
        assert(v <= v * radix + char_digit(d.last())) by (nonlinear_arith)
            requires
                radix >= 1,
        ;
    } else {
        assert(d.subrange(0, i as int) =~= d);
    }
}

fn digit_of(c: char) -> (r: u32)
    ensures
        r == char_digit(c),
{
    if '0' <= c && c <= '9' {
        c as u32 - '0' as u32
    } else if 'a' <= c && c <= 'z' {
        c as u32 - 'a' as u32 + 10
    } else if 'A' <= c && c <= 'Z' {
        c as u32 - 'A' as u32 + 10
    } else {
        36
    }
}

fn parse_digits(n: &Vec<char>, start: usize, radix: u32) -> (r: Result<u8, ArgError>)
    requires
        start <= n@.len(),
        2 <= radix <= 16,
    ensures
        r == parse_radix(n@.subrange(start as int, n@.len() as int), radix as nat),
{
    let ghost d = n@.subrange(start as int, n@.len() as int);
    if start == n.len() {
        return Err(ArgError::BadNumber);
    }
    let mut value: u32 = 0;
    let mut i: usize = start;
    while i < n.len()
        invariant
            start <= i <= n@.len(),
            d == n@.subrange(start as int, n@.len() as int),
            2 <= radix <= 16,
            value <= 255,
            number_value(d.subrange(0, i - start), radix as nat) == Some(value as nat),
        decreases n@.len() - i,
    {
        let digit = digit_of(n[i]);
        assert(d.subrange(0, i - start + 1).drop_last() =~= d.subrange(0, i - start));
        assert(d.subrange(0, i - start + 1).last() == n@[i as int]);
        if digit >= radix {
            proof {
                if number_value(d, radix as nat) is Some {
                    lemma_number_value_prefix(d, radix as nat, (i - start + 1) as nat);
                }
            }
            return Err(ArgError::BadNumber);
        }
        proof {
            let v = value;
            assert(v * radix + digit <= 255 * 16 + 16) by (nonlinear_arith)
                requires
                    v <= 255,
                    radix <= 16,
                    digit < radix,
            ;
            assert(char_digit(n@[i as int]) == digit);
        }
        value = value * radix + digit;
        if value > 255 {
            proof {
                if number_value(d, radix as nat) is Some {
                    lemma_number_value_prefix(d, radix as nat, (i - start + 1) as nat);
                }
            }
            return Err(ArgError::BadNumber);
        }
        i = i + 1;
    }
    assert(d.subrange(0, n@.len() - start) =~= d);
    Ok(value as u8)
}

/// One byte literal, as `parse_item` reads it.
fn parse_byte(n: &Vec<char>) -> (r: Result<u8, ArgError>)
    ensures
        r == parse_item(n@),
{
    let len = n.len();
    if len >= 2 && n[0] == '0' && n[1] == 'b' {
        if len - 2 > 8 {
            return Err(ArgError::NumberTooLong);
        }
        return parse_digits(n, 2, 2);
    }
    if len >= 2 && n[0] == '0' && n[1] == 'o' {
        if len - 2 > 5 {
            return Err(ArgError::NumberTooLong);
        }
        return parse_digits(n, 2, 8);
    }
    if len >= 2 && n[0] == '0' && n[1] == 'x' {
        if len - 2 > 2 {
            return Err(ArgError::NumberTooLong);
        }
        return parse_digits(n, 2, 16);
    }
    let mut i: usize = 0;
    while i < len
        invariant
            len == n@.len(),
            i <= len,
            !has_base_prefix(n@, 'b'),
            !has_base_prefix(n@, 'o'),
            !has_base_prefix(n@, 'x'),
            forall|j: int| 0 <= j < i ==> '0' <= #[trigger] n@[j] <= '9',
        decreases len - i,
    {
        let c = n[i];
        if !('0' <= c && c <= '9') {
            assert(!('0' <= n@[i as int] <= '9'));
            return Err(ArgError::NotDecimal);
        }
        i = i + 1;
    }
    assert(n@.subrange(0, len as int) =~= n@);
    parse_digits(n, 0, 10)
}

/// The bytes of a comma-separated list of byte literals (the text after
/// `int=`), or the error of the first literal that is no byte.
pub fn to_int(arg: &String) -> (r: Result<Vec<u8>, ArgError>)
    ensures
        r matches Ok(v) ==> parse_all(split_commas(arg@)) == Ok::<Seq<u8>, ArgError>(v@),
        r matches Err(e) ==> parse_all(split_commas(arg@)) == Err::<Seq<u8>, ArgError>(e),
{
    let s = arg.as_str();
    let n = s.unicode_len();
    let mut out: Vec<u8> = Vec::new();
    let mut cur: Vec<char> = Vec::new();
    let mut failure: Option<ArgError> = None;
    let ghost mut done: Seq<Seq<char>> = Seq::empty();
    let mut i: usize = 0;
    assert(arg@.subrange(0, 0) =~= Seq::<char>::empty());
    assert(split_commas(Seq::<char>::empty()) =~= done.push(cur@));
    while i < n
        invariant
            n == arg@.len(),
            s@ == arg@,
            i <= n,
            split_commas(arg@.subrange(0, i as int)) == done.push(cur@),
            failure is None ==> parse_all(done) == Ok::<Seq<u8>, ArgError>(out@),
            failure matches Some(e) ==> parse_all(done) == Err::<Seq<u8>, ArgError>(e),
        decreases n - i,
    {
        let c = s.get_char(i);
        let ghost prev = arg@.subrange(0, i as int);
        assert(arg@.subrange(0, i as int + 1).drop_last() =~= prev);
        assert(arg@.subrange(0, i as int + 1).last() == c);
        if c == ',' {
            assert(done.push(cur@).drop_last() =~= done);
            if failure.is_none() {
                match parse_byte(&cur) {
                    Err(e) => {
                        failure = Some(e);
                    },
                    Ok(byte) => {
                        out.push(byte);
                    },
                }
            }
            proof {
                done = done.push(cur@);
            }
            cur = Vec::new();
            assert(split_commas(arg@.subrange(0, i as int + 1)) =~= done.push(cur@));
        } else {
            cur.push(c);
            assert(split_commas(arg@.subrange(0, i as int + 1)) =~= done.push(cur@));
        }
        i = i + 1;
    }
    assert(arg@.subrange(0, n as int) =~= arg@);
    assert(done.push(cur@).drop_last() =~= done);
    match failure {
        Some(e) => Err(e),
        None => match parse_byte(&cur) {
            Err(e) => Err(e),
            Ok(byte) => {
                out.push(byte);
                Ok(out)
            },
        },
    }
}

/// Common slips, each with the flag it probably meant; the first entry for a
/// character decides.
pub const WRONG_FLAGS: [(char, char); 28] = [
    ('G', 'g'), ('V', 'v'), ('O', 'o'), ('T', 't'), ('S', 's'), ('H', 'h'), ('n', 'N'),
    ('W', '4'), ('w', '4'), ('q', '1'), ('Q', '1'), ('/', '?'), ('=', '+'), ('B', 'b'),
    ('E', '*'), ('A', '*'), ('>', '?'), ('&', '*'), ('r', 't'), ('y', 't'), ('f', 'g'),
    ('x', 'z'), ('Z', 'z'), ('a', 'z'), ('E', 'e'), ('w', 'e'), ('r', 'e'), ('i', 'e'),
];

/// The flag that `c` is a slip for, from the table entries at `k` and after.
pub open spec fn slip_from(c: char, k: nat) -> Option<char>
    decreases 28 - k,
{
    if k >= 28 {
        None
    } else if WRONG_FLAGS[k as int].0 == c {
        Some(WRONG_FLAGS[k as int].1)
    } else {
        slip_from(c, k + 1)
    }
}

/// The first character of `s`, from position `i` on, that is a slip, with its
/// correction.
pub open spec fn first_slip(s: Seq<char>, i: nat) -> Option<(char, char)>
    decreases s.len() - i,
{
    if i >= s.len() {
        None
    } else if slip_from(s[i as int], 0) is Some {
        Some((s[i as int], slip_from(s[i as int], 0)->0))
    } else {
        first_slip(s, i + 1)
    }
}

pub open spec fn is_time_flag(c: char) -> bool {
    c == FLAG_NS || c == FLAG_US || c == FLAG_MS || c == FLAG_SS || c == FLAG_MM
}

pub open spec fn is_decimal_flag(c: char) -> bool {
    c == FLAG_BYTES || c == FLAG_WORDS || c == FLAG_DOUBLES || c == FLAG_QUAD
}

pub open spec fn is_non_decimal_flag(c: char) -> bool {
    c == FLAG_SEX || c == FLAG_VIG || c == FLAG_HEX || c == FLAG_TET || c == FLAG_DUO || c
        == FLAG_OCT || c == FLAG_SEN || c == FLAG_BIN
}

/// What is wrong with flag `c` in the flag argument `s`, if anything.
pub open spec fn flag_rule(c: char, s: Seq<char>, double_benchmark: bool) -> Option<ArgError> {
    let all = has_flag(s, FLAG_EVERYTHING);
    let dec = has_flag(s, FLAG_ALL_DECIMAL);
    let nondec = has_flag(s, FLAG_ALL_NON_DEC);
    if c == FLAG_BENCHMARK || c == FLAG_JOIN || c == FLAG_NHEADER || c == FLAG_ECHO {
        None
    } else if is_time_flag(c) {
        if !has_flag(s, FLAG_BENCHMARK) {
            Some(ArgError::TimeWithoutBenchmark)
        } else if double_benchmark {
            Some(ArgError::TimeWithDoubleBenchmark)
        } else {
            None
        }
    } else if c == FLAG_EVERYTHING {
        if dec || nondec {
            Some(ArgError::EverythingWithGroup)
        } else {
            None
        }
    } else if c == FLAG_ALL_NON_DEC || c == FLAG_ALL_DECIMAL {
        if all {
            Some(ArgError::GroupWithEverything)
        } else {
            None
        }
    } else if is_decimal_flag(c) {
        if dec || all {
            Some(ArgError::DecimalWithGroup)
        } else {
            None
        }
    } else if is_non_decimal_flag(c) {
        if nondec || all {
            Some(ArgError::NonDecimalWithGroup)
        } else {
            None
        }
    } else if c == FLAG_HELP {
        if s.len() > 3 {
            Some(ArgError::HelpWithOthers)
        } else {
            None
        }
    } else if c == FLAG_DASH {
        Some(ArgError::DashInside)
    } else {
        Some(ArgError::UnknownFlag(c))
    }
}

/// The first rule broken by the flags of `s` at positions `i` up to its last
/// character.
pub open spec fn first_broken_rule(s: Seq<char>, i: nat, double_benchmark: bool) -> Option<ArgError>
    decreases s.len() - i,
{
    if i + 1 >= s.len() {
        None
    } else if flag_rule(s[i as int], s, double_benchmark) is Some {
        flag_rule(s[i as int], s, double_benchmark)
    } else {
        first_broken_rule(s, i + 1, double_benchmark)
    }
}

/// The checks on a command line (the program, the flag argument, the
/// messages), in order; the first that fails decides.
pub open spec fn validate_spec(argv: Seq<Seq<char>>) -> Result<Command, ArgError> {
    if argv.len() < 2 {
        Err(ArgError::NoFlags)
    } else {
        let s = argv[1];
        let inner = s.subrange(1, s.len() - 1);
        if s.len() < 3 || s.len() > 24 {
            Err(ArgError::BadFlagLength)
        } else if s[0] != FLAG_DASH || s[s.len() - 1] != FLAG_DASH {
            Err(ArgError::NotDashed)
        } else if let Some((c, right)) = first_slip(s, 0) {
            Err(ArgError::WrongFlag(c, right))
        } else if s == seq![FLAG_DASH, FLAG_HELP, FLAG_DASH] {
            Ok(Command::Help)
        } else if has_flag(s, FLAG_HELP) && s.len() > 3 {
            Err(ArgError::HelpWithOthers)
        } else if reoccurrance_spec(inner) is Err {
            Err(reoccurrance_spec(inner)->Err_0)
        } else if reoccurrance_spec(inner)->Ok_0 != '\0' && reoccurrance_spec(inner)->Ok_0
            != FLAG_BENCHMARK {
            Err(ArgError::RepeatedFlag(reoccurrance_spec(inner)->Ok_0))
        } else if argv.len() < 3 {
            Err(ArgError::NoMessage)
        } else {
            let double_benchmark = reoccurrance_spec(inner)->Ok_0 == FLAG_BENCHMARK;
            match first_broken_rule(s, 1, double_benchmark) {
                Some(e) => Err(e),
                None => Ok(Command::Hash),
            }
        }
    }
}

fn slip_for(c: char) -> (r: Option<char>)
    ensures
        r == slip_from(c, 0),
{
    let mut k: usize = 0;
    while k < 28
        invariant
            k <= 28,
            slip_from(c, 0) == slip_from(c, k as nat),
        decreases 28 - k,
    {
        let (wrong, right) = WRONG_FLAGS[k];
        if wrong == c {
            return Some(right);
        }
        k = k + 1;
    }
    None
}

fn flag_error(c: char, flags_arg: &String, double_benchmark: bool) -> (r: Option<ArgError>)
    requires
        flags_arg@.len() >= 1,
    ensures
        r == flag_rule(c, flags_arg@, double_benchmark),
{
    if c == FLAG_BENCHMARK || c == FLAG_JOIN || c == FLAG_NHEADER || c == FLAG_ECHO {
        None
    } else if c == FLAG_NS || c == FLAG_US || c == FLAG_MS || c == FLAG_SS || c == FLAG_MM {
        if !arg_has_flag(flags_arg, FLAG_BENCHMARK) {
            Some(ArgError::TimeWithoutBenchmark)
        } else if double_benchmark {
            Some(ArgError::TimeWithDoubleBenchmark)
        } else {
            None
        }
    } else if c == FLAG_EVERYTHING {
        if arg_has_flag(flags_arg, FLAG_ALL_DECIMAL) || arg_has_flag(flags_arg, FLAG_ALL_NON_DEC) {
            Some(ArgError::EverythingWithGroup)
        } else {
            None
        }
    } else if c == FLAG_ALL_NON_DEC || c == FLAG_ALL_DECIMAL {
        if arg_has_flag(flags_arg, FLAG_EVERYTHING) {
            Some(ArgError::GroupWithEverything)
        } else {
            None
        }
    } else if c == FLAG_BYTES || c == FLAG_WORDS || c == FLAG_DOUBLES || c == FLAG_QUAD {
        if arg_has_flag(flags_arg, FLAG_ALL_DECIMAL) || arg_has_flag(flags_arg, FLAG_EVERYTHING) {
            Some(ArgError::DecimalWithGroup)
        } else {
            None
        }
    } else if c == FLAG_SEX || c == FLAG_VIG || c == FLAG_HEX || c == FLAG_TET || c == FLAG_DUO
        || c == FLAG_OCT || c == FLAG_SEN || c == FLAG_BIN {
        if arg_has_flag(flags_arg, FLAG_ALL_NON_DEC) || arg_has_flag(flags_arg, FLAG_EVERYTHING) {
            Some(ArgError::NonDecimalWithGroup)
        } else {
            None
        }
    } else if c == FLAG_HELP {
        if flags_arg.as_str().unicode_len() > 3 {
            Some(ArgError::HelpWithOthers)
        } else {
            None
        }
    } else if c == FLAG_DASH {
        Some(ArgError::DashInside)
    } else {
        Some(ArgError::UnknownFlag(c))
    }
}

/// Checks a command line: the program name, the flag argument between two
/// dashes, then the messages.
pub fn validate_flags(argv: &Vec<String>) -> (r: Result<Command, ArgError>)
    ensures
        r == validate_spec(argv@.map_values(|a: String| a@)),
{
    let ghost args = argv@.map_values(|a: String| a@);
    let num_argv = argv.len();
    if num_argv < 2 {
        return Err(ArgError::NoFlags);
    }
    let flags_arg = &argv[1];
    let ghost s = flags_arg@;
    assert(args[1] == s);
    let fs = flags_arg.as_str();
    let len_flags = fs.unicode_len();
    if len_flags < 3 || len_flags > 24 {
        return Err(ArgError::BadFlagLength);
    }
    if fs.get_char(0) != FLAG_DASH || fs.get_char(len_flags - 1) != FLAG_DASH {
        return Err(ArgError::NotDashed);
    }
    let mut i: usize = 0;
    while i < len_flags
        invariant
            args == argv@.map_values(|a: String| a@),
            num_argv == argv@.len() >= 2,
            args[1] == s,
            3 <= len_flags <= 24,
            s[0] == FLAG_DASH,
            s[len_flags - 1] == FLAG_DASH,
            len_flags == s.len(),
            fs@ == s,
            i <= len_flags,
            first_slip(s, 0) == first_slip(s, i as nat),
        decreases len_flags - i,
    {
        let c = fs.get_char(i);
        match slip_for(c) {
            Some(right) => {
                assert(first_slip(s, i as nat) == Some((c, right)));
                return Err(ArgError::WrongFlag(c, right));
            },
            None => {},
        }
        i = i + 1;
    }
    if len_flags == 3 && fs.get_char(1) == FLAG_HELP {
        assert(s =~= seq![FLAG_DASH, FLAG_HELP, FLAG_DASH]);
        return Ok(Command::Help);
    }
    assert(s != seq![FLAG_DASH, FLAG_HELP, FLAG_DASH]);
    if arg_has_flag(flags_arg, FLAG_HELP) && len_flags > 3 {
        return Err(ArgError::HelpWithOthers);
    }
    let inner = String::from_str(fs.substring_char(1, len_flags - 1));
    let reoccurrance = search_for_flag_reocurrance(&inner);
    let double_benchmark = match reoccurrance {
        Err(e) => {
            return Err(e);
        },
        Ok(c) => {
            if c != '\0' && c != FLAG_BENCHMARK {
                return Err(ArgError::RepeatedFlag(c));
            }
            c == FLAG_BENCHMARK
        },
    };
    if num_argv < 3 {
        return Err(ArgError::NoMessage);
    }
    let mut j: usize = 1;
    while j + 1 < len_flags
        invariant
            args == argv@.map_values(|a: String| a@),
            num_argv == argv@.len() >= 3,
            args[1] == s,
            3 <= len_flags <= 24,
            s[0] == FLAG_DASH,
            s[len_flags - 1] == FLAG_DASH,
            first_slip(s, 0) is None,
            s != seq![FLAG_DASH, FLAG_HELP, FLAG_DASH],
            !has_flag(s, FLAG_HELP) || len_flags <= 3,
            reoccurrance_spec(s.subrange(1, s.len() - 1)) == Ok::<char, ArgError>(
                if double_benchmark {
                    FLAG_BENCHMARK
                } else {
                    '\0'
                },
            ),
            len_flags == s.len(),
            fs@ == s,
            flags_arg@ == s,
            1 <= j <= len_flags - 1,
            first_broken_rule(s, 1, double_benchmark) == first_broken_rule(
                s,
                j as nat,
                double_benchmark,
            ),
        decreases len_flags - j,
    {
        let c = fs.get_char(j);
        match flag_error(c, flags_arg, double_benchmark) {
            Some(e) => {
                assert(first_broken_rule(s, j as nat, double_benchmark) == Some(e));
                return Err(e);
            },
            None => {},
        }
        j = j + 1;
    }
    Ok(Command::Hash)
}

} // verus!
