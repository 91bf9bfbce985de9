//! The fixed tables of the hash: primes, masks, the shuffle's pairs and the
//! digit characters of each base.
use vstd::prelude::*;

verus! {

/// The 54 primes below 256, indexed by a word reduced modulo 54.
pub const BYTE_PRIMES: [u16; 54] = [
    0x2, 0x3, 0x5, 0x7, 0xb, 0xd, 0x11, 0x13, 0x17, 0x1d, 0x1f, 0x25, 0x29, 0x2b, 0x2f,
    0x35, 0x3b, 0x3d, 0x43, 0x47, 0x49, 0x4f, 0x53, 0x59, 0x61, 0x65, 0x67, 0x6b, 0x6d,
    0x71, 0x7f, 0x83, 0x89, 0x8b, 0x95, 0x97, 0x9d, 0xa3, 0xa7, 0xad, 0xb3, 0xb5, 0xbf,
    0xc1, 0xc5, 0xc7, 0xd3, 0xdf, 0xe3, 0xe5, 0xe9, 0xef, 0xf1, 0xfb,
];

/// Single-digit odd primes, selected by a value modulo 3.
pub const SINGLE_DIGIT_PRIMES: [u16; 3] = [0x3, 0x5, 0x7];

/// The two primes that the second alphabet operation chooses between.
pub const MAGIC_PRIMES: [u16; 2] = [0x33, 0x65];

/// The primes that every round reduces the register by, in order.
pub const ROUND_PRIMES: [u16; 90] = [
    0x0377, 0x0683, 0x05fb, 0x05fb, 0x0665, 0x074b, 0x036d, 0x033d, 0x0115, 0x07cf, 0x0e59,
    0x0e75, 0x0a75, 0x119b, 0x1073, 0x12b3, 0x0fd1, 0x0a75, 0x0de7, 0x10bb, 0x18d1, 0x1c99,
    0x1723, 0x1cc9, 0x20c3, 0x2327, 0x2063, 0x215b, 0x17e1, 0x22bd, 0xf2ff, 0xf50b, 0xf4af,
    0xf2b3, 0xf5fb, 0xf4af, 0xf2b9, 0xf38b, 0xf4c3, 0xf5db, 0x1039, 0x1003, 0x0fa1, 0x0fa3,
    0x0fa7, 0x8687, 0x80db, 0x86d1, 0x7fcd, 0x7f43, 0xa10b, 0x9e81, 0x9d15, 0xa289, 0xa279,
    0x3e11, 0x3aa5, 0x3be3, 0x3daf, 0x3bff, 0xff8f, 0xff71, 0xfe03, 0xfe41, 0xfe05, 0xff2f,
    0xfe7b, 0xfeb3, 0x0409, 0x0481, 0x1d7b, 0x1c4f, 0x1e6d, 0x1b7f, 0x1e71, 0xe875, 0xe2cd,
    0xe351, 0xe363, 0xe329, 0x049d, 0x0427, 0xcbb3, 0x184d, 0x2ce1, 0x8861, 0x59b3, 0x2077,
    0xff9d, 0xff2f,
];

/// Word masks that the permutation step selects by a register word modulo 4.
pub const MASKS_ARRAY: [u16; 4] = [0xff00, 0x0fff, 0xfff0, 0x00ff];

/// The six pairs of register positions that the shuffle swaps, in order.
pub const COMB_BIONOM: [(usize, usize); 6] = [(0, 1), (0, 2), (0, 3), (1, 2), (1, 3), (2, 3)];

/// The four words the state starts from.
pub const INITIAL_PRIMES: [u16; 4] = [0x17cb, 0x0371, 0x2419, 0xf223];

/// Digit characters of the base-60 digest.
pub const SEX_CHARS: &'static str = "0123456789ABCDEFGHIJKLMNOPQRSTUVWXYZabcdefghijklmnopqrstuvwx";

/// Digit characters of the base-20 digest.
pub const VIG_CHARS: &'static str = "ABCDEFGHIJ@^&*$+!;:~";

/// Digit characters of the base-16 digest.
pub const HEX_CHARS: &'static str = "0123456789ABCDEF";

/// Digit characters of the base-14 digest.
pub const TET_CHARS: &'static str = "0123456789TEWR";

/// Digit characters of the base-12 digest.
pub const DUO_CHARS: &'static str = "0123456789*#";

/// Digit characters of the base-8 digest.
pub const OCT_CHARS: &'static str = "01234567";

/// Digit characters of the base-6 digest.
pub const SEN_CHARS: &'static str = "012345";

/// Digit characters of the base-2 digest.
pub const BIN_CHARS: &'static str = "01";

} // verus!
