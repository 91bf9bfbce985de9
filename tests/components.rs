use poxhash::alphabet::{alpha, delta, gamma, theta};
use poxhash::block::{apply_bytes, process_block};
use poxhash::convert::{
    word_array_to_bin_digest, word_array_to_byte_array, word_array_to_double_array,
    word_array_to_duo_digest, word_array_to_hex_digest, word_array_to_oct_digest,
    word_array_to_quad, word_array_to_sen_digest, word_array_to_sex_digest,
    word_array_to_tet_digest, word_array_to_vig_digest,
};
use poxhash::ops::{centum, deca, epsilon, get_8b_prime, gorda, lamed, omega, satum, tamaam, tasu};
use poxhash::pad::octopad;
use poxhash::round::{
    apply_add_temp_to_facts, apply_alphabet_operation, apply_bahman, apply_prime, apply_shuffle,
    one_round,
};
use poxhash::tools::{copy_array, log2n, max_and_argmax, min_and_argmin};

const REG: [u16; 4] = [0x1234, 0xabcd, 0x00ff, 0x8001];

#[test]
fn halves_of_a_double() {
    assert_eq!(omega(0x1234_5678), 0x1234);
    assert_eq!(epsilon(0x1234_5678), 0x5678);
    assert_eq!(omega(0xffff), 0);
    assert_eq!(epsilon(0x1_0000), 0);
}

#[test]
fn shift_or_and_rotation() {
    assert_eq!(lamed(0x1234, 2), 18640);
    assert_eq!(lamed(0xc001, 2), 196615);
    assert_eq!(gorda(0x1234, 2), 18640);
    assert_eq!(gorda(0xc001, 2), 3);
    assert_eq!(gorda(0xffff, 2), 3);
}

#[test]
fn wrapping_add() {
    assert_eq!(tasu(1, 2), 3);
    assert_eq!(tasu(0xffff, 1), 0);
    assert_eq!(tasu(0xffff, 0xffff), 0xfffe);
    assert_eq!(tasu(0x8000, 0x7fff), 0xffff);
}

#[test]
fn portion_aggregates() {
    assert_eq!(tamaam(&REG), 20416);
    assert_eq!(deca(&REG), 40833);
    assert_eq!(deca(&[0xffff, 0xffff, 0xffff, 0xffff]), 0xfffe);
    assert_eq!(deca(&[0xffff, 0xffff, 0xffff, 0xfffd]), 0xfffd);
    assert_eq!(tamaam(&[0xffff, 0xffff, 0xffff, 0xffff]), 0xffff);
    assert_eq!(centum(&REG, &[0, 1, 1, 1]), 19251);
    assert_eq!(satum(&REG, &[0, 1, 1, 1]), 38503);
    assert_eq!(satum(&[0xffff, 0xffff, 0, 0], &[1, 1, 0, 0]), 0xffff);
    assert_eq!(satum(&[0xffff, 0xffff, 0xffff, 0], &[1, 1, 1, 1]), 0x7fff);
}

#[test]
fn small_primes() {
    assert_eq!(get_8b_prime(0), 2);
    assert_eq!(get_8b_prime(53), 0xfb);
    assert_eq!(get_8b_prime(54), 2);
    assert_eq!(get_8b_prime(0xffff), [2u16, 3, 5, 7, 11, 13, 17, 19, 23, 29, 31, 37, 41, 43, 47, 53, 59, 61, 67, 71, 73, 79, 83, 89, 97, 101, 103, 107, 109, 113, 127, 131, 137, 139, 149, 151, 157, 163, 167, 173, 179, 181, 191, 193, 197, 199, 211, 223, 227, 229, 233, 239, 241, 251][65535 % 54]);
}

#[test]
fn floor_log2() {
    let inputs = [0u16, 1, 2, 3, 4, 255, 256, 65535];
    let expected = [0u16, 0, 1, 1, 2, 7, 8, 15];
    for i in 0..inputs.len() {
        assert_eq!(log2n(inputs[i]), expected[i]);
    }
}

#[test]
fn extremes_take_first_index() {
    assert_eq!(max_and_argmax(&[3, 9, 9, 1], 4), (9, 1));
    assert_eq!(min_and_argmin(&[3, 1, 9, 1], 4), (1, 1));
    assert_eq!(max_and_argmax(&[3, 9, 9, 10], 3), (9, 1));
    assert_eq!(min_and_argmin(&[7], 1), (7, 0));
    assert_eq!(copy_array(&[1, 2, 3, 4, 5]), [1, 2, 3, 4]);
}

#[test]
fn alphabet_operations() {
    assert_eq!(alpha(&REG), [2330, 10995, 63, 32769]);
    assert_eq!(delta(&REG), [4660, 43981, 255, 32925]);
    assert_eq!(theta(&REG), [4658, 43981, 255, 57345]);
    assert_eq!(gamma(&REG), [1165, 43983, 248, 32769]);
    assert_eq!(gamma(&[5, 5, 3, 9]), [0, 2, 3, 9]);
    assert_eq!(apply_alphabet_operation(&REG), [0, 11005, 60, 8325]);
}

#[test]
fn round_steps() {
    assert_eq!(apply_bahman(&REG, 0x0377), [65535, 904, 1791, 33185]);
    assert_eq!(apply_prime(&REG), [64511, 4, 63663, 850]);
    assert_eq!(apply_shuffle(&REG), [0x8001, 0x00ff, 0xabcd, 0x1234]);
    assert_eq!(apply_add_temp_to_facts(&REG, &[0xffff, 1, 2, 0x8000]), [0x1233, 0xabce, 0x0101, 0x0001]);
    assert_eq!(one_round(&REG), [1848, 44173, 16643, 49152]);
}

#[test]
fn byte_injection() {
    assert_eq!(apply_bytes(&REG, &[1, 2, 3, 4], 5), [30439, 2694, 65283, 16383]);
    assert_eq!(apply_bytes(&REG, &[0xffff, 0xfffe, 0xfff0, 0x8000], 30), [29233, 5182, 32550, 32769]);
}

#[test]
fn one_block() {
    let block: Vec<u16> = (0u16..64).collect();
    assert_eq!(process_block(&[0x17cb, 0x0371, 0x2419, 0xf223], &block), [35222, 54166, 20885, 24112]);
}

#[test]
fn padding_walks_the_message() {
    let padded = octopad(&vec![1, 2, 3]);
    let expected: Vec<u16> = vec![
        1, 2, 3, 2, 6, 8, 17, 37, 75, 150, 40, 81, 160, 66, 132, 8, 18, 32, 65, 133, 11, 21, 40,
        83, 165, 72, 144, 32, 66, 128, 1, 7, 10, 23, 45, 88, 179, 101, 202, 146, 38, 73, 151, 42,
        84, 168, 80, 162, 64, 130, 7, 15, 24, 48, 96, 192, 128, 1, 7, 10, 23, 45, 88, 179,
    ];
    assert_eq!(padded, expected);
}

#[test]
fn padding_lengths() {
    let cases = [(0usize, 0usize), (1, 64), (63, 64), (64, 64), (65, 128), (100, 128), (128, 128)];
    for (n, padded_len) in cases {
        let message = vec![7u8; n];
        let padded = octopad(&message);
        assert_eq!(padded.len(), padded_len);
        assert_eq!(padded.len() % 64, 0);
        for i in 0..n {
            assert_eq!(padded[i], 7);
        }
    }
}

#[test]
fn positional_digests() {
    assert_eq!(word_array_to_sex_digest(&REG), "1HeCD104F969");
    assert_eq!(word_array_to_vig_digest(&REG), "A^*AFJ~BAA&+EB:J");
    assert_eq!(word_array_to_hex_digest(&REG), "1234ABCD00FF8001");
    assert_eq!(word_array_to_tet_digest(&REG), "019TW12057001430ER29");
    assert_eq!(word_array_to_duo_digest(&REG), "02844215510019316#69");
    assert_eq!(word_array_to_oct_digest(&REG), "011064125715000377100001");
    assert_eq!(word_array_to_sen_digest(&REG), "0033324053534100011030411413");
    assert_eq!(
        word_array_to_bin_digest(&REG),
        "0001001000110100101010111100110100000000111111111000000000000001"
    );
}

#[test]
fn digests_of_extreme_words() {
    let w = [0u16, 0xffff, 0, 0xffff];
    assert_eq!(word_array_to_hex_digest(&w), "0000FFFF0000FFFF");
    assert_eq!(word_array_to_sex_digest(&w), "000ICF000ICF");
    assert_eq!(word_array_to_bin_digest(&w), format!("{}{}{}{}", "0".repeat(16), "1".repeat(16), "0".repeat(16), "1".repeat(16)));
}

#[test]
fn numeric_views() {
    assert_eq!(word_array_to_byte_array(&REG), [0x34, 0x12, 0xcd, 0xab, 0xff, 0x00, 0x01, 0x80]);
    assert_eq!(word_array_to_double_array(&REG), [0xabcd_1234, 0x8001_00ff]);
    assert_eq!(word_array_to_quad(&REG), 0x8001_00ff_abcd_1234);
}
