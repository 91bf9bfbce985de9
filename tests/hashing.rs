use poxhash::{pox_hash, PoxDigest};

fn hash_str(s: &str) -> PoxDigest {
    pox_hash(&s.as_bytes().to_vec())
}

#[test]
fn golden_abc() {
    let d = hash_str("abc");
    assert_eq!(d.hexdigest, "DCF7BD7246D8C230");
    assert_eq!(d.words, [56567, 48498, 18136, 49712]);
    assert_eq!(d.bytes, [247, 220, 114, 189, 216, 70, 48, 194]);
    assert_eq!(d.sexdigest, "FglDSI52GDmW");
    assert_eq!(d.vigdigest, "HBIHGBE:CFG!GEF&");
    assert_eq!(d.tetdigest, "1688713962068761418W");
    assert_eq!(d.duodigest, "2889#240960*5#424928");
    assert_eq!(d.octdigest, "156367136562043330141060");
    assert_eq!(d.sendigest, "1113515101231002155441022052");
    assert_eq!(
        d.bindigest,
        "1101110011110111101111010111001001000110110110001100001000110000"
    );
    assert_eq!(d.doubles, [3178421495, 3257943768]);
    assert_eq!(d.quad, 13992761938945432823);
}

#[test]
fn golden_single_byte() {
    let d = hash_str("a");
    assert_eq!(d.hexdigest, "240CEC0A2565CE79");
    assert_eq!(d.words, [9228, 60426, 9573, 52857]);
    assert_eq!(d.bytes, [12, 36, 10, 236, 101, 37, 121, 206]);
}

#[test]
fn golden_pangram() {
    let d = hash_str("The quick brown fox jumps over the lazy dog");
    assert_eq!(d.hexdigest, "07B13AD07ADB51DB");
    assert_eq!(d.words, [1969, 15056, 31451, 20955]);
    assert_eq!(d.bytes, [177, 7, 208, 58, 219, 122, 219, 81]);
    assert_eq!(d.quad, 5898443218974934961);
}

#[test]
fn golden_two_blocks() {
    let message: Vec<u8> = (0u8..200).collect();
    let d = pox_hash(&message);
    assert_eq!(d.hexdigest, "E2A4BCBE170C22EE");
}

#[test]
fn empty_message_renders_initial_primes() {
    let d = pox_hash(&Vec::new());
    assert_eq!(d.words, [0x17cb, 0x0371, 0x2419, 0xf223]);
    assert_eq!(d.hexdigest, "17CB03712419F223");
    assert_eq!(d.sexdigest, "1fV0Ef2Y1HD7");
    assert_eq!(d.bytes, [203, 23, 113, 3, 25, 36, 35, 242]);
    assert_eq!(d.doubles, [57743307, 4062389273]);
    assert_eq!(d.quad, 17447829071213959115);
    let again = pox_hash(&Vec::new());
    assert_eq!(again.hexdigest, d.hexdigest);
}

#[test]
fn hashing_is_deterministic() {
    let message: Vec<u8> = b"determinism across calls".to_vec();
    let a = pox_hash(&message);
    let b = pox_hash(&message);
    assert_eq!(a.sexdigest, b.sexdigest);
    assert_eq!(a.vigdigest, b.vigdigest);
    assert_eq!(a.hexdigest, b.hexdigest);
    assert_eq!(a.tetdigest, b.tetdigest);
    assert_eq!(a.duodigest, b.duodigest);
    assert_eq!(a.octdigest, b.octdigest);
    assert_eq!(a.sendigest, b.sendigest);
    assert_eq!(a.bindigest, b.bindigest);
    assert_eq!(a.bytes, b.bytes);
    assert_eq!(a.words, b.words);
    assert_eq!(a.doubles, b.doubles);
    assert_eq!(a.quad, b.quad);
}

#[test]
fn digest_widths_are_fixed() {
    for s in ["", "x", "abc", "a somewhat longer message than one block of sixty-four bytes."] {
        let d = hash_str(s);
        assert_eq!(d.sexdigest.chars().count(), 12);
        assert_eq!(d.vigdigest.chars().count(), 16);
        assert_eq!(d.hexdigest.len(), 16);
        assert_eq!(d.tetdigest.len(), 20);
        assert_eq!(d.duodigest.len(), 20);
        assert_eq!(d.octdigest.len(), 24);
        assert_eq!(d.sendigest.len(), 28);
        assert_eq!(d.bindigest.len(), 64);
    }
}

#[test]
fn views_are_consistent() {
    let d = hash_str("view consistency");
    for i in 0..4 {
        assert_eq!(d.words[i], d.bytes[2 * i] as u16 | ((d.bytes[2 * i + 1] as u16) << 8));
    }
    assert_eq!(d.doubles[0], d.words[0] as u32 | ((d.words[1] as u32) << 16));
    assert_eq!(d.doubles[1], d.words[2] as u32 | ((d.words[3] as u32) << 16));
    let quad = d.words[0] as u64
        | ((d.words[1] as u64) << 16)
        | ((d.words[2] as u64) << 32)
        | ((d.words[3] as u64) << 48);
    assert_eq!(d.quad, quad);
    assert_eq!(
        d.hexdigest,
        format!("{:04X}{:04X}{:04X}{:04X}", d.words[0], d.words[1], d.words[2], d.words[3])
    );
}

#[test]
fn one_byte_flips_change_the_digest() {
    let base: Vec<u8> = (0..150u32).map(|i| (i * 7 + 3) as u8).collect();
    let original = pox_hash(&base).hexdigest;
    let mut changed = 0;
    let positions = [0usize, 17, 63, 64, 100, 149];
    for &p in positions.iter() {
        let mut m = base.clone();
        m[p] ^= 0x01;
        if pox_hash(&m).hexdigest != original {
            changed += 1;
        }
    }
    assert!(changed * 2 > positions.len());
}

#[test]
fn default_digest_is_unset() {
    let d = PoxDigest::default();
    assert_eq!(d.hexdigest, "unset");
    assert_eq!(d.bindigest, "unset");
    assert_eq!(d.words, [0, 0, 0, 0]);
    assert_eq!(d.bytes, [0; 8]);
    assert_eq!(d.doubles, [0, 0]);
    assert_eq!(d.quad, 0);
    let copy = d.clone();
    assert_eq!(copy.sexdigest, "unset");
}
