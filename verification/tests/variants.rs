//! The table of variants, and the rotation offsets in their packed forms.

use tiny_keccak::{
    keccak224, keccak256, keccak384, keccak512, rho_pairs, rho_quarters, sha3_224, sha3_256,
    sha3_384, sha3_512, shake128, shake256, Keccak, Variant,
};

const ALL: [Variant; 10] = [
    Variant::Shake128,
    Variant::Shake256,
    Variant::Keccak224,
    Variant::Keccak256,
    Variant::Keccak384,
    Variant::Keccak512,
    Variant::Sha3_224,
    Variant::Sha3_256,
    Variant::Sha3_384,
    Variant::Sha3_512,
];

#[test]
fn variant_rates() {
    let rates: Vec<usize> = ALL.iter().map(|v| v.rate()).collect();
    assert_eq!(rates, vec![168, 136, 144, 136, 104, 72, 144, 136, 104, 72]);
    for v in ALL {
        assert_eq!(v.rate(), 200 - v.bits() / 4);
    }
}

#[test]
fn variant_bits() {
    let bits: Vec<usize> = ALL.iter().map(|v| v.bits()).collect();
    assert_eq!(bits, vec![128, 256, 224, 256, 384, 512, 224, 256, 384, 512]);
}

#[test]
fn variant_delims() {
    let delims: Vec<u8> = ALL.iter().map(|v| v.delim()).collect();
    assert_eq!(delims, vec![0x1f, 0x1f, 0x01, 0x01, 0x01, 0x01, 0x06, 0x06, 0x06, 0x06]);
}

#[test]
fn variant_output_lengths() {
    let lens: Vec<Option<usize>> = ALL.iter().map(|v| v.output_len()).collect();
    assert_eq!(
        lens,
        vec![None, None, Some(28), Some(32), Some(48), Some(64), Some(28), Some(32), Some(48), Some(64)]
    );
}

#[test]
fn named_constructors_match_the_table() {
    let made: [Keccak; 10] = [
        Keccak::new_shake128(),
        Keccak::new_shake256(),
        Keccak::new_keccak224(),
        Keccak::new_keccak256(),
        Keccak::new_keccak384(),
        Keccak::new_keccak512(),
        Keccak::new_sha3_224(),
        Keccak::new_sha3_256(),
        Keccak::new_sha3_384(),
        Keccak::new_sha3_512(),
    ];
    for (keccak, v) in made.iter().zip(ALL) {
        assert_eq!(keccak.rate(), v.rate());
        assert_eq!(keccak.delim(), v.delim());
        assert_eq!(keccak.offset(), 0);
        assert!(keccak.pending().is_empty());
        assert_eq!(keccak.get_state(), vec![0u64; 25]);

        let from_table = Keccak::with_variant(v);
        assert_eq!(from_table.rate(), keccak.rate());
        assert_eq!(from_table.delim(), keccak.delim());
        assert_eq!(from_table.get_state(), vec![0u64; 25]);
    }
}

#[test]
fn hash_by_variant_is_the_named_function() {
    let message = b"The quick brown fox jumps over the lazy dog";
    let by_variant = |v: Variant, n: usize| {
        let mut out = vec![0u8; n];
        v.hash(message, &mut out);
        out
    };
    assert_eq!(by_variant(Variant::Shake128, 50), shake128(message, 50));
    assert_eq!(by_variant(Variant::Shake256, 50), shake256(message, 50));
    assert_eq!(by_variant(Variant::Keccak224, 28), keccak224(message).to_vec());
    assert_eq!(by_variant(Variant::Keccak256, 32), keccak256(message).to_vec());
    assert_eq!(by_variant(Variant::Keccak384, 48), keccak384(message).to_vec());
    assert_eq!(by_variant(Variant::Keccak512, 64), keccak512(message).to_vec());
    assert_eq!(by_variant(Variant::Sha3_224, 28), sha3_224(message).to_vec());
    assert_eq!(by_variant(Variant::Sha3_256, 32), sha3_256(message).to_vec());
    assert_eq!(by_variant(Variant::Sha3_384, 48), sha3_384(message).to_vec());
    assert_eq!(by_variant(Variant::Sha3_512, 64), sha3_512(message).to_vec());
}

#[test]
fn domain_separation_tells_variants_of_one_rate_apart() {
    let message = b"abc";
    let sha3 = sha3_256(message).to_vec();
    let keccak = keccak256(message).to_vec();
    let shake = shake256(message, 32);
    assert_ne!(sha3, keccak);
    assert_ne!(sha3, shake);
    assert_ne!(keccak, shake);
}

#[test]
fn quick_brown_fox_sha3_256() {
    let expected: [u8; 32] = [
        0x69, 0x07, 0x0d, 0xda, 0x01, 0x97, 0x5c, 0x8c, 0x12, 0x0c, 0x3a, 0xad, 0xa1, 0xb2, 0x82,
        0x39, 0x4e, 0x7f, 0x03, 0x2f, 0xa9, 0xcf, 0x32, 0xf4, 0xcb, 0x22, 0x59, 0xa0, 0x89, 0x7d,
        0xfc, 0x04,
    ];
    assert_eq!(sha3_256(b"The quick brown fox jumps over the lazy dog"), expected);
}

#[test]
fn rho_offsets_in_quarters() {
    let expected: Vec<(u32, u32)> = vec![
        (0, 1), (15, 2), (7, 0), (6, 3), (9, 0), (11, 0), (1, 2), (13, 3),
        (5, 0), (0, 3), (2, 2), (10, 3), (6, 1), (9, 3), (10, 1), (11, 1),
        (3, 3), (5, 1), (2, 0), (4, 2), (0, 2), (15, 1), (14, 0), (3, 2),
    ];
    assert_eq!(rho_quarters(), expected);
}

#[test]
fn rho_offsets_in_packed_pairs() {
    let expected: Vec<u32> = vec![
        0x0BF, 0x964, 0x51C, 0x27A, 0xF6C, 0x576, 0x667, 0x4D7, 0xAF1, 0xBB8, 0x0FE, 0xC88,
    ];
    assert_eq!(rho_pairs(), expected);
    assert_eq!(expected[0], ((64 - 62) << 6) | (64 - 1));
}
