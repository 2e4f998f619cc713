use zkp_utils::scalar::Scalar;
use zkp_utils::{hash_to_scalar, hash_to_scalar_with, scalar_to_bytes, scalar_to_slice, ZKeccak256};

const KECCAK_OF_EMPTY: [u8; 32] = [
    0xc5, 0xd2, 0x46, 0x01, 0x86, 0xf7, 0x23, 0x3c, 0x92, 0x7e, 0x7d, 0xb2, 0xdc, 0xc7, 0x03, 0xc0,
    0xe5, 0x00, 0xb6, 0x53, 0xca, 0x82, 0x27, 0x3b, 0x7b, 0xfa, 0xd8, 0x04, 0x5d, 0x85, 0xa4, 0x70,
];

const KECCAK_OF_ABC: [u8; 32] = [
    0x4e, 0x03, 0x65, 0x7a, 0xea, 0x45, 0xa9, 0x4f, 0xc7, 0xd4, 0x7b, 0xa8, 0x26, 0xc8, 0xd6, 0x67,
    0xc0, 0xd1, 0xe6, 0xe3, 0x3a, 0x64, 0xa0, 0x36, 0xec, 0x44, 0xf5, 0x8f, 0xa1, 0x2d, 0x6c, 0x45,
];

fn keccak(input: &[u8]) -> Vec<u8> {
    zkp_utils::hash::Hash::hash(&ZKeccak256::default(), input)
}

#[test]
fn keccak256_of_empty_input() {
    assert_eq!(keccak(b""), KECCAK_OF_EMPTY.to_vec());
}

#[test]
fn keccak256_of_abc() {
    assert_eq!(keccak(b"abc"), KECCAK_OF_ABC.to_vec());
}

#[test]
fn digest_is_32_bytes_for_any_length() {
    assert_eq!(keccak(b"").len(), 32);
    assert_eq!(keccak(&[0u8; 1]).len(), 32);
    assert_eq!(keccak(&[0u8; 135]).len(), 32);
    assert_eq!(keccak(&[0u8; 136]).len(), 32);
    assert_eq!(keccak(&[0u8; 1000]).len(), 32);
}

#[test]
fn digest_is_deterministic() {
    let first = keccak(b"the same input");
    let second = keccak(b"the same input");
    assert_eq!(first, second);
    let fresh_hasher = ZKeccak256 {};
    assert_eq!(zkp_utils::hash::Hash::hash(&fresh_hasher, b"the same input"), first);
}

#[test]
fn hash_to_scalar_of_empty_input() {
    // The digest of the empty string, little-endian, modulo the group order.
    let expected: [u8; 32] = [
        0x4a, 0x07, 0x8e, 0x76, 0xcd, 0x41, 0xa3, 0xd3, 0xb5, 0x34, 0xb8, 0x3d, 0xc6, 0xf2, 0xea,
        0x2d, 0xe5, 0x00, 0xb6, 0x53, 0xca, 0x82, 0x27, 0x3b, 0x7b, 0xfa, 0xd8, 0x04, 0x5d, 0x85,
        0xa4, 0x00,
    ];
    assert_eq!(scalar_to_slice(&hash_to_scalar(b"")), expected);
}

#[test]
fn hash_to_scalar_of_abc() {
    let expected: [u8; 32] = [
        0x9a, 0xb3, 0x8d, 0x06, 0x81, 0xb9, 0x5f, 0xef, 0x6d, 0x61, 0x9d, 0x1c, 0xac, 0xe0, 0x5a,
        0x14, 0xc0, 0xd1, 0xe6, 0xe3, 0x3a, 0x64, 0xa0, 0x36, 0xec, 0x44, 0xf5, 0x8f, 0xa1, 0x2d,
        0x6c, 0x05,
    ];
    assert_eq!(scalar_to_bytes(&hash_to_scalar(b"abc")), expected.to_vec());
}

#[test]
fn hash_to_scalar_of_hello_world() {
    let expected: [u8; 32] = [
        0x05, 0xd0, 0x97, 0xe3, 0xa0, 0xf8, 0x7c, 0xad, 0xfe, 0x76, 0x83, 0x68, 0xc5, 0x65, 0xad,
        0xb3, 0xf7, 0x02, 0xf8, 0xef, 0x42, 0xa5, 0xec, 0x5f, 0x03, 0xbb, 0xfa, 0x25, 0x4c, 0xb0,
        0x1f, 0x0d,
    ];
    assert_eq!(scalar_to_slice(&hash_to_scalar(b"hello world")), expected);
}

#[test]
fn hash_to_scalar_hashes_first_and_reduces_second() {
    let input = b"commitment opening";
    let mut digest = [0u8; 32];
    digest.copy_from_slice(&keccak(input));
    assert_eq!(hash_to_scalar(input), Scalar::from_bytes_mod_order(digest));
}

#[test]
fn hash_to_scalar_is_deterministic() {
    let input = b"a message that is hashed twice";
    assert_eq!(hash_to_scalar(input), hash_to_scalar(input));
    assert_eq!(hash_to_scalar(&input.to_vec()), hash_to_scalar(input));
}

#[test]
fn hash_to_scalar_with_the_default_algorithm_is_hash_to_scalar() {
    let hasher = ZKeccak256::default();
    for input in [&b""[..], &b"abc"[..], &[0xffu8; 300][..]] {
        assert_eq!(hash_to_scalar_with(&hasher, input), hash_to_scalar(input));
    }
}

#[test]
fn hash_to_scalar_is_canonical() {
    for input in [&b""[..], &b"abc"[..], &b"hello world"[..], &[0u8; 64][..]] {
        let scalar = hash_to_scalar(input);
        // Reducing a canonical scalar changes nothing.
        assert_eq!(Scalar::from_bytes_mod_order(scalar_to_slice(&scalar)), scalar);
    }
}

#[test]
fn hash_to_scalar_separates_differing_inputs() {
    let inputs: [&[u8]; 6] = [b"", b"a", b"b", b"ab", b"ba", b"a\0"];
    for (i, first) in inputs.iter().enumerate() {
        for second in inputs.iter().skip(i + 1) {
            assert_ne!(hash_to_scalar(first), hash_to_scalar(second));
        }
    }
}
