//! Scalars of the ristretto255 group: their byte encoding and their
//! derivation from a hash.

use crate::bytes::{
    byte_capacity, copy_to_array32, le_bytes, le_value, lemma_le_bytes_len,
    lemma_le_bytes_of_le_value, lemma_le_value_bound, lemma_le_value_injective,
    lemma_le_value_of_le_bytes, to_bytes32_slice,
};
use crate::error::ZKError;
use crate::hash::{keccak256, ZKeccak256};
use vstd::prelude::*;
use vstd::slice::slice_to_vec;

verus! {

/// The order of the group,
/// 2^252 + 27742317777372353535851937790883648493, as one literal.
pub open spec fn group_order() -> nat {
    0x1000_0000_0000_0000_0000_0000_0000_0000_14de_f9de_a2f7_9cd6_5812_631a_5cf5_d3ednat
}

/// The literal of [`group_order`] is the sum that defines the order.
pub proof fn lemma_group_order_value()
    ensures
        group_order() == 0x1000_0000_0000_0000_0000_0000_0000_0000_0000_0000_0000_0000_0000_0000_0000_0000nat
            + 27742317777372353535851937790883648493nat,
{
}

/// The scalar that a digest stands for: the digest, read as a little-endian
/// integer, reduced modulo the group order.
pub open spec fn digest_to_scalar(digest: Seq<u8>) -> nat {
    le_value(digest) % group_order()
}

/// What decoding `bytes` as a scalar gives: the integer that 32 bytes encode,
/// taken as it is, or the failure on any other length.
pub open spec fn decode_scalar(bytes: Seq<u8>) -> Result<nat, ZKError> {
    if bytes.len() == 32 {
        Ok(le_value(bytes))
    } else {
        Err(ZKError::FormatError)
    }
}

/// The encoding of the scalar that holds `value`: 32 little-endian bytes.
pub open spec fn encode_scalar(value: nat) -> Seq<u8> {
    le_bytes(value, 32)
}

/// An integer below 2^256, held as its 32-byte little-endian encoding and
/// standing for an element of the integers modulo [`group_order`].
///
/// The view of a scalar is that integer. It need not be below the group
/// order: see [`Scalar::is_canonical`]. On given bytes the integer is had
/// from [`crate::bytes::lemma_le_value_32`].
#[derive(Clone, Copy, Debug, PartialEq, Eq)]
pub struct Scalar {
    bytes: [u8; 32],
}

impl View for Scalar {
    type V = nat;

    closed spec fn view(&self) -> nat {
        le_value(self.bytes@)
    }
}

impl Scalar {
    /// Whether the scalar is the least representative of its residue class.
    pub open spec fn is_canonical(&self) -> bool {
        self@ < group_order()
    }

    /// A scalar fits in 32 bytes: it is below 2^256.
    pub proof fn lemma_view_bound(self)
        ensures
            self@ < byte_capacity(32),
            self@ < 0x1_0000_0000_0000_0000_0000_0000_0000_0000_0000_0000_0000_0000_0000_0000_0000_0000,
    {
        lemma_le_value_bound(self.bytes@);
        reveal_with_fuel(byte_capacity, 33);
    }

    /// Scalars that hold the same integer are the same scalar.
    pub proof fn lemma_view_injective(self, other: Scalar)
        requires
            self@ == other@,
        ensures
            self == other,
    {
        lemma_le_value_injective(self.bytes@, other.bytes@);
        assert(self.bytes =~= other.bytes);
    }

    /// The scalar that holds the integer encoded by `bytes`, reduced modulo
    /// the group order.
    pub fn from_bytes_mod_order(bytes: [u8; 32]) -> (scalar: Scalar)
        ensures
            scalar@ == digest_to_scalar(bytes@),
            scalar.is_canonical(),
    {
        Scalar { bytes: reduce_mod_group_order(bytes) }
    }

    /// The scalar that holds the integer encoded by `bytes`, as it is.
    pub fn from_raw_bytes(bytes: [u8; 32]) -> (scalar: Scalar)
        ensures
            scalar@ == le_value(bytes@),
            encode_scalar(scalar@) == bytes@,
    {
        proof {
            lemma_le_bytes_of_le_value(bytes@);
        }
        Scalar { bytes }
    }
}

/// Trusted: `curve25519_dalek::scalar::Scalar::from_bytes_mod_order`, read
/// back with `to_bytes`.
///
/// Claims what the method documents: the 256-bit little-endian integer in
/// `bytes` is reduced modulo the group order, and the result holds the
/// reduced representative.
#[verifier::external_body]
fn reduce_mod_group_order(bytes: [u8; 32]) -> (reduced: [u8; 32])
    ensures
        le_value(reduced@) == le_value(bytes@) % group_order(),
{
    curve25519_dalek::scalar::Scalar::from_bytes_mod_order(bytes).to_bytes()
}

/// Converts an arbitrary byte string to a scalar with the given hash
/// algorithm: the digest, read as a little-endian integer, is reduced modulo
/// the group order.
pub fn hash_to_scalar_with<H: crate::hash::Hash>(hasher: &H, input: &[u8]) -> (scalar: Scalar)
    ensures
        scalar@ == digest_to_scalar(hasher.digest_of(input@)),
        scalar.is_canonical(),
{
    let digest = hasher.hash(input);
    let array = copy_to_array32(digest.as_slice());
    Scalar::from_bytes_mod_order(array)
}

/// Converts an arbitrary byte string to a scalar: its Keccak-256 digest, read
/// as a little-endian integer, is reduced modulo the group order.
pub fn hash_to_scalar(input: &[u8]) -> (scalar: Scalar)
    ensures
        scalar@ == digest_to_scalar(keccak256(input@)),
        scalar.is_canonical(),
{
    let hasher = ZKeccak256 {  };
    hash_to_scalar_with(&hasher, input)
}

/// Converts a scalar to a vector: its 32-byte little-endian encoding.
pub fn scalar_to_bytes(input: &Scalar) -> (bytes: Vec<u8>)
    ensures
        bytes@ == encode_scalar(input@),
        bytes@.len() == 32,
        decode_scalar(bytes@) == Ok::<nat, ZKError>(input@),
{
    proof {
        lemma_le_bytes_of_le_value(input.bytes@);
    }
    slice_to_vec(input.bytes.as_slice())
}

/// Converts a scalar to an array: its 32-byte little-endian encoding.
pub fn scalar_to_slice(input: &Scalar) -> (bytes: [u8; 32])
    ensures
        bytes@ == encode_scalar(input@),
        decode_scalar(bytes@) == Ok::<nat, ZKError>(input@),
{
    proof {
        lemma_le_bytes_of_le_value(input.bytes@);
    }
    input.bytes
}

/// Converts a byte string to a scalar.
///
/// Fails with [`ZKError::FormatError`] exactly when `input` is not 32 bytes
/// long. Otherwise the scalar holds the integer that the bytes encode, with
/// no reduction: encoding it gives `input` back.
pub fn bytes_to_scalar(input: &[u8]) -> (result: Result<Scalar, ZKError>)
    ensures
        match result {
            Ok(scalar) => decode_scalar(input@) == Ok::<nat, ZKError>(scalar@) && encode_scalar(
                scalar@,
            ) == input@,
            Err(error) => decode_scalar(input@) == Err::<nat, ZKError>(error),
        },
        input@.len() != 32 ==> result == Err::<Scalar, ZKError>(ZKError::FormatError),
{
    match to_bytes32_slice(input) {
        Ok(array) => Ok(Scalar::from_raw_bytes(array)),
        Err(error) => Err(error),
    }
}

/// Round trip from bytes: any 32 bytes decode to a scalar, and encoding that
/// scalar gives the same 32 bytes back, whether or not they are below the
/// group order.
pub proof fn lemma_scalar_bytes_round_trip(bytes: Seq<u8>)
    requires
        bytes.len() == 32,
    ensures
        decode_scalar(bytes) is Ok,
        encode_scalar(decode_scalar(bytes)->Ok_0) == bytes,
{
    lemma_le_bytes_of_le_value(bytes);
}

/// Round trip from a scalar: encoding a scalar and decoding the bytes gives
/// the same scalar back.
pub proof fn lemma_scalar_round_trip(scalar: Scalar, decoded: Scalar)
    requires
        decode_scalar(encode_scalar(scalar@)) == Ok::<nat, ZKError>(decoded@),
    ensures
        decoded == scalar,
{
    scalar.lemma_view_bound();
    lemma_le_bytes_len(scalar@, 32);
    lemma_le_value_of_le_bytes(scalar@, 32);
    decoded.lemma_view_injective(scalar);
}

/// Length validation: bytes of any other length than 32 do not decode.
pub proof fn lemma_scalar_length_checked(bytes: Seq<u8>)
    ensures
        decode_scalar(bytes) is Ok <==> bytes.len() == 32,
        bytes.len() != 32 ==> decode_scalar(bytes) == Err::<nat, ZKError>(ZKError::FormatError),
{
}

/// Determinism: two scalars derived from the same input with the same hash
/// algorithm are the same scalar.
pub proof fn lemma_hash_to_scalar_deterministic<H: crate::hash::Hash>(
    hasher: H,
    input: Seq<u8>,
    first: Scalar,
    second: Scalar,
)
    requires
        first@ == digest_to_scalar(hasher.digest_of(input)),
        second@ == digest_to_scalar(hasher.digest_of(input)),
    ensures
        first == second,
{
    first.lemma_view_injective(second);
}

/// A derived scalar is canonical, and reducing its encoding again changes
/// nothing.
pub proof fn lemma_digest_to_scalar_canonical(digest: Seq<u8>)
    ensures
        digest_to_scalar(digest) < group_order(),
        digest_to_scalar(encode_scalar(digest_to_scalar(digest))) == digest_to_scalar(digest),
{
    let value = digest_to_scalar(digest);
    assert(group_order() < byte_capacity(32)) by {
        reveal_with_fuel(byte_capacity, 33);
    }
    lemma_le_value_of_le_bytes(value, 32);
}

} // verus!
