//! Elements of the ristretto255 group: their byte encoding and the two
//! generators.

use crate::bytes::to_bytes32_slice;
use crate::error::ZKError;
use curve25519_dalek::constants::RISTRETTO_BASEPOINT_COMPRESSED;
use curve25519_dalek::ristretto::{CompressedRistretto, RistrettoPoint};
use sha3::Sha3_512;
use vstd::prelude::*;
use vstd::slice::slice_to_vec;

verus! {

/// Whether `bytes` is the canonical encoding of a group element: whether
/// `curve25519-dalek` decompresses it.
pub uninterp spec fn is_point_encoding(bytes: Seq<u8>) -> bool;

/// The encoding of the group element that `curve25519-dalek` derives from
/// `input` by hashing it with SHA3-512 and mapping the digest to the group.
pub uninterp spec fn sha3_512_point_encoding(input: Seq<u8>) -> Seq<u8>;

/// The encoding of the group's standard base point.
pub open spec fn basepoint_g1_encoding() -> Seq<u8> {
    seq![
        0xe2u8, 0xf2u8, 0xaeu8, 0x0au8, 0x6au8, 0xbcu8, 0x4eu8, 0x71u8,
        0xa8u8, 0x84u8, 0xa9u8, 0x61u8, 0xc5u8, 0x00u8, 0x51u8, 0x5fu8,
        0x58u8, 0xe3u8, 0x0bu8, 0x6au8, 0xa5u8, 0x82u8, 0xddu8, 0x8du8,
        0xb6u8, 0xa6u8, 0x59u8, 0x45u8, 0xe0u8, 0x8du8, 0x2du8, 0x76u8,
    ]
}

/// The encoding of the second generator: the element derived from the
/// encoding of the first.
pub open spec fn basepoint_g2_encoding() -> Seq<u8> {
    sha3_512_point_encoding(basepoint_g1_encoding())
}

/// What decoding `bytes` as a group element gives: the encoding of the
/// element, or the failure.
pub open spec fn decode_point(bytes: Seq<u8>) -> Result<Seq<u8>, ZKError> {
    if bytes.len() == 32 && is_point_encoding(bytes) {
        Ok(bytes)
    } else {
        Err(ZKError::FormatError)
    }
}

/// An element of the group, held as its canonical 32-byte encoding.
///
/// The view of a point is that encoding. Every point is valid: its bytes are
/// the canonical encoding of a group element.
#[derive(Clone, Copy, Debug, PartialEq, Eq)]
pub struct Point {
    encoding: [u8; 32],
}

impl View for Point {
    type V = Seq<u8>;

    closed spec fn view(&self) -> Seq<u8> {
        self.encoding@
    }
}

impl Point {
    #[verifier::type_invariant]
    spec fn is_valid(self) -> bool {
        is_point_encoding(self.encoding@)
    }

    /// Points with the same encoding are the same point.
    pub proof fn lemma_view_injective(self, other: Point)
        requires
            self@ == other@,
        ensures
            self == other,
    {
        assert(self.encoding =~= other.encoding);
    }

    /// The point encoded by `encoding`, given the outcome `decompresses` of
    /// the validity check on it; [`ZKError::FormatError`] where the check
    /// failed.
    pub fn from_checked_encoding(encoding: [u8; 32], decompresses: bool) -> (result: Result<
        Point,
        ZKError,
    >)
        requires
            decompresses ==> is_point_encoding(encoding@),
        ensures
            decompresses ==> result is Ok && result->Ok_0@ == encoding@,
            !decompresses ==> result == Err::<Point, ZKError>(ZKError::FormatError),
    {
        if decompresses {
            Ok(Point { encoding })
        } else {
            Err(ZKError::FormatError)
        }
    }
}

/// Trusted: `CompressedRistretto::from_slice` on the 32 bytes, then
/// `CompressedRistretto::decompress`, of which only success is kept.
///
/// Claims that whether decompression succeeds depends on the bytes alone.
/// `from_slice` panics on another length than 32, which the array excludes.
#[verifier::external_body]
fn ristretto_decompresses(encoding: &[u8; 32]) -> (decompresses: bool)
    ensures
        decompresses == is_point_encoding(encoding@),
{
    CompressedRistretto::from_slice(encoding).decompress().is_some()
}

/// Trusted: the constant `RISTRETTO_BASEPOINT_COMPRESSED` of
/// `curve25519_dalek::constants`.
///
/// Claims the 32 bytes that the constant is written with, and that they are,
/// as the constant is documented, the encoding of a group element.
#[verifier::external_body]
fn ristretto_basepoint_compressed() -> (encoding: [u8; 32])
    ensures
        encoding@ == basepoint_g1_encoding(),
        is_point_encoding(encoding@),
{
    RISTRETTO_BASEPOINT_COMPRESSED.to_bytes()
}

/// Trusted: `RistrettoPoint::hash_from_bytes` with `sha3::Sha3_512`, read
/// back with `compress` and `to_bytes`.
///
/// Claims that the result depends on the input bytes alone and that, being
/// the compression of a group element, it is a canonical encoding.
#[verifier::external_body]
fn ristretto_hash_sha3_512(input: &[u8]) -> (encoding: [u8; 32])
    ensures
        encoding@ == sha3_512_point_encoding(input@),
        is_point_encoding(encoding@),
{
    RistrettoPoint::hash_from_bytes::<Sha3_512>(input).compress().to_bytes()
}

/// The group's standard base point.
pub fn basepoint_g1() -> (point: Point)
    ensures
        point@ == basepoint_g1_encoding(),
{
    Point { encoding: ristretto_basepoint_compressed() }
}

/// The second generator, derived by hashing the encoding of the first with
/// SHA3-512 and mapping the digest to the group, so that no exponent relating
/// the two is known.
pub fn basepoint_g2() -> (point: Point)
    ensures
        point@ == basepoint_g2_encoding(),
{
    let g1 = ristretto_basepoint_compressed();
    Point { encoding: ristretto_hash_sha3_512(g1.as_slice()) }
}

/// Converts a point to a vector: its canonical 32-byte encoding.
pub fn point_to_bytes(point: &Point) -> (bytes: Vec<u8>)
    ensures
        bytes@ == point@,
        bytes@.len() == 32,
        decode_point(bytes@) == Ok::<Seq<u8>, ZKError>(point@),
{
    proof {
        use_type_invariant(point);
    }
    slice_to_vec(point.encoding.as_slice())
}

/// Converts a point to an array: its canonical 32-byte encoding.
pub fn point_to_slice(point: &Point) -> (bytes: [u8; 32])
    ensures
        bytes@ == point@,
        decode_point(bytes@) == Ok::<Seq<u8>, ZKError>(point@),
{
    proof {
        use_type_invariant(point);
    }
    point.encoding
}

/// Converts a byte string to a point.
///
/// Succeeds exactly when `point` is 32 bytes long and is the canonical
/// encoding of a group element; the point then has that encoding. Every other
/// input fails with [`ZKError::FormatError`].
pub fn bytes_to_point(point: &[u8]) -> (result: Result<Point, ZKError>)
    ensures
        match result {
            Ok(decoded) => decode_point(point@) == Ok::<Seq<u8>, ZKError>(decoded@),
            Err(error) => decode_point(point@) == Err::<Seq<u8>, ZKError>(error),
        },
        point@.len() != 32 || !is_point_encoding(point@) ==> result == Err::<Point, ZKError>(
            ZKError::FormatError,
        ),
{
    match to_bytes32_slice(point) {
        Ok(encoding) => {
            let decompresses = ristretto_decompresses(&encoding);
            Point::from_checked_encoding(encoding, decompresses)
        },
        Err(error) => Err(error),
    }
}

/// Round trip from bytes: a valid encoding decodes to the point whose
/// encoding, which is what [`point_to_bytes`] returns, is the same 32 bytes.
pub proof fn lemma_point_bytes_round_trip(bytes: Seq<u8>)
    requires
        bytes.len() == 32,
        is_point_encoding(bytes),
    ensures
        decode_point(bytes) == Ok::<Seq<u8>, ZKError>(bytes),
{
}

/// Round trip from a point: a point decoded from the encoding of another is
/// that other point.
pub proof fn lemma_point_round_trip(point: Point, decoded: Point)
    requires
        decode_point(point@) == Ok::<Seq<u8>, ZKError>(decoded@),
    ensures
        decoded == point,
{
    decoded.lemma_view_injective(point);
}

/// Validation: bytes decode exactly when they are 32 bytes long and the
/// canonical encoding of a group element; everything else is a format error.
pub proof fn lemma_point_validated(bytes: Seq<u8>)
    ensures
        decode_point(bytes) is Ok <==> bytes.len() == 32 && is_point_encoding(bytes),
        bytes.len() != 32 ==> decode_point(bytes) == Err::<Seq<u8>, ZKError>(ZKError::FormatError),
        !is_point_encoding(bytes) ==> decode_point(bytes) == Err::<Seq<u8>, ZKError>(
            ZKError::FormatError,
        ),
{
}

/// Stability of the first generator: any two reads of it give the same
/// point.
pub proof fn lemma_basepoint_g1_stable(first: Point, second: Point)
    requires
        first@ == basepoint_g1_encoding(),
        second@ == basepoint_g1_encoding(),
    ensures
        first == second,
{
    first.lemma_view_injective(second);
}

/// Stability of the second generator: any two reads of it give the same
/// point.
pub proof fn lemma_basepoint_g2_stable(first: Point, second: Point)
    requires
        first@ == basepoint_g2_encoding(),
        second@ == basepoint_g2_encoding(),
    ensures
        first == second,
{
    first.lemma_view_injective(second);
}

} // verus!
