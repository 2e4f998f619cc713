//! Byte codecs, hash-to-scalar derivation, randomness and the two generator
//! points of a zero-knowledge-proof toolkit over the ristretto255 group.
//!
//! Scalars and group elements are held as their 32-byte encodings; the group
//! arithmetic, the digests and the random draws are done by `curve25519-dalek`,
//! `sha3` and `rand`, behind a handful of trusted functions whose contracts
//! restate what those crates document.

pub mod bytes;
pub mod error;
pub mod hash;
pub mod point;
pub mod random;
pub mod scalar;

pub use bytes::to_bytes32_slice;
pub use error::ZKError;
pub use hash::ZKeccak256;
pub use point::{
    basepoint_g1, basepoint_g2, bytes_to_point, point_to_bytes, point_to_slice, Point,
};
pub use random::{get_random_scalar, get_random_u32};
pub use scalar::{
    bytes_to_scalar, hash_to_scalar, hash_to_scalar_with, scalar_to_bytes, scalar_to_slice, Scalar,
};
