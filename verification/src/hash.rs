//! The replaceable hash algorithm behind every derivation in this crate.

use sha3::{Digest, Keccak256};
use vstd::prelude::*;

verus! {

/// Length in bytes of a digest.
pub const DIGEST_SIZE_IN_BYTES: usize = 32;

/// The Keccak-256 digest of `input`.
///
/// The permutation itself is not written out here: this names what the `sha3`
/// crate computes, as a function of the input bytes alone.
pub uninterp spec fn keccak256(input: Seq<u8>) -> Seq<u8>;

/// A replaceable hash algorithm with a 32-byte digest.
///
/// An implementation says which mathematical function it computes
/// (`digest_of`) and promises that `hash` computes exactly that, so that the
/// same input always gives the same digest.
pub trait Hash {
    /// The digest that this algorithm assigns to `input`.
    spec fn digest_of(&self, input: Seq<u8>) -> Seq<u8>;

    /// Hashes `input`.
    fn hash(&self, input: &[u8]) -> (digest: Vec<u8>)
        ensures
            digest@ == self.digest_of(input@),
            digest@.len() == DIGEST_SIZE_IN_BYTES,
    ;
}

/// Keccak-256 as a [`Hash`] instance.
#[derive(Debug, Clone)]
pub struct ZKeccak256 {}

impl Default for ZKeccak256 {
    fn default() -> (hasher: ZKeccak256)
        ensures
            hasher == (ZKeccak256 {  }),
    {
        ZKeccak256 {  }
    }
}

impl Hash for ZKeccak256 {
    open spec fn digest_of(&self, input: Seq<u8>) -> Seq<u8> {
        keccak256(input)
    }

    fn hash(&self, input: &[u8]) -> (digest: Vec<u8>) {
        keccak256_digest(input)
    }
}

/// Trusted: `sha3::Keccak256`, fed `input` in one piece and finalised.
///
/// Claims that the digest depends on the input bytes alone and, as the output
/// size `U32` of the hasher's type says, is 32 bytes long.
#[verifier::external_body]
fn keccak256_digest(input: &[u8]) -> (digest: Vec<u8>)
    ensures
        digest@ == keccak256(input@),
        digest@.len() == DIGEST_SIZE_IN_BYTES,
{
    let mut hash_algorithm = Keccak256::default();
    hash_algorithm.input(input);
    hash_algorithm.result().to_vec()
}

} // verus!
