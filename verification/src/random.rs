//! Draws from the operating system's and the thread's secure random
//! generators.

use crate::bytes::le_value;
use crate::scalar::{group_order, Scalar};
use rand::Rng;
use rand_core::OsRng;
use vstd::prelude::*;

verus! {

/// Trusted: `curve25519_dalek::scalar::Scalar::random` on `rand_core::OsRng`,
/// read back with `to_bytes`.
///
/// Claims only what holds of every draw: the method reduces 64 random bytes
/// modulo the group order, so the scalar is below it. The generator panics
/// where the operating system cannot supply the bytes.
#[verifier::external_body]
fn os_random_scalar_bytes() -> (bytes: [u8; 32])
    ensures
        le_value(bytes@) < group_order(),
{
    let mut csprng = OsRng;
    curve25519_dalek::scalar::Scalar::random(&mut csprng).to_bytes()
}

/// Trusted: `rand::Rng::gen` on `rand::thread_rng()`. Nothing is claimed of
/// the number drawn.
#[verifier::external_body]
fn thread_random_u32() -> u32 {
    let mut rng = rand::thread_rng();
    rng.gen()
}

/// Gets a random scalar, drawn from the operating system's secure generator
/// and uniform over the integers modulo the group order.
pub fn get_random_scalar() -> (scalar: Scalar)
    ensures
        scalar.is_canonical(),
{
    Scalar::from_raw_bytes(os_random_scalar_bytes())
}

/// Gets a random 32-bit integer from the thread's secure generator.
pub fn get_random_u32() -> u32 {
    thread_random_u32()
}

} // verus!
