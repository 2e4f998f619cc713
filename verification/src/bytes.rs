//! Fixed-size byte strings and the integers they encode.

use crate::error::ZKError;
use vstd::prelude::*;

verus! {

/// Length in bytes of an encoded scalar and of an encoded group element.
pub const ENCODING_SIZE_IN_BYTES: usize = 32;

/// The unsigned integer that `bytes` encodes in little-endian order.
pub open spec fn le_value(bytes: Seq<u8>) -> nat
    decreases bytes.len(),
{
    if bytes.len() == 0 {
        0
    } else {
        bytes[0] as nat + 256 * le_value(bytes.drop_first())
    }
}

/// The little-endian encoding of `value` in `len` bytes; what does not fit is
/// dropped.
pub open spec fn le_bytes(value: nat, len: nat) -> Seq<u8>
    decreases len,
{
    if len == 0 {
        Seq::empty()
    } else {
        seq![(value % 256) as u8] + le_bytes(value / 256, (len - 1) as nat)
    }
}

/// The number of integers that `len` bytes can encode: 256 to the power `len`.
pub open spec fn byte_capacity(len: nat) -> nat
    decreases len,
{
    if len == 0 {
        1
    } else {
        256 * byte_capacity((len - 1) as nat)
    }
}

/// An encoded integer is below the capacity of its bytes.
pub proof fn lemma_le_value_bound(bytes: Seq<u8>)
    ensures
        le_value(bytes) < byte_capacity(bytes.len()),
    decreases bytes.len(),
{
    if bytes.len() > 0 {
        lemma_le_value_bound(bytes.drop_first());
    }
}

/// An encoding has the length that was asked for.
pub proof fn lemma_le_bytes_len(value: nat, len: nat)
    ensures
        le_bytes(value, len).len() == len,
    decreases len,
{
    if len > 0 {
        lemma_le_bytes_len(value / 256, (len - 1) as nat);
    }
}

/// Encoding the integer that `bytes` encodes, in as many bytes, gives `bytes`
/// back.
pub proof fn lemma_le_bytes_of_le_value(bytes: Seq<u8>)
    ensures
        le_bytes(le_value(bytes), bytes.len()) == bytes,
    decreases bytes.len(),
{
    if bytes.len() == 0 {
        assert(le_bytes(le_value(bytes), bytes.len()) =~= bytes);
    } else {
        let rest = bytes.drop_first();
        let value = le_value(bytes);
        lemma_le_bytes_of_le_value(rest);
        assert(value % 256 == bytes[0] as nat && value / 256 == le_value(rest));
        assert(le_bytes(value, bytes.len()) =~= bytes);
    }
}

/// Decoding the `len`-byte encoding of an integer that fits gives the integer
/// back.
pub proof fn lemma_le_value_of_le_bytes(value: nat, len: nat)
    requires
        value < byte_capacity(len),
    ensures
        le_value(le_bytes(value, len)) == value,
    decreases len,
{
    if len > 0 {
        let rest = le_bytes(value / 256, (len - 1) as nat);
        lemma_le_value_of_le_bytes(value / 256, (len - 1) as nat);
        assert(le_bytes(value, len).drop_first() =~= rest);
    }
}

/// Two byte strings of one length that encode the same integer are the same
/// string.
pub proof fn lemma_le_value_injective(a: Seq<u8>, b: Seq<u8>)
    requires
        a.len() == b.len(),
        le_value(a) == le_value(b),
    ensures
        a == b,
{
    lemma_le_bytes_of_le_value(a);
    lemma_le_bytes_of_le_value(b);
}

/// The integer that a byte string encodes is that of its first `at` bytes,
/// plus that of the rest weighted by the capacity of the first `at` bytes.
pub proof fn lemma_le_value_split(bytes: Seq<u8>, at: nat)
    requires
        at <= bytes.len(),
    ensures
        le_value(bytes) == le_value(bytes.subrange(0, at as int)) + byte_capacity(at) * le_value(
            bytes.subrange(at as int, bytes.len() as int),
        ),
    decreases at,
{
    if at == 0 {
        assert(bytes.subrange(0, bytes.len() as int) =~= bytes);
    } else {
        let rest = bytes.drop_first();
        let low = bytes.subrange(0, at as int);
        let high = bytes.subrange(at as int, bytes.len() as int);
        lemma_le_value_split(rest, (at - 1) as nat);
        assert(low.drop_first() =~= rest.subrange(0, at - 1));
        assert(rest.subrange(at - 1, rest.len() as int) =~= high);
        let low_rest = le_value(low.drop_first());
        let weight = byte_capacity((at - 1) as nat);
        assert(le_value(low) == bytes[0] as nat + 256 * low_rest);
        assert(256 * (low_rest + weight * le_value(high)) == 256 * low_rest + (256 * weight)
            * le_value(high)) by (nonlinear_arith);
    }
}

/// The integer that the eight bytes of `bytes` from index `at` on encode,
/// written out.
pub open spec fn le_word(bytes: Seq<u8>, at: int) -> nat {
    (bytes[at] + 0x100 * bytes[at + 1] + 0x1_0000 * bytes[at + 2] + 0x100_0000 * bytes[at + 3]
        + 0x1_0000_0000 * bytes[at + 4] + 0x100_0000_0000 * bytes[at + 5] + 0x1_0000_0000_0000
        * bytes[at + 6] + 0x100_0000_0000_0000 * bytes[at + 7]) as nat
}

/// The integer that 32 bytes encode, written out as four 64-bit words. This
/// form needs no unfolding, so it serves to evaluate [`le_value`] on given
/// bytes.
pub open spec fn le_value_32(bytes: Seq<u8>) -> nat {
    le_word(bytes, 0) + 0x1_0000_0000_0000_0000 * le_word(bytes, 8)
        + 0x1_0000_0000_0000_0000_0000_0000_0000_0000 * le_word(bytes, 16)
        + 0x1_0000_0000_0000_0000_0000_0000_0000_0000_0000_0000_0000_0000 * le_word(bytes, 24)
}

/// Eight bytes encode the word that [`le_word`] writes out.
proof fn lemma_le_value_word(bytes: Seq<u8>)
    requires
        bytes.len() == 8,
    ensures
        le_value(bytes) == le_word(bytes, 0),
        byte_capacity(8) == 0x1_0000_0000_0000_0000,
{
    reveal_with_fuel(le_value, 9);
    reveal_with_fuel(byte_capacity, 9);
    let b1 = bytes.drop_first();
    let b2 = b1.drop_first();
    let b3 = b2.drop_first();
    let b4 = b3.drop_first();
    let b5 = b4.drop_first();
    let b6 = b5.drop_first();
    let b7 = b6.drop_first();
    assert(b1[0] == bytes[1] && b2[0] == bytes[2] && b3[0] == bytes[3] && b4[0] == bytes[4]);
    assert(b5[0] == bytes[5] && b6[0] == bytes[6] && b7[0] == bytes[7]);
}

/// On 32 bytes, [`le_value`] is [`le_value_32`].
pub proof fn lemma_le_value_32(bytes: Seq<u8>)
    requires
        bytes.len() == 32,
    ensures
        le_value(bytes) == le_value_32(bytes),
{
    let w0 = bytes.subrange(0, 8);
    let t0 = bytes.subrange(8, 32);
    let w1 = t0.subrange(0, 8);
    let t1 = t0.subrange(8, 24);
    let w2 = t1.subrange(0, 8);
    let w3 = t1.subrange(8, 16);
    lemma_le_value_split(bytes, 8);
    lemma_le_value_split(t0, 8);
    lemma_le_value_split(t1, 8);
    lemma_le_value_word(w0);
    lemma_le_value_word(w1);
    lemma_le_value_word(w2);
    lemma_le_value_word(w3);
    let (a, b, c, d) = (le_word(bytes, 0), le_word(bytes, 8), le_word(bytes, 16), le_word(bytes, 24));
    assert(a + 0x1_0000_0000_0000_0000 * (b + 0x1_0000_0000_0000_0000 * (c
        + 0x1_0000_0000_0000_0000 * d)) == a + 0x1_0000_0000_0000_0000 * b
        + 0x1_0000_0000_0000_0000_0000_0000_0000_0000 * c
        + 0x1_0000_0000_0000_0000_0000_0000_0000_0000_0000_0000_0000_0000 * d)
        by (nonlinear_arith);
}

/// Copies a 32-byte slice into an array.
pub(crate) fn copy_to_array32(bytes: &[u8]) -> (array: [u8; 32])
    requires
        bytes@.len() == 32,
    ensures
        array@ == bytes@,
{
    let mut array = [0u8; 32];
    let mut i: usize = 0;
    while i < 32
        invariant
            i <= 32,
            bytes@.len() == 32,
            forall|j: int| 0 <= j < i ==> array@[j] == bytes@[j],
        decreases 32 - i,
    {
        array[i] = bytes[i];
        i += 1;
    }
    assert(array@ =~= bytes@);
    array
}

/// Extracts the 32 bytes of `barry` as an array.
///
/// Fails with [`ZKError::FormatError`] exactly when `barry` is not 32 bytes
/// long.
pub fn to_bytes32_slice(barry: &[u8]) -> (result: Result<[u8; 32], ZKError>)
    ensures
        barry@.len() == 32 ==> result is Ok && result->Ok_0@ == barry@,
        barry@.len() != 32 ==> result == Err::<[u8; 32], ZKError>(ZKError::FormatError),
{
    if barry.len() != ENCODING_SIZE_IN_BYTES {
        return Err(ZKError::FormatError);
    }
    Ok(copy_to_array32(barry))
}

} // verus!
