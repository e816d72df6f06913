//! Numbers in little-endian bytes, and the calls that write them to a buffer
//! and read them from one.

use bytes::Buf;
use bytes::BufMut;
use vstd::prelude::*;

verus! {

/// `256` to the power `width`: the number of values that `width` bytes hold.
pub open spec fn radix_pow(width: nat) -> nat
    decreases width,
{
    if width == 0 {
        1
    } else {
        256 * radix_pow((width - 1) as nat)
    }
}

/// The `width` base-256 digits of `value`, least significant first.
pub open spec fn le_bytes(value: nat, width: nat) -> Seq<u8>
    decreases width,
{
    if width == 0 {
        Seq::empty()
    } else {
        seq![(value % 256) as u8] + le_bytes(value / 256, (width - 1) as nat)
    }
}

/// The number whose base-256 digits, least significant first, are `bytes`.
pub open spec fn le_value(bytes: Seq<u8>) -> nat
    decreases bytes.len(),
{
    if bytes.len() == 0 {
        0
    } else {
        bytes[0] as nat + 256 * le_value(bytes.drop_first())
    }
}

/// The two's-complement little-endian encoding of `value` in `width` bytes.
pub open spec fn signed_le_bytes(value: int, width: nat) -> Seq<u8> {
    if value >= 0 {
        le_bytes(value as nat, width)
    } else {
        le_bytes((value + radix_pow(width)) as nat, width)
    }
}

/// The signed number that `bytes` hold in two's complement, little-endian.
pub open spec fn signed_le_value(bytes: Seq<u8>) -> int {
    let unsigned = le_value(bytes);
    if 2 * unsigned < radix_pow(bytes.len()) {
        unsigned as int
    } else {
        unsigned - radix_pow(bytes.len())
    }
}

/// How many values one, two, four and eight bytes hold.
pub proof fn lemma_radix_pow_values()
    ensures
        radix_pow(0) == 1,
        radix_pow(1) == 0x100,
        radix_pow(2) == 0x1_0000,
        radix_pow(4) == 0x1_0000_0000,
        radix_pow(8) == 0x1_0000_0000_0000_0000,
{
    reveal_with_fuel(radix_pow, 9);
}

/// A number written in `width` digits takes `width` bytes.
pub proof fn lemma_le_bytes_len(value: nat, width: nat)
    ensures
        le_bytes(value, width).len() == width,
    decreases width,
{
    if width > 0 {
        lemma_le_bytes_len(value / 256, (width - 1) as nat);
    }
}

/// What bytes hold is less than the number of values that they can hold.
pub proof fn lemma_le_value_bound(bytes: Seq<u8>)
    ensures
        le_value(bytes) < radix_pow(bytes.len()),
    decreases bytes.len(),
{
    if bytes.len() > 0 {
        lemma_le_value_bound(bytes.drop_first());
    }
}

/// The two's-complement encoding in `width` bytes has `width` bytes.
pub proof fn lemma_signed_le_bytes_len(value: int, width: nat)
    ensures
        signed_le_bytes(value, width).len() == width,
{
    if value >= 0 {
        lemma_le_bytes_len(value as nat, width);
    } else {
        lemma_le_bytes_len((value + radix_pow(width)) as nat, width);
    }
}

/// Reading back the digits of a number that fits gives the number.
pub proof fn lemma_le_value_of_bytes(value: nat, width: nat)
    requires
        value < radix_pow(width),
    ensures
        le_value(le_bytes(value, width)) == value,
    decreases width,
{
    if width > 0 {
        let rest = le_bytes(value / 256, (width - 1) as nat);
        lemma_le_value_of_bytes(value / 256, (width - 1) as nat);
        lemma_le_bytes_len(value / 256, (width - 1) as nat);
        assert(le_bytes(value, width).drop_first() =~= rest);
    }
}

/// Writing the digits of what bytes hold gives the bytes.
pub proof fn lemma_le_bytes_of_value(bytes: Seq<u8>)
    ensures
        le_bytes(le_value(bytes), bytes.len()) == bytes,
    decreases bytes.len(),
{
    if bytes.len() > 0 {
        let rest = bytes.drop_first();
        lemma_le_bytes_of_value(rest);
        let v = le_value(bytes);
        assert(v % 256 == bytes[0] as nat);
        assert(v / 256 == le_value(rest));
        assert(le_bytes(v, bytes.len()) =~= bytes);
    }
}

/// Two's complement round trip: a number within the signed range of `width`
/// bytes is read back from its encoding.
pub proof fn lemma_signed_le_value_of_bytes(value: int, width: nat)
    requires
        width > 0,
        -(radix_pow(width) as int) <= 2 * value < radix_pow(width),
    ensures
        signed_le_bytes(value, width).len() == width,
        signed_le_value(signed_le_bytes(value, width)) == value,
{
    if value >= 0 {
        lemma_le_bytes_len(value as nat, width);
        lemma_le_value_of_bytes(value as nat, width);
    } else {
        let unsigned = (value + radix_pow(width)) as nat;
        lemma_le_bytes_len(unsigned, width);
        lemma_le_value_of_bytes(unsigned, width);
    }
}

/// Two's complement round trip, the other way: the encoding of what bytes
/// hold is the bytes.
pub proof fn lemma_signed_le_bytes_of_value(bytes: Seq<u8>)
    ensures
        signed_le_bytes(signed_le_value(bytes), bytes.len()) == bytes,
{
    lemma_le_value_bound(bytes);
    lemma_le_bytes_of_value(bytes);
}

/// `bytes::Buf::remaining` on a byte slice: the number of bytes left to read.
#[verifier::external_body]
pub(crate) fn remaining(buf: &&[u8]) -> (n: usize)
    ensures
        n == buf@.len(),
{
    buf.remaining()
}

/// `bytes::Buf::get_u8` on a byte slice: hands out the first byte and moves
/// the slice past it. The call panics on an empty slice.
#[verifier::external_body]
pub(crate) fn get_u8(buf: &mut &[u8]) -> (v: u8)
    requires
        old(buf)@.len() >= 1,
    ensures
        v == old(buf)@[0],
        final(buf)@ == old(buf)@.skip(1),
{
    buf.get_u8()
}

/// `bytes::Buf::get_i16_le` on a byte slice: reads the first two bytes as a
/// little-endian two's-complement number and moves the slice past them. The
/// call panics on fewer than two bytes.
#[verifier::external_body]
pub(crate) fn get_i16_le(buf: &mut &[u8]) -> (v: i16)
    requires
        old(buf)@.len() >= 2,
    ensures
        v == signed_le_value(old(buf)@.take(2)),
        final(buf)@ == old(buf)@.skip(2),
{
    buf.get_i16_le()
}

/// `bytes::Buf::get_i32_le` on a byte slice: reads the first four bytes as a
/// little-endian two's-complement number and moves the slice past them. The
/// call panics on fewer than four bytes.
#[verifier::external_body]
pub(crate) fn get_i32_le(buf: &mut &[u8]) -> (v: i32)
    requires
        old(buf)@.len() >= 4,
    ensures
        v == signed_le_value(old(buf)@.take(4)),
        final(buf)@ == old(buf)@.skip(4),
{
    buf.get_i32_le()
}

/// `bytes::Buf::get_i64_le` on a byte slice: reads the first eight bytes as a
/// little-endian two's-complement number and moves the slice past them. The
/// call panics on fewer than eight bytes.
#[verifier::external_body]
pub(crate) fn get_i64_le(buf: &mut &[u8]) -> (v: i64)
    requires
        old(buf)@.len() >= 8,
    ensures
        v == signed_le_value(old(buf)@.take(8)),
        final(buf)@ == old(buf)@.skip(8),
{
    buf.get_i64_le()
}

/// `bytes::Buf::get_u32_le` on a byte slice: reads the first four bytes as a
/// little-endian number and moves the slice past them. The call
/// panics on fewer than four bytes.
#[verifier::external_body]
pub(crate) fn get_u32_le(buf: &mut &[u8]) -> (v: u32)
    requires
        old(buf)@.len() >= 4,
    ensures
        v == le_value(old(buf)@.take(4)),
        final(buf)@ == old(buf)@.skip(4),
{
    buf.get_u32_le()
}

/// `bytes::Buf::get_u64_le` on a byte slice: reads the first eight bytes as a
/// little-endian number and moves the slice past them. The call
/// panics on fewer than eight bytes.
#[verifier::external_body]
pub(crate) fn get_u64_le(buf: &mut &[u8]) -> (v: u64)
    requires
        old(buf)@.len() >= 8,
    ensures
        v == le_value(old(buf)@.take(8)),
        final(buf)@ == old(buf)@.skip(8),
{
    buf.get_u64_le()
}

/// `bytes::Buf::copy_to_slice` on a byte slice: fills `dst` with the first
/// bytes of the slice and moves the slice past them. The call
/// panics where fewer bytes remain than `dst` holds.
#[verifier::external_body]
pub(crate) fn copy_to_slice(buf: &mut &[u8], dst: &mut [u8])
    requires
        old(dst)@.len() <= old(buf)@.len(),
    ensures
        final(dst)@ == old(buf)@.take(old(dst)@.len() as int),
        final(buf)@ == old(buf)@.skip(old(dst)@.len() as int),
{
    buf.copy_to_slice(dst)
}

/// `bytes::BufMut::put_u8` on a vector: appends the byte.
#[verifier::external_body]
pub(crate) fn put_u8(buf: &mut Vec<u8>, v: u8)
    ensures
        final(buf)@ == old(buf)@.push(v),
{
    buf.put_u8(v)
}

/// `bytes::BufMut::put_i16_le` on a vector: appends the two bytes of `v` in
/// two's complement, least significant first.
#[verifier::external_body]
pub(crate) fn put_i16_le(buf: &mut Vec<u8>, v: i16)
    ensures
        final(buf)@ == old(buf)@ + signed_le_bytes(v as int, 2),
{
    buf.put_i16_le(v)
}

/// `bytes::BufMut::put_i32_le` on a vector: appends the four bytes of `v` in
/// two's complement, least significant first.
#[verifier::external_body]
pub(crate) fn put_i32_le(buf: &mut Vec<u8>, v: i32)
    ensures
        final(buf)@ == old(buf)@ + signed_le_bytes(v as int, 4),
{
    buf.put_i32_le(v)
}

/// `bytes::BufMut::put_i64_le` on a vector: appends the eight bytes of `v` in
/// two's complement, least significant first.
#[verifier::external_body]
pub(crate) fn put_i64_le(buf: &mut Vec<u8>, v: i64)
    ensures
        final(buf)@ == old(buf)@ + signed_le_bytes(v as int, 8),
{
    buf.put_i64_le(v)
}

/// `bytes::BufMut::put_u32_le` on a vector: appends the four bytes of `v`,
/// least significant first.
#[verifier::external_body]
pub(crate) fn put_u32_le(buf: &mut Vec<u8>, v: u32)
    ensures
        final(buf)@ == old(buf)@ + le_bytes(v as nat, 4),
{
    buf.put_u32_le(v)
}

/// `bytes::BufMut::put_u64_le` on a vector: appends the eight bytes of `v`,
/// least significant first.
#[verifier::external_body]
pub(crate) fn put_u64_le(buf: &mut Vec<u8>, v: u64)
    ensures
        final(buf)@ == old(buf)@ + le_bytes(v as nat, 8),
{
    buf.put_u64_le(v)
}

/// `bytes::BufMut::put_slice` on a vector: appends the bytes of `src`.
#[verifier::external_body]
pub(crate) fn put_slice(buf: &mut Vec<u8>, src: &[u8])
    ensures
        final(buf)@ == old(buf)@ + src@,
{
    buf.put_slice(src)
}

} // verus!
