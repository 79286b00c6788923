//! The growable byte buffer that the encoder writes into.
//!
//! The buffer is `bytes::BytesMut`. Verus does not read that crate, so each
//! of its methods that the encoder calls is stated here once, as a contract
//! that is believed and not proved, over the sequence of bytes that the
//! buffer holds.
//!
//! A `BytesMut` grows as a `Vec` does. Its `reserve` panics where the new
//! capacity would not fit `usize`; a buffer and a slice hold no more than
//! `isize::MAX` bytes each, so the sum of their lengths always fits, and a
//! write fails only where the allocator does.

use bytes::BufMut;
use bytes::Bytes;
use bytes::BytesMut;
use vstd::prelude::*;
use crate::wire::{be_i64, be_u16, be_u32, be_u64};

verus! {

/// `bytes::BytesMut`, as a type that Verus carries through without looking
/// inside.
#[verifier::external_type_specification]
#[verifier::external_body]
pub struct ExBytesMut(BytesMut);

/// `bytes::Bytes`, as a type that Verus carries through without looking
/// inside.
#[verifier::external_type_specification]
#[verifier::external_body]
pub struct ExBytes(Bytes);

/// The bytes that a `BytesMut` holds, first written first.
pub uninterp spec fn buffer_bytes(buf: BytesMut) -> Seq<u8>;

/// The bytes that a frozen `Bytes` holds.
pub uninterp spec fn frozen_bytes(bytes: Bytes) -> Seq<u8>;

/// `BytesMut::with_capacity`: a buffer that holds no bytes yet, whatever
/// room it was made with. It makes a `Vec` of that capacity, which panics
/// above `isize::MAX` bytes: such a capacity is left out.
#[verifier::external_body]
pub(crate) fn buffer_with_capacity(capacity: usize) -> (buf: BytesMut)
    requires
        capacity <= isize::MAX,
    ensures
        buffer_bytes(buf) == Seq::<u8>::empty(),
{
    BytesMut::with_capacity(capacity)
}

/// `BytesMut::len`: the number of bytes held.
#[verifier::external_body]
pub(crate) fn buffer_len(buf: &BytesMut) -> (len: usize)
    ensures
        len == buffer_bytes(*buf).len(),
{
    buf.len()
}

/// `BufMut::put_u8` on a `BytesMut`: appends the one byte.
#[verifier::external_body]
pub(crate) fn buffer_put_u8(buf: &mut BytesMut, v: u8)
    ensures
        buffer_bytes(*final(buf)) == buffer_bytes(*old(buf)).push(v),
{
    buf.put_u8(v);
}

/// `BufMut::put_u16` on a `BytesMut`: appends the two bytes of `v`, most
/// significant first.
#[verifier::external_body]
pub(crate) fn buffer_put_u16(buf: &mut BytesMut, v: u16)
    ensures
        buffer_bytes(*final(buf)) == buffer_bytes(*old(buf)) + be_u16(v),
{
    buf.put_u16(v);
}

/// `BufMut::put_u32` on a `BytesMut`: appends the four bytes of `v`, most
/// significant first.
#[verifier::external_body]
pub(crate) fn buffer_put_u32(buf: &mut BytesMut, v: u32)
    ensures
        buffer_bytes(*final(buf)) == buffer_bytes(*old(buf)) + be_u32(v),
{
    buf.put_u32(v);
}

/// `BufMut::put_u64` on a `BytesMut`: appends the eight bytes of `v`, most
/// significant first.
#[verifier::external_body]
pub(crate) fn buffer_put_u64(buf: &mut BytesMut, v: u64)
    ensures
        buffer_bytes(*final(buf)) == buffer_bytes(*old(buf)) + be_u64(v),
{
    buf.put_u64(v);
}

/// `BufMut::put_i64` on a `BytesMut`: appends the eight bytes of `v` in
/// two's complement, most significant first.
#[verifier::external_body]
pub(crate) fn buffer_put_i64(buf: &mut BytesMut, v: i64)
    ensures
        buffer_bytes(*final(buf)) == buffer_bytes(*old(buf)) + be_i64(v),
{
    buf.put_i64(v);
}

/// `BufMut::put_slice` on a `BytesMut`: appends the bytes of `src` as they
/// are.
#[verifier::external_body]
pub(crate) fn buffer_put_slice(buf: &mut BytesMut, src: &[u8])
    ensures
        buffer_bytes(*final(buf)) == buffer_bytes(*old(buf)) + src@,
{
    buf.put_slice(src);
}

/// The `Deref` of a `BytesMut`: a slice of the bytes held.
#[verifier::external_body]
pub(crate) fn buffer_as_slice(buf: &BytesMut) -> (bytes: &[u8])
    ensures
        bytes@ == buffer_bytes(*buf),
{
    buf
}

/// `BytesMut::freeze`: the same bytes, no longer writable.
#[verifier::external_body]
pub(crate) fn buffer_freeze(buf: BytesMut) -> (bytes: Bytes)
    ensures
        frozen_bytes(bytes) == buffer_bytes(buf),
{
    buf.freeze()
}

/// The `Deref` of a `Bytes`: a slice of the bytes held.
#[verifier::external_body]
pub(crate) fn frozen_as_slice(bytes: &Bytes) -> (slice: &[u8])
    ensures
        slice@ == frozen_bytes(*bytes),
{
    bytes
}

} // verus!
