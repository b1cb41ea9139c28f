//! The byte cursor that every decoder reads from, and the growable buffer
//! that every encoder writes to.
//!
//! Reading goes through `bytes::Bytes`; writing goes through
//! `bytes::BytesMut`. The functions here are the only places where those
//! calls are made; their contracts are taken on trust.
use crate::codec::integers::{
    be16, be16_bytes, be32, be32_bytes, be64, be64_bytes, pattern16, pattern32, pattern64,
    signed16, signed32, signed64, signed8,
};
use bytes::{Buf, BufMut, Bytes, BytesMut};
use vstd::prelude::*;

verus! {

#[verifier::external_type_specification]
#[verifier::external_body]
pub struct ExBytes(bytes::Bytes);

#[verifier::external_type_specification]
#[verifier::external_body]
pub struct ExBytesMut(bytes::BytesMut);

/// The bytes that a cursor has not consumed yet, in reading order.
pub uninterp spec fn unread(buf: Bytes) -> Seq<u8>;

/// The bytes that have been written to a buffer, in writing order.
pub uninterp spec fn written(buf: BytesMut) -> Seq<u8>;

/// `BytesMut::new`: a buffer that holds nothing yet.
#[verifier::external_body]
pub(crate) fn new_buffer() -> (buf: BytesMut)
    ensures
        written(buf) == Seq::<u8>::empty(),
{
    BytesMut::new()
}

/// The bytes of a `BytesMut`, reached through its `Deref` to a slice and
/// copied into a vector.
#[verifier::external_body]
pub(crate) fn buffer_to_vec(buf: &BytesMut) -> (out: Vec<u8>)
    ensures
        out@ == written(*buf),
{
    buf.to_vec()
}

/// `Bytes::copy_from_slice`: a fresh cursor over a copy of `data`.
#[verifier::external_body]
pub(crate) fn cursor_over(data: &[u8]) -> (buf: Bytes)
    ensures
        unread(buf) == data@,
{
    Bytes::copy_from_slice(data)
}

/// `Buf::remaining` of `Bytes`: how many bytes are left to read.
#[verifier::external_body]
pub(crate) fn remaining(src: &Bytes) -> (n: usize)
    ensures
        n == unread(*src).len(),
{
    src.remaining()
}

/// `Clone::clone` of `Bytes`: a second cursor at the same position over the
/// same bytes.
#[verifier::external_body]
pub(crate) fn fork(src: &Bytes) -> (copy: Bytes)
    ensures
        unread(copy) == unread(*src),
{
    src.clone()
}

/// `Buf::advance` of `Bytes`: drops the next `count` bytes. The outside
/// function panics when fewer are left.
#[verifier::external_body]
pub(crate) fn advance(src: &mut Bytes, count: usize)
    requires
        count <= unread(*old(src)).len(),
    ensures
        unread(*final(src)) == unread(*old(src)).skip(count as int),
{
    src.advance(count)
}

/// `Buf::copy_to_bytes` of `Bytes`, copied out into a vector: hands out the
/// next `count` bytes and moves past them. The outside function panics when
/// fewer are left.
#[verifier::external_body]
pub(crate) fn take_bytes(src: &mut Bytes, count: usize) -> (out: Vec<u8>)
    requires
        count <= unread(*old(src)).len(),
    ensures
        out@ == unread(*old(src)).take(count as int),
        unread(*final(src)) == unread(*old(src)).skip(count as int),
{
    src.copy_to_bytes(count).to_vec()
}

/// `Buf::get_u8`: the next byte. Panics outside when nothing is left.
#[verifier::external_body]
pub(crate) fn get_u8(src: &mut Bytes) -> (v: u8)
    requires
        unread(*old(src)).len() >= 1,
    ensures
        v == unread(*old(src))[0],
        unread(*final(src)) == unread(*old(src)).skip(1),
{
    src.get_u8()
}

/// `Buf::get_i8`: the next byte read as two's complement.
#[verifier::external_body]
pub(crate) fn get_i8(src: &mut Bytes) -> (v: i8)
    requires
        unread(*old(src)).len() >= 1,
    ensures
        v == signed8(unread(*old(src))[0] as nat),
        unread(*final(src)) == unread(*old(src)).skip(1),
{
    src.get_i8()
}

/// `Buf::get_u16`: the next two bytes, big-endian.
#[verifier::external_body]
pub(crate) fn get_u16(src: &mut Bytes) -> (v: u16)
    requires
        unread(*old(src)).len() >= 2,
    ensures
        v == be16(unread(*old(src))),
        unread(*final(src)) == unread(*old(src)).skip(2),
{
    src.get_u16()
}

/// `Buf::get_i16`: the next two bytes, big-endian two's complement.
#[verifier::external_body]
pub(crate) fn get_i16(src: &mut Bytes) -> (v: i16)
    requires
        unread(*old(src)).len() >= 2,
    ensures
        v == signed16(be16(unread(*old(src)))),
        unread(*final(src)) == unread(*old(src)).skip(2),
{
    src.get_i16()
}

/// `Buf::get_u32`: the next four bytes, big-endian.
#[verifier::external_body]
pub(crate) fn get_u32(src: &mut Bytes) -> (v: u32)
    requires
        unread(*old(src)).len() >= 4,
    ensures
        v == be32(unread(*old(src))),
        unread(*final(src)) == unread(*old(src)).skip(4),
{
    src.get_u32()
}

/// `Buf::get_i32`: the next four bytes, big-endian two's complement.
#[verifier::external_body]
pub(crate) fn get_i32(src: &mut Bytes) -> (v: i32)
    requires
        unread(*old(src)).len() >= 4,
    ensures
        v == signed32(be32(unread(*old(src)))),
        unread(*final(src)) == unread(*old(src)).skip(4),
{
    src.get_i32()
}

/// `Buf::get_i64`: the next eight bytes, big-endian two's complement.
#[verifier::external_body]
pub(crate) fn get_i64(src: &mut Bytes) -> (v: i64)
    requires
        unread(*old(src)).len() >= 8,
    ensures
        v == signed64(be64(unread(*old(src)))),
        unread(*final(src)) == unread(*old(src)).skip(8),
{
    src.get_i64()
}

/// `BufMut::put_u8` of `BytesMut`: appends one byte.
#[verifier::external_body]
pub(crate) fn put_u8(dst: &mut BytesMut, v: u8)
    ensures
        written(*final(dst)) == written(*old(dst)).push(v),
{
    dst.put_u8(v)
}

/// `BufMut::put_i16` of `BytesMut`: appends `v` big-endian.
#[verifier::external_body]
pub(crate) fn put_i16(dst: &mut BytesMut, v: i16)
    ensures
        written(*final(dst)) == written(*old(dst)) + be16_bytes(pattern16(v as int)),
{
    dst.put_i16(v)
}

/// `BufMut::put_i32` of `BytesMut`: appends `v` big-endian.
#[verifier::external_body]
pub(crate) fn put_i32(dst: &mut BytesMut, v: i32)
    ensures
        written(*final(dst)) == written(*old(dst)) + be32_bytes(pattern32(v as int)),
{
    dst.put_i32(v)
}

/// `BufMut::put_i64` of `BytesMut`: appends `v` big-endian.
#[verifier::external_body]
pub(crate) fn put_i64(dst: &mut BytesMut, v: i64)
    ensures
        written(*final(dst)) == written(*old(dst)) + be64_bytes(pattern64(v as int)),
{
    dst.put_i64(v)
}

/// `BufMut::put_slice` of `BytesMut`: appends `src` unchanged.
#[verifier::external_body]
pub(crate) fn put_slice(dst: &mut BytesMut, src: &[u8])
    ensures
        written(*final(dst)) == written(*old(dst)) + src@,
{
    dst.put_slice(src)
}

} // verus!
