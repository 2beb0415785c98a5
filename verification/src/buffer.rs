//! The byte buffer of the `bytes` crate, as the codec sees it: a sequence of
//! bytes that writes extend at the end and reads consume from the front.

use bytes::{Buf, BufMut, BytesMut};
use vstd::prelude::*;

verus! {

#[verifier::external_type_specification]
#[verifier::external_body]
pub struct ExBytesMut(BytesMut);

/// The bytes that a `BytesMut` holds, from its read position to its end.
pub uninterp spec fn buf_bytes(b: BytesMut) -> Seq<u8>;

/// The four bytes of `v` in big-endian (network) order.
pub open spec fn be32(v: i32) -> Seq<u8> {
    let u = v as u32;
    seq![(u >> 24u32) as u8, (u >> 16u32) as u8, (u >> 8u32) as u8, u as u8]
}

/// The unsigned number whose big-endian bytes are the first four of `b`.
pub open spec fn be32_unsigned(b: Seq<u8>) -> u32 {
    ((b[0] as u32) << 24u32) | ((b[1] as u32) << 16u32) | ((b[2] as u32) << 8u32) | (b[3] as u32)
}

/// The `i32` whose big-endian bytes are the first four of `b`.
pub open spec fn be32_value(b: Seq<u8>) -> i32 {
    be32_unsigned(b) as i32
}

/// Reading back the bytes of an `i32` gives the `i32`.
pub proof fn lemma_be32_roundtrip(v: i32, rest: Seq<u8>)
    ensures
        be32_unsigned(be32(v) + rest) == v as u32,
        be32_value(be32(v) + rest) == v,
        (be32(v) + rest).take(4) == be32(v),
        (be32(v) + rest).skip(4) == rest,
{
    let u = v as u32;
    let s = be32(v) + rest;
    assert(s[0] == (u >> 24u32) as u8);
    assert(s[1] == (u >> 16u32) as u8);
    assert(s[2] == (u >> 8u32) as u8);
    assert(s[3] == u as u8);
    assert(((((u >> 24u32) as u8) as u32) << 24u32 | ((((u >> 16u32) as u8) as u32) << 16u32)
        | ((((u >> 8u32) as u8) as u32) << 8u32) | ((u as u8) as u32)) == u) by (bit_vector);
    assert((v as u32) as i32 == v) by (bit_vector);
    assert(s.take(4) =~= be32(v));
    assert(s.skip(4) =~= rest);
}

/// The bytes of an `i32` are its 32-bit two's-complement pattern, most
/// significant byte first.
pub proof fn lemma_be32_big_endian(v: i32)
    ensures
        be32(v).len() == 4,
        be32(v)[0] * 0x100_0000 + be32(v)[1] * 0x1_0000 + be32(v)[2] * 0x100 + be32(v)[3] == (v as u32),
{
    let u = v as u32;
    assert(((u >> 24u32) as u8) * 0x100_0000 + ((u >> 16u32) as u8) * 0x1_0000 + ((u >> 8u32) as u8)
        * 0x100 + (u as u8) == u) by (bit_vector);
}

/// The eight bytes of `v` in big-endian (network) order.
pub open spec fn be64(v: i64) -> Seq<u8> {
    let u = v as u64;
    seq![
        (u >> 56u64) as u8, (u >> 48u64) as u8, (u >> 40u64) as u8, (u >> 32u64) as u8,
        (u >> 24u64) as u8, (u >> 16u64) as u8, (u >> 8u64) as u8, u as u8,
    ]
}

/// The `i64` whose big-endian bytes are the first eight of `b`.
pub open spec fn be64_value(b: Seq<u8>) -> i64 {
    (((b[0] as u64) << 56u64) | ((b[1] as u64) << 48u64) | ((b[2] as u64) << 40u64)
        | ((b[3] as u64) << 32u64) | ((b[4] as u64) << 24u64) | ((b[5] as u64) << 16u64)
        | ((b[6] as u64) << 8u64) | (b[7] as u64)) as i64
}

/// Reading back the bytes of an `i64` gives the `i64`.
pub proof fn lemma_be64_roundtrip(v: i64, rest: Seq<u8>)
    ensures
        be64_value(be64(v) + rest) == v,
        (be64(v) + rest).take(8) == be64(v),
        (be64(v) + rest).skip(8) == rest,
{
    let u = v as u64;
    let s = be64(v) + rest;
    assert(s[0] == (u >> 56u64) as u8);
    assert(s[1] == (u >> 48u64) as u8);
    assert(s[2] == (u >> 40u64) as u8);
    assert(s[3] == (u >> 32u64) as u8);
    assert(s[4] == (u >> 24u64) as u8);
    assert(s[5] == (u >> 16u64) as u8);
    assert(s[6] == (u >> 8u64) as u8);
    assert(s[7] == u as u8);
    assert(((((u >> 56u64) as u8) as u64) << 56u64 | ((((u >> 48u64) as u8) as u64) << 48u64)
        | ((((u >> 40u64) as u8) as u64) << 40u64) | ((((u >> 32u64) as u8) as u64) << 32u64)
        | ((((u >> 24u64) as u8) as u64) << 24u64) | ((((u >> 16u64) as u8) as u64) << 16u64)
        | ((((u >> 8u64) as u8) as u64) << 8u64) | ((u as u8) as u64)) == u) by (bit_vector);
    assert((v as u64) as i64 == v) by (bit_vector);
    assert(s.take(8) =~= be64(v));
    assert(s.skip(8) =~= rest);
}

/// The bytes of an `i64` are its 64-bit two's-complement pattern, most
/// significant byte first.
pub proof fn lemma_be64_big_endian(v: i64)
    ensures
        be64(v).len() == 8,
        be64(v)[0] * 0x100_0000_0000_0000 + be64(v)[1] * 0x1_0000_0000_0000 + be64(v)[2]
            * 0x100_0000_0000 + be64(v)[3] * 0x1_0000_0000 + be64(v)[4] * 0x100_0000 + be64(v)[5]
            * 0x1_0000 + be64(v)[6] * 0x100 + be64(v)[7] == (v as u64),
{
    let u = v as u64;
    assert(((u >> 56u64) as u8) * 0x100_0000_0000_0000 + ((u >> 48u64) as u8) * 0x1_0000_0000_0000
        + ((u >> 40u64) as u8) * 0x100_0000_0000 + ((u >> 32u64) as u8) * 0x1_0000_0000 + ((u
        >> 24u64) as u8) * 0x100_0000 + ((u >> 16u64) as u8) * 0x1_0000 + ((u >> 8u64) as u8)
        * 0x100 + (u as u8) == u) by (bit_vector);
}

/// `BytesMut::new`: an empty buffer.
#[verifier::external_body]
pub fn buf_new() -> (b: BytesMut)
    ensures
        buf_bytes(b) == Seq::<u8>::empty(),
{
    BytesMut::new()
}

/// `BytesMut::len`: the number of bytes the buffer holds.
#[verifier::external_body]
pub fn buf_len(b: &BytesMut) -> (n: usize)
    ensures
        n == buf_bytes(*b).len(),
{
    b.len()
}

/// `BufMut::put_i32` on a `BytesMut`: appends the big-endian bytes of `v`.
/// The buffer grows through `Vec`, which panics past `isize::MAX` bytes; the
/// bound in `requires` counts the bytes held, not those already consumed from
/// the front of the allocation.
#[verifier::external_body]
pub fn buf_put_i32(b: &mut BytesMut, v: i32)
    requires
        buf_bytes(*old(b)).len() + 4 <= isize::MAX,
    ensures
        buf_bytes(*final(b)) == buf_bytes(*old(b)) + be32(v),
{
    b.put_i32(v)
}

/// `Buf::get_i32` on a `BytesMut`: reads a big-endian `i32` from the front.
/// It panics when fewer than four bytes remain.
#[verifier::external_body]
pub fn buf_get_i32(b: &mut BytesMut) -> (v: i32)
    requires
        buf_bytes(*old(b)).len() >= 4,
    ensures
        v == be32_value(buf_bytes(*old(b))),
        buf_bytes(*final(b)) == buf_bytes(*old(b)).skip(4),
{
    b.get_i32()
}

/// `BufMut::put_i64` on a `BytesMut`: appends the big-endian bytes of `v`.
/// The same bound as for `buf_put_i32` applies.
#[verifier::external_body]
pub fn buf_put_i64(b: &mut BytesMut, v: i64)
    requires
        buf_bytes(*old(b)).len() + 8 <= isize::MAX,
    ensures
        buf_bytes(*final(b)) == buf_bytes(*old(b)) + be64(v),
{
    b.put_i64(v)
}

/// `BufMut::put_u8` on a `BytesMut`: appends one byte.
#[verifier::external_body]
pub fn buf_put_u8(b: &mut BytesMut, v: u8)
    requires
        buf_bytes(*old(b)).len() + 1 <= isize::MAX,
    ensures
        buf_bytes(*final(b)) == buf_bytes(*old(b)).push(v),
{
    b.put_u8(v)
}

/// `BufMut::put_i8` on a `BytesMut`: appends the byte that holds the bits of `v`.
#[verifier::external_body]
pub fn buf_put_i8(b: &mut BytesMut, v: i8)
    requires
        buf_bytes(*old(b)).len() + 1 <= isize::MAX,
    ensures
        buf_bytes(*final(b)) == buf_bytes(*old(b)).push(v as u8),
{
    b.put_i8(v)
}

/// `BytesMut::extend_from_slice`: appends the bytes of `s`.
#[verifier::external_body]
pub fn buf_extend_from_slice(b: &mut BytesMut, s: &[u8])
    requires
        buf_bytes(*old(b)).len() + s@.len() <= isize::MAX,
    ensures
        buf_bytes(*final(b)) == buf_bytes(*old(b)) + s@,
{
    b.extend_from_slice(s)
}

/// `BytesMut::reserve`: makes room for `additional` more bytes without
/// changing the bytes held. It panics when the capacity would pass
/// `isize::MAX`; the bound in `requires` counts the bytes held, not those
/// already consumed from the front of the allocation.
#[verifier::external_body]
pub fn buf_reserve(b: &mut BytesMut, additional: usize)
    requires
        buf_bytes(*old(b)).len() + additional <= isize::MAX,
    ensures
        buf_bytes(*final(b)) == buf_bytes(*old(b)),
{
    b.reserve(additional)
}

/// `Buf::get_i64` on a `BytesMut`: reads a big-endian `i64` from the front.
/// It panics when fewer than eight bytes remain.
#[verifier::external_body]
pub fn buf_get_i64(b: &mut BytesMut) -> (v: i64)
    requires
        buf_bytes(*old(b)).len() >= 8,
    ensures
        v == be64_value(buf_bytes(*old(b))),
        buf_bytes(*final(b)) == buf_bytes(*old(b)).skip(8),
{
    b.get_i64()
}

/// `Buf::get_u8` on a `BytesMut`: reads one byte from the front. It panics
/// on an empty buffer.
#[verifier::external_body]
pub fn buf_get_u8(b: &mut BytesMut) -> (v: u8)
    requires
        buf_bytes(*old(b)).len() >= 1,
    ensures
        v == buf_bytes(*old(b))[0],
        buf_bytes(*final(b)) == buf_bytes(*old(b)).skip(1),
{
    b.get_u8()
}

/// `Buf::remaining` on a `BytesMut`: the number of bytes left to read.
#[verifier::external_body]
pub fn buf_remaining(b: &BytesMut) -> (n: usize)
    ensures
        n == buf_bytes(*b).len(),
{
    b.remaining()
}

/// `Buf::copy_to_slice` on a `BytesMut`, into a fresh vector of `n` bytes:
/// moves the first `n` bytes out of the buffer. It panics when fewer than
/// `n` bytes remain.
#[verifier::external_body]
pub fn buf_copy_to_vec(b: &mut BytesMut, n: usize) -> (v: Vec<u8>)
    requires
        buf_bytes(*old(b)).len() >= n,
    ensures
        v@ == buf_bytes(*old(b)).take(n as int),
        buf_bytes(*final(b)) == buf_bytes(*old(b)).skip(n as int),
{
    let mut v = vec![0u8; n];
    b.copy_to_slice(&mut v);
    v
}

/// `BytesMut::split_to`, with the split-off part copied into a vector:
/// moves the first `n` bytes out of the buffer. It panics when fewer than
/// `n` bytes remain.
#[verifier::external_body]
pub fn buf_split_to_vec(b: &mut BytesMut, n: usize) -> (v: Vec<u8>)
    requires
        buf_bytes(*old(b)).len() >= n,
    ensures
        v@ == buf_bytes(*old(b)).take(n as int),
        buf_bytes(*final(b)) == buf_bytes(*old(b)).skip(n as int),
{
    b.split_to(n).to_vec()
}

/// `String::from_utf8`: the string whose UTF-8 encoding is `v`, when `v` is
/// valid UTF-8; `None` otherwise.
#[verifier::external_body]
pub fn string_from_utf8(v: Vec<u8>) -> (r: Option<String>)
    ensures
        r is Some <==> vstd::utf8::valid_utf8(v@),
        r matches Some(s) ==> s@ == vstd::utf8::decode_utf8(v@),
{
    String::from_utf8(v).ok()
}

} // verus!
