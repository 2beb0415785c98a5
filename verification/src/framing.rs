//! The framing of packets: each packet travels with its length in front, as
//! the length-delimited codec of `tokio-util` writes and reads it.

use crate::buffer::{be32, be32_unsigned, buf_bytes};
use bytes::BytesMut;
use tokio_util::codec::{Decoder, Encoder, LengthDelimitedCodec};
use vstd::prelude::*;

verus! {

#[verifier::external_type_specification]
#[verifier::external_body]
pub struct ExLengthDelimitedCodec(LengthDelimitedCodec);

#[verifier::external_type_specification]
#[verifier::external_body]
pub struct ExIoError(std::io::Error);

/// The longest frame that the codec accepts: one mebibyte.
pub open spec fn max_frame_len() -> int {
    1048576
}

/// The decoding state of a length-delimited codec: the length of the frame
/// whose head it has read and whose data it still awaits, if any.
pub uninterp spec fn frame_pending(c: LengthDelimitedCodec) -> Option<int>;

/// Whether a length-delimited codec was built as this crate builds it: a
/// four-byte big-endian length at offset 0, no adjustment, no extra bytes
/// skipped, and frames of at most `max_frame_len()` bytes.
pub uninterp spec fn zk_framing(c: LengthDelimitedCodec) -> bool;

/// What one decoding step of the codec does with the bytes `s` it is given.
pub enum FrameStep {
    /// A whole frame was split off; the bytes after it remain.
    Frame(Seq<u8>, Seq<u8>),
    /// No whole frame yet; the new decoding state and the bytes that remain.
    Incomplete(Option<int>, Seq<u8>),
    /// The announced length passes the limit; nothing is consumed.
    TooLong,
}

/// One decoding step from the state `pending` on the bytes `s`.
pub open spec fn frame_step(pending: Option<int>, s: Seq<u8>) -> FrameStep {
    match pending {
        None => if s.len() < 4 {
            FrameStep::Incomplete(None, s)
        } else {
            let n = be32_unsigned(s) as int;
            if n > max_frame_len() {
                FrameStep::TooLong
            } else if s.len() - 4 >= n {
                FrameStep::Frame(s.subrange(4, 4 + n), s.skip(4 + n))
            } else {
                FrameStep::Incomplete(Some(n), s.skip(4))
            }
        },
        Some(n) => if s.len() >= n {
            FrameStep::Frame(s.take(n), s.skip(n))
        } else {
            FrameStep::Incomplete(Some(n), s)
        },
    }
}

/// `LengthDelimitedCodec::builder()` set to a maximal frame length of one
/// mebibyte, a four-byte length field at offset 0, no length adjustment and
/// big-endian order, then `new_codec()`: a codec with that configuration that
/// awaits the head of a frame.
#[verifier::external_body]
pub fn new_frame_codec() -> (c: LengthDelimitedCodec)
    ensures
        zk_framing(c),
        frame_pending(c) is None,
{
    LengthDelimitedCodec::builder()
        .max_frame_length(1 * 1_024 * 1_024)
        .length_field_length(4)
        .length_field_offset(0)
        .length_adjustment(0)
        .big_endian()
        .new_codec()
}

/// `Decoder::decode` of `LengthDelimitedCodec`, for a codec with this crate's
/// configuration: one step of `frame_step`. The error for a length past the
/// limit is returned before anything is consumed.
#[verifier::external_body]
pub fn frame_decode(c: &mut LengthDelimitedCodec, src: &mut BytesMut) -> (r: Result<
    Option<BytesMut>,
    std::io::Error,
>)
    requires
        zk_framing(*old(c)),
    ensures
        zk_framing(*final(c)),
        match frame_step(frame_pending(*old(c)), buf_bytes(*old(src))) {
            FrameStep::Frame(f, rest) => r matches Ok(Some(frame)) && buf_bytes(frame) == f
                && buf_bytes(*final(src)) == rest && frame_pending(*final(c)) is None,
            FrameStep::Incomplete(p, rest) => r matches Ok(None) && buf_bytes(*final(src)) == rest
                && frame_pending(*final(c)) == p,
            FrameStep::TooLong => r is Err && buf_bytes(*final(src)) == buf_bytes(*old(src))
                && frame_pending(*final(c)) == frame_pending(*old(c)),
        },
{
    c.decode(src)
}

/// `Encoder::<Bytes>::encode` of `LengthDelimitedCodec`, given the frozen
/// `data`, for a codec with this crate's configuration: appends the length of
/// `data` as four big-endian bytes and then `data`, unless `data` is longer
/// than the limit, which is an error that writes nothing. The decoding state
/// is left as it was.
#[verifier::external_body]
pub fn frame_encode(c: &mut LengthDelimitedCodec, data: BytesMut, dst: &mut BytesMut) -> (r: Result<
    (),
    std::io::Error,
>)
    requires
        zk_framing(*old(c)),
        buf_bytes(*old(dst)).len() + 4 + buf_bytes(data).len() <= isize::MAX,
    ensures
        zk_framing(*final(c)),
        frame_pending(*final(c)) == frame_pending(*old(c)),
        buf_bytes(data).len() <= max_frame_len() ==> r is Ok && buf_bytes(*final(dst)) == buf_bytes(
            *old(dst),
        ) + be32(buf_bytes(data).len() as i32) + buf_bytes(data),
        buf_bytes(data).len() > max_frame_len() ==> r is Err && buf_bytes(*final(dst))
            == buf_bytes(*old(dst)),
{
    c.encode(data.freeze(), dst)
}

} // verus!
