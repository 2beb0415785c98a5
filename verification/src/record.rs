//! The two faces of a record: it can be written into a buffer, and it can be
//! read back from one.

use crate::buffer::buf_bytes;
use crate::errors::ZkError;
use bytes::BytesMut;
use vstd::prelude::*;

verus! {

/// What reading a value from a byte sequence gives: the value and the bytes
/// after it, an error and the bytes left when it was found, or nothing at
/// all because the bytes cannot be read (a read runs past the end, a count
/// is negative, or an operation has no decoder).
pub enum SpecParse<T> {
    Done(T, Seq<u8>),
    Failed(ZkError, Seq<u8>),
    Aborts,
}

/// What a decoder returns: a value, an error, or the verdict that the bytes
/// cannot be read at all (see `SpecParse::Aborts`).
#[derive(Debug)]
pub enum Decoded<T> {
    Done(T),
    Failed(ZkError),
    Aborts,
}

/// `d`, together with the bytes `after` that are left in the buffer, is what
/// `p` says, reading the value of `d` through `view`.
pub open spec fn decoded_as<T, V>(
    d: Decoded<T>,
    p: SpecParse<V>,
    after: Seq<u8>,
    view: spec_fn(T) -> V,
) -> bool {
    match p {
        SpecParse::Done(v, rest) => d matches Decoded::Done(x) && view(x) == v && after == rest,
        SpecParse::Failed(e, rest) => d matches Decoded::Failed(e2) && e2 == e && after == rest,
        SpecParse::Aborts => d is Aborts,
    }
}

/// `decoded_as`, leaving aside the bytes that are left.
pub open spec fn outcome_as<T, V>(d: Decoded<T>, p: SpecParse<V>, view: spec_fn(T) -> V) -> bool {
    match p {
        SpecParse::Done(v, _) => d matches Decoded::Done(x) && view(x) == v,
        SpecParse::Failed(e, _) => d matches Decoded::Failed(e2) && e2 == e,
        SpecParse::Aborts => d is Aborts,
    }
}

/// `decoded_as` for a value read through its view.
pub open spec fn decoded<T: View>(d: Decoded<T>, p: SpecParse<T::V>, after: Seq<u8>) -> bool {
    decoded_as(d, p, after, |x: T| x@)
}

/// The `Result` form of `decoded`, for inputs that do not abort.
pub open spec fn parsed<T: View>(r: Result<T, ZkError>, p: SpecParse<T::V>, after: Seq<u8>) -> bool {
    match p {
        SpecParse::Done(v, rest) => r matches Ok(x) && x@ == v && after == rest,
        SpecParse::Failed(e, rest) => r matches Err(e2) && e2 == e && after == rest,
        SpecParse::Aborts => false,
    }
}

/// A record that can be written into a buffer.
pub trait Record {
    /// The bytes that `serialize_into` appends.
    spec fn wire(&self) -> Seq<u8>;

    /// The number that `size` returns.
    spec fn spec_size(&self) -> int;

    /// Whether the record can be written at all.
    spec fn can_serialize(&self) -> bool;

    /// Appends the encoding of the record to `buffer`.
    fn serialize_into(&self, buffer: &mut BytesMut) -> (r: Result<(), ZkError>)
        requires
            self.can_serialize(),
            buf_bytes(*old(buffer)).len() + self.wire().len() <= isize::MAX,
        ensures
            r is Ok,
            buf_bytes(*final(buffer)) == buf_bytes(*old(buffer)) + self.wire(),
    ;

    /// The number of bytes that the record announces for its encoding.
    fn size(&self) -> (n: usize)
        requires
            self.can_serialize(),
            self.spec_size() <= usize::MAX,
        ensures
            n == self.spec_size(),
    ;
}

/// A record that can be read from a buffer.
pub trait Deserialize: Sized + View {
    /// What reading the record from `s` gives.
    spec fn parse_spec(s: Seq<u8>) -> SpecParse<<Self as View>::V>;

    /// Reads the record from the front of `bytes`, whatever they hold.
    fn try_deserialize(bytes: &mut BytesMut) -> (r: Decoded<Self>)
        ensures
            decoded(r, Self::parse_spec(buf_bytes(*old(bytes))), buf_bytes(*final(bytes))),
    ;

    /// Reads the record from the front of `bytes`, which must be readable.
    fn deserialize(bytes: &mut BytesMut) -> (r: Result<Self, ZkError>)
        requires
            !(Self::parse_spec(buf_bytes(*old(bytes))) is Aborts),
        ensures
            parsed(r, Self::parse_spec(buf_bytes(*old(bytes))), buf_bytes(*final(bytes))),
    {
        match Self::try_deserialize(bytes) {
            Decoded::Done(v) => Ok(v),
            Decoded::Failed(e) => Err(e),
            Decoded::Aborts => Err(ZkError::DecodeError),
        }
    }
}

} // verus!
