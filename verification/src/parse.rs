//! What reading each record from a byte sequence gives, as a function of the
//! bytes: the value and the bytes after it, an error, or no reading at all.

use crate::buffer::{be32_value, be64_value};
use crate::codec::{ReplyHeader, RequestHeader, Stat};
use crate::codes::{spec_opcode_from_i32, OpCodes};
use crate::errors::ZkError;
use crate::model::{
    SpecAcl, SpecConnectRequest, SpecConnectResponse, SpecCreateRequest, SpecDeleteRequest,
    SpecExistsRequest, SpecGetAclRequest, SpecGetChildrenRequest, SpecGetDataRequest,
    SpecGetDataResponse, SpecRequest, SpecRequestPacket, SpecResponsePacket, SpecSetAclRequest,
    SpecSetDataRequest, SpecSetWatchesRequest, SpecZkResponse,
};
use crate::record::SpecParse;
use vstd::prelude::*;
use vstd::utf8::{decode_utf8, valid_utf8};

verus! {

/// Reads with `p`, then goes on with `k` from the value and the bytes after it.
pub open spec fn bind<A, B>(p: SpecParse<A>, k: spec_fn(A, Seq<u8>) -> SpecParse<B>) -> SpecParse<B> {
    match p {
        SpecParse::Done(a, rest) => k(a, rest),
        SpecParse::Failed(e, rest) => SpecParse::Failed(e, rest),
        SpecParse::Aborts => SpecParse::Aborts,
    }
}

/// `n` values read by `entry`, one after the other.
pub open spec fn parse_repeat<T>(entry: spec_fn(Seq<u8>) -> SpecParse<T>, s: Seq<u8>, n: nat) -> SpecParse<Seq<T>>
    decreases n,
{
    if n == 0 {
        SpecParse::Done(Seq::empty(), s)
    } else {
        bind(
            parse_repeat(entry, s, (n - 1) as nat),
            |v: Seq<T>, r: Seq<u8>| bind(entry(r), |t: T, r2: Seq<u8>| SpecParse::Done(v.push(t), r2)),
        )
    }
}

/// Once reading `k` values fails or aborts, reading more gives the same.
pub proof fn lemma_repeat_stops<T>(entry: spec_fn(Seq<u8>) -> SpecParse<T>, s: Seq<u8>, k: nat, n: nat)
    requires
        k <= n,
        !(parse_repeat(entry, s, k) is Done),
    ensures
        parse_repeat(entry, s, n) == parse_repeat(entry, s, k),
    decreases n,
{
    if n > k {
        lemma_repeat_stops(entry, s, k, (n - 1) as nat);
    }
}

/// Reading `k + 1` values is reading `k` and then one more.
pub proof fn lemma_repeat_next<T>(entry: spec_fn(Seq<u8>) -> SpecParse<T>, s: Seq<u8>, k: nat, v: Seq<T>, r: Seq<u8>)
    requires
        parse_repeat(entry, s, k) == SpecParse::Done(v, r),
    ensures
        entry(r) matches SpecParse::Done(t, r2) ==> parse_repeat(entry, s, k + 1) == SpecParse::Done(v.push(t), r2),
        entry(r) matches SpecParse::Failed(e, r2) ==> parse_repeat(entry, s, k + 1) == SpecParse::Failed::<Seq<T>>(e, r2),
        entry(r) is Aborts ==> parse_repeat(entry, s, k + 1) is Aborts,
{
}

/// A big-endian `i32`.
pub open spec fn parse_i32(s: Seq<u8>) -> SpecParse<i32> {
    if s.len() < 4 {
        SpecParse::Aborts
    } else {
        SpecParse::Done(be32_value(s), s.skip(4))
    }
}

/// A big-endian `i64`.
pub open spec fn parse_i64(s: Seq<u8>) -> SpecParse<i64> {
    if s.len() < 8 {
        SpecParse::Aborts
    } else {
        SpecParse::Done(be64_value(s), s.skip(8))
    }
}

/// One byte.
pub open spec fn parse_u8(s: Seq<u8>) -> SpecParse<u8> {
    if s.len() < 1 {
        SpecParse::Aborts
    } else {
        SpecParse::Done(s[0], s.skip(1))
    }
}

/// A byte string with its length in front. A length of zero or less gives
/// the empty string; a length beyond the bytes left is an error.
pub open spec fn parse_data(s: Seq<u8>) -> SpecParse<Seq<u8>> {
    bind(
        parse_i32(s),
        |len: i32, r: Seq<u8>|
            if len <= 0 {
                SpecParse::Done(Seq::empty(), r)
            } else if r.len() < len {
                SpecParse::Failed(ZkError::InvalidPacketLength(len), r)
            } else {
                SpecParse::Done(r.take(len as int), r.skip(len as int))
            },
    )
}

/// The UTF-8 text held by `b`, or an error when `b` is not UTF-8; `rest`
/// is what follows `b`.
pub open spec fn utf8_text(b: Seq<u8>, rest: Seq<u8>) -> SpecParse<Seq<char>> {
    if valid_utf8(b) {
        SpecParse::Done(decode_utf8(b), rest)
    } else {
        SpecParse::Failed(ZkError::InvalidString, rest)
    }
}

/// A text with its length in front, read as `parse_data` reads bytes.
pub open spec fn parse_str(s: Seq<u8>) -> SpecParse<Seq<char>> {
    bind(
        parse_i32(s),
        |len: i32, r: Seq<u8>|
            if len <= 0 {
                SpecParse::Done(Seq::empty(), r)
            } else if r.len() < len {
                SpecParse::Failed(ZkError::InvalidPacketLength(len), r)
            } else {
                utf8_text(r.take(len as int), r.skip(len as int))
            },
    )
}

/// A byte string with its length in front, which must be neither negative
/// nor beyond the bytes left.
pub open spec fn parse_raw(s: Seq<u8>) -> SpecParse<Seq<u8>> {
    bind(
        parse_i32(s),
        |len: i32, r: Seq<u8>|
            if len < 0 || r.len() < len {
                SpecParse::Aborts
            } else {
                SpecParse::Done(r.take(len as int), r.skip(len as int))
            },
    )
}

/// A text with its length in front, read as `parse_raw` reads bytes.
/// `parse_str_entry` as a value.
pub open spec fn str_reader() -> spec_fn(Seq<u8>) -> SpecParse<Seq<char>> {
    |r: Seq<u8>| parse_str_entry(r)
}

pub open spec fn parse_str_entry(s: Seq<u8>) -> SpecParse<Seq<char>> {
    bind(
        parse_i32(s),
        |len: i32, r: Seq<u8>|
            if len < 0 || r.len() < len {
                SpecParse::Aborts
            } else {
                utf8_text(r.take(len as int), r.skip(len as int))
            },
    )
}

/// `n` texts, one after the other.
pub open spec fn parse_str_entries(s: Seq<u8>, n: nat) -> SpecParse<Seq<Seq<char>>> {
    parse_repeat(str_reader(), s, n)
}

/// A list of texts with its count in front; a negative count cannot be read.
pub open spec fn parse_str_list(s: Seq<u8>) -> SpecParse<Seq<Seq<char>>> {
    bind(
        parse_i32(s),
        |count: i32, r: Seq<u8>|
            if count < 0 {
                SpecParse::Aborts
            } else {
                parse_str_entries(r, count as nat)
            },
    )
}

/// An access-control entry whose two byte strings are read as `parse_data` reads them.
/// `parse_acl_entry` as a value.
pub open spec fn acl_reader() -> spec_fn(Seq<u8>) -> SpecParse<SpecAcl> {
    |r: Seq<u8>| parse_acl_entry(r)
}

pub open spec fn parse_acl_entry(s: Seq<u8>) -> SpecParse<SpecAcl> {
    bind(
        parse_i32(s),
        |perms: i32, r: Seq<u8>|
            bind(
                parse_data(r),
                |scheme: Seq<u8>, r2: Seq<u8>|
                    bind(
                        parse_data(r2),
                        |cred: Seq<u8>, r3: Seq<u8>|
                            SpecParse::Done(SpecAcl { perms, scheme, cred }, r3),
                    ),
            ),
    )
}

/// `n` access-control entries, one after the other.
pub open spec fn parse_acl_entries(s: Seq<u8>, n: nat) -> SpecParse<Seq<SpecAcl>> {
    parse_repeat(acl_reader(), s, n)
}

/// An access-control list with its count in front. A count of zero or less
/// gives the empty list; a count beyond the number of bytes left is an error.
pub open spec fn parse_acl_list(s: Seq<u8>) -> SpecParse<Seq<SpecAcl>> {
    bind(
        parse_i32(s),
        |len: i32, r: Seq<u8>|
            if len <= 0 {
                SpecParse::Done(Seq::empty(), r)
            } else if r.len() < len {
                SpecParse::Failed(ZkError::InvalidPacketLength(len), r)
            } else {
                parse_acl_entries(r, len as nat)
            },
    )
}

/// An access-control entry whose two byte strings are read as `parse_raw` reads them.
/// `parse_raw_acl_entry` as a value.
pub open spec fn raw_acl_reader() -> spec_fn(Seq<u8>) -> SpecParse<SpecAcl> {
    |r: Seq<u8>| parse_raw_acl_entry(r)
}

pub open spec fn parse_raw_acl_entry(s: Seq<u8>) -> SpecParse<SpecAcl> {
    bind(
        parse_i32(s),
        |perms: i32, r: Seq<u8>|
            bind(
                parse_raw(r),
                |scheme: Seq<u8>, r2: Seq<u8>|
                    bind(
                        parse_raw(r2),
                        |cred: Seq<u8>, r3: Seq<u8>|
                            SpecParse::Done(SpecAcl { perms, scheme, cred }, r3),
                    ),
            ),
    )
}

/// `n` entries read by `parse_raw_acl_entry`, one after the other.
pub open spec fn parse_raw_acl_entries(s: Seq<u8>, n: nat) -> SpecParse<Seq<SpecAcl>> {
    parse_repeat(raw_acl_reader(), s, n)
}

/// A trailing flag byte: true when it is 1; false, and nothing read, when
/// no byte is left.
pub open spec fn parse_trailing_bool(s: Seq<u8>) -> (bool, Seq<u8>) {
    if s.len() >= 1 {
        (s[0] == 1, s.skip(1))
    } else {
        (false, s)
    }
}

/// A password: the bytes announced by a positive length, none otherwise; a
/// length beyond the bytes left cannot be read.
pub open spec fn parse_passwd(len: i32, s: Seq<u8>) -> SpecParse<Seq<u8>> {
    if len > 0 {
        if s.len() < len {
            SpecParse::Aborts
        } else {
            SpecParse::Done(s.take(len as int), s.skip(len as int))
        }
    } else {
        SpecParse::Done(Seq::empty(), s)
    }
}

/// A connect request after its protocol version; the version reads as 0.
pub open spec fn parse_connect_request(s: Seq<u8>) -> SpecParse<SpecConnectRequest> {
    bind(
        parse_i64(s),
        |last_zxid_seen: i64, r1: Seq<u8>|
            bind(
                parse_i32(r1),
                |timeout: i32, r2: Seq<u8>|
                    bind(
                        parse_i64(r2),
                        |session_id: i64, r3: Seq<u8>|
                            bind(
                                parse_i32(r3),
                                |len: i32, r4: Seq<u8>|
                                    bind(
                                        parse_passwd(len, r4),
                                        |passwd: Seq<u8>, r5: Seq<u8>|
                                            SpecParse::Done(
                                                SpecConnectRequest {
                                                    protocol_version: 0,
                                                    last_zxid_seen,
                                                    timeout,
                                                    session_id,
                                                    passwd,
                                                    read_only: parse_trailing_bool(r5).0,
                                                },
                                                parse_trailing_bool(r5).1,
                                            ),
                                    ),
                            ),
                    ),
            ),
    )
}

/// A connect response after its protocol version; the version reads as 0.
pub open spec fn parse_connect_response(s: Seq<u8>) -> SpecParse<SpecConnectResponse> {
    bind(
        parse_i32(s),
        |timeout: i32, r1: Seq<u8>|
            bind(
                parse_i64(r1),
                |session_id: i64, r2: Seq<u8>|
                    bind(
                        parse_i32(r2),
                        |len: i32, r3: Seq<u8>|
                            bind(
                                parse_passwd(len, r3),
                                |passwd: Seq<u8>, r4: Seq<u8>|
                                    SpecParse::Done(
                                        SpecConnectResponse {
                                            protocol_version: 0,
                                            timeout,
                                            session_id,
                                            passwd,
                                            read_only: parse_trailing_bool(r4).0,
                                        },
                                        parse_trailing_bool(r4).1,
                                    ),
                            ),
                    ),
            ),
    )
}

pub open spec fn parse_get_data_request(s: Seq<u8>) -> SpecParse<SpecGetDataRequest> {
    bind(
        parse_str(s),
        |path: Seq<char>, r: Seq<u8>|
            bind(
                parse_u8(r),
                |b: u8, r2: Seq<u8>| SpecParse::Done(SpecGetDataRequest { path, watch: b == 1 }, r2),
            ),
    )
}

pub open spec fn parse_set_data_request(s: Seq<u8>) -> SpecParse<SpecSetDataRequest> {
    bind(
        parse_str(s),
        |path: Seq<char>, r: Seq<u8>|
            bind(
                parse_data(r),
                |data: Seq<u8>, r2: Seq<u8>|
                    bind(
                        parse_i32(r2),
                        |version: i32, r3: Seq<u8>|
                            SpecParse::Done(SpecSetDataRequest { path, data, version }, r3),
                    ),
            ),
    )
}

pub open spec fn parse_create_request(s: Seq<u8>) -> SpecParse<SpecCreateRequest> {
    bind(
        parse_str(s),
        |path: Seq<char>, r: Seq<u8>|
            bind(
                parse_data(r),
                |data: Seq<u8>, r2: Seq<u8>|
                    bind(
                        parse_acl_list(r2),
                        |acl: Seq<SpecAcl>, r3: Seq<u8>|
                            bind(
                                parse_i32(r3),
                                |flags: i32, r4: Seq<u8>|
                                    SpecParse::Done(SpecCreateRequest { path, data, acl, flags }, r4),
                            ),
                    ),
            ),
    )
}

pub open spec fn parse_delete_request(s: Seq<u8>) -> SpecParse<SpecDeleteRequest> {
    bind(
        parse_str(s),
        |path: Seq<char>, r: Seq<u8>|
            bind(
                parse_i32(r),
                |version: i32, r2: Seq<u8>| SpecParse::Done(SpecDeleteRequest { path, version }, r2),
            ),
    )
}

pub open spec fn parse_get_children_request(s: Seq<u8>) -> SpecParse<SpecGetChildrenRequest> {
    bind(
        parse_str(s),
        |path: Seq<char>, r: Seq<u8>|
            bind(
                parse_u8(r),
                |b: u8, r2: Seq<u8>|
                    SpecParse::Done(SpecGetChildrenRequest { path, watch: b != 0 }, r2),
            ),
    )
}

pub open spec fn parse_exists_request(s: Seq<u8>) -> SpecParse<SpecExistsRequest> {
    bind(
        parse_str(s),
        |path: Seq<char>, r: Seq<u8>|
            bind(
                parse_u8(r),
                |b: u8, r2: Seq<u8>| SpecParse::Done(SpecExistsRequest { path, watch: b != 0 }, r2),
            ),
    )
}

pub open spec fn parse_get_acl_request(s: Seq<u8>) -> SpecParse<SpecGetAclRequest> {
    bind(parse_str(s), |path: Seq<char>, r: Seq<u8>| SpecParse::Done(SpecGetAclRequest { path }, r))
}

pub open spec fn parse_set_acl_request(s: Seq<u8>) -> SpecParse<SpecSetAclRequest> {
    bind(
        parse_str(s),
        |path: Seq<char>, r: Seq<u8>|
            bind(
                parse_i32(r),
                |count: i32, r2: Seq<u8>|
                    if count < 0 {
                        SpecParse::Aborts
                    } else {
                        bind(
                            parse_raw_acl_entries(r2, count as nat),
                            |acl: Seq<SpecAcl>, r3: Seq<u8>|
                                bind(
                                    parse_i32(r3),
                                    |version: i32, r4: Seq<u8>|
                                        SpecParse::Done(SpecSetAclRequest { path, acl, version }, r4),
                                ),
                        )
                    },
            ),
    )
}

pub open spec fn parse_set_watches_request(s: Seq<u8>) -> SpecParse<SpecSetWatchesRequest> {
    bind(
        parse_i64(s),
        |relative_zxid: i64, r: Seq<u8>|
            bind(
                parse_str_list(r),
                |data_watches: Seq<Seq<char>>, r2: Seq<u8>|
                    bind(
                        parse_str_list(r2),
                        |exist_watches: Seq<Seq<char>>, r3: Seq<u8>|
                            bind(
                                parse_str_list(r3),
                                |child_watches: Seq<Seq<char>>, r4: Seq<u8>|
                                    SpecParse::Done(
                                        SpecSetWatchesRequest {
                                            relative_zxid,
                                            data_watches,
                                            exist_watches,
                                            child_watches,
                                        },
                                        r4,
                                    ),
                            ),
                    ),
            ),
    )
}

/// The 68 bytes of a node's metadata, field after field.
pub open spec fn parse_stat(s: Seq<u8>) -> SpecParse<Stat> {
    if s.len() < 68 {
        SpecParse::Aborts
    } else {
        SpecParse::Done(
            Stat {
                czxid: be64_value(s),
                mzxid: be64_value(s.skip(8)),
                ctime: be64_value(s.skip(16)),
                mtime: be64_value(s.skip(24)),
                version: be32_value(s.skip(32)),
                cversion: be32_value(s.skip(36)),
                aversion: be32_value(s.skip(40)),
                ephemeral_owner: be64_value(s.skip(44)),
                data_length: be32_value(s.skip(52)),
                num_children: be32_value(s.skip(56)),
                pzxid: be64_value(s.skip(60)),
            },
            s.skip(68),
        )
    }
}

/// A request packet with the given header and body.
pub open spec fn request_with(xid: i32, opcode: i32, request: SpecRequest) -> SpecRequestPacket {
    SpecRequestPacket { request_header: Some(RequestHeader { xid, opcode }), request }
}

/// The body of a request whose header holds `xid` and `opcode`, read from
/// `s`. An opcode that names no operation, or an operation that has no body
/// decoder here, cannot be read.
pub open spec fn parse_request_body(xid: i32, opcode: i32, s: Seq<u8>) -> SpecParse<SpecRequestPacket> {
    match spec_opcode_from_i32(opcode) {
        None => SpecParse::Aborts,
        Some(op) => match op {
            OpCodes::GetData => bind(
                parse_get_data_request(s),
                |q: SpecGetDataRequest, r: Seq<u8>|
                    SpecParse::Done(request_with(xid, opcode, SpecRequest::GetData(q)), r),
            ),
            OpCodes::Create | OpCodes::Create2 | OpCodes::CreateTtl | OpCodes::CreateContainer => bind(
                parse_create_request(s),
                |q: SpecCreateRequest, r: Seq<u8>|
                    SpecParse::Done(request_with(xid, opcode, SpecRequest::Create(q)), r),
            ),
            OpCodes::SetData => bind(
                parse_set_data_request(s),
                |q: SpecSetDataRequest, r: Seq<u8>|
                    SpecParse::Done(request_with(xid, opcode, SpecRequest::SetData(q)), r),
            ),
            OpCodes::GetChildren | OpCodes::GetChildren2 => bind(
                parse_get_children_request(s),
                |q: SpecGetChildrenRequest, r: Seq<u8>|
                    SpecParse::Done(request_with(xid, opcode, SpecRequest::GetChildren(q)), r),
            ),
            OpCodes::Delete => bind(
                parse_delete_request(s),
                |q: SpecDeleteRequest, r: Seq<u8>|
                    SpecParse::Done(request_with(xid, opcode, SpecRequest::Delete(q)), r),
            ),
            OpCodes::Exists => bind(
                parse_exists_request(s),
                |q: SpecExistsRequest, r: Seq<u8>|
                    SpecParse::Done(request_with(xid, opcode, SpecRequest::Exists(q)), r),
            ),
            OpCodes::GetAcl => bind(
                parse_get_acl_request(s),
                |q: SpecGetAclRequest, r: Seq<u8>|
                    SpecParse::Done(request_with(xid, opcode, SpecRequest::GetAcl(q)), r),
            ),
            OpCodes::SetAcl => bind(
                parse_set_acl_request(s),
                |q: SpecSetAclRequest, r: Seq<u8>|
                    SpecParse::Done(request_with(xid, opcode, SpecRequest::SetAcl(q)), r),
            ),
            OpCodes::Close => SpecParse::Done(request_with(xid, opcode, SpecRequest::Close), s),
            OpCodes::SetWatches => bind(
                parse_set_watches_request(s),
                |q: SpecSetWatchesRequest, r: Seq<u8>|
                    SpecParse::Done(request_with(xid, opcode, SpecRequest::SetWatches(q)), r),
            ),
            _ => SpecParse::Aborts,
        },
    }
}

/// A request packet as a client sends it (without its frame length). The
/// first field is the transaction id, except in a connect request, where it
/// is the protocol version, 0: such a request has no header. A ping carries
/// its opcode and nothing else.
pub open spec fn parse_request_packet(s: Seq<u8>) -> SpecParse<SpecRequestPacket> {
    bind(
        parse_i32(s),
        |xid: i32, r: Seq<u8>|
            if xid == 0 {
                bind(
                    parse_connect_request(r),
                    |c: SpecConnectRequest, r2: Seq<u8>|
                        SpecParse::Done(
                            SpecRequestPacket { request_header: None, request: SpecRequest::Connect(c) },
                            r2,
                        ),
                )
            } else if xid == -2 {
                bind(
                    parse_i32(r),
                    |opcode: i32, r2: Seq<u8>|
                        SpecParse::Done(request_with(xid, opcode, SpecRequest::Ping), r2),
                )
            } else {
                bind(parse_i32(r), |opcode: i32, r2: Seq<u8>| parse_request_body(xid, opcode, r2))
            },
    )
}

/// A response packet with the given header and body.
pub open spec fn reply_with(h: ReplyHeader, response: SpecZkResponse) -> Option<SpecResponsePacket> {
    Some(SpecResponsePacket { response_header: Some(h), response })
}

/// The body of a reply with header `h` to a request of operation `op`, read
/// from `s`; `op` is `None` when no request is on record for the reply's
/// transaction id, which is an error. Operations without a body decoder give
/// no packet.
pub open spec fn parse_reply_body(h: ReplyHeader, op: Option<OpCodes>, s: Seq<u8>) -> SpecParse<
    Option<SpecResponsePacket>,
> {
    match op {
        None => SpecParse::Failed(crate::errors::ZkError::DecodeError, s),
        Some(op) => match op {
            OpCodes::Exists | OpCodes::SetData | OpCodes::SetAcl => bind(
                parse_stat(s),
                |st: Stat, r: Seq<u8>| SpecParse::Done(reply_with(h, SpecZkResponse::Stat(st)), r),
            ),
            OpCodes::GetData => bind(
                parse_data(s),
                |data: Seq<u8>, r: Seq<u8>|
                    bind(
                        parse_stat(r),
                        |stat: Stat, r2: Seq<u8>|
                            SpecParse::Done(
                                reply_with(h, SpecZkResponse::GetData(SpecGetDataResponse { data, stat })),
                                r2,
                            ),
                    ),
            ),
            OpCodes::Delete => SpecParse::Done(reply_with(h, SpecZkResponse::Empty), s),
            OpCodes::GetChildren => bind(
                parse_str_list(s),
                |v: Seq<Seq<char>>, r: Seq<u8>|
                    SpecParse::Done(reply_with(h, SpecZkResponse::Strings(v)), r),
            ),
            OpCodes::Create => bind(
                parse_str(s),
                |p: Seq<char>, r: Seq<u8>| SpecParse::Done(reply_with(h, SpecZkResponse::String(p)), r),
            ),
            OpCodes::GetAcl => bind(
                parse_acl_list(s),
                |acl: Seq<SpecAcl>, r: Seq<u8>|
                    bind(
                        parse_stat(r),
                        |stat: Stat, r2: Seq<u8>|
                            SpecParse::Done(reply_with(h, SpecZkResponse::GetAcl { acl, stat }), r2),
                    ),
            ),
            OpCodes::Check => SpecParse::Done(reply_with(h, SpecZkResponse::Empty), s),
            OpCodes::GetChildren2 => bind(
                parse_str_list(s),
                |children: Seq<Seq<char>>, r: Seq<u8>|
                    bind(
                        parse_stat(r),
                        |stat: Stat, r2: Seq<u8>|
                            SpecParse::Done(
                                reply_with(h, SpecZkResponse::GetChildren2 { children, stat }),
                                r2,
                            ),
                    ),
            ),
            _ => SpecParse::Done(None, s),
        },
    }
}

/// A response packet as a server sends it (without its frame length), where
/// `op` is the operation on record for the reply's transaction id. A first
/// field of 0 starts a connect response, which has no header; a ping reply
/// has a header and no body.
pub open spec fn parse_response_frame(s: Seq<u8>, op: Option<OpCodes>) -> SpecParse<
    Option<SpecResponsePacket>,
> {
    bind(
        parse_i32(s),
        |xid: i32, r: Seq<u8>|
            if xid == 0 {
                bind(
                    parse_connect_response(r),
                    |c: SpecConnectResponse, r2: Seq<u8>|
                        SpecParse::Done(
                            Some(
                                SpecResponsePacket {
                                    response_header: None,
                                    response: SpecZkResponse::Connect(c),
                                },
                            ),
                            r2,
                        ),
                )
            } else {
                bind(
                    parse_i64(r),
                    |zxid: i64, r2: Seq<u8>|
                        bind(
                            parse_i32(r2),
                            |err: i32, r3: Seq<u8>|
                                if xid == -2 {
                                    SpecParse::Done(
                                        reply_with(ReplyHeader { xid, zxid, err }, SpecZkResponse::Ping),
                                        r3,
                                    )
                                } else {
                                    parse_reply_body(ReplyHeader { xid, zxid, err }, op, r3)
                                },
                        ),
                )
            },
    )
}

} // verus!
