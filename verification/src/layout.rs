//! The byte layout of each record, written out field by field in the order
//! the protocol fixes, together with the fact that the decoders read those
//! bytes back as the record. Each statement speaks of the encoding and of
//! the decoding separately, against bytes spelled out here.

use crate::buffer::{be32, be64};
use crate::codec::{ReplyHeader, RequestHeader, Stat};
use crate::codes::OpCodes;
use crate::laws::{
    lemma_parse_i32, lemma_parse_i64, lemma_opcode_roundtrip, lemma_parse_request_body,
    acl_fits, acls_fit, bytes_fit, lemma_parse_acl_entry, lemma_parse_acl_list, lemma_parse_data,
    lemma_parse_stat, lemma_parse_str, lemma_parse_str_list, text_fits, texts_fit,
};
use crate::model::{
    SpecAcl, SpecConnectRequest, SpecConnectResponse, SpecCreateRequest, SpecDeleteRequest,
    SpecExistsRequest, SpecGetAclRequest, SpecGetChildrenRequest, SpecGetDataRequest,
    SpecGetDataResponse, SpecRequest, SpecRequestPacket, SpecResponsePacket, SpecSetAclRequest,
    SpecSetDataRequest, SpecSetWatchesRequest, SpecZkResponse,
};
use crate::parse::{
    parse_acl_entry, parse_acl_list, parse_connect_request, parse_connect_response,
    parse_create_request, parse_data,
    parse_delete_request, parse_exists_request, parse_get_acl_request, parse_get_children_request,
    parse_get_data_request, parse_reply_body, parse_set_acl_request, parse_set_data_request,
    parse_request_body, parse_request_packet, parse_response_frame, parse_set_watches_request, parse_stat, parse_str, parse_str_list,
    reply_with, request_with,
};
use crate::proto;
use crate::record::{Record, SpecParse};
use crate::wire::{
    acl_encoder, concat_map, str_encoder, wire_acl, wire_acl_list, wire_acls, wire_bytes,
    wire_connect_request, wire_connect_response, wire_create_request, wire_delete_request,
    wire_exists_request, wire_get_acl_request, wire_get_children_request, wire_get_data_request,
    wire_request, wire_request_packet, wire_response, wire_response_packet, wire_set_acl_request,
    wire_set_data_request, wire_set_watches_request, wire_stat, wire_str, wire_str_list, wire_strs,
};
use vstd::prelude::*;
use vstd::utf8::encode_utf8;

verus! {

/// A byte string is its length, as four big-endian bytes, then its bytes;
/// those bytes read back as the string when the length fits.
pub proof fn lemma_bytes_layout(b: Seq<u8>, rest: Seq<u8>)
    ensures
        wire_bytes(b) == be32(b.len() as i32) + b,
        bytes_fit(b) ==> parse_data(be32(b.len() as i32) + b + rest) == SpecParse::Done(b, rest),
{
    if bytes_fit(b) {
        lemma_parse_data(b, rest);
    }
}

/// A text is the length of its UTF-8 encoding, then that encoding; those
/// bytes read back as the text when the length fits.
pub proof fn lemma_text_layout(t: Seq<char>, rest: Seq<u8>)
    ensures
        wire_str(t) == be32(encode_utf8(t).len() as i32) + encode_utf8(t),
        text_fits(t) ==> parse_str(be32(encode_utf8(t).len() as i32) + encode_utf8(t) + rest)
            == SpecParse::Done(t, rest),
{
    if text_fits(t) {
        lemma_parse_str(t, rest);
    }
}

/// An access-control entry is its permissions, then its scheme, then its
/// credentials, each byte string with its length in front.
pub proof fn lemma_acl_entry_layout(a: SpecAcl, rest: Seq<u8>)
    ensures
        wire_acl(a) == be32(a.perms) + be32(a.scheme.len() as i32) + a.scheme + be32(
            a.cred.len() as i32,
        ) + a.cred,
        acl_fits(a) ==> parse_acl_entry(
            be32(a.perms) + be32(a.scheme.len() as i32) + a.scheme + be32(a.cred.len() as i32)
                + a.cred + rest,
        ) == SpecParse::Done(a, rest),
{
    assert(wire_acl(a) =~= be32(a.perms) + be32(a.scheme.len() as i32) + a.scheme + be32(
        a.cred.len() as i32,
    ) + a.cred);
    if acl_fits(a) {
        lemma_parse_acl_entry(a, rest);
    }
}

/// The entries of an access-control list follow one another in list order:
/// none for the empty list, and one more entry appends its own bytes.
pub proof fn lemma_acl_entries_order(v: Seq<SpecAcl>, a: SpecAcl)
    ensures
        wire_acls(Seq::<SpecAcl>::empty()) == Seq::<u8>::empty(),
        wire_acls(v.push(a)) == wire_acls(v) + wire_acl(a),
{
    assert(v.push(a).drop_last() =~= v);
    assert(concat_map(v.push(a), acl_encoder()) == concat_map(v, acl_encoder()) + acl_encoder()(a));
}

/// An access-control list is its number of entries, then the entries; those
/// bytes read back as the list when the counts and lengths fit.
pub proof fn lemma_acl_list_layout(v: Seq<SpecAcl>, rest: Seq<u8>)
    ensures
        wire_acl_list(v) == be32(v.len() as i32) + wire_acls(v),
        acls_fit(v) ==> parse_acl_list(be32(v.len() as i32) + wire_acls(v) + rest)
            == SpecParse::Done(v, rest),
{
    if acls_fit(v) {
        lemma_parse_acl_list(v, rest);
    }
}

/// A create request is its path, its data, its access-control list (count,
/// then entries) and its flags, in that order; those bytes read back as the
/// request when the counts and lengths fit.
pub proof fn lemma_create_request_layout(q: SpecCreateRequest, rest: Seq<u8>)
    ensures
        wire_create_request(q) == wire_str(q.path) + wire_bytes(q.data) + be32(q.acl.len() as i32)
            + wire_acls(q.acl) + be32(q.flags),
        text_fits(q.path) && bytes_fit(q.data) && acls_fit(q.acl) ==> parse_create_request(
            wire_str(q.path) + wire_bytes(q.data) + be32(q.acl.len() as i32) + wire_acls(q.acl)
                + be32(q.flags) + rest,
        ) == SpecParse::Done(q, rest),
{
    let s = wire_str(q.path) + wire_bytes(q.data) + be32(q.acl.len() as i32) + wire_acls(q.acl)
        + be32(q.flags);
    assert(wire_create_request(q) =~= s);
    if text_fits(q.path) && bytes_fit(q.data) && acls_fit(q.acl) {
        crate::laws::lemma_parse_create_request(q, rest);
    }
}

/// The reply to a get-ACL request is the access-control list (count, then
/// entries), then the node's metadata; those bytes read back as that reply
/// when the counts and lengths fit.
#[verifier::spinoff_prover]
#[verifier::rlimit(40)]
pub proof fn lemma_get_acl_response_layout(
    h: ReplyHeader,
    acl: Seq<SpecAcl>,
    stat: Stat,
    rest: Seq<u8>,
)
    ensures
        wire_response(SpecZkResponse::GetAcl { acl, stat }) == be32(acl.len() as i32) + wire_acls(
            acl,
        ) + wire_stat(stat),
        acls_fit(acl) ==> parse_reply_body(
            h,
            Some(OpCodes::GetAcl),
            be32(acl.len() as i32) + wire_acls(acl) + wire_stat(stat) + rest,
        ) == SpecParse::Done(reply_with(h, SpecZkResponse::GetAcl { acl, stat }), rest),
{
    let r = SpecZkResponse::GetAcl { acl, stat };
    let s = be32(acl.len() as i32) + wire_acls(acl) + wire_stat(stat);
    assert(wire_response(r) =~= s);
    if acls_fit(acl) {
        crate::laws::lemma_parse_reply_body(h, OpCodes::GetAcl, r, rest);
    }
}

/// The texts of a list follow one another in list order: none for the empty
/// list, and one more text appends its own bytes.
pub proof fn lemma_text_entries_order(v: Seq<Seq<char>>, t: Seq<char>)
    ensures
        wire_strs(Seq::<Seq<char>>::empty()) == Seq::<u8>::empty(),
        wire_strs(v.push(t)) == wire_strs(v) + wire_str(t),
{
    assert(v.push(t).drop_last() =~= v);
    assert(concat_map(v.push(t), str_encoder()) == concat_map(v, str_encoder()) + str_encoder()(t));
}

/// A list of texts is its number of texts, then the texts; those bytes read
/// back as the list when the counts and lengths fit.
pub proof fn lemma_text_list_layout(v: Seq<Seq<char>>, rest: Seq<u8>)
    ensures
        wire_str_list(v) == be32(v.len() as i32) + wire_strs(v),
        texts_fit(v) ==> parse_str_list(be32(v.len() as i32) + wire_strs(v) + rest)
            == SpecParse::Done(v, rest),
{
    if texts_fit(v) {
        lemma_parse_str_list(v, rest);
    }
}

/// A set-data request is its path, its data and the expected version, in
/// that order; those bytes read back as the request when the lengths fit.
pub proof fn lemma_set_data_request_layout(q: SpecSetDataRequest, rest: Seq<u8>)
    ensures
        wire_set_data_request(q) == wire_str(q.path) + wire_bytes(q.data) + be32(q.version),
        text_fits(q.path) && bytes_fit(q.data) ==> parse_set_data_request(
            wire_str(q.path) + wire_bytes(q.data) + be32(q.version) + rest,
        ) == SpecParse::Done(q, rest),
{
    if text_fits(q.path) && bytes_fit(q.data) {
        crate::laws::lemma_parse_set_data_request(q, rest);
    }
}

/// A delete request is its path, then the expected version; those bytes read
/// back as the request when the path's length fits.
pub proof fn lemma_delete_request_layout(q: SpecDeleteRequest, rest: Seq<u8>)
    ensures
        wire_delete_request(q) == wire_str(q.path) + be32(q.version),
        text_fits(q.path) ==> parse_delete_request(wire_str(q.path) + be32(q.version) + rest)
            == SpecParse::Done(q, rest),
{
    if text_fits(q.path) {
        crate::laws::lemma_parse_delete_request(q, rest);
    }
}

/// A get-data, exists or get-children request is its path, then one byte
/// for the watch flag (1 to watch, 0 not to); those bytes read back as the
/// request when the path's length fits.
pub proof fn lemma_path_watch_request_layout(path: Seq<char>, watch: bool, rest: Seq<u8>)
    ensures
        wire_get_data_request(SpecGetDataRequest { path, watch }) == wire_str(path) + seq![
            if watch { 1u8 } else { 0u8 },
        ],
        wire_exists_request(SpecExistsRequest { path, watch }) == wire_str(path) + seq![
            if watch { 1u8 } else { 0u8 },
        ],
        wire_get_children_request(SpecGetChildrenRequest { path, watch }) == wire_str(path) + seq![
            if watch { 1u8 } else { 0u8 },
        ],
        text_fits(path) ==> parse_get_data_request(
            wire_str(path) + seq![if watch { 1u8 } else { 0u8 }] + rest,
        ) == SpecParse::Done(SpecGetDataRequest { path, watch }, rest),
        text_fits(path) ==> parse_exists_request(
            wire_str(path) + seq![if watch { 1u8 } else { 0u8 }] + rest,
        ) == SpecParse::Done(SpecExistsRequest { path, watch }, rest),
        text_fits(path) ==> parse_get_children_request(
            wire_str(path) + seq![if watch { 1u8 } else { 0u8 }] + rest,
        ) == SpecParse::Done(SpecGetChildrenRequest { path, watch }, rest),
{
    if text_fits(path) {
        crate::laws::lemma_parse_get_data_request(SpecGetDataRequest { path, watch }, rest);
        crate::laws::lemma_parse_exists_request(SpecExistsRequest { path, watch }, rest);
        crate::laws::lemma_parse_get_children_request(SpecGetChildrenRequest { path, watch }, rest);
    }
}

/// A get-ACL request is its path alone; those bytes read back as the request
/// when the path's length fits.
pub proof fn lemma_get_acl_request_layout(q: SpecGetAclRequest, rest: Seq<u8>)
    ensures
        wire_get_acl_request(q) == wire_str(q.path),
        text_fits(q.path) ==> parse_get_acl_request(wire_str(q.path) + rest) == SpecParse::Done(
            q,
            rest,
        ),
{
    if text_fits(q.path) {
        crate::laws::lemma_parse_get_acl_request(q, rest);
    }
}

/// A set-ACL request is its path, its access-control list (count, then
/// entries) and the expected version, in that order; those bytes read back as
/// the request when the counts and lengths fit.
pub proof fn lemma_set_acl_request_layout(q: SpecSetAclRequest, rest: Seq<u8>)
    ensures
        wire_set_acl_request(q) == wire_str(q.path) + be32(q.acl.len() as i32) + wire_acls(q.acl)
            + be32(q.version),
        text_fits(q.path) && acls_fit(q.acl) ==> parse_set_acl_request(
            wire_str(q.path) + be32(q.acl.len() as i32) + wire_acls(q.acl) + be32(q.version) + rest,
        ) == SpecParse::Done(q, rest),
{
    assert(wire_set_acl_request(q) =~= wire_str(q.path) + be32(q.acl.len() as i32) + wire_acls(
        q.acl,
    ) + be32(q.version));
    if text_fits(q.path) && acls_fit(q.acl) {
        crate::laws::lemma_parse_set_acl_request(q, rest);
    }
}

/// A set-watches request is the last transaction seen, then the data
/// watches, the exist watches and the child watches, each a list of paths;
/// those bytes read back as the request when the counts and lengths fit.
pub proof fn lemma_set_watches_request_layout(q: SpecSetWatchesRequest, rest: Seq<u8>)
    ensures
        wire_set_watches_request(q) == be64(q.relative_zxid) + wire_str_list(q.data_watches)
            + wire_str_list(q.exist_watches) + wire_str_list(q.child_watches),
        texts_fit(q.data_watches) && texts_fit(q.exist_watches) && texts_fit(q.child_watches)
            ==> parse_set_watches_request(
            be64(q.relative_zxid) + wire_str_list(q.data_watches) + wire_str_list(q.exist_watches)
                + wire_str_list(q.child_watches) + rest,
        ) == SpecParse::Done(q, rest),
{
    if texts_fit(q.data_watches) && texts_fit(q.exist_watches) && texts_fit(q.child_watches) {
        crate::laws::lemma_parse_set_watches_request(q, rest);
    }
}

/// A connect request is the protocol version, the last transaction seen,
/// the session timeout, the session id, the password (with its length in
/// front) and one byte for the read-only flag. With protocol version 0, the
/// bytes after the version read back as the request.
pub proof fn lemma_connect_request_layout(q: SpecConnectRequest, rest: Seq<u8>)
    ensures
        wire_connect_request(q) == be32(q.protocol_version) + be64(q.last_zxid_seen) + be32(
            q.timeout,
        ) + be64(q.session_id) + wire_bytes(q.passwd) + seq![if q.read_only { 1u8 } else { 0u8 }],
        bytes_fit(q.passwd) && q.protocol_version == 0 ==> parse_connect_request(
            be64(q.last_zxid_seen) + be32(q.timeout) + be64(q.session_id) + wire_bytes(q.passwd)
                + seq![if q.read_only { 1u8 } else { 0u8 }] + rest,
        ) == SpecParse::Done(q, rest),
{
    let tail = be64(q.last_zxid_seen) + be32(q.timeout) + be64(q.session_id) + wire_bytes(q.passwd)
        + seq![if q.read_only { 1u8 } else { 0u8 }];
    assert(wire_connect_request(q) =~= be32(q.protocol_version) + tail);
    assert((be32(q.protocol_version) + tail).skip(4) =~= tail);
    if bytes_fit(q.passwd) && q.protocol_version == 0 {
        crate::laws::lemma_parse_connect_request(q, rest);
    }
}

/// A request with a header is the transaction id, then the opcode, then the
/// body.
pub proof fn lemma_request_packet_layout(h: RequestHeader, r: SpecRequest)
    ensures
        wire_request_packet(SpecRequestPacket { request_header: Some(h), request: r }) == be32(h.xid)
            + be32(h.opcode) + wire_request(r),
        wire_request_packet(SpecRequestPacket { request_header: None, request: r }) == wire_request(r),
{
}

/// A node's metadata is 68 bytes: the creating, the last modifying
/// transaction, the creation and the modification time (eight bytes each),
/// the data, child and ACL versions (four bytes each), the ephemeral owner
/// (eight), the data length and the number of children (four each) and the
/// last transaction that changed the children (eight); those bytes read back
/// as the metadata.
pub proof fn lemma_stat_layout(st: Stat, rest: Seq<u8>)
    ensures
        wire_stat(st).len() == 68,
        wire_stat(st).subrange(0, 8) == be64(st.czxid),
        wire_stat(st).subrange(8, 16) == be64(st.mzxid),
        wire_stat(st).subrange(16, 24) == be64(st.ctime),
        wire_stat(st).subrange(24, 32) == be64(st.mtime),
        wire_stat(st).subrange(32, 36) == be32(st.version),
        wire_stat(st).subrange(36, 40) == be32(st.cversion),
        wire_stat(st).subrange(40, 44) == be32(st.aversion),
        wire_stat(st).subrange(44, 52) == be64(st.ephemeral_owner),
        wire_stat(st).subrange(52, 56) == be32(st.data_length),
        wire_stat(st).subrange(56, 60) == be32(st.num_children),
        wire_stat(st).subrange(60, 68) == be64(st.pzxid),
        parse_stat(wire_stat(st) + rest) == SpecParse::Done(st, rest),
{
    let w = wire_stat(st);
    assert(w.subrange(0, 8) =~= be64(st.czxid));
    assert(w.subrange(8, 16) =~= be64(st.mzxid));
    assert(w.subrange(16, 24) =~= be64(st.ctime));
    assert(w.subrange(24, 32) =~= be64(st.mtime));
    assert(w.subrange(32, 36) =~= be32(st.version));
    assert(w.subrange(36, 40) =~= be32(st.cversion));
    assert(w.subrange(40, 44) =~= be32(st.aversion));
    assert(w.subrange(44, 52) =~= be64(st.ephemeral_owner));
    assert(w.subrange(52, 56) =~= be32(st.data_length));
    assert(w.subrange(56, 60) =~= be32(st.num_children));
    assert(w.subrange(60, 68) =~= be64(st.pzxid));
    lemma_parse_stat(st, rest);
}

/// A reply is the transaction id, the transaction of the server's state and
/// the error code, then the body; a connect response has no such header.
pub proof fn lemma_response_packet_layout(h: ReplyHeader, r: SpecZkResponse)
    ensures
        wire_response_packet(SpecResponsePacket { response_header: Some(h), response: r }) == be32(
            h.xid,
        ) + be64(h.zxid) + be32(h.err) + wire_response(r),
        wire_response_packet(SpecResponsePacket { response_header: None, response: r })
            == wire_response(r),
{
}

/// The reply to a get-data request is the data (with its length in front),
/// then the node's metadata; those bytes read back as that reply when the
/// length fits.
#[verifier::spinoff_prover]
#[verifier::rlimit(40)]
pub proof fn lemma_get_data_response_layout(h: ReplyHeader, g: SpecGetDataResponse, rest: Seq<u8>)
    ensures
        wire_response(SpecZkResponse::GetData(g)) == wire_bytes(g.data) + wire_stat(g.stat),
        bytes_fit(g.data) ==> parse_reply_body(
            h,
            Some(OpCodes::GetData),
            wire_bytes(g.data) + wire_stat(g.stat) + rest,
        ) == SpecParse::Done(reply_with(h, SpecZkResponse::GetData(g)), rest),
{
    if bytes_fit(g.data) {
        crate::laws::lemma_parse_reply_body(h, OpCodes::GetData, SpecZkResponse::GetData(g), rest);
    }
}

/// The reply to a get-children request that also asks for the metadata is
/// the list of children (count, then names), then the node's metadata; those
/// bytes read back as that reply when the counts and lengths fit.
#[verifier::spinoff_prover]
#[verifier::rlimit(40)]
pub proof fn lemma_get_children2_response_layout(
    h: ReplyHeader,
    children: Seq<Seq<char>>,
    stat: Stat,
    rest: Seq<u8>,
)
    ensures
        wire_response(SpecZkResponse::GetChildren2 { children, stat }) == be32(
            children.len() as i32,
        ) + wire_strs(children) + wire_stat(stat),
        texts_fit(children) ==> parse_reply_body(
            h,
            Some(OpCodes::GetChildren2),
            be32(children.len() as i32) + wire_strs(children) + wire_stat(stat) + rest,
        ) == SpecParse::Done(reply_with(h, SpecZkResponse::GetChildren2 { children, stat }), rest),
{
    let r = SpecZkResponse::GetChildren2 { children, stat };
    assert(wire_response(r) =~= be32(children.len() as i32) + wire_strs(children) + wire_stat(stat));
    if texts_fit(children) {
        crate::laws::lemma_parse_reply_body(h, OpCodes::GetChildren2, r, rest);
    }
}

/// A connect response is the protocol version, the session timeout, the
/// session id, the password (with its length in front) and one byte for the
/// read-only flag. With protocol version 0, the bytes after the version read
/// back as the response.
pub proof fn lemma_connect_response_layout(c: SpecConnectResponse, rest: Seq<u8>)
    ensures
        wire_connect_response(c) == be32(c.protocol_version) + be32(c.timeout) + be64(c.session_id)
            + wire_bytes(c.passwd) + seq![if c.read_only { 1u8 } else { 0u8 }],
        bytes_fit(c.passwd) && c.protocol_version == 0 ==> parse_connect_response(
            be32(c.timeout) + be64(c.session_id) + wire_bytes(c.passwd) + seq![
                if c.read_only { 1u8 } else { 0u8 },
            ] + rest,
        ) == SpecParse::Done(c, rest),
{
    let tail = be32(c.timeout) + be64(c.session_id) + wire_bytes(c.passwd) + seq![
        if c.read_only { 1u8 } else { 0u8 },
    ];
    assert(wire_connect_response(c) =~= be32(c.protocol_version) + tail);
    assert((be32(c.protocol_version) + tail).skip(4) =~= tail);
    if bytes_fit(c.passwd) && c.protocol_version == 0 {
        crate::laws::lemma_parse_connect_response(c, rest);
    }
}

/// The body that each writing opcode carries: 1 (create), 15 (create with
/// metadata), 19 (create a container) and 21 (create with a time to live)
/// carry a create request, 2 a delete request, 5 a set-data request and 7 a
/// set-ACL request; each is read as that request after its header.
#[verifier::spinoff_prover]
pub proof fn lemma_write_opcodes(
    xid: i32,
    c: SpecCreateRequest,
    d: SpecDeleteRequest,
    w: SpecSetDataRequest,
    a: SpecSetAclRequest,
    rest: Seq<u8>,
)
    ensures
        text_fits(c.path) && bytes_fit(c.data) && acls_fit(c.acl) ==> {
            &&& parse_request_body(xid, 1, wire_create_request(c) + rest) == SpecParse::Done(
                request_with(xid, 1, SpecRequest::Create(c)),
                rest,
            )
            &&& parse_request_body(xid, 15, wire_create_request(c) + rest) == SpecParse::Done(
                request_with(xid, 15, SpecRequest::Create(c)),
                rest,
            )
            &&& parse_request_body(xid, 19, wire_create_request(c) + rest) == SpecParse::Done(
                request_with(xid, 19, SpecRequest::Create(c)),
                rest,
            )
            &&& parse_request_body(xid, 21, wire_create_request(c) + rest) == SpecParse::Done(
                request_with(xid, 21, SpecRequest::Create(c)),
                rest,
            )
        },
        text_fits(d.path) ==> parse_request_body(xid, 2, wire_delete_request(d) + rest)
            == SpecParse::Done(request_with(xid, 2, SpecRequest::Delete(d)), rest),
        text_fits(w.path) && bytes_fit(w.data) ==> parse_request_body(
            xid,
            5,
            wire_set_data_request(w) + rest,
        ) == SpecParse::Done(request_with(xid, 5, SpecRequest::SetData(w)), rest),
        text_fits(a.path) && acls_fit(a.acl) ==> parse_request_body(
            xid,
            7,
            wire_set_acl_request(a) + rest,
        ) == SpecParse::Done(request_with(xid, 7, SpecRequest::SetAcl(a)), rest),
{
    lemma_opcode_roundtrip(OpCodes::Create);
    lemma_opcode_roundtrip(OpCodes::Create2);
    lemma_opcode_roundtrip(OpCodes::CreateContainer);
    lemma_opcode_roundtrip(OpCodes::CreateTtl);
    lemma_opcode_roundtrip(OpCodes::Delete);
    lemma_opcode_roundtrip(OpCodes::SetData);
    lemma_opcode_roundtrip(OpCodes::SetAcl);
    if text_fits(c.path) && bytes_fit(c.data) && acls_fit(c.acl) {
        lemma_parse_request_body(xid, 1, SpecRequest::Create(c), rest);
        lemma_parse_request_body(xid, 15, SpecRequest::Create(c), rest);
        lemma_parse_request_body(xid, 19, SpecRequest::Create(c), rest);
        lemma_parse_request_body(xid, 21, SpecRequest::Create(c), rest);
    }
    if text_fits(d.path) {
        lemma_parse_request_body(xid, 2, SpecRequest::Delete(d), rest);
    }
    if text_fits(w.path) && bytes_fit(w.data) {
        lemma_parse_request_body(xid, 5, SpecRequest::SetData(w), rest);
    }
    if text_fits(a.path) && acls_fit(a.acl) {
        lemma_parse_request_body(xid, 7, SpecRequest::SetAcl(a), rest);
    }
}

/// The body that each reading opcode carries: 4 (get data) a get-data
/// request, 3 an exists request, 8 and 12 (list children, with or without
/// the metadata) a get-children request and 6 a get-ACL request; each is
/// read as that request after its header.
#[verifier::spinoff_prover]
pub proof fn lemma_read_opcodes(
    xid: i32,
    g: SpecGetDataRequest,
    e: SpecExistsRequest,
    l: SpecGetChildrenRequest,
    a: SpecGetAclRequest,
    rest: Seq<u8>,
)
    ensures
        text_fits(g.path) ==> parse_request_body(xid, 4, wire_get_data_request(g) + rest)
            == SpecParse::Done(request_with(xid, 4, SpecRequest::GetData(g)), rest),
        text_fits(e.path) ==> parse_request_body(xid, 3, wire_exists_request(e) + rest)
            == SpecParse::Done(request_with(xid, 3, SpecRequest::Exists(e)), rest),
        text_fits(l.path) ==> parse_request_body(xid, 8, wire_get_children_request(l) + rest)
            == SpecParse::Done(request_with(xid, 8, SpecRequest::GetChildren(l)), rest),
        text_fits(l.path) ==> parse_request_body(xid, 12, wire_get_children_request(l) + rest)
            == SpecParse::Done(request_with(xid, 12, SpecRequest::GetChildren(l)), rest),
        text_fits(a.path) ==> parse_request_body(xid, 6, wire_get_acl_request(a) + rest)
            == SpecParse::Done(request_with(xid, 6, SpecRequest::GetAcl(a)), rest),
{
    lemma_opcode_roundtrip(OpCodes::GetData);
    lemma_opcode_roundtrip(OpCodes::Exists);
    lemma_opcode_roundtrip(OpCodes::GetChildren);
    lemma_opcode_roundtrip(OpCodes::GetChildren2);
    lemma_opcode_roundtrip(OpCodes::GetAcl);
    if text_fits(g.path) {
        lemma_parse_request_body(xid, 4, SpecRequest::GetData(g), rest);
    }
    if text_fits(e.path) {
        lemma_parse_request_body(xid, 3, SpecRequest::Exists(e), rest);
    }
    if text_fits(l.path) {
        lemma_parse_request_body(xid, 8, SpecRequest::GetChildren(l), rest);
        lemma_parse_request_body(xid, 12, SpecRequest::GetChildren(l), rest);
    }
    if text_fits(a.path) {
        lemma_parse_request_body(xid, 6, SpecRequest::GetAcl(a), rest);
    }
}

/// The body that each session opcode carries: -11 (close) none, and 101
/// (set watches) a set-watches request, read as that request after its
/// header.
#[verifier::spinoff_prover]
pub proof fn lemma_session_opcodes(xid: i32, w: SpecSetWatchesRequest, rest: Seq<u8>)
    ensures
        parse_request_body(xid, -11i32, rest) == SpecParse::Done(
            request_with(xid, -11i32, SpecRequest::Close),
            rest,
        ),
        texts_fit(w.data_watches) && texts_fit(w.exist_watches) && texts_fit(w.child_watches)
            ==> parse_request_body(xid, 101, wire_set_watches_request(w) + rest) == SpecParse::Done(
            request_with(xid, 101, SpecRequest::SetWatches(w)),
            rest,
        ),
{
    lemma_opcode_roundtrip(OpCodes::Close);
    lemma_opcode_roundtrip(OpCodes::SetWatches);
    if texts_fit(w.data_watches) && texts_fit(w.exist_watches) && texts_fit(w.child_watches) {
        lemma_parse_request_body(xid, 101, SpecRequest::SetWatches(w), rest);
    }
}

/// The body that a reply carries for each operation on record: to 3
/// (exists), 5 (set data) and 7 (set ACL) the node's metadata; to 2
/// (delete) and 13 (check) nothing; to 8 (list children) a list of names; to
/// 1 (create) the created path. Each is read as that reply after its header,
/// and a reply for which no operation is on record is a decode error.
#[verifier::spinoff_prover]
#[verifier::rlimit(40)]
pub proof fn lemma_reply_bodies(
    h: ReplyHeader,
    st: Stat,
    names: Seq<Seq<char>>,
    path: Seq<char>,
    rest: Seq<u8>,
)
    ensures
        parse_reply_body(h, Some(OpCodes::Exists), wire_stat(st) + rest) == SpecParse::Done(
            reply_with(h, SpecZkResponse::Stat(st)),
            rest,
        ),
        parse_reply_body(h, Some(OpCodes::SetData), wire_stat(st) + rest) == SpecParse::Done(
            reply_with(h, SpecZkResponse::Stat(st)),
            rest,
        ),
        parse_reply_body(h, Some(OpCodes::SetAcl), wire_stat(st) + rest) == SpecParse::Done(
            reply_with(h, SpecZkResponse::Stat(st)),
            rest,
        ),
        parse_reply_body(h, Some(OpCodes::Delete), rest) == SpecParse::Done(
            reply_with(h, SpecZkResponse::Empty),
            rest,
        ),
        parse_reply_body(h, Some(OpCodes::Check), rest) == SpecParse::Done(
            reply_with(h, SpecZkResponse::Empty),
            rest,
        ),
        texts_fit(names) ==> parse_reply_body(
            h,
            Some(OpCodes::GetChildren),
            wire_str_list(names) + rest,
        ) == SpecParse::Done(reply_with(h, SpecZkResponse::Strings(names)), rest),
        text_fits(path) ==> parse_reply_body(h, Some(OpCodes::Create), wire_str(path) + rest)
            == SpecParse::Done(reply_with(h, SpecZkResponse::String(path)), rest),
        parse_reply_body(h, None, rest) == SpecParse::<Option<SpecResponsePacket>>::Failed(
            crate::errors::ZkError::DecodeError,
            rest,
        ),
{
    lemma_parse_stat(st, rest);
    if texts_fit(names) {
        lemma_parse_str_list(names, rest);
    }
    if text_fits(path) {
        lemma_parse_str(path, rest);
    }
}

#[verifier::spinoff_prover]
proof fn lemma_connect_request_frame(q: SpecConnectRequest, rest: Seq<u8>)
    requires
        bytes_fit(q.passwd),
        q.protocol_version == 0,
    ensures
        parse_request_packet(wire_connect_request(q) + rest) == SpecParse::Done(
            SpecRequestPacket { request_header: None, request: SpecRequest::Connect(q) },
            rest,
        ),
{
    let tail = wire_connect_request(q).skip(4) + rest;
    assert(wire_connect_request(q) + rest =~= be32(q.protocol_version) + tail);
    lemma_parse_i32(q.protocol_version, tail);
    crate::laws::lemma_parse_connect_request(q, rest);
}

#[verifier::spinoff_prover]
proof fn lemma_headed_request_frame(h: RequestHeader, body: Seq<u8>)
    requires
        h.xid != 0,
    ensures
        h.xid == -2 ==> parse_request_packet(be32(h.xid) + be32(h.opcode) + body) == SpecParse::Done(
            request_with(h.xid, h.opcode, SpecRequest::Ping),
            body,
        ),
        h.xid != -2 ==> parse_request_packet(be32(h.xid) + be32(h.opcode) + body)
            == parse_request_body(h.xid, h.opcode, body),
{
    assert(be32(h.xid) + be32(h.opcode) + body =~= be32(h.xid) + (be32(h.opcode) + body));
    lemma_parse_i32(h.xid, be32(h.opcode) + body);
    lemma_parse_i32(h.opcode, body);
}

/// How a frame from a client is read by its first field: 0 is the protocol
/// version of a connect request, which has no header; -2 starts a ping, a
/// header and no body; any other transaction id starts a header, and the
/// body after it is read by its opcode.
pub proof fn lemma_request_frames(h: RequestHeader, q: SpecConnectRequest, body: Seq<u8>, rest: Seq<u8>)
    ensures
        bytes_fit(q.passwd) && q.protocol_version == 0 ==> parse_request_packet(
            wire_connect_request(q) + rest,
        ) == SpecParse::Done(
            SpecRequestPacket { request_header: None, request: SpecRequest::Connect(q) },
            rest,
        ),
        h.xid == -2 ==> parse_request_packet(be32(h.xid) + be32(h.opcode) + rest) == SpecParse::Done(
            request_with(h.xid, h.opcode, SpecRequest::Ping),
            rest,
        ),
        h.xid != 0 && h.xid != -2 ==> parse_request_packet(be32(h.xid) + be32(h.opcode) + body)
            == parse_request_body(h.xid, h.opcode, body),
{
    if bytes_fit(q.passwd) && q.protocol_version == 0 {
        lemma_connect_request_frame(q, rest);
    }
    if h.xid != 0 {
        lemma_headed_request_frame(h, rest);
        lemma_headed_request_frame(h, body);
    }
}

/// How a frame from the server is read by its first field: 0 is the
/// protocol version of a connect response, which has no header; -2 starts a
/// ping reply, a header and no body; any other transaction id starts a reply
/// header, and the body after it is read by the operation `op` on record.
#[verifier::spinoff_prover]
#[verifier::rlimit(40)]
pub proof fn lemma_response_frames(
    h: ReplyHeader,
    c: SpecConnectResponse,
    op: Option<OpCodes>,
    body: Seq<u8>,
    rest: Seq<u8>,
)
    ensures
        bytes_fit(c.passwd) && c.protocol_version == 0 ==> parse_response_frame(
            wire_connect_response(c) + rest,
            op,
        ) == SpecParse::Done(
            Some(SpecResponsePacket { response_header: None, response: SpecZkResponse::Connect(c) }),
            rest,
        ),
        h.xid == -2 ==> parse_response_frame(be32(h.xid) + be64(h.zxid) + be32(h.err) + rest, op)
            == SpecParse::Done(reply_with(h, SpecZkResponse::Ping), rest),
        h.xid != 0 && h.xid != -2 ==> parse_response_frame(
            be32(h.xid) + be64(h.zxid) + be32(h.err) + body,
            op,
        ) == parse_reply_body(h, op, body),
{
    let tail = wire_connect_response(c).skip(4) + rest;
    assert(wire_connect_response(c) + rest =~= be32(c.protocol_version) + tail);
    lemma_parse_i32(c.protocol_version, tail);
    if bytes_fit(c.passwd) && c.protocol_version == 0 {
        crate::laws::lemma_parse_connect_response(c, rest);
    }
    assert(h == ReplyHeader { xid: h.xid, zxid: h.zxid, err: h.err });
    assert(be32(h.xid) + be64(h.zxid) + be32(h.err) + rest =~= be32(h.xid) + (be64(h.zxid) + (be32(
        h.err,
    ) + rest)));
    lemma_parse_i32(h.xid, be64(h.zxid) + (be32(h.err) + rest));
    lemma_parse_i64(h.zxid, be32(h.err) + rest);
    lemma_parse_i32(h.err, rest);
    assert(be32(h.xid) + be64(h.zxid) + be32(h.err) + body =~= be32(h.xid) + (be64(h.zxid) + (be32(
        h.err,
    ) + body)));
    lemma_parse_i32(h.xid, be64(h.zxid) + (be32(h.err) + body));
    lemma_parse_i64(h.zxid, be32(h.err) + body);
    lemma_parse_i32(h.err, body);
}

/// The earlier set of records is laid out as the records above: its
/// request and reply headers field by field, its get-data and connect
/// requests as those requests, a ping as no body, its connect response as a
/// connect response, a ping answer as a bare reply header, and a get-data
/// answer as its reply header followed by the body of a get-data reply.
pub proof fn lemma_earlier_records_layout(
    req: proto::ZkRequest,
    resp: proto::ZkResponse,
    rh: proto::RequestHeader,
    ph: proto::ReplyHeader,
)
    ensures
        rh.wire() == be32(rh.xid) + be32(rh.opcode),
        ph.wire() == be32(ph.xid) + be64(ph.zxid) + be32(ph.err),
        req matches proto::ZkRequest::GetData(q) ==> proto::wire_zk_request(req)
            == wire_get_data_request(SpecGetDataRequest { path: q.path@, watch: q.watch }),
        req matches proto::ZkRequest::ConnectInit(c) ==> proto::wire_zk_request(req)
            == wire_connect_request(
            SpecConnectRequest {
                protocol_version: c.protocol_version,
                last_zxid_seen: c.last_zxid_seen,
                timeout: c.timeout,
                session_id: c.session_id,
                passwd: c.passwd@,
                read_only: c.read_only,
            },
        ),
        req matches proto::ZkRequest::Ping ==> proto::wire_zk_request(req) == Seq::<u8>::empty(),
        resp matches proto::ZkResponse::Connect(c) ==> proto::wire_zk_response(resp)
            == wire_connect_response(
            SpecConnectResponse {
                protocol_version: c.protocol_version,
                timeout: c.timeout,
                session_id: c.session_id,
                passwd: c.passwd@,
                read_only: c.read_only,
            },
        ),
        resp matches proto::ZkResponse::Ping(h) ==> proto::wire_zk_response(resp) == be32(h.xid)
            + be64(h.zxid) + be32(h.err),
        resp matches proto::ZkResponse::GetData(g) ==> proto::wire_zk_response(resp) == be32(
            g.reply_header.xid,
        ) + be64(g.reply_header.zxid) + be32(g.reply_header.err) + wire_response(
            SpecZkResponse::GetData(
                SpecGetDataResponse {
                    data: g.data@,
                    stat: Stat {
                        czxid: g.czxid,
                        mzxid: g.mzxid,
                        ctime: g.ctime,
                        mtime: g.mtime,
                        version: g.version,
                        cversion: g.cversion,
                        aversion: g.aversion,
                        ephemeral_owner: g.ephemeral_owner,
                        data_length: g.data_length,
                        num_children: g.num_children,
                        pzxid: g.pzxid,
                    },
                },
            ),
        ),
{
    match resp {
        proto::ZkResponse::GetData(g) => {
            let st = Stat {
                czxid: g.czxid,
                mzxid: g.mzxid,
                ctime: g.ctime,
                mtime: g.mtime,
                version: g.version,
                cversion: g.cversion,
                aversion: g.aversion,
                ephemeral_owner: g.ephemeral_owner,
                data_length: g.data_length,
                num_children: g.num_children,
                pzxid: g.pzxid,
            };
            assert(proto::wire_zk_response(resp) =~= be32(g.reply_header.xid) + be64(
                g.reply_header.zxid,
            ) + be32(g.reply_header.err) + wire_bytes(g.data@) + wire_stat(st));
        },
        proto::ZkResponse::Connect(c) => {
            assert(proto::wire_zk_response(resp) =~= wire_connect_response(
                SpecConnectResponse {
                    protocol_version: c.protocol_version,
                    timeout: c.timeout,
                    session_id: c.session_id,
                    passwd: c.passwd@,
                    read_only: c.read_only,
                },
            ));
        },
        _ => {},
    }
}

} // verus!
