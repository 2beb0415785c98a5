//! Properties that hold across the operations of the codec.

use crate::buffer::{be32, be64, lemma_be32_roundtrip, lemma_be64_roundtrip};
use crate::codec::{ReplyHeader, Stat};
use crate::codes::{opcode_value, spec_opcode_from_i32, OpCodes};
use crate::framing::{frame_step, max_frame_len, FrameStep};
use crate::model::{
    SpecAcl, SpecConnectRequest, SpecConnectResponse, SpecCreateRequest, SpecDeleteRequest,
    SpecExistsRequest, SpecGetAclRequest, SpecGetChildrenRequest, SpecGetDataRequest,
    SpecGetDataResponse, SpecRequest, SpecRequestPacket, SpecResponsePacket, SpecSetAclRequest,
    SpecSetDataRequest, SpecSetWatchesRequest, SpecZkResponse,
};
use crate::packet::parse_request_frame;
use crate::parse::{
    acl_reader, parse_acl_entry, parse_acl_list, parse_connect_request, parse_connect_response,
    parse_create_request, parse_data, parse_delete_request, parse_exists_request,
    parse_get_acl_request, parse_get_children_request, parse_get_data_request, parse_i32,
    parse_i64, parse_raw, parse_raw_acl_entry, parse_repeat, parse_reply_body, parse_request_body,
    parse_request_packet, parse_response_frame, parse_set_acl_request, parse_set_data_request,
    parse_set_watches_request, parse_stat, parse_str, parse_str_entry, parse_str_list, parse_u8,
    raw_acl_reader, reply_with, request_with, str_reader,
};
use crate::record::SpecParse;
use crate::wire::{
    acl_encoder, acl_sizer, bool_byte, concat_map, size_request, size_request_packet,
    size_response, size_response_packet, str_encoder, str_sizer, sum_map, wire_acl,
    wire_acl_list, wire_acls, wire_bytes, wire_connect_request, wire_connect_response,
    wire_create_request, wire_delete_request, wire_exists_request, wire_get_acl_request,
    wire_get_children_request, wire_get_data_request, wire_request, wire_request_packet,
    wire_response, wire_response_packet, wire_set_acl_request, wire_set_data_request,
    wire_set_watches_request, wire_stat, wire_str, wire_str_list, wire_strs,
};
use vstd::prelude::*;
use vstd::utf8::{encode_utf8, encode_utf8_decode_utf8, encode_utf8_valid_utf8};

verus! {

/// Summing sizes that are the lengths of encodings gives the length of the
/// concatenated encodings.
pub proof fn lemma_sum_of_lengths<T>(v: Seq<T>, f: spec_fn(T) -> int, g: spec_fn(T) -> Seq<u8>)
    requires
        forall|t: T| #[trigger] f(t) == g(t).len(),
    ensures
        sum_map(v, f) == concat_map(v, g).len(),
    decreases v.len(),
{
    if v.len() > 0 {
        lemma_sum_of_lengths(v.drop_last(), f, g);
    }
}

/// The size that a request announces is the length of its encoding.
pub proof fn lemma_request_size(r: SpecRequest)
    ensures
        size_request(r) == wire_request(r).len(),
{
    assert forall|t| #[trigger] acl_sizer()(t) == acl_encoder()(t).len() by {}
    assert forall|t| #[trigger] str_sizer()(t) == str_encoder()(t).len() by {}
    match r {
        SpecRequest::Create(c) => {
            lemma_sum_of_lengths(c.acl, acl_sizer(), acl_encoder());
        },
        SpecRequest::SetAcl(c) => {
            lemma_sum_of_lengths(c.acl, acl_sizer(), acl_encoder());
        },
        SpecRequest::SetWatches(c) => {
            lemma_sum_of_lengths(c.data_watches, str_sizer(), str_encoder());
            lemma_sum_of_lengths(c.exist_watches, str_sizer(), str_encoder());
            lemma_sum_of_lengths(c.child_watches, str_sizer(), str_encoder());
        },
        _ => {},
    }
}

/// The size that a request packet announces is the length of its encoding.
pub proof fn lemma_request_packet_size(p: SpecRequestPacket)
    ensures
        size_request_packet(p) == wire_request_packet(p).len(),
{
    lemma_request_size(p.request);
}

/// The size that a response announces is the length of its encoding, except
/// for an access-control list with entries, whose size counts eight bytes
/// per entry.
pub proof fn lemma_response_size(r: SpecZkResponse)
    requires
        !(r matches SpecZkResponse::GetAcl { acl, .. } && acl.len() > 0),
    ensures
        size_response(r) == wire_response(r).len(),
{
    assert forall|t| #[trigger] str_sizer()(t) == str_encoder()(t).len() by {}
    match r {
        SpecZkResponse::Strings(v) => {
            lemma_sum_of_lengths(v, str_sizer(), str_encoder());
        },
        SpecZkResponse::GetChildren2 { children, stat } => {
            lemma_sum_of_lengths(children, str_sizer(), str_encoder());
        },
        SpecZkResponse::GetAcl { acl, stat } => {
            assert(concat_map(acl, acl_encoder()) =~= Seq::<u8>::empty());
        },
        _ => {},
    }
}

/// The size that a response packet announces is the length of its encoding,
/// with the same exception as `lemma_response_size`.
pub proof fn lemma_response_packet_size(p: SpecResponsePacket)
    requires
        !(p.response matches SpecZkResponse::GetAcl { acl, .. } && acl.len() > 0),
    ensures
        size_response_packet(p) == wire_response_packet(p).len(),
{
    lemma_response_size(p.response);
}

/// The size that a get-ACL reply announces counts four bytes for the number
/// of entries, eight bytes per entry whatever the entry holds, and the 68
/// bytes of the node's metadata.
pub proof fn lemma_get_acl_response_size(acl: Seq<SpecAcl>, stat: Stat)
    ensures
        size_response(SpecZkResponse::GetAcl { acl, stat }) == 72 + 8 * acl.len(),
{
}

/// Whether a byte string's length fits the four-byte length in front of it.
pub open spec fn bytes_fit(b: Seq<u8>) -> bool {
    b.len() <= i32::MAX
}

/// Whether the UTF-8 encoding of a text fits the length in front of it.
pub open spec fn text_fits(t: Seq<char>) -> bool {
    encode_utf8(t).len() <= i32::MAX
}

/// Whether an access-control entry's byte strings fit their lengths.
pub open spec fn acl_fits(a: SpecAcl) -> bool {
    bytes_fit(a.scheme) && bytes_fit(a.cred)
}

/// Whether an access-control list and its entries fit their counts and lengths.
pub open spec fn acls_fit(v: Seq<SpecAcl>) -> bool {
    v.len() <= i32::MAX && forall|i: int| 0 <= i < v.len() ==> acl_fits(#[trigger] v[i])
}

/// Whether a list of texts and its texts fit their counts and lengths.
pub open spec fn texts_fit(v: Seq<Seq<char>>) -> bool {
    v.len() <= i32::MAX && forall|i: int| 0 <= i < v.len() ==> text_fits(#[trigger] v[i])
}

/// Reading an `i32` back from its bytes.
pub proof fn lemma_parse_i32(v: i32, rest: Seq<u8>)
    ensures
        parse_i32(be32(v) + rest) == SpecParse::Done(v, rest),
{
    lemma_be32_roundtrip(v, rest);
}

/// Reading an `i64` back from its bytes.
pub proof fn lemma_parse_i64(v: i64, rest: Seq<u8>)
    ensures
        parse_i64(be64(v) + rest) == SpecParse::Done(v, rest),
{
    lemma_be64_roundtrip(v, rest);
}

/// Reading a byte back.
pub proof fn lemma_parse_u8(b: u8, rest: Seq<u8>)
    ensures
        parse_u8(seq![b] + rest) == SpecParse::Done(b, rest),
{
    assert((seq![b] + rest).skip(1) =~= rest);
}

/// The length field of a byte string that fits reads back as its length.
proof fn lemma_length_field(b: Seq<u8>, rest: Seq<u8>)
    requires
        bytes_fit(b),
    ensures
        parse_i32(wire_bytes(b) + rest) == SpecParse::Done(b.len() as i32, b + rest),
{
    lemma_parse_i32(b.len() as i32, b + rest);
    assert(wire_bytes(b) + rest =~= be32(b.len() as i32) + (b + rest));
}

/// Reading a byte string back, as `parse_data` does.
pub proof fn lemma_parse_data(b: Seq<u8>, rest: Seq<u8>)
    requires
        bytes_fit(b),
    ensures
        parse_data(wire_bytes(b) + rest) == SpecParse::Done(b, rest),
{
    lemma_length_field(b, rest);
    assert((b + rest).take(b.len() as int) =~= b);
    assert((b + rest).skip(b.len() as int) =~= rest);
    if b.len() == 0 {
        assert(b =~= Seq::<u8>::empty());
    }
}

/// Reading a byte string back, as `parse_raw` does.
pub proof fn lemma_parse_raw(b: Seq<u8>, rest: Seq<u8>)
    requires
        bytes_fit(b),
    ensures
        parse_raw(wire_bytes(b) + rest) == SpecParse::Done(b, rest),
{
    lemma_length_field(b, rest);
    assert((b + rest).take(b.len() as int) =~= b);
    assert((b + rest).skip(b.len() as int) =~= rest);
}

/// Reading a text back, as `parse_str` does.
pub proof fn lemma_parse_str(t: Seq<char>, rest: Seq<u8>)
    requires
        text_fits(t),
    ensures
        parse_str(wire_str(t) + rest) == SpecParse::Done(t, rest),
{
    let b = encode_utf8(t);
    lemma_length_field(b, rest);
    assert((b + rest).take(b.len() as int) =~= b);
    assert((b + rest).skip(b.len() as int) =~= rest);
    encode_utf8_valid_utf8(t);
    encode_utf8_decode_utf8(t);
    if b.len() == 0 {
        assert(b =~= Seq::<u8>::empty());
        encode_utf8_decode_utf8(Seq::<char>::empty());
        assert(encode_utf8(Seq::<char>::empty()) =~= Seq::<u8>::empty());
        assert(t =~= Seq::<char>::empty());
    }
}

/// Reading a text back, as `parse_str_entry` does.
pub proof fn lemma_parse_str_entry(t: Seq<char>, rest: Seq<u8>)
    requires
        text_fits(t),
    ensures
        parse_str_entry(wire_str(t) + rest) == SpecParse::Done(t, rest),
{
    let b = encode_utf8(t);
    lemma_length_field(b, rest);
    assert((b + rest).take(b.len() as int) =~= b);
    assert((b + rest).skip(b.len() as int) =~= rest);
    encode_utf8_valid_utf8(t);
    encode_utf8_decode_utf8(t);
}

/// Reading an access-control entry back, as `parse_acl_entry` does.
pub proof fn lemma_parse_acl_entry(a: SpecAcl, rest: Seq<u8>)
    requires
        acl_fits(a),
    ensures
        parse_acl_entry(wire_acl(a) + rest) == SpecParse::Done(a, rest),
{
    let r1 = wire_bytes(a.scheme) + wire_bytes(a.cred) + rest;
    let r2 = wire_bytes(a.cred) + rest;
    assert(wire_acl(a) + rest =~= be32(a.perms) + r1);
    lemma_parse_i32(a.perms, r1);
    assert(r1 =~= wire_bytes(a.scheme) + r2);
    lemma_parse_data(a.scheme, r2);
    lemma_parse_data(a.cred, rest);
}

/// Reading an access-control entry back, as `parse_raw_acl_entry` does.
pub proof fn lemma_parse_raw_acl_entry(a: SpecAcl, rest: Seq<u8>)
    requires
        acl_fits(a),
    ensures
        parse_raw_acl_entry(wire_acl(a) + rest) == SpecParse::Done(a, rest),
{
    let r1 = wire_bytes(a.scheme) + wire_bytes(a.cred) + rest;
    let r2 = wire_bytes(a.cred) + rest;
    assert(wire_acl(a) + rest =~= be32(a.perms) + r1);
    lemma_parse_i32(a.perms, r1);
    assert(r1 =~= wire_bytes(a.scheme) + r2);
    lemma_parse_raw(a.scheme, r2);
    lemma_parse_raw(a.cred, rest);
}

/// `entry` reads back what `enc` writes for `t`, whatever follows.
pub open spec fn reads_back<T>(entry: spec_fn(Seq<u8>) -> SpecParse<T>, enc: spec_fn(T) -> Seq<u8>, t: T) -> bool {
    forall|rest: Seq<u8>| #[trigger] entry(enc(t) + rest) == SpecParse::Done(t, rest)
}

/// Reading back a list whose items each read back.
pub proof fn lemma_parse_repeat<T>(
    entry: spec_fn(Seq<u8>) -> SpecParse<T>,
    enc: spec_fn(T) -> Seq<u8>,
    v: Seq<T>,
    rest: Seq<u8>,
)
    requires
        forall|i: int| 0 <= i < v.len() ==> reads_back(entry, enc, #[trigger] v[i]),
    ensures
        parse_repeat(entry, concat_map(v, enc) + rest, v.len()) == SpecParse::Done(v, rest),
    decreases v.len(),
{
    if v.len() == 0 {
        assert(concat_map(v, enc) + rest =~= rest);
        assert(v =~= Seq::<T>::empty());
    } else {
        let init = v.drop_last();
        let last = v.last();
        let tail = enc(last) + rest;
        assert forall|i: int| 0 <= i < init.len() implies reads_back(entry, enc, #[trigger] init[i]) by {
            assert(init[i] == v[i]);
        }
        lemma_parse_repeat(entry, enc, init, tail);
        assert(concat_map(v, enc) + rest =~= concat_map(init, enc) + tail);
        assert(reads_back(entry, enc, v[v.len() - 1]));
        assert(entry(enc(last) + rest) == SpecParse::Done(last, rest));
        assert(init.push(last) =~= v);
        assert(parse_repeat(entry, concat_map(v, enc) + rest, v.len()) == parse_repeat(
            entry,
            concat_map(init, enc) + tail,
            (init.len() + 1) as nat,
        ));
    }
}

/// Each access-control entry takes at least twelve bytes.
pub proof fn lemma_acls_len(v: Seq<SpecAcl>)
    ensures
        wire_acls(v).len() >= 12 * v.len(),
    decreases v.len(),
{
    if v.len() > 0 {
        lemma_acls_len(v.drop_last());
    }
}

/// Reading an access-control list back, as `parse_acl_list` does.
pub proof fn lemma_parse_acl_list(v: Seq<SpecAcl>, rest: Seq<u8>)
    requires
        acls_fit(v),
    ensures
        parse_acl_list(wire_acl_list(v) + rest) == SpecParse::Done(v, rest),
{
    let body = wire_acls(v) + rest;
    assert(wire_acl_list(v) + rest =~= be32(v.len() as i32) + body);
    lemma_parse_i32(v.len() as i32, body);
    assert forall|i: int| 0 <= i < v.len() implies reads_back(acl_reader(), acl_encoder(), #[trigger] v[i]) by {
        assert forall|r: Seq<u8>| #[trigger] acl_reader()(acl_encoder()(v[i]) + r) == SpecParse::Done(v[i], r) by {
            lemma_parse_acl_entry(v[i], r);
        }
    }
    lemma_parse_repeat(acl_reader(), acl_encoder(), v, rest);
    lemma_acls_len(v);
    if v.len() == 0 {
        assert(v =~= Seq::<SpecAcl>::empty());
    }
}

/// Reading back the entries of an access-control list, as `parse_raw_acl_entries` does.
pub proof fn lemma_parse_raw_acls(v: Seq<SpecAcl>, rest: Seq<u8>)
    requires
        acls_fit(v),
    ensures
        parse_repeat(raw_acl_reader(), wire_acls(v) + rest, v.len()) == SpecParse::Done(v, rest),
{
    assert forall|i: int| 0 <= i < v.len() implies reads_back(raw_acl_reader(), acl_encoder(), #[trigger] v[i]) by {
        assert forall|r: Seq<u8>| #[trigger] raw_acl_reader()(acl_encoder()(v[i]) + r) == SpecParse::Done(v[i], r) by {
            lemma_parse_raw_acl_entry(v[i], r);
        }
    }
    lemma_parse_repeat(raw_acl_reader(), acl_encoder(), v, rest);
}

/// Reading a list of texts back, as `parse_str_list` does.
pub proof fn lemma_parse_str_list(v: Seq<Seq<char>>, rest: Seq<u8>)
    requires
        texts_fit(v),
    ensures
        parse_str_list(wire_str_list(v) + rest) == SpecParse::Done(v, rest),
{
    let body = wire_strs(v) + rest;
    assert(wire_str_list(v) + rest =~= be32(v.len() as i32) + body);
    lemma_parse_i32(v.len() as i32, body);
    assert forall|i: int| 0 <= i < v.len() implies reads_back(str_reader(), str_encoder(), #[trigger] v[i]) by {
        assert forall|r: Seq<u8>| #[trigger] str_reader()(str_encoder()(v[i]) + r) == SpecParse::Done(v[i], r) by {
            lemma_parse_str_entry(v[i], r);
        }
    }
    lemma_parse_repeat(str_reader(), str_encoder(), v, rest);
}

/// Reading a get-data request back.
pub proof fn lemma_parse_get_data_request(q: SpecGetDataRequest, rest: Seq<u8>)
    requires
        text_fits(q.path),
    ensures
        parse_get_data_request(wire_get_data_request(q) + rest) == SpecParse::Done(q, rest),
{
    let r1 = seq![bool_byte(q.watch)] + rest;
    assert(wire_get_data_request(q) + rest =~= wire_str(q.path) + r1);
    lemma_parse_str(q.path, r1);
    lemma_parse_u8(bool_byte(q.watch), rest);
}

/// Reading a get-children request back.
pub proof fn lemma_parse_get_children_request(q: SpecGetChildrenRequest, rest: Seq<u8>)
    requires
        text_fits(q.path),
    ensures
        parse_get_children_request(wire_get_children_request(q) + rest) == SpecParse::Done(q, rest),
{
    let r1 = seq![bool_byte(q.watch)] + rest;
    assert(wire_get_children_request(q) + rest =~= wire_str(q.path) + r1);
    lemma_parse_str(q.path, r1);
    lemma_parse_u8(bool_byte(q.watch), rest);
}

/// Reading an exists request back.
pub proof fn lemma_parse_exists_request(q: SpecExistsRequest, rest: Seq<u8>)
    requires
        text_fits(q.path),
    ensures
        parse_exists_request(wire_exists_request(q) + rest) == SpecParse::Done(q, rest),
{
    let r1 = seq![bool_byte(q.watch)] + rest;
    assert(wire_exists_request(q) + rest =~= wire_str(q.path) + r1);
    lemma_parse_str(q.path, r1);
    lemma_parse_u8(bool_byte(q.watch), rest);
}

/// Reading a get-ACL request back.
pub proof fn lemma_parse_get_acl_request(q: SpecGetAclRequest, rest: Seq<u8>)
    requires
        text_fits(q.path),
    ensures
        parse_get_acl_request(wire_get_acl_request(q) + rest) == SpecParse::Done(q, rest),
{
    lemma_parse_str(q.path, rest);
}

/// Reading a delete request back.
pub proof fn lemma_parse_delete_request(q: SpecDeleteRequest, rest: Seq<u8>)
    requires
        text_fits(q.path),
    ensures
        parse_delete_request(wire_delete_request(q) + rest) == SpecParse::Done(q, rest),
{
    let r1 = be32(q.version) + rest;
    assert(wire_delete_request(q) + rest =~= wire_str(q.path) + r1);
    lemma_parse_str(q.path, r1);
    lemma_parse_i32(q.version, rest);
}

/// Reading a set-data request back.
pub proof fn lemma_parse_set_data_request(q: SpecSetDataRequest, rest: Seq<u8>)
    requires
        text_fits(q.path),
        bytes_fit(q.data),
    ensures
        parse_set_data_request(wire_set_data_request(q) + rest) == SpecParse::Done(q, rest),
{
    let r2 = be32(q.version) + rest;
    let r1 = wire_bytes(q.data) + r2;
    assert(wire_set_data_request(q) + rest =~= wire_str(q.path) + r1);
    lemma_parse_str(q.path, r1);
    lemma_parse_data(q.data, r2);
    lemma_parse_i32(q.version, rest);
}

/// Reading a create request back.
pub proof fn lemma_parse_create_request(q: SpecCreateRequest, rest: Seq<u8>)
    requires
        text_fits(q.path),
        bytes_fit(q.data),
        acls_fit(q.acl),
    ensures
        parse_create_request(wire_create_request(q) + rest) == SpecParse::Done(q, rest),
{
    let r3 = be32(q.flags) + rest;
    let r2 = wire_acl_list(q.acl) + r3;
    let r1 = wire_bytes(q.data) + r2;
    assert(wire_create_request(q) + rest =~= wire_str(q.path) + r1);
    lemma_parse_str(q.path, r1);
    lemma_parse_data(q.data, r2);
    lemma_parse_acl_list(q.acl, r3);
    lemma_parse_i32(q.flags, rest);
}

/// Reading a set-ACL request back.
pub proof fn lemma_parse_set_acl_request(q: SpecSetAclRequest, rest: Seq<u8>)
    requires
        text_fits(q.path),
        acls_fit(q.acl),
    ensures
        parse_set_acl_request(wire_set_acl_request(q) + rest) == SpecParse::Done(q, rest),
{
    let r3 = be32(q.version) + rest;
    let r2 = wire_acls(q.acl) + r3;
    let r1 = be32(q.acl.len() as i32) + r2;
    assert(wire_set_acl_request(q) + rest =~= wire_str(q.path) + r1);
    lemma_parse_str(q.path, r1);
    lemma_parse_i32(q.acl.len() as i32, r2);
    lemma_parse_raw_acls(q.acl, r3);
    lemma_parse_i32(q.version, rest);
}

/// Reading a set-watches request back.
pub proof fn lemma_parse_set_watches_request(q: SpecSetWatchesRequest, rest: Seq<u8>)
    requires
        texts_fit(q.data_watches),
        texts_fit(q.exist_watches),
        texts_fit(q.child_watches),
    ensures
        parse_set_watches_request(wire_set_watches_request(q) + rest) == SpecParse::Done(q, rest),
{
    let r3 = wire_str_list(q.child_watches) + rest;
    let r2 = wire_str_list(q.exist_watches) + r3;
    let r1 = wire_str_list(q.data_watches) + r2;
    assert(wire_set_watches_request(q) + rest =~= be64(q.relative_zxid) + r1);
    lemma_parse_i64(q.relative_zxid, r1);
    lemma_parse_str_list(q.data_watches, r2);
    lemma_parse_str_list(q.exist_watches, r3);
    lemma_parse_str_list(q.child_watches, rest);
}

/// Reading a connect request back, after its protocol version; the version
/// reads as 0.
pub proof fn lemma_parse_connect_request(q: SpecConnectRequest, rest: Seq<u8>)
    requires
        bytes_fit(q.passwd),
        q.protocol_version == 0,
    ensures
        parse_connect_request(wire_connect_request(q).skip(4) + rest) == SpecParse::Done(q, rest),
{
    let r5 = seq![bool_byte(q.read_only)] + rest;
    let r4 = q.passwd + r5;
    let r3 = be32(q.passwd.len() as i32) + r4;
    let r2 = be64(q.session_id) + r3;
    let r1 = be32(q.timeout) + r2;
    assert(wire_connect_request(q).skip(4) + rest =~= be64(q.last_zxid_seen) + r1);
    lemma_parse_i64(q.last_zxid_seen, r1);
    lemma_parse_i32(q.timeout, r2);
    lemma_parse_i64(q.session_id, r3);
    lemma_parse_i32(q.passwd.len() as i32, r4);
    assert(r4.take(q.passwd.len() as int) =~= q.passwd);
    assert(r4.skip(q.passwd.len() as int) =~= r5);
    assert(r5.skip(1) =~= rest);
    if q.passwd.len() == 0 {
        assert(q.passwd =~= Seq::<u8>::empty());
        assert(r4 =~= r5);
    }
}

/// Whether a request body is what the decoder gives for operation `op`.
pub open spec fn op_decodes_as(op: OpCodes, r: SpecRequest) -> bool {
    match r {
        SpecRequest::GetData(_) => op == OpCodes::GetData,
        SpecRequest::Create(_) => op == OpCodes::Create || op == OpCodes::Create2 || op
            == OpCodes::CreateTtl || op == OpCodes::CreateContainer,
        SpecRequest::SetData(_) => op == OpCodes::SetData,
        SpecRequest::GetChildren(_) => op == OpCodes::GetChildren || op == OpCodes::GetChildren2,
        SpecRequest::Delete(_) => op == OpCodes::Delete,
        SpecRequest::Exists(_) => op == OpCodes::Exists,
        SpecRequest::GetAcl(_) => op == OpCodes::GetAcl,
        SpecRequest::SetAcl(_) => op == OpCodes::SetAcl,
        SpecRequest::Close => op == OpCodes::Close,
        SpecRequest::SetWatches(_) => op == OpCodes::SetWatches,
        _ => false,
    }
}

/// Whether the counts and lengths in a request body fit their fields.
pub open spec fn request_fits(r: SpecRequest) -> bool {
    match r {
        SpecRequest::Connect(c) => bytes_fit(c.passwd),
        SpecRequest::Create(c) => text_fits(c.path) && bytes_fit(c.data) && acls_fit(c.acl),
        SpecRequest::Delete(c) => text_fits(c.path),
        SpecRequest::Exists(c) => text_fits(c.path),
        SpecRequest::GetData(c) => text_fits(c.path),
        SpecRequest::SetData(c) => text_fits(c.path) && bytes_fit(c.data),
        SpecRequest::GetAcl(c) => text_fits(c.path),
        SpecRequest::SetAcl(c) => text_fits(c.path) && acls_fit(c.acl),
        SpecRequest::GetChildren(c) => text_fits(c.path),
        SpecRequest::GetChildren2(c) => text_fits(c.path),
        SpecRequest::Ping => true,
        SpecRequest::GetChildren3(c) => text_fits(c.path),
        SpecRequest::Close => true,
        SpecRequest::SetWatches(c) => texts_fit(c.data_watches) && texts_fit(c.exist_watches)
            && texts_fit(c.child_watches),
    }
}

/// Whether a request packet is one that the server-side decoder reads back
/// as it is: a connect request without header and with protocol version 0;
/// a ping with transaction id -2; or a request whose transaction id is
/// neither 0 nor -2 and whose opcode names the operation of its body (a
/// listing of children is read back as `GetChildren`, a creation of any
/// kind as `Create`). Counts and lengths must fit their fields.
pub open spec fn decodable_request(p: SpecRequestPacket) -> bool {
    &&& request_fits(p.request)
    &&& match p.request_header {
        None => p.request matches SpecRequest::Connect(c) && c.protocol_version == 0,
        Some(h) => if h.xid == -2 {
            p.request is Ping
        } else {
            h.xid != 0 && (spec_opcode_from_i32(h.opcode) matches Some(op) && op_decodes_as(
                op,
                p.request,
            ))
        },
    }
}

/// Reading back a request body after its header.
#[verifier::spinoff_prover]
#[verifier::rlimit(60)]
pub proof fn lemma_parse_request_body(xid: i32, opcode: i32, r: SpecRequest, rest: Seq<u8>)
    requires
        request_fits(r),
        spec_opcode_from_i32(opcode) matches Some(op) && op_decodes_as(op, r),
    ensures
        parse_request_body(xid, opcode, wire_request(r) + rest) == SpecParse::Done(
            request_with(xid, opcode, r),
            rest,
        ),
{
    match r {
        SpecRequest::GetData(q) => lemma_parse_get_data_request(q, rest),
        SpecRequest::Create(q) => lemma_parse_create_request(q, rest),
        SpecRequest::SetData(q) => lemma_parse_set_data_request(q, rest),
        SpecRequest::GetChildren(q) => lemma_parse_get_children_request(q, rest),
        SpecRequest::Delete(q) => lemma_parse_delete_request(q, rest),
        SpecRequest::Exists(q) => lemma_parse_exists_request(q, rest),
        SpecRequest::GetAcl(q) => lemma_parse_get_acl_request(q, rest),
        SpecRequest::SetAcl(q) => lemma_parse_set_acl_request(q, rest),
        SpecRequest::Close => {
            assert(wire_request(r) + rest =~= rest);
        },
        SpecRequest::SetWatches(q) => lemma_parse_set_watches_request(q, rest),
        _ => {},
    }
}

/// Reading back a connect request packet.
#[verifier::spinoff_prover]
proof fn lemma_connect_request_roundtrip(p: SpecRequestPacket, rest: Seq<u8>)
    requires
        decodable_request(p),
        p.request_header is None,
    ensures
        parse_request_packet(wire_request_packet(p) + rest) == SpecParse::Done(p, rest),
{
    let c = p.request->Connect_0;
    let tail = wire_connect_request(c).skip(4) + rest;
    assert(wire_request_packet(p) + rest =~= be32(0) + tail);
    lemma_parse_i32(0, tail);
    lemma_parse_connect_request(c, rest);
}

/// Reading back a request packet with a header.
#[verifier::spinoff_prover]
proof fn lemma_headed_request_roundtrip(p: SpecRequestPacket, rest: Seq<u8>)
    requires
        decodable_request(p),
        p.request_header is Some,
    ensures
        parse_request_packet(wire_request_packet(p) + rest) == SpecParse::Done(p, rest),
{
    let h = p.request_header->0;
    let body = wire_request(p.request) + rest;
    assert(wire_request_packet(p) + rest =~= be32(h.xid) + (be32(h.opcode) + body));
    lemma_parse_i32(h.xid, be32(h.opcode) + body);
    lemma_parse_i32(h.opcode, body);
    if h.xid == -2 {
        assert(body =~= rest);
    } else {
        lemma_parse_request_body(h.xid, h.opcode, p.request, rest);
    }
}

/// What the client side writes of a request, the server side reads back:
/// decoding the encoding of a decodable request packet, followed by any
/// bytes, gives the packet and leaves those bytes.
pub proof fn lemma_request_roundtrip(p: SpecRequestPacket, rest: Seq<u8>)
    requires
        decodable_request(p),
    ensures
        parse_request_packet(wire_request_packet(p) + rest) == SpecParse::Done(p, rest),
{
    if p.request_header is None {
        lemma_connect_request_roundtrip(p, rest);
    } else {
        lemma_headed_request_roundtrip(p, rest);
    }
}

/// Reading a node's metadata back.
#[verifier::spinoff_prover]
#[verifier::rlimit(40)]
pub proof fn lemma_parse_stat(st: Stat, rest: Seq<u8>)
    ensures
        parse_stat(wire_stat(st) + rest) == SpecParse::Done(st, rest),
{
    let t11 = rest;
    let t10 = be64(st.pzxid) + t11;
    let t9 = be32(st.num_children) + t10;
    let t8 = be32(st.data_length) + t9;
    let t7 = be64(st.ephemeral_owner) + t8;
    let t6 = be32(st.aversion) + t7;
    let t5 = be32(st.cversion) + t6;
    let t4 = be32(st.version) + t5;
    let t3 = be64(st.mtime) + t4;
    let t2 = be64(st.ctime) + t3;
    let t1 = be64(st.mzxid) + t2;
    let t0 = be64(st.czxid) + t1;
    assert(wire_stat(st) + rest =~= t0);
    lemma_be64_roundtrip(st.czxid, t1);
    lemma_be64_roundtrip(st.mzxid, t2);
    lemma_be64_roundtrip(st.ctime, t3);
    lemma_be64_roundtrip(st.mtime, t4);
    lemma_be32_roundtrip(st.version, t5);
    lemma_be32_roundtrip(st.cversion, t6);
    lemma_be32_roundtrip(st.aversion, t7);
    lemma_be64_roundtrip(st.ephemeral_owner, t8);
    lemma_be32_roundtrip(st.data_length, t9);
    lemma_be32_roundtrip(st.num_children, t10);
    lemma_be64_roundtrip(st.pzxid, t11);
    assert(t0.skip(8) =~= t1);
    assert(t0.skip(16) =~= t2);
    assert(t0.skip(24) =~= t3);
    assert(t0.skip(32) =~= t4);
    assert(t0.skip(36) =~= t5);
    assert(t0.skip(40) =~= t6);
    assert(t0.skip(44) =~= t7);
    assert(t0.skip(52) =~= t8);
    assert(t0.skip(56) =~= t9);
    assert(t0.skip(60) =~= t10);
    assert(t0.skip(68) =~= t11);
}

/// Reading a connect response back, after its protocol version; the version
/// reads as 0.
pub proof fn lemma_parse_connect_response(c: SpecConnectResponse, rest: Seq<u8>)
    requires
        bytes_fit(c.passwd),
        c.protocol_version == 0,
    ensures
        parse_connect_response(wire_connect_response(c).skip(4) + rest) == SpecParse::Done(c, rest),
{
    let r4 = seq![bool_byte(c.read_only)] + rest;
    let r3 = c.passwd + r4;
    let r2 = be32(c.passwd.len() as i32) + r3;
    let r1 = be64(c.session_id) + r2;
    assert(wire_connect_response(c).skip(4) + rest =~= be32(c.timeout) + r1);
    lemma_parse_i32(c.timeout, r1);
    lemma_parse_i64(c.session_id, r2);
    lemma_parse_i32(c.passwd.len() as i32, r3);
    assert(r3.take(c.passwd.len() as int) =~= c.passwd);
    assert(r3.skip(c.passwd.len() as int) =~= r4);
    assert(r4.skip(1) =~= rest);
    if c.passwd.len() == 0 {
        assert(c.passwd =~= Seq::<u8>::empty());
        assert(r3 =~= r4);
    }
}

/// Whether a response body is what the decoder gives for a reply to operation `op`.
pub open spec fn op_answered_by(op: OpCodes, r: SpecZkResponse) -> bool {
    match r {
        SpecZkResponse::Stat(_) => op == OpCodes::Exists || op == OpCodes::SetData || op
            == OpCodes::SetAcl,
        SpecZkResponse::GetData(_) => op == OpCodes::GetData,
        SpecZkResponse::Empty => op == OpCodes::Delete || op == OpCodes::Check,
        SpecZkResponse::Strings(_) => op == OpCodes::GetChildren,
        SpecZkResponse::String(_) => op == OpCodes::Create,
        SpecZkResponse::GetAcl { .. } => op == OpCodes::GetAcl,
        SpecZkResponse::GetChildren2 { .. } => op == OpCodes::GetChildren2,
        _ => false,
    }
}

/// Whether the counts and lengths in a response body fit their fields.
pub open spec fn response_fits(r: SpecZkResponse) -> bool {
    match r {
        SpecZkResponse::Connect(c) => bytes_fit(c.passwd),
        SpecZkResponse::GetData(g) => bytes_fit(g.data),
        SpecZkResponse::GetChildren2 { children, .. } => texts_fit(children),
        SpecZkResponse::GetAcl { acl, .. } => acls_fit(acl),
        SpecZkResponse::Strings(v) => texts_fit(v),
        SpecZkResponse::String(t) => text_fits(t),
        _ => true,
    }
}

/// Whether a response packet is one that the client-side decoder reads back
/// as it is, when `op` is the operation on record for its transaction id: a
/// connect response without header and with protocol version 0; a ping
/// reply with transaction id -2; or a reply whose transaction id is neither
/// 0 nor -2 and whose body is what a reply to `op` holds. Counts and lengths
/// must fit their fields.
pub open spec fn decodable_response(p: SpecResponsePacket, op: Option<OpCodes>) -> bool {
    &&& response_fits(p.response)
    &&& match p.response_header {
        None => p.response matches SpecZkResponse::Connect(c) && c.protocol_version == 0,
        Some(h) => if h.xid == -2 {
            p.response is Ping
        } else {
            h.xid != 0 && (op matches Some(o) && op_answered_by(o, p.response))
        },
    }
}

#[verifier::spinoff_prover]
proof fn lemma_reply_body_stat(h: ReplyHeader, op: OpCodes, r: SpecZkResponse, rest: Seq<u8>)
    requires
        response_fits(r),
        op_answered_by(op, r),
        r matches SpecZkResponse::Stat(_),
    ensures
        parse_reply_body(h, Some(op), wire_response(r) + rest) == SpecParse::Done(reply_with(h, r), rest),
{
    match r {
        SpecZkResponse::Stat(st) => {
            lemma_parse_stat(st, rest);
        },
        _ => {},
    }
}

#[verifier::spinoff_prover]
proof fn lemma_reply_body_get_data(h: ReplyHeader, op: OpCodes, r: SpecZkResponse, rest: Seq<u8>)
    requires
        response_fits(r),
        op_answered_by(op, r),
        r matches SpecZkResponse::GetData(_),
    ensures
        parse_reply_body(h, Some(op), wire_response(r) + rest) == SpecParse::Done(reply_with(h, r), rest),
{
    match r {
        SpecZkResponse::GetData(g) => {
            let r1 = wire_stat(g.stat) + rest;
            assert(wire_response(r) + rest =~= wire_bytes(g.data) + r1);
            lemma_parse_data(g.data, r1);
            lemma_parse_stat(g.stat, rest);
            assert(g == SpecGetDataResponse { data: g.data, stat: g.stat });
        },
        _ => {},
    }
}

#[verifier::spinoff_prover]
proof fn lemma_reply_body_empty(h: ReplyHeader, op: OpCodes, r: SpecZkResponse, rest: Seq<u8>)
    requires
        response_fits(r),
        op_answered_by(op, r),
        r matches SpecZkResponse::Empty,
    ensures
        parse_reply_body(h, Some(op), wire_response(r) + rest) == SpecParse::Done(reply_with(h, r), rest),
{
    match r {
        SpecZkResponse::Empty => {
            assert(wire_response(r) + rest =~= rest);
        },
        _ => {},
    }
}

#[verifier::spinoff_prover]
proof fn lemma_reply_body_strings(h: ReplyHeader, op: OpCodes, r: SpecZkResponse, rest: Seq<u8>)
    requires
        response_fits(r),
        op_answered_by(op, r),
        r matches SpecZkResponse::Strings(_),
    ensures
        parse_reply_body(h, Some(op), wire_response(r) + rest) == SpecParse::Done(reply_with(h, r), rest),
{
    match r {
        SpecZkResponse::Strings(v) => {
            lemma_parse_str_list(v, rest);
        },
        _ => {},
    }
}

#[verifier::spinoff_prover]
proof fn lemma_reply_body_string(h: ReplyHeader, op: OpCodes, r: SpecZkResponse, rest: Seq<u8>)
    requires
        response_fits(r),
        op_answered_by(op, r),
        r matches SpecZkResponse::String(_),
    ensures
        parse_reply_body(h, Some(op), wire_response(r) + rest) == SpecParse::Done(reply_with(h, r), rest),
{
    match r {
        SpecZkResponse::String(t) => {
            lemma_parse_str(t, rest);
        },
        _ => {},
    }
}

#[verifier::spinoff_prover]
proof fn lemma_reply_body_get_acl(h: ReplyHeader, op: OpCodes, r: SpecZkResponse, rest: Seq<u8>)
    requires
        response_fits(r),
        op_answered_by(op, r),
        r matches SpecZkResponse::GetAcl { .. },
    ensures
        parse_reply_body(h, Some(op), wire_response(r) + rest) == SpecParse::Done(reply_with(h, r), rest),
{
    match r {
        SpecZkResponse::GetAcl { acl, stat } => {
            let r1 = wire_stat(stat) + rest;
            assert(wire_response(r) + rest =~= wire_acl_list(acl) + r1);
            lemma_parse_acl_list(acl, r1);
            lemma_parse_stat(stat, rest);
        },
        _ => {},
    }
}

#[verifier::spinoff_prover]
proof fn lemma_reply_body_children2(h: ReplyHeader, op: OpCodes, r: SpecZkResponse, rest: Seq<u8>)
    requires
        response_fits(r),
        op_answered_by(op, r),
        r matches SpecZkResponse::GetChildren2 { .. },
    ensures
        parse_reply_body(h, Some(op), wire_response(r) + rest) == SpecParse::Done(reply_with(h, r), rest),
{
    match r {
        SpecZkResponse::GetChildren2 { children, stat } => {
            let r1 = wire_stat(stat) + rest;
            assert(wire_response(r) + rest =~= wire_str_list(children) + r1);
            lemma_parse_str_list(children, r1);
            lemma_parse_stat(stat, rest);
        },
        _ => {},
    }
}

/// Reading back the body of a reply.
pub proof fn lemma_parse_reply_body(h: ReplyHeader, op: OpCodes, r: SpecZkResponse, rest: Seq<u8>)
    requires
        response_fits(r),
        op_answered_by(op, r),
    ensures
        parse_reply_body(h, Some(op), wire_response(r) + rest) == SpecParse::Done(reply_with(h, r), rest),
{
    match r {
        SpecZkResponse::Stat(_) => lemma_reply_body_stat(h, op, r, rest),
        SpecZkResponse::GetData(_) => lemma_reply_body_get_data(h, op, r, rest),
        SpecZkResponse::Empty => lemma_reply_body_empty(h, op, r, rest),
        SpecZkResponse::Strings(_) => lemma_reply_body_strings(h, op, r, rest),
        SpecZkResponse::String(_) => lemma_reply_body_string(h, op, r, rest),
        SpecZkResponse::GetAcl { .. } => lemma_reply_body_get_acl(h, op, r, rest),
        SpecZkResponse::GetChildren2 { .. } => lemma_reply_body_children2(h, op, r, rest),
        _ => {},
    }
}

/// Reading back a connect response packet.
#[verifier::spinoff_prover]
proof fn lemma_connect_response_roundtrip(p: SpecResponsePacket, op: Option<OpCodes>, rest: Seq<u8>)
    requires
        decodable_response(p, op),
        p.response_header is None,
    ensures
        parse_response_frame(wire_response_packet(p) + rest, op) == SpecParse::Done(Some(p), rest),
{
    let c = p.response->Connect_0;
    let tail = wire_connect_response(c).skip(4) + rest;
    assert(wire_response_packet(p) + rest =~= be32(0) + tail);
    lemma_parse_i32(0, tail);
    lemma_parse_connect_response(c, rest);
}

/// Reading back a response packet with a header.
#[verifier::spinoff_prover]
proof fn lemma_headed_response_roundtrip(p: SpecResponsePacket, op: Option<OpCodes>, rest: Seq<u8>)
    requires
        decodable_response(p, op),
        p.response_header is Some,
    ensures
        parse_response_frame(wire_response_packet(p) + rest, op) == SpecParse::Done(Some(p), rest),
{
    let h = p.response_header->0;
    let body = wire_response(p.response) + rest;
    let r2 = be32(h.err) + body;
    let r1 = be64(h.zxid) + r2;
    assert(wire_response_packet(p) + rest =~= be32(h.xid) + r1);
    lemma_parse_i32(h.xid, r1);
    lemma_parse_i64(h.zxid, r2);
    lemma_parse_i32(h.err, body);
    assert(h == ReplyHeader { xid: h.xid, zxid: h.zxid, err: h.err });
    if h.xid == -2 {
        assert(body =~= rest);
    } else {
        lemma_parse_reply_body(h, op->0, p.response, rest);
    }
}

/// What the server side writes of a response, the client side reads back:
/// decoding the encoding of a decodable response packet, followed by any
/// bytes, gives the packet and leaves those bytes, when the operation on
/// record for its transaction id is `op`.
pub proof fn lemma_response_roundtrip(p: SpecResponsePacket, op: Option<OpCodes>, rest: Seq<u8>)
    requires
        decodable_response(p, op),
    ensures
        parse_response_frame(wire_response_packet(p) + rest, op) == SpecParse::Done(Some(p), rest),
{
    if p.response_header is None {
        lemma_connect_response_roundtrip(p, op, rest);
    } else {
        lemma_headed_response_roundtrip(p, op, rest);
    }
}

/// A frame written with its length in front is read back whole, from a codec
/// that awaits a head, whatever bytes follow it.
pub proof fn lemma_frame_roundtrip(w: Seq<u8>, rest: Seq<u8>)
    requires
        w.len() <= max_frame_len(),
    ensures
        frame_step(None, be32(w.len() as i32) + w + rest) == FrameStep::Frame(w, rest),
{
    let s = be32(w.len() as i32) + w + rest;
    assert(s =~= be32(w.len() as i32) + (w + rest));
    lemma_be32_roundtrip(w.len() as i32, w + rest);
    assert(s.subrange(4, 4 + w.len() as int) =~= w);
    assert(s.skip(4 + w.len() as int) =~= rest);
}

/// What the client-side codec writes of a request, the server-side codec
/// reads back: the frame it writes is split off whole, and the frame holds
/// the request and nothing more.
pub proof fn lemma_request_transport(p: SpecRequestPacket, rest: Seq<u8>)
    requires
        decodable_request(p),
        wire_request_packet(p).len() <= max_frame_len(),
    ensures
        frame_step(None, be32(size_request_packet(p) as i32) + wire_request_packet(p) + rest)
            == FrameStep::Frame(wire_request_packet(p), rest),
        parse_request_frame(wire_request_packet(p)) == SpecParse::Done(Some(p), Seq::<u8>::empty()),
{
    lemma_request_packet_size(p);
    lemma_frame_roundtrip(wire_request_packet(p), rest);
    lemma_request_roundtrip(p, Seq::empty());
    assert(wire_request_packet(p) + Seq::<u8>::empty() =~= wire_request_packet(p));
}

/// What the server-side codec writes of a response, the client-side codec
/// reads back, when the operation on record for its transaction id is `op`.
pub proof fn lemma_response_transport(p: SpecResponsePacket, op: Option<OpCodes>, rest: Seq<u8>)
    requires
        decodable_response(p, op),
        wire_response_packet(p).len() <= max_frame_len(),
    ensures
        frame_step(None, be32(wire_response_packet(p).len() as i32) + wire_response_packet(p) + rest)
            == FrameStep::Frame(wire_response_packet(p), rest),
        parse_response_frame(wire_response_packet(p), op) == SpecParse::Done(
            Some(p),
            Seq::<u8>::empty(),
        ),
{
    lemma_frame_roundtrip(wire_response_packet(p), rest);
    lemma_response_roundtrip(p, op, Seq::empty());
    assert(wire_response_packet(p) + Seq::<u8>::empty() =~= wire_response_packet(p));
}

/// Decoding frames is incremental: when a step finds no whole frame, the next
/// step, from the state it left and on the bytes it left followed by more
/// bytes, does what a single step on all the bytes would have done.
pub proof fn lemma_frame_step_resumes(s: Seq<u8>, more: Seq<u8>)
    ensures
        frame_step(None, s) matches FrameStep::Incomplete(p, r) ==> frame_step(p, r + more)
            == frame_step(None, s + more),
{
    if let FrameStep::Incomplete(p, r) = frame_step(None, s) {
        if s.len() >= 4 {
            let t = s + more;
            assert(t.take(4) =~= s.take(4));
            assert(t[0] == s[0] && t[1] == s[1] && t[2] == s[2] && t[3] == s[3]);
            assert(r + more =~= t.skip(4));
            let n = p->0;
            if t.len() - 4 >= n {
                assert((r + more).take(n) =~= t.subrange(4, 4 + n));
                assert((r + more).skip(n) =~= t.skip(4 + n));
            }
        }
    }
}

/// The number of an operation names that operation.
pub proof fn lemma_opcode_roundtrip(op: OpCodes)
    ensures
        spec_opcode_from_i32(opcode_value(op) as i32) == Some(op),
{
    assert(opcode_value(op) == opcode_value(op) as i32);
    assert forall|o: OpCodes| opcode_value(o) == opcode_value(op) as i32 implies o == op by {
        crate::codes::lemma_opcode_value_injective(o, op);
    }
}

/// In the earlier set of records, the size that a request or a response
/// announces is the length of its encoding.
pub proof fn lemma_proto_sizes(req: crate::proto::ZkRequest, resp: crate::proto::ZkResponse)
    ensures
        crate::proto::size_zk_request(req) == crate::proto::wire_zk_request(req).len(),
        crate::proto::size_zk_response(resp) == crate::proto::wire_zk_response(resp).len(),
{
}

} // verus!
