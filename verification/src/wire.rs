//! The wire format of every record, as a function from its model to bytes.
//! Integers are big-endian; byte strings and text carry a four-byte length
//! in front; lists carry a four-byte count in front.

use crate::buffer::{be32, be64};
use crate::codec::{ReplyHeader, RequestHeader, Stat};
use crate::model::{
    SpecAcl, SpecConnectRequest, SpecConnectResponse, SpecCreateRequest, SpecDeleteRequest,
    SpecExistsRequest, SpecGetAclRequest, SpecGetChildrenRequest, SpecGetDataRequest,
    SpecGetDataResponse, SpecRequest, SpecRequestPacket, SpecResponsePacket, SpecSetAclRequest,
    SpecSetDataRequest, SpecSetWatchesRequest, SpecZkResponse,
};
use vstd::prelude::*;
use vstd::utf8::encode_utf8;

verus! {

/// A boolean as one byte: 1 for true, 0 for false.
pub open spec fn bool_byte(b: bool) -> u8 {
    if b {
        1
    } else {
        0
    }
}

/// A byte string with its length (cut to 32 bits) in front.
pub open spec fn wire_bytes(b: Seq<u8>) -> Seq<u8> {
    be32(b.len() as i32) + b
}

/// A text as its UTF-8 bytes with their length in front.
pub open spec fn wire_str(s: Seq<char>) -> Seq<u8> {
    wire_bytes(encode_utf8(s))
}

/// The encodings by `f` of the items of `v`, one after the other.
pub open spec fn concat_map<T>(v: Seq<T>, f: spec_fn(T) -> Seq<u8>) -> Seq<u8>
    decreases v.len(),
{
    if v.len() == 0 {
        Seq::empty()
    } else {
        concat_map(v.drop_last(), f) + f(v.last())
    }
}

/// The sum of `f` over the items of `v`.
pub open spec fn sum_map<T>(v: Seq<T>, f: spec_fn(T) -> int) -> int
    decreases v.len(),
{
    if v.len() == 0 {
        0
    } else {
        sum_map(v.drop_last(), f) + f(v.last())
    }
}

/// The encoding of a prefix is no longer than that of the whole list, and
/// one more item adds its own encoding.
pub proof fn lemma_concat_map_prefix<T>(v: Seq<T>, f: spec_fn(T) -> Seq<u8>, i: int)
    requires
        0 <= i <= v.len(),
    ensures
        concat_map(v.take(i), f).len() <= concat_map(v, f).len(),
        i < v.len() ==> concat_map(v.take(i + 1), f) == concat_map(v.take(i), f) + f(v[i]),
    decreases v.len(),
{
    if i < v.len() {
        assert(v.take(i + 1).drop_last() =~= v.take(i));
        lemma_concat_map_prefix(v.drop_last(), f, i);
        assert(v.drop_last().take(i) =~= v.take(i));
    } else {
        assert(v.take(i) =~= v);
    }
}

/// A sum over a prefix of non-negative terms is at most the whole sum, and
/// one more item adds its own term.
pub proof fn lemma_sum_map_prefix<T>(v: Seq<T>, f: spec_fn(T) -> int, i: int)
    requires
        0 <= i <= v.len(),
        forall|k: int| 0 <= k < v.len() ==> f(#[trigger] v[k]) >= 0,
    ensures
        0 <= sum_map(v.take(i), f) <= sum_map(v, f),
        i < v.len() ==> sum_map(v.take(i + 1), f) == sum_map(v.take(i), f) + f(v[i]),
    decreases v.len(),
{
    if i < v.len() {
        assert(v.take(i + 1).drop_last() =~= v.take(i));
        assert forall|k: int| 0 <= k < v.drop_last().len() implies f(#[trigger] v.drop_last()[k]) >= 0 by {
            assert(v.drop_last()[k] == v[k]);
        }
        lemma_sum_map_prefix(v.drop_last(), f, i);
        assert(v.drop_last().take(i) =~= v.take(i));
        assert(f(v[v.len() - 1]) >= 0);
    } else {
        assert(v.take(i) =~= v);
        if v.len() > 0 {
            assert forall|k: int| 0 <= k < v.drop_last().len() implies f(#[trigger] v.drop_last()[k]) >= 0 by {
                assert(v.drop_last()[k] == v[k]);
            }
            lemma_sum_map_prefix(v.drop_last(), f, v.len() - 1);
            assert(v.drop_last().take(v.len() - 1) =~= v.drop_last());
            assert(f(v[v.len() - 1]) >= 0);
        }
    }
}

/// `wire_str` as a value.
pub open spec fn str_encoder() -> spec_fn(Seq<char>) -> Seq<u8> {
    |t: Seq<char>| wire_str(t)
}

/// The texts of a list, one after the other, each with its length in front.
pub open spec fn wire_strs(v: Seq<Seq<char>>) -> Seq<u8> {
    concat_map(v, str_encoder())
}

/// A list of texts with its count in front.
pub open spec fn wire_str_list(v: Seq<Seq<char>>) -> Seq<u8> {
    be32(v.len() as i32) + wire_strs(v)
}

pub open spec fn wire_acl(a: SpecAcl) -> Seq<u8> {
    be32(a.perms) + wire_bytes(a.scheme) + wire_bytes(a.cred)
}

/// `wire_acl` as a value.
pub open spec fn acl_encoder() -> spec_fn(SpecAcl) -> Seq<u8> {
    |a: SpecAcl| wire_acl(a)
}

/// The entries of an access-control list, one after the other.
pub open spec fn wire_acls(v: Seq<SpecAcl>) -> Seq<u8> {
    concat_map(v, acl_encoder())
}

/// An access-control list with its count in front.
pub open spec fn wire_acl_list(v: Seq<SpecAcl>) -> Seq<u8> {
    be32(v.len() as i32) + wire_acls(v)
}

pub open spec fn wire_connect_request(r: SpecConnectRequest) -> Seq<u8> {
    be32(r.protocol_version) + be64(r.last_zxid_seen) + be32(r.timeout) + be64(r.session_id)
        + wire_bytes(r.passwd) + seq![bool_byte(r.read_only)]
}

pub open spec fn wire_get_data_request(r: SpecGetDataRequest) -> Seq<u8> {
    wire_str(r.path) + seq![bool_byte(r.watch)]
}

pub open spec fn wire_create_request(r: SpecCreateRequest) -> Seq<u8> {
    wire_str(r.path) + wire_bytes(r.data) + wire_acl_list(r.acl) + be32(r.flags)
}

pub open spec fn wire_set_data_request(r: SpecSetDataRequest) -> Seq<u8> {
    wire_str(r.path) + wire_bytes(r.data) + be32(r.version)
}

pub open spec fn wire_delete_request(r: SpecDeleteRequest) -> Seq<u8> {
    wire_str(r.path) + be32(r.version)
}

pub open spec fn wire_get_children_request(r: SpecGetChildrenRequest) -> Seq<u8> {
    wire_str(r.path) + seq![bool_byte(r.watch)]
}

pub open spec fn wire_exists_request(r: SpecExistsRequest) -> Seq<u8> {
    wire_str(r.path) + seq![bool_byte(r.watch)]
}

pub open spec fn wire_get_acl_request(r: SpecGetAclRequest) -> Seq<u8> {
    wire_str(r.path)
}

pub open spec fn wire_set_acl_request(r: SpecSetAclRequest) -> Seq<u8> {
    wire_str(r.path) + wire_acl_list(r.acl) + be32(r.version)
}

pub open spec fn wire_set_watches_request(r: SpecSetWatchesRequest) -> Seq<u8> {
    be64(r.relative_zxid) + wire_str_list(r.data_watches) + wire_str_list(r.exist_watches)
        + wire_str_list(r.child_watches)
}

pub open spec fn wire_request(r: SpecRequest) -> Seq<u8> {
    match r {
        SpecRequest::Connect(c) => wire_connect_request(c),
        SpecRequest::Create(c) => wire_create_request(c),
        SpecRequest::Delete(c) => wire_delete_request(c),
        SpecRequest::Exists(c) => wire_exists_request(c),
        SpecRequest::GetData(c) => wire_get_data_request(c),
        SpecRequest::SetData(c) => wire_set_data_request(c),
        SpecRequest::GetAcl(c) => wire_get_acl_request(c),
        SpecRequest::SetAcl(c) => wire_set_acl_request(c),
        SpecRequest::GetChildren(c) => wire_get_children_request(c),
        SpecRequest::GetChildren2(c) => wire_get_children_request(c),
        SpecRequest::Ping => Seq::empty(),
        SpecRequest::GetChildren3(c) => wire_get_children_request(c),
        SpecRequest::Close => Seq::empty(),
        SpecRequest::SetWatches(c) => wire_set_watches_request(c),
    }
}

pub open spec fn wire_request_header(h: RequestHeader) -> Seq<u8> {
    be32(h.xid) + be32(h.opcode)
}

pub open spec fn wire_request_packet(p: SpecRequestPacket) -> Seq<u8> {
    match p.request_header {
        Some(h) => wire_request_header(h) + wire_request(p.request),
        None => wire_request(p.request),
    }
}

pub open spec fn wire_reply_header(h: ReplyHeader) -> Seq<u8> {
    be32(h.xid) + be64(h.zxid) + be32(h.err)
}

pub open spec fn wire_stat(s: Stat) -> Seq<u8> {
    be64(s.czxid) + be64(s.mzxid) + be64(s.ctime) + be64(s.mtime) + be32(s.version) + be32(
        s.cversion,
    ) + be32(s.aversion) + be64(s.ephemeral_owner) + be32(s.data_length) + be32(s.num_children)
        + be64(s.pzxid)
}

pub open spec fn wire_connect_response(r: SpecConnectResponse) -> Seq<u8> {
    be32(r.protocol_version) + be32(r.timeout) + be64(r.session_id) + wire_bytes(r.passwd)
        + seq![bool_byte(r.read_only)]
}

pub open spec fn wire_get_data_response(r: SpecGetDataResponse) -> Seq<u8> {
    wire_bytes(r.data) + wire_stat(r.stat)
}

/// The encoding of a response body. A multi-response has none.
pub open spec fn wire_response(r: SpecZkResponse) -> Seq<u8> {
    match r {
        SpecZkResponse::Connect(c) => wire_connect_response(c),
        SpecZkResponse::GetData(g) => wire_get_data_response(g),
        SpecZkResponse::GetChildren2 { children, stat } => wire_str_list(children) + wire_stat(stat),
        SpecZkResponse::GetAcl { acl, stat } => wire_acl_list(acl) + wire_stat(stat),
        SpecZkResponse::Ping => Seq::empty(),
        SpecZkResponse::Stat(s) => wire_stat(s),
        SpecZkResponse::Empty => Seq::empty(),
        SpecZkResponse::Strings(v) => wire_str_list(v),
        SpecZkResponse::String(s) => wire_str(s),
        SpecZkResponse::Multi => Seq::empty(),
    }
}

pub open spec fn wire_response_packet(p: SpecResponsePacket) -> Seq<u8> {
    match p.response_header {
        Some(h) => wire_reply_header(h) + wire_response(p.response),
        None => wire_response(p.response),
    }
}

/// The number of bytes of the UTF-8 encoding of a text.
pub open spec fn text_len(s: Seq<char>) -> int {
    encode_utf8(s).len() as int
}

pub open spec fn size_acl(a: SpecAcl) -> int {
    (4 + 4 + a.scheme.len() + 4 + a.cred.len()) as int
}

/// `size_acl` as a value.
pub open spec fn acl_sizer() -> spec_fn(SpecAcl) -> int {
    |a: SpecAcl| size_acl(a)
}

/// `4 + text_len` as a value: the size of one text of a list.
pub open spec fn str_sizer() -> spec_fn(Seq<char>) -> int {
    |t: Seq<char>| 4 + text_len(t)
}

pub open spec fn size_connect_request(r: SpecConnectRequest) -> int {
    (4 + 8 + 4 + 8 + 4 + r.passwd.len() + 1) as int
}

pub open spec fn size_path_watch(path: Seq<char>) -> int {
    4 + text_len(path) + 1
}

pub open spec fn size_create_request(r: SpecCreateRequest) -> int {
    4 + text_len(r.path) + 4 + r.data.len() + 4 + sum_map(r.acl, acl_sizer()) + 4
}

pub open spec fn size_set_data_request(r: SpecSetDataRequest) -> int {
    4 + text_len(r.path) + 4 + r.data.len() + 4
}

pub open spec fn size_delete_request(r: SpecDeleteRequest) -> int {
    4 + text_len(r.path) + 4
}

pub open spec fn size_get_acl_request(r: SpecGetAclRequest) -> int {
    4 + text_len(r.path)
}

pub open spec fn size_set_acl_request(r: SpecSetAclRequest) -> int {
    4 + text_len(r.path) + 4 + sum_map(r.acl, acl_sizer()) + 4
}

pub open spec fn size_set_watches_request(r: SpecSetWatchesRequest) -> int {
    8 + 4 + sum_map(r.data_watches, str_sizer()) + 4 + sum_map(r.exist_watches, str_sizer()) + 4
        + sum_map(r.child_watches, str_sizer())
}

pub open spec fn size_request(r: SpecRequest) -> int {
    match r {
        SpecRequest::Connect(c) => size_connect_request(c),
        SpecRequest::Create(c) => size_create_request(c),
        SpecRequest::Delete(c) => size_delete_request(c),
        SpecRequest::Exists(c) => size_path_watch(c.path),
        SpecRequest::GetData(c) => size_path_watch(c.path),
        SpecRequest::SetData(c) => size_set_data_request(c),
        SpecRequest::GetAcl(c) => size_get_acl_request(c),
        SpecRequest::SetAcl(c) => size_set_acl_request(c),
        SpecRequest::GetChildren(c) => size_path_watch(c.path),
        SpecRequest::GetChildren2(c) => size_path_watch(c.path),
        SpecRequest::Ping => 0,
        SpecRequest::GetChildren3(c) => size_path_watch(c.path),
        SpecRequest::Close => 0,
        SpecRequest::SetWatches(c) => size_set_watches_request(c),
    }
}

pub open spec fn size_request_packet(p: SpecRequestPacket) -> int {
    (if p.request_header is Some {
        8int
    } else {
        0int
    }) + size_request(p.request)
}

pub open spec fn size_connect_response(r: SpecConnectResponse) -> int {
    (4 + 4 + 8 + 4 + r.passwd.len() + 1) as int
}

/// The size that a response announces. That of an access-control list
/// counts eight bytes per entry, whatever the entry holds.
pub open spec fn size_response(r: SpecZkResponse) -> int {
    match r {
        SpecZkResponse::Connect(c) => size_connect_response(c),
        SpecZkResponse::GetData(g) => (4 + g.data.len() + 6 * 8 + 4 * 5) as int,
        SpecZkResponse::Ping => 0,
        SpecZkResponse::GetAcl { acl, stat } => (4 + acl.len() * 8 + 68) as int,
        SpecZkResponse::Stat(_) => 68,
        SpecZkResponse::Empty => 0,
        SpecZkResponse::Strings(v) => 4 + sum_map(v, str_sizer()),
        SpecZkResponse::String(s) => 4 + text_len(s),
        SpecZkResponse::Multi => 0,
        SpecZkResponse::GetChildren2 { children, stat } => 4 + sum_map(children, str_sizer()) + 68,
    }
}

pub open spec fn size_response_packet(p: SpecResponsePacket) -> int {
    (if p.response_header is Some {
        16int
    } else {
        0int
    }) + size_response(p.response)
}

} // verus!
