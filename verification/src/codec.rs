//! The records of the protocol, their encoding into a byte buffer and their
//! decoding from one.

use crate::buffer::{
    buf_bytes, buf_copy_to_vec, buf_extend_from_slice, buf_get_i32, buf_get_i64, buf_get_u8,
    buf_len, buf_put_i32, buf_put_i64, buf_put_i8, buf_put_u8, buf_remaining, buf_split_to_vec,
    string_from_utf8,
};
use crate::errors::ZkError;
use crate::model::{
    SpecAcl, SpecConnectRequest, SpecConnectResponse, SpecCreateRequest, SpecDeleteRequest,
    SpecExistsRequest, SpecGetAclRequest, SpecGetChildrenRequest, SpecGetDataRequest,
    SpecGetDataResponse, SpecRequest, SpecRequestPacket, SpecResponsePacket, SpecSetAclRequest,
    SpecSetDataRequest, SpecSetWatchesRequest, SpecZkResponse,
};
use crate::parse::{
    acl_reader, lemma_repeat_next, lemma_repeat_stops, parse_acl_entry, parse_acl_list,
    parse_connect_request, parse_connect_response, parse_create_request, parse_data,
    parse_delete_request, parse_exists_request, parse_get_acl_request, parse_get_children_request,
    parse_get_data_request, parse_i32, parse_i64, parse_passwd, parse_raw, parse_raw_acl_entry,
    parse_repeat, parse_set_acl_request, parse_set_data_request, parse_set_watches_request,
    parse_stat, parse_str, parse_str_entry, parse_str_list, parse_trailing_bool, parse_u8,
    raw_acl_reader, str_reader,
};
use crate::record::{decoded, decoded_as, Decoded, Deserialize, Record, SpecParse};
use crate::wire::{
    acl_encoder, acl_sizer, concat_map, lemma_concat_map_prefix, lemma_sum_map_prefix,
    size_connect_request, size_connect_response, size_create_request, size_delete_request,
    size_get_acl_request, size_path_watch, size_request, size_request_packet, size_response,
    size_response_packet, size_set_acl_request, size_set_data_request, size_set_watches_request,
    str_encoder, str_sizer, sum_map, text_len, wire_acl, wire_acl_list, wire_bytes,
    wire_connect_request, wire_connect_response, wire_create_request, wire_delete_request,
    wire_exists_request, wire_get_acl_request, wire_get_children_request, wire_get_data_request,
    wire_get_data_response, wire_reply_header, wire_request, wire_request_header,
    wire_request_packet, wire_response, wire_response_packet, wire_set_acl_request,
    wire_set_data_request, wire_set_watches_request, wire_stat, wire_str, wire_str_list,
};
use bytes::BytesMut;
use vstd::prelude::*;

verus! {

/// The request that opens a session.
#[derive(Debug, PartialEq, Eq)]
pub struct ConnectRequest {
    pub protocol_version: i32,
    pub last_zxid_seen: i64,
    pub timeout: i32,
    pub session_id: i64,
    pub passwd: Vec<u8>,
    pub read_only: bool,
}

impl View for ConnectRequest {
    type V = SpecConnectRequest;

    open spec fn view(&self) -> SpecConnectRequest {
        SpecConnectRequest {
            protocol_version: self.protocol_version,
            last_zxid_seen: self.last_zxid_seen,
            timeout: self.timeout,
            session_id: self.session_id,
            passwd: self.passwd@,
            read_only: self.read_only,
        }
    }
}

/// A request without a body (a ping, or the closing of a session).
#[derive(Debug, Clone, Copy, PartialEq, Eq)]
pub struct PingRequest;

impl View for PingRequest {
    type V = PingRequest;

    open spec fn view(&self) -> PingRequest {
        *self
    }
}

/// Reads the data of a node, and may leave a watch on it.
#[derive(Debug, PartialEq, Eq)]
pub struct GetDataRequest {
    pub path: String,
    pub watch: bool,
}

impl View for GetDataRequest {
    type V = SpecGetDataRequest;

    open spec fn view(&self) -> SpecGetDataRequest {
        SpecGetDataRequest { path: self.path@, watch: self.watch }
    }
}

/// An access-control entry.
#[derive(Debug, PartialEq, Eq)]
pub struct Acl {
    pub perms: i32,
    pub scheme: Vec<u8>,
    pub cred: Vec<u8>,
}

impl View for Acl {
    type V = SpecAcl;

    open spec fn view(&self) -> SpecAcl {
        SpecAcl { perms: self.perms, scheme: self.scheme@, cred: self.cred@ }
    }
}

impl DeepView for Acl {
    type V = SpecAcl;

    open spec fn deep_view(&self) -> SpecAcl {
        self@
    }
}

/// Creates a node.
#[derive(Debug, PartialEq, Eq)]
pub struct CreateRequest {
    pub path: String,
    pub data: Vec<u8>,
    pub acl: Vec<Acl>,
    pub flags: i32,
}

impl View for CreateRequest {
    type V = SpecCreateRequest;

    open spec fn view(&self) -> SpecCreateRequest {
        SpecCreateRequest {
            path: self.path@,
            data: self.data@,
            acl: self.acl.deep_view(),
            flags: self.flags,
        }
    }
}

/// Writes the data of a node.
#[derive(Debug, PartialEq, Eq)]
pub struct SetDataRequest {
    path: String,
    data: Vec<u8>,
    version: i32,
}

impl View for SetDataRequest {
    type V = SpecSetDataRequest;

    closed spec fn view(&self) -> SpecSetDataRequest {
        SpecSetDataRequest { path: self.path@, data: self.data@, version: self.version }
    }
}

/// Deletes a node.
#[derive(Debug, PartialEq, Eq)]
pub struct DeleteRequest {
    pub path: String,
    pub version: i32,
}

impl View for DeleteRequest {
    type V = SpecDeleteRequest;

    open spec fn view(&self) -> SpecDeleteRequest {
        SpecDeleteRequest { path: self.path@, version: self.version }
    }
}

/// Lists the children of a node.
#[derive(Debug, PartialEq, Eq)]
pub struct GetChildrenRequest {
    pub path: String,
    pub watch: bool,
}

impl View for GetChildrenRequest {
    type V = SpecGetChildrenRequest;

    open spec fn view(&self) -> SpecGetChildrenRequest {
        SpecGetChildrenRequest { path: self.path@, watch: self.watch }
    }
}

/// Asks whether a node exists.
#[derive(Debug, PartialEq, Eq)]
pub struct ExistsRequest {
    pub path: String,
    pub watch: bool,
}

impl View for ExistsRequest {
    type V = SpecExistsRequest;

    open spec fn view(&self) -> SpecExistsRequest {
        SpecExistsRequest { path: self.path@, watch: self.watch }
    }
}

/// Reads the access-control list of a node.
#[derive(Debug, PartialEq, Eq)]
pub struct GetAclRequest {
    pub path: String,
}

impl View for GetAclRequest {
    type V = SpecGetAclRequest;

    open spec fn view(&self) -> SpecGetAclRequest {
        SpecGetAclRequest { path: self.path@ }
    }
}

/// Writes the access-control list of a node.
#[derive(Debug, PartialEq, Eq)]
pub struct SetAclRequest {
    path: String,
    acl: Vec<Acl>,
    version: i32,
}

impl View for SetAclRequest {
    type V = SpecSetAclRequest;

    closed spec fn view(&self) -> SpecSetAclRequest {
        SpecSetAclRequest { path: self.path@, acl: self.acl.deep_view(), version: self.version }
    }
}

/// Re-registers the watches of a session.
#[derive(Debug, PartialEq, Eq)]
pub struct SetWatchesRequest {
    relative_zxid: i64,
    data_watches: Vec<String>,
    exist_watches: Vec<String>,
    child_watches: Vec<String>,
}

impl View for SetWatchesRequest {
    type V = SpecSetWatchesRequest;

    closed spec fn view(&self) -> SpecSetWatchesRequest {
        SpecSetWatchesRequest {
            relative_zxid: self.relative_zxid,
            data_watches: self.data_watches.deep_view(),
            exist_watches: self.exist_watches.deep_view(),
            child_watches: self.child_watches.deep_view(),
        }
    }
}

/// The body of a request.
#[derive(Debug, PartialEq, Eq)]
pub enum Request {
    Connect(ConnectRequest),
    Create(CreateRequest),
    Delete(DeleteRequest),
    Exists(ExistsRequest),
    GetData(GetDataRequest),
    SetData(SetDataRequest),
    GetAcl(GetAclRequest),
    SetAcl(SetAclRequest),
    GetChildren(GetChildrenRequest),
    GetChildren2(GetChildrenRequest),
    Ping(PingRequest),
    GetChildren3(GetChildrenRequest),
    Close(PingRequest),
    SetWatches(SetWatchesRequest),
}

impl View for Request {
    type V = SpecRequest;

    open spec fn view(&self) -> SpecRequest {
        match self {
            Request::Connect(r) => SpecRequest::Connect(r@),
            Request::Create(r) => SpecRequest::Create(r@),
            Request::Delete(r) => SpecRequest::Delete(r@),
            Request::Exists(r) => SpecRequest::Exists(r@),
            Request::GetData(r) => SpecRequest::GetData(r@),
            Request::SetData(r) => SpecRequest::SetData(r@),
            Request::GetAcl(r) => SpecRequest::GetAcl(r@),
            Request::SetAcl(r) => SpecRequest::SetAcl(r@),
            Request::GetChildren(r) => SpecRequest::GetChildren(r@),
            Request::GetChildren2(r) => SpecRequest::GetChildren2(r@),
            Request::Ping(_) => SpecRequest::Ping,
            Request::GetChildren3(r) => SpecRequest::GetChildren3(r@),
            Request::Close(_) => SpecRequest::Close,
            Request::SetWatches(r) => SpecRequest::SetWatches(r@),
        }
    }
}

/// A request as it travels: a header, except for connect requests, and a body.
#[derive(Debug, PartialEq, Eq)]
pub struct RequestPacket {
    pub request_header: Option<RequestHeader>,
    pub request: Request,
}

impl View for RequestPacket {
    type V = SpecRequestPacket;

    open spec fn view(&self) -> SpecRequestPacket {
        SpecRequestPacket { request_header: self.request_header, request: self.request@ }
    }
}

/// The header of a request: its transaction id and its operation.
#[derive(Debug, Clone, Copy, PartialEq, Eq)]
pub struct RequestHeader {
    pub xid: i32,
    pub opcode: i32,
}

/// A response as it travels: a header, except for connect responses, and a body.
#[derive(Debug, PartialEq, Eq)]
pub struct ResponsePacket {
    pub response_header: Option<ReplyHeader>,
    pub response: ZkResponse,
}

impl View for ResponsePacket {
    type V = SpecResponsePacket;

    open spec fn view(&self) -> SpecResponsePacket {
        SpecResponsePacket { response_header: self.response_header, response: self.response@ }
    }
}

/// The body of a response.
#[derive(Debug, PartialEq, Eq)]
pub enum ZkResponse {
    Connect(ConnectResponse),
    GetData(GetDataResponse),
    GetChildren2 { children: Vec<String>, stat: Stat },
    GetAcl { acl: Vec<Acl>, stat: Stat },
    Ping,
    Stat(Stat),
    Empty,
    Strings(Vec<String>),
    String(String),
    Multi(Vec<Result<ZkResponse, ZkError>>),
}

impl View for ZkResponse {
    type V = SpecZkResponse;

    open spec fn view(&self) -> SpecZkResponse {
        match self {
            ZkResponse::Connect(r) => SpecZkResponse::Connect(r@),
            ZkResponse::GetData(r) => SpecZkResponse::GetData(r@),
            ZkResponse::GetChildren2 { children, stat } => SpecZkResponse::GetChildren2 {
                children: children.deep_view(),
                stat: *stat,
            },
            ZkResponse::GetAcl { acl, stat } => SpecZkResponse::GetAcl {
                acl: acl.deep_view(),
                stat: *stat,
            },
            ZkResponse::Ping => SpecZkResponse::Ping,
            ZkResponse::Stat(s) => SpecZkResponse::Stat(*s),
            ZkResponse::Empty => SpecZkResponse::Empty,
            ZkResponse::Strings(v) => SpecZkResponse::Strings(v.deep_view()),
            ZkResponse::String(s) => SpecZkResponse::String(s@),
            ZkResponse::Multi(_) => SpecZkResponse::Multi,
        }
    }
}

/// The header of a response: the transaction id it answers, the last
/// transaction the server has seen, and an error code.
#[derive(Debug, Clone, Copy, PartialEq, Eq)]
pub struct ReplyHeader {
    pub xid: i32,
    pub zxid: i64,
    pub err: i32,
}

/// The answer to a connect request.
#[derive(Debug, PartialEq, Eq)]
pub struct ConnectResponse {
    pub protocol_version: i32,
    pub timeout: i32,
    pub session_id: i64,
    pub passwd: Vec<u8>,
    pub read_only: bool,
}

impl View for ConnectResponse {
    type V = SpecConnectResponse;

    open spec fn view(&self) -> SpecConnectResponse {
        SpecConnectResponse {
            protocol_version: self.protocol_version,
            timeout: self.timeout,
            session_id: self.session_id,
            passwd: self.passwd@,
            read_only: self.read_only,
        }
    }
}

/// The metadata of a node.
#[derive(Debug, Clone, Copy, PartialEq, Eq)]
pub struct Stat {
    pub czxid: i64,
    /// The last transaction that modified the znode.
    pub mzxid: i64,
    /// Milliseconds since epoch when the znode was created.
    pub ctime: i64,
    /// Milliseconds since epoch when the znode was last modified.
    pub mtime: i64,
    /// The number of changes to the data of the znode.
    pub version: i32,
    /// The number of changes to the children of the znode.
    pub cversion: i32,
    /// The number of changes to the ACL of the znode.
    pub aversion: i32,
    /// The session ID of the owner of this znode, if it is an ephemeral entry.
    pub ephemeral_owner: i64,
    /// The length of the data field of the znode.
    pub data_length: i32,
    /// The number of children this znode has.
    pub num_children: i32,
    /// The transaction ID that last modified the children of the znode.
    pub pzxid: i64,
}

/// The answer to a get-data request.
#[derive(Debug, PartialEq, Eq)]
pub struct GetDataResponse {
    pub data: Vec<u8>,
    stat: Stat,
}

impl GetDataResponse {
    /// A response that carries `data` and the metadata `stat`.
    pub fn new(data: Vec<u8>, stat: Stat) -> (r: GetDataResponse)
        ensures
            r@ == (SpecGetDataResponse { data: data@, stat }),
    {
        GetDataResponse { data, stat }
    }
}

impl View for GetDataResponse {
    type V = SpecGetDataResponse;

    closed spec fn view(&self) -> SpecGetDataResponse {
        SpecGetDataResponse { data: self.data@, stat: self.stat }
    }
}

/// Appends a byte string with its length in front.
fn write_bytes(buffer: &mut BytesMut, data: &[u8])
    requires
        buf_bytes(*old(buffer)).len() + wire_bytes(data@).len() <= isize::MAX,
    ensures
        buf_bytes(*final(buffer)) == buf_bytes(*old(buffer)) + wire_bytes(data@),
{
    let ghost start = buf_bytes(*buffer);
    buf_put_i32(buffer, data.len() as i32);
    buf_extend_from_slice(buffer, data);
    assert(buf_bytes(*buffer) =~= start + wire_bytes(data@));
}

/// Appends a text as its UTF-8 bytes with their length in front.
fn write_str(buffer: &mut BytesMut, text: &String)
    requires
        buf_bytes(*old(buffer)).len() + wire_str(text@).len() <= isize::MAX,
    ensures
        buf_bytes(*final(buffer)) == buf_bytes(*old(buffer)) + wire_str(text@),
{
    write_bytes(buffer, text.as_str().as_bytes());
}

/// The number of bytes of the UTF-8 encoding of a text.
fn text_size(text: &String) -> (n: usize)
    ensures
        n == text_len(text@),
{
    text.as_str().as_bytes().len()
}

/// Appends an access-control entry.
fn write_acl(buffer: &mut BytesMut, acl: &Acl)
    requires
        buf_bytes(*old(buffer)).len() + wire_acl(acl@).len() <= isize::MAX,
    ensures
        buf_bytes(*final(buffer)) == buf_bytes(*old(buffer)) + wire_acl(acl@),
{
    let ghost start = buf_bytes(*buffer);
    buf_put_i32(buffer, acl.perms);
    write_bytes(buffer, acl.scheme.as_slice());
    write_bytes(buffer, acl.cred.as_slice());
    assert(buf_bytes(*buffer) =~= start + wire_acl(acl@));
}

/// Appends an access-control list with its count in front.
fn write_acl_list(buffer: &mut BytesMut, acl: &Vec<Acl>)
    requires
        buf_bytes(*old(buffer)).len() + wire_acl_list(acl.deep_view()).len() <= isize::MAX,
    ensures
        buf_bytes(*final(buffer)) == buf_bytes(*old(buffer)) + wire_acl_list(acl.deep_view()),
{
    let ghost start = buf_bytes(*buffer);
    let ghost all = acl.deep_view();
    buf_put_i32(buffer, acl.len() as i32);
    let mut i: usize = 0;
    assert(all.take(0) =~= Seq::<SpecAcl>::empty());
    while i < acl.len()
        invariant
            i <= acl.len(),
            all == acl.deep_view(),
            start.len() + wire_acl_list(all).len() <= isize::MAX,
            buf_bytes(*buffer) == start + crate::buffer::be32(all.len() as i32) + concat_map(
                all.take(i as int),
                acl_encoder(),
            ),
        decreases acl.len() - i,
    {
        proof {
            lemma_concat_map_prefix(all, acl_encoder(), i as int);
            lemma_concat_map_prefix(all, acl_encoder(), (i + 1) as int);
            assert(acl_encoder()(all[i as int]) == wire_acl(acl[i as int]@));
        }
        write_acl(buffer, &acl[i]);
        i = i + 1;
        proof {
            assert(buf_bytes(*buffer) =~= start + crate::buffer::be32(all.len() as i32) + concat_map(
                all.take(i as int),
                acl_encoder(),
            ));
        }
    }
    assert(all.take(acl.len() as int) =~= all);
    assert(buf_bytes(*buffer) =~= start + wire_acl_list(all));
}

/// Appends a list of texts with its count in front.
fn write_str_list(buffer: &mut BytesMut, list: &Vec<String>)
    requires
        buf_bytes(*old(buffer)).len() + wire_str_list(list.deep_view()).len() <= isize::MAX,
    ensures
        buf_bytes(*final(buffer)) == buf_bytes(*old(buffer)) + wire_str_list(list.deep_view()),
{
    let ghost start = buf_bytes(*buffer);
    let ghost all = list.deep_view();
    buf_put_i32(buffer, list.len() as i32);
    let mut i: usize = 0;
    assert(all.take(0) =~= Seq::<Seq<char>>::empty());
    while i < list.len()
        invariant
            i <= list.len(),
            all == list.deep_view(),
            start.len() + wire_str_list(all).len() <= isize::MAX,
            buf_bytes(*buffer) == start + crate::buffer::be32(all.len() as i32) + concat_map(
                all.take(i as int),
                str_encoder(),
            ),
        decreases list.len() - i,
    {
        proof {
            lemma_concat_map_prefix(all, str_encoder(), i as int);
            lemma_concat_map_prefix(all, str_encoder(), (i + 1) as int);
            assert(str_encoder()(all[i as int]) == wire_str(list[i as int]@));
        }
        write_str(buffer, &list[i]);
        i = i + 1;
        proof {
            assert(buf_bytes(*buffer) =~= start + crate::buffer::be32(all.len() as i32) + concat_map(
                all.take(i as int),
                str_encoder(),
            ));
        }
    }
    assert(all.take(list.len() as int) =~= all);
    assert(buf_bytes(*buffer) =~= start + wire_str_list(all));
}

/// The sum of the sizes of the entries of an access-control list.
fn acl_list_size(acl: &Vec<Acl>) -> (n: usize)
    requires
        sum_map(acl.deep_view(), acl_sizer()) <= usize::MAX,
    ensures
        n == sum_map(acl.deep_view(), acl_sizer()),
{
    let ghost all = acl.deep_view();
    let mut n: usize = 0;
    let mut i: usize = 0;
    assert(all.take(0) =~= Seq::<SpecAcl>::empty());
    assert forall|k: int| 0 <= k < all.len() implies acl_sizer()(#[trigger] all[k]) >= 0 by {}
    while i < acl.len()
        invariant
            i <= acl.len(),
            all == acl.deep_view(),
            sum_map(all, acl_sizer()) <= usize::MAX,
            forall|k: int| 0 <= k < all.len() ==> acl_sizer()(#[trigger] all[k]) >= 0,
            n == sum_map(all.take(i as int), acl_sizer()),
        decreases acl.len() - i,
    {
        proof {
            lemma_sum_map_prefix(all, acl_sizer(), i as int);
            lemma_sum_map_prefix(all, acl_sizer(), (i + 1) as int);
        }
        let a = &acl[i];
        n = n + (4 + 4 + a.scheme.len() + 4 + a.cred.len());
        i = i + 1;
    }
    assert(all.take(acl.len() as int) =~= all);
    n
}

/// The sum of the sizes of the texts of a list, four bytes of length each
/// included.
fn str_list_size(list: &Vec<String>) -> (n: usize)
    requires
        sum_map(list.deep_view(), str_sizer()) <= usize::MAX,
    ensures
        n == sum_map(list.deep_view(), str_sizer()),
{
    let ghost all = list.deep_view();
    let mut n: usize = 0;
    let mut i: usize = 0;
    assert(all.take(0) =~= Seq::<Seq<char>>::empty());
    assert forall|k: int| 0 <= k < all.len() implies str_sizer()(#[trigger] all[k]) >= 0 by {}
    while i < list.len()
        invariant
            i <= list.len(),
            all == list.deep_view(),
            sum_map(all, str_sizer()) <= usize::MAX,
            forall|k: int| 0 <= k < all.len() ==> str_sizer()(#[trigger] all[k]) >= 0,
            n == sum_map(all.take(i as int), str_sizer()),
        decreases list.len() - i,
    {
        proof {
            lemma_sum_map_prefix(all, str_sizer(), i as int);
            lemma_sum_map_prefix(all, str_sizer(), (i + 1) as int);
        }
        n = n + (4 + text_size(&list[i]));
        i = i + 1;
    }
    assert(all.take(list.len() as int) =~= all);
    n
}

/// Reads a big-endian `i32` from the front of `bytes`.
pub(crate) fn read_i32(bytes: &mut BytesMut) -> (r: Decoded<i32>)
    ensures
        decoded_as(r, parse_i32(buf_bytes(*old(bytes))), buf_bytes(*final(bytes)), |x: i32| x),
{
    if buf_len(bytes) < 4 {
        return Decoded::Aborts;
    }
    Decoded::Done(buf_get_i32(bytes))
}

/// Reads a big-endian `i64` from the front of `bytes`.
pub(crate) fn read_i64(bytes: &mut BytesMut) -> (r: Decoded<i64>)
    ensures
        decoded_as(r, parse_i64(buf_bytes(*old(bytes))), buf_bytes(*final(bytes)), |x: i64| x),
{
    if buf_len(bytes) < 8 {
        return Decoded::Aborts;
    }
    Decoded::Done(buf_get_i64(bytes))
}

/// Reads one byte from the front of `bytes`.
pub(crate) fn read_u8(bytes: &mut BytesMut) -> (r: Decoded<u8>)
    ensures
        decoded_as(r, parse_u8(buf_bytes(*old(bytes))), buf_bytes(*final(bytes)), |x: u8| x),
{
    if buf_len(bytes) < 1 {
        return Decoded::Aborts;
    }
    Decoded::Done(buf_get_u8(bytes))
}

/// Fails when a length is below a minimum.
pub fn ensure_min_length(len: i32, min: i32) -> (r: Result<(), ZkError>)
    ensures
        len < min ==> r == Err::<(), ZkError>(ZkError::InvalidPacketLength(len)),
        len >= min ==> r is Ok,
{
    if len < min {
        return Err(ZkError::InvalidPacketLength(len));
    }
    Ok(())
}

/// Accepts every length: no upper bound is placed on a field.
pub fn ensure_max_len(len: usize) -> (r: Result<(), ZkError>)
    ensures
        r is Ok,
{
    Ok(())
}

/// Reads a byte string with its length in front (see `parse_data`).
pub(crate) fn get_data(bytes: &mut BytesMut) -> (r: Decoded<Vec<u8>>)
    ensures
        decoded(r, parse_data(buf_bytes(*old(bytes))), buf_bytes(*final(bytes))),
{
    let len = match read_i32(bytes) {
        Decoded::Done(v) => v,
        Decoded::Failed(e) => return Decoded::Failed(e),
        Decoded::Aborts => return Decoded::Aborts,
    };
    if len <= 0 {
        return Decoded::Done(Vec::new());
    }
    if buf_len(bytes) < len as usize {
        return Decoded::Failed(ZkError::InvalidPacketLength(len));
    }
    if let Err(e) = ensure_max_len(len as usize) {
        return Decoded::Failed(e);
    }
    Decoded::Done(buf_copy_to_vec(bytes, len as usize))
}

/// Reads a text with its length in front (see `parse_str`).
pub(crate) fn get_str(bytes: &mut BytesMut) -> (r: Decoded<String>)
    ensures
        decoded(r, parse_str(buf_bytes(*old(bytes))), buf_bytes(*final(bytes))),
{
    let len = match read_i32(bytes) {
        Decoded::Done(v) => v,
        Decoded::Failed(e) => return Decoded::Failed(e),
        Decoded::Aborts => return Decoded::Aborts,
    };
    if len <= 0 {
        return Decoded::Done(String::new());
    }
    if buf_len(bytes) < len as usize {
        return Decoded::Failed(ZkError::InvalidPacketLength(len));
    }
    if let Err(e) = ensure_max_len(len as usize) {
        return Decoded::Failed(e);
    }
    let v = buf_copy_to_vec(bytes, len as usize);
    match string_from_utf8(v) {
        Some(s) => Decoded::Done(s),
        None => Decoded::Failed(ZkError::InvalidString),
    }
}

/// Reads a trailing flag byte, if one is left (see `parse_trailing_bool`).
fn maybe_read_bool(bytes: &mut BytesMut) -> (b: bool)
    ensures
        (b, buf_bytes(*final(bytes))) == parse_trailing_bool(buf_bytes(*old(bytes))),
{
    if buf_remaining(bytes) >= 1 {
        buf_get_u8(bytes) == 1
    } else {
        false
    }
}

/// Reads an access-control list with its count in front (see `parse_acl_list`).
pub(crate) fn get_acl(bytes: &mut BytesMut) -> (r: Decoded<Vec<Acl>>)
    ensures
        decoded_as(
            r,
            parse_acl_list(buf_bytes(*old(bytes))),
            buf_bytes(*final(bytes)),
            |v: Vec<Acl>| v.deep_view(),
        ),
{
    let len = match read_i32(bytes) {
        Decoded::Done(v) => v,
        Decoded::Failed(e) => return Decoded::Failed(e),
        Decoded::Aborts => return Decoded::Aborts,
    };
    if len <= 0 {
        let v: Vec<Acl> = Vec::new();
        assert(v.deep_view() =~= Seq::<SpecAcl>::empty());
        return Decoded::Done(v);
    }
    if buf_len(bytes) < len as usize {
        return Decoded::Failed(ZkError::InvalidPacketLength(len));
    }
    if let Err(e) = ensure_max_len(len as usize) {
        return Decoded::Failed(e);
    }
    let ghost start = buf_bytes(*bytes);
    let ghost entry = acl_reader();
    let mut vec: Vec<Acl> = Vec::new();
    let mut i: i32 = 0;
    assert(vec.deep_view() =~= Seq::<SpecAcl>::empty());
    while i < len
        invariant
            0 <= i <= len,
            entry == acl_reader(),
            parse_acl_list(buf_bytes(*old(bytes))) == parse_repeat(entry, start, len as nat),
            parse_repeat(entry, start, i as nat) == SpecParse::Done(vec.deep_view(), buf_bytes(*bytes)),
        decreases len - i,
    {
        let ghost cur = buf_bytes(*bytes);
        let ghost before = vec.deep_view();
        proof {
            lemma_repeat_next(entry, start, i as nat, before, cur);
            assert(entry(cur) == parse_acl_entry(cur));
        }
        let perms = match read_i32(bytes) {
            Decoded::Done(v) => v,
            Decoded::Failed(e) => return Decoded::Failed(e),
            Decoded::Aborts => {
                proof {
                    assert(parse_acl_entry(cur) is Aborts);
                    lemma_repeat_stops(entry, start, (i + 1) as nat, len as nat);
                }
                return Decoded::Aborts;
            },
        };
        let scheme = match get_data(bytes) {
            Decoded::Done(v) => v,
            Decoded::Failed(e) => {
                proof {
                    assert(parse_acl_entry(cur) == SpecParse::<SpecAcl>::Failed(e, buf_bytes(*bytes)));
                    lemma_repeat_stops(entry, start, (i + 1) as nat, len as nat);
                }
                return Decoded::Failed(e);
            },
            Decoded::Aborts => {
                proof {
                    assert(parse_acl_entry(cur) is Aborts);
                    lemma_repeat_stops(entry, start, (i + 1) as nat, len as nat);
                }
                return Decoded::Aborts;
            },
        };
        let cred = match get_data(bytes) {
            Decoded::Done(v) => v,
            Decoded::Failed(e) => {
                proof {
                    assert(parse_acl_entry(cur) == SpecParse::<SpecAcl>::Failed(e, buf_bytes(*bytes)));
                    lemma_repeat_stops(entry, start, (i + 1) as nat, len as nat);
                }
                return Decoded::Failed(e);
            },
            Decoded::Aborts => {
                proof {
                    assert(parse_acl_entry(cur) is Aborts);
                    lemma_repeat_stops(entry, start, (i + 1) as nat, len as nat);
                }
                return Decoded::Aborts;
            },
        };
        let acl = Acl { perms, scheme, cred };
        vec.push(acl);
        proof {
            assert(parse_acl_entry(cur) == SpecParse::Done(acl@, buf_bytes(*bytes)));
            assert(vec.deep_view() =~= before.push(acl@));
        }
        i = i + 1;
    }
    Decoded::Done(vec)
}

/// Reads a list of texts with its count in front (see `parse_str_list`).
pub(crate) fn get_str_vec(bytes: &mut BytesMut) -> (r: Decoded<Vec<String>>)
    ensures
        decoded_as(
            r,
            parse_str_list(buf_bytes(*old(bytes))),
            buf_bytes(*final(bytes)),
            |v: Vec<String>| v.deep_view(),
        ),
{
    let count = match read_i32(bytes) {
        Decoded::Done(v) => v,
        Decoded::Failed(e) => return Decoded::Failed(e),
        Decoded::Aborts => return Decoded::Aborts,
    };
    if count < 0 {
        return Decoded::Aborts;
    }
    let ghost start = buf_bytes(*bytes);
    let ghost entry = str_reader();
    let mut vec: Vec<String> = Vec::new();
    let mut i: i32 = 0;
    assert(vec.deep_view() =~= Seq::<Seq<char>>::empty());
    while i < count
        invariant
            0 <= i <= count,
            entry == str_reader(),
            parse_str_list(buf_bytes(*old(bytes))) == parse_repeat(entry, start, count as nat),
            parse_repeat(entry, start, i as nat) == SpecParse::Done(vec.deep_view(), buf_bytes(*bytes)),
        decreases count - i,
    {
        let ghost cur = buf_bytes(*bytes);
        let ghost before = vec.deep_view();
        proof {
            lemma_repeat_next(entry, start, i as nat, before, cur);
            assert(entry(cur) == parse_str_entry(cur));
        }
        let len = match read_i32(bytes) {
            Decoded::Done(v) => v,
            Decoded::Failed(e) => return Decoded::Failed(e),
            Decoded::Aborts => {
                proof {
                    assert(parse_str_entry(cur) is Aborts);
                    lemma_repeat_stops(entry, start, (i + 1) as nat, count as nat);
                }
                return Decoded::Aborts;
            },
        };
        if len < 0 || buf_len(bytes) < len as usize {
            proof {
                assert(parse_str_entry(cur) is Aborts);
                lemma_repeat_stops(entry, start, (i + 1) as nat, count as nat);
            }
            return Decoded::Aborts;
        }
        let raw = buf_split_to_vec(bytes, len as usize);
        match string_from_utf8(raw) {
            Some(text) => {
                vec.push(text);
                proof {
                    assert(parse_str_entry(cur) == SpecParse::Done(text@, buf_bytes(*bytes)));
                    assert(vec.deep_view() =~= before.push(text@));
                }
            },
            None => {
                proof {
                    assert(parse_str_entry(cur) == SpecParse::<Seq<char>>::Failed(
                        ZkError::InvalidString,
                        buf_bytes(*bytes),
                    ));
                    lemma_repeat_stops(entry, start, (i + 1) as nat, count as nat);
                }
                return Decoded::Failed(ZkError::InvalidString);
            },
        }
        i = i + 1;
    }
    Decoded::Done(vec)
}

/// Reads a byte string whose length, in front, must be neither negative nor
/// beyond the bytes left (see `parse_raw`).
fn get_raw(bytes: &mut BytesMut) -> (r: Decoded<Vec<u8>>)
    ensures
        decoded(r, parse_raw(buf_bytes(*old(bytes))), buf_bytes(*final(bytes))),
{
    let len = match read_i32(bytes) {
        Decoded::Done(v) => v,
        Decoded::Failed(e) => return Decoded::Failed(e),
        Decoded::Aborts => return Decoded::Aborts,
    };
    if len < 0 || buf_len(bytes) < len as usize {
        return Decoded::Aborts;
    }
    Decoded::Done(buf_split_to_vec(bytes, len as usize))
}

/// Reads a password of the announced length (see `parse_passwd`).
fn get_passwd(len: i32, bytes: &mut BytesMut) -> (r: Decoded<Vec<u8>>)
    ensures
        decoded(r, parse_passwd(len, buf_bytes(*old(bytes))), buf_bytes(*final(bytes))),
{
    if len > 0 {
        if buf_len(bytes) < len as usize {
            return Decoded::Aborts;
        }
        Decoded::Done(buf_copy_to_vec(bytes, len as usize))
    } else {
        Decoded::Done(Vec::new())
    }
}

impl Deserialize for PingRequest {
    open spec fn parse_spec(s: Seq<u8>) -> SpecParse<PingRequest> {
        SpecParse::Done(PingRequest, s)
    }

    fn try_deserialize(bytes: &mut BytesMut) -> (r: Decoded<PingRequest>) {
        Decoded::Done(PingRequest {  })
    }
}

impl Deserialize for ConnectRequest {
    /// The protocol version is not read: it is the field in front of the
    /// request, read by the caller, and the request carries 0.
    open spec fn parse_spec(s: Seq<u8>) -> SpecParse<SpecConnectRequest> {
        parse_connect_request(s)
    }

    fn try_deserialize(bytes: &mut BytesMut) -> (r: Decoded<ConnectRequest>) {
        let last_zxid_seen = match read_i64(bytes) {
            Decoded::Done(v) => v,
            Decoded::Failed(e) => return Decoded::Failed(e),
            Decoded::Aborts => return Decoded::Aborts,
        };
        let timeout = match read_i32(bytes) {
            Decoded::Done(v) => v,
            Decoded::Failed(e) => return Decoded::Failed(e),
            Decoded::Aborts => return Decoded::Aborts,
        };
        let session_id = match read_i64(bytes) {
            Decoded::Done(v) => v,
            Decoded::Failed(e) => return Decoded::Failed(e),
            Decoded::Aborts => return Decoded::Aborts,
        };
        let passwd_len = match read_i32(bytes) {
            Decoded::Done(v) => v,
            Decoded::Failed(e) => return Decoded::Failed(e),
            Decoded::Aborts => return Decoded::Aborts,
        };
        let passwd = match get_passwd(passwd_len, bytes) {
            Decoded::Done(v) => v,
            Decoded::Failed(e) => return Decoded::Failed(e),
            Decoded::Aborts => return Decoded::Aborts,
        };
        let read_only = maybe_read_bool(bytes);
        Decoded::Done(
            ConnectRequest {
                protocol_version: 0,
                last_zxid_seen,
                timeout,
                session_id,
                passwd,
                read_only,
            },
        )
    }
}

impl Deserialize for ConnectResponse {
    /// The protocol version is not read: it is the field in front of the
    /// response, read by the caller, and the response carries 0.
    open spec fn parse_spec(s: Seq<u8>) -> SpecParse<SpecConnectResponse> {
        parse_connect_response(s)
    }

    fn try_deserialize(bytes: &mut BytesMut) -> (r: Decoded<ConnectResponse>) {
        let timeout = match read_i32(bytes) {
            Decoded::Done(v) => v,
            Decoded::Failed(e) => return Decoded::Failed(e),
            Decoded::Aborts => return Decoded::Aborts,
        };
        let session_id = match read_i64(bytes) {
            Decoded::Done(v) => v,
            Decoded::Failed(e) => return Decoded::Failed(e),
            Decoded::Aborts => return Decoded::Aborts,
        };
        let passwd_len = match read_i32(bytes) {
            Decoded::Done(v) => v,
            Decoded::Failed(e) => return Decoded::Failed(e),
            Decoded::Aborts => return Decoded::Aborts,
        };
        let passwd = match get_passwd(passwd_len, bytes) {
            Decoded::Done(v) => v,
            Decoded::Failed(e) => return Decoded::Failed(e),
            Decoded::Aborts => return Decoded::Aborts,
        };
        let read_only = if buf_len(bytes) > 0 {
            buf_get_u8(bytes) == 1
        } else {
            false
        };
        Decoded::Done(
            ConnectResponse { protocol_version: 0, timeout, session_id, passwd, read_only },
        )
    }
}

impl View for Stat {
    type V = Stat;

    open spec fn view(&self) -> Stat {
        *self
    }
}

impl Deserialize for Stat {
    open spec fn parse_spec(s: Seq<u8>) -> SpecParse<Stat> {
        parse_stat(s)
    }

    fn try_deserialize(bytes: &mut BytesMut) -> (r: Decoded<Stat>) {
        if buf_len(bytes) < 68 {
            return Decoded::Aborts;
        }
        let ghost s = buf_bytes(*bytes);
        let czxid = buf_get_i64(bytes);
        assert(buf_bytes(*bytes) =~= s.skip(8));
        let mzxid = buf_get_i64(bytes);
        assert(buf_bytes(*bytes) =~= s.skip(16));
        let ctime = buf_get_i64(bytes);
        assert(buf_bytes(*bytes) =~= s.skip(24));
        let mtime = buf_get_i64(bytes);
        assert(buf_bytes(*bytes) =~= s.skip(32));
        let version = buf_get_i32(bytes);
        assert(buf_bytes(*bytes) =~= s.skip(36));
        let cversion = buf_get_i32(bytes);
        assert(buf_bytes(*bytes) =~= s.skip(40));
        let aversion = buf_get_i32(bytes);
        assert(buf_bytes(*bytes) =~= s.skip(44));
        let ephemeral_owner = buf_get_i64(bytes);
        assert(buf_bytes(*bytes) =~= s.skip(52));
        let data_length = buf_get_i32(bytes);
        assert(buf_bytes(*bytes) =~= s.skip(56));
        let num_children = buf_get_i32(bytes);
        assert(buf_bytes(*bytes) =~= s.skip(60));
        let pzxid = buf_get_i64(bytes);
        assert(buf_bytes(*bytes) =~= s.skip(68));
        Decoded::Done(
            Stat {
                czxid,
                mzxid,
                ctime,
                mtime,
                version,
                cversion,
                aversion,
                ephemeral_owner,
                data_length,
                num_children,
                pzxid,
            },
        )
    }
}

impl Deserialize for GetDataRequest {
    open spec fn parse_spec(s: Seq<u8>) -> SpecParse<SpecGetDataRequest> {
        parse_get_data_request(s)
    }

    fn try_deserialize(bytes: &mut BytesMut) -> (r: Decoded<GetDataRequest>) {
        let path = match get_str(bytes) {
            Decoded::Done(v) => v,
            Decoded::Failed(e) => return Decoded::Failed(e),
            Decoded::Aborts => return Decoded::Aborts,
        };
        let watch = match read_u8(bytes) {
            Decoded::Done(v) => v == 1,
            Decoded::Failed(e) => return Decoded::Failed(e),
            Decoded::Aborts => return Decoded::Aborts,
        };
        Decoded::Done(GetDataRequest { path, watch })
    }
}

impl Deserialize for SetDataRequest {
    open spec fn parse_spec(s: Seq<u8>) -> SpecParse<SpecSetDataRequest> {
        parse_set_data_request(s)
    }

    fn try_deserialize(bytes: &mut BytesMut) -> (r: Decoded<SetDataRequest>) {
        let path = match get_str(bytes) {
            Decoded::Done(v) => v,
            Decoded::Failed(e) => return Decoded::Failed(e),
            Decoded::Aborts => return Decoded::Aborts,
        };
        let data = match get_data(bytes) {
            Decoded::Done(v) => v,
            Decoded::Failed(e) => return Decoded::Failed(e),
            Decoded::Aborts => return Decoded::Aborts,
        };
        let version = match read_i32(bytes) {
            Decoded::Done(v) => v,
            Decoded::Failed(e) => return Decoded::Failed(e),
            Decoded::Aborts => return Decoded::Aborts,
        };
        Decoded::Done(SetDataRequest { path, data, version })
    }
}

impl Deserialize for CreateRequest {
    open spec fn parse_spec(s: Seq<u8>) -> SpecParse<SpecCreateRequest> {
        parse_create_request(s)
    }

    fn try_deserialize(bytes: &mut BytesMut) -> (r: Decoded<CreateRequest>) {
        let path = match get_str(bytes) {
            Decoded::Done(v) => v,
            Decoded::Failed(e) => return Decoded::Failed(e),
            Decoded::Aborts => return Decoded::Aborts,
        };
        let data = match get_data(bytes) {
            Decoded::Done(v) => v,
            Decoded::Failed(e) => return Decoded::Failed(e),
            Decoded::Aborts => return Decoded::Aborts,
        };
        let acl = match get_acl(bytes) {
            Decoded::Done(v) => v,
            Decoded::Failed(e) => return Decoded::Failed(e),
            Decoded::Aborts => return Decoded::Aborts,
        };
        let flags = match read_i32(bytes) {
            Decoded::Done(v) => v,
            Decoded::Failed(e) => return Decoded::Failed(e),
            Decoded::Aborts => return Decoded::Aborts,
        };
        Decoded::Done(CreateRequest { path, data, acl, flags })
    }
}

impl Deserialize for DeleteRequest {
    open spec fn parse_spec(s: Seq<u8>) -> SpecParse<SpecDeleteRequest> {
        parse_delete_request(s)
    }

    fn try_deserialize(bytes: &mut BytesMut) -> (r: Decoded<DeleteRequest>) {
        let path = match get_str(bytes) {
            Decoded::Done(v) => v,
            Decoded::Failed(e) => return Decoded::Failed(e),
            Decoded::Aborts => return Decoded::Aborts,
        };
        let version = match read_i32(bytes) {
            Decoded::Done(v) => v,
            Decoded::Failed(e) => return Decoded::Failed(e),
            Decoded::Aborts => return Decoded::Aborts,
        };
        Decoded::Done(DeleteRequest { path, version })
    }
}

impl Deserialize for GetChildrenRequest {
    open spec fn parse_spec(s: Seq<u8>) -> SpecParse<SpecGetChildrenRequest> {
        parse_get_children_request(s)
    }

    fn try_deserialize(bytes: &mut BytesMut) -> (r: Decoded<GetChildrenRequest>) {
        let path = match get_str(bytes) {
            Decoded::Done(v) => v,
            Decoded::Failed(e) => return Decoded::Failed(e),
            Decoded::Aborts => return Decoded::Aborts,
        };
        let watch = match read_u8(bytes) {
            Decoded::Done(v) => v,
            Decoded::Failed(e) => return Decoded::Failed(e),
            Decoded::Aborts => return Decoded::Aborts,
        };
        Decoded::Done(GetChildrenRequest { path, watch: watch != 0 })
    }
}

impl Deserialize for ExistsRequest {
    open spec fn parse_spec(s: Seq<u8>) -> SpecParse<SpecExistsRequest> {
        parse_exists_request(s)
    }

    fn try_deserialize(bytes: &mut BytesMut) -> (r: Decoded<ExistsRequest>) {
        let path = match get_str(bytes) {
            Decoded::Done(v) => v,
            Decoded::Failed(e) => return Decoded::Failed(e),
            Decoded::Aborts => return Decoded::Aborts,
        };
        let watch = match read_u8(bytes) {
            Decoded::Done(v) => v,
            Decoded::Failed(e) => return Decoded::Failed(e),
            Decoded::Aborts => return Decoded::Aborts,
        };
        Decoded::Done(ExistsRequest { path, watch: watch != 0 })
    }
}

impl Deserialize for GetAclRequest {
    open spec fn parse_spec(s: Seq<u8>) -> SpecParse<SpecGetAclRequest> {
        parse_get_acl_request(s)
    }

    fn try_deserialize(bytes: &mut BytesMut) -> (r: Decoded<GetAclRequest>) {
        let path = match get_str(bytes) {
            Decoded::Done(v) => v,
            Decoded::Failed(e) => return Decoded::Failed(e),
            Decoded::Aborts => return Decoded::Aborts,
        };
        Decoded::Done(GetAclRequest { path })
    }
}

impl Deserialize for SetAclRequest {
    open spec fn parse_spec(s: Seq<u8>) -> SpecParse<SpecSetAclRequest> {
        parse_set_acl_request(s)
    }

    fn try_deserialize(bytes: &mut BytesMut) -> (r: Decoded<SetAclRequest>) {
        let path = match get_str(bytes) {
            Decoded::Done(v) => v,
            Decoded::Failed(e) => return Decoded::Failed(e),
            Decoded::Aborts => return Decoded::Aborts,
        };
        let acl_count = match read_i32(bytes) {
            Decoded::Done(v) => v,
            Decoded::Failed(e) => return Decoded::Failed(e),
            Decoded::Aborts => return Decoded::Aborts,
        };
        if acl_count < 0 {
            return Decoded::Aborts;
        }
        let ghost start = buf_bytes(*bytes);
        let ghost entry = raw_acl_reader();
        let mut acl: Vec<Acl> = Vec::new();
        let mut i: i32 = 0;
        assert(acl.deep_view() =~= Seq::<SpecAcl>::empty());
        while i < acl_count
            invariant
                0 <= i <= acl_count,
                entry == raw_acl_reader(),
                parse_repeat(entry, start, acl_count as nat) is Aborts ==> parse_set_acl_request(
                    buf_bytes(*old(bytes)),
                ) is Aborts,
                parse_repeat(entry, start, i as nat) == SpecParse::Done(acl.deep_view(), buf_bytes(*bytes)),
            decreases acl_count - i,
        {
            let ghost cur = buf_bytes(*bytes);
            let ghost before = acl.deep_view();
            proof {
                lemma_repeat_next(entry, start, i as nat, before, cur);
                assert(entry(cur) == parse_raw_acl_entry(cur));
            }
            let perms = match read_i32(bytes) {
                Decoded::Done(v) => v,
                Decoded::Failed(e) => return Decoded::Failed(e),
                Decoded::Aborts => {
                    proof {
                        assert(parse_raw_acl_entry(cur) is Aborts);
                        lemma_repeat_stops(entry, start, (i + 1) as nat, acl_count as nat);
                    }
                    return Decoded::Aborts;
                },
            };
            let scheme = match get_raw(bytes) {
                Decoded::Done(v) => v,
                Decoded::Failed(e) => return Decoded::Failed(e),
                Decoded::Aborts => {
                    proof {
                        assert(parse_raw_acl_entry(cur) is Aborts);
                        lemma_repeat_stops(entry, start, (i + 1) as nat, acl_count as nat);
                    }
                    return Decoded::Aborts;
                },
            };
            let cred = match get_raw(bytes) {
                Decoded::Done(v) => v,
                Decoded::Failed(e) => return Decoded::Failed(e),
                Decoded::Aborts => {
                    proof {
                        assert(parse_raw_acl_entry(cur) is Aborts);
                        lemma_repeat_stops(entry, start, (i + 1) as nat, acl_count as nat);
                    }
                    return Decoded::Aborts;
                },
            };
            let a = Acl { perms, scheme, cred };
            acl.push(a);
            proof {
                assert(parse_raw_acl_entry(cur) == SpecParse::Done(a@, buf_bytes(*bytes)));
                assert(acl.deep_view() =~= before.push(a@));
            }
            i = i + 1;
        }
        let version = match read_i32(bytes) {
            Decoded::Done(v) => v,
            Decoded::Failed(e) => return Decoded::Failed(e),
            Decoded::Aborts => return Decoded::Aborts,
        };
        Decoded::Done(SetAclRequest { path, acl, version })
    }
}

impl Deserialize for SetWatchesRequest {
    open spec fn parse_spec(s: Seq<u8>) -> SpecParse<SpecSetWatchesRequest> {
        parse_set_watches_request(s)
    }

    fn try_deserialize(bytes: &mut BytesMut) -> (r: Decoded<SetWatchesRequest>) {
        let relative_zxid = match read_i64(bytes) {
            Decoded::Done(v) => v,
            Decoded::Failed(e) => return Decoded::Failed(e),
            Decoded::Aborts => return Decoded::Aborts,
        };
        let data_watches = match get_str_vec(bytes) {
            Decoded::Done(v) => v,
            Decoded::Failed(e) => return Decoded::Failed(e),
            Decoded::Aborts => return Decoded::Aborts,
        };
        let exist_watches = match get_str_vec(bytes) {
            Decoded::Done(v) => v,
            Decoded::Failed(e) => return Decoded::Failed(e),
            Decoded::Aborts => return Decoded::Aborts,
        };
        let child_watches = match get_str_vec(bytes) {
            Decoded::Done(v) => v,
            Decoded::Failed(e) => return Decoded::Failed(e),
            Decoded::Aborts => return Decoded::Aborts,
        };
        Decoded::Done(
            SetWatchesRequest { relative_zxid, data_watches, exist_watches, child_watches },
        )
    }
}

} // verus!
verus! {

impl Record for ConnectRequest {
    open spec fn wire(&self) -> Seq<u8> {
        wire_connect_request(self@)
    }

    open spec fn spec_size(&self) -> int {
        size_connect_request(self@)
    }

    open spec fn can_serialize(&self) -> bool {
        true
    }

    fn serialize_into(&self, buffer: &mut BytesMut) -> (r: Result<(), ZkError>) {
        let ghost start = buf_bytes(*buffer);
        buf_put_i32(buffer, self.protocol_version);
        buf_put_i64(buffer, self.last_zxid_seen);
        buf_put_i32(buffer, self.timeout);
        buf_put_i64(buffer, self.session_id);
        write_bytes(buffer, self.passwd.as_slice());
        buf_put_u8(buffer, self.read_only as u8);
        assert(buf_bytes(*buffer) =~= start + self.wire());
        Ok(())
    }

    fn size(&self) -> (n: usize) {
        4 + 8 + 4 + 8 + 4 + self.passwd.len() + 1
    }
}

impl Record for PingRequest {
    open spec fn wire(&self) -> Seq<u8> {
        Seq::empty()
    }

    open spec fn spec_size(&self) -> int {
        0
    }

    open spec fn can_serialize(&self) -> bool {
        true
    }

    fn serialize_into(&self, buffer: &mut BytesMut) -> (r: Result<(), ZkError>) {
        assert(buf_bytes(*buffer) =~= buf_bytes(*buffer) + self.wire());
        Ok(())
    }

    fn size(&self) -> (n: usize) {
        0
    }
}

impl Record for GetDataRequest {
    open spec fn wire(&self) -> Seq<u8> {
        wire_get_data_request(self@)
    }

    open spec fn spec_size(&self) -> int {
        size_path_watch(self.path@)
    }

    open spec fn can_serialize(&self) -> bool {
        true
    }

    fn serialize_into(&self, buffer: &mut BytesMut) -> (r: Result<(), ZkError>) {
        let ghost start = buf_bytes(*buffer);
        write_str(buffer, &self.path);
        buf_put_u8(buffer, self.watch as u8);
        assert(buf_bytes(*buffer) =~= start + self.wire());
        Ok(())
    }

    fn size(&self) -> (n: usize) {
        4 + text_size(&self.path) + 1
    }
}

impl Record for Acl {
    open spec fn wire(&self) -> Seq<u8> {
        wire_acl(self@)
    }

    open spec fn spec_size(&self) -> int {
        crate::wire::size_acl(self@)
    }

    open spec fn can_serialize(&self) -> bool {
        true
    }

    fn serialize_into(&self, buffer: &mut BytesMut) -> (r: Result<(), ZkError>) {
        write_acl(buffer, self);
        Ok(())
    }

    fn size(&self) -> (n: usize) {
        4 + 4 + self.scheme.len() + 4 + self.cred.len()
    }
}

impl Record for SetDataRequest {
    open spec fn wire(&self) -> Seq<u8> {
        wire_set_data_request(self@)
    }

    open spec fn spec_size(&self) -> int {
        size_set_data_request(self@)
    }

    open spec fn can_serialize(&self) -> bool {
        true
    }

    fn serialize_into(&self, buffer: &mut BytesMut) -> (r: Result<(), ZkError>) {
        let ghost start = buf_bytes(*buffer);
        write_str(buffer, &self.path);
        write_bytes(buffer, self.data.as_slice());
        buf_put_i32(buffer, self.version);
        assert(buf_bytes(*buffer) =~= start + self.wire());
        Ok(())
    }

    fn size(&self) -> (n: usize) {
        4 + text_size(&self.path) + 4 + self.data.len() + 4
    }
}

impl Record for CreateRequest {
    open spec fn wire(&self) -> Seq<u8> {
        wire_create_request(self@)
    }

    open spec fn spec_size(&self) -> int {
        size_create_request(self@)
    }

    open spec fn can_serialize(&self) -> bool {
        true
    }

    fn serialize_into(&self, buffer: &mut BytesMut) -> (r: Result<(), ZkError>) {
        let ghost start = buf_bytes(*buffer);
        write_str(buffer, &self.path);
        write_bytes(buffer, self.data.as_slice());
        write_acl_list(buffer, &self.acl);
        buf_put_i32(buffer, self.flags);
        assert(buf_bytes(*buffer) =~= start + self.wire());
        Ok(())
    }

    fn size(&self) -> (n: usize) {
        proof {
            assert forall|k: int| 0 <= k < self.acl.deep_view().len() implies acl_sizer()(
                #[trigger] self.acl.deep_view()[k],
            ) >= 0 by {}
            lemma_sum_map_prefix(self.acl.deep_view(), acl_sizer(), 0);
        }
        4 + text_size(&self.path) + 4 + self.data.len() + 4 + acl_list_size(&self.acl) + 4
    }
}

impl Record for DeleteRequest {
    open spec fn wire(&self) -> Seq<u8> {
        wire_delete_request(self@)
    }

    open spec fn spec_size(&self) -> int {
        size_delete_request(self@)
    }

    open spec fn can_serialize(&self) -> bool {
        true
    }

    fn serialize_into(&self, buffer: &mut BytesMut) -> (r: Result<(), ZkError>) {
        let ghost start = buf_bytes(*buffer);
        write_str(buffer, &self.path);
        buf_put_i32(buffer, self.version);
        assert(buf_bytes(*buffer) =~= start + self.wire());
        Ok(())
    }

    fn size(&self) -> (n: usize) {
        4 + text_size(&self.path) + 4
    }
}

impl Record for GetChildrenRequest {
    open spec fn wire(&self) -> Seq<u8> {
        wire_get_children_request(self@)
    }

    open spec fn spec_size(&self) -> int {
        size_path_watch(self.path@)
    }

    open spec fn can_serialize(&self) -> bool {
        true
    }

    fn serialize_into(&self, buffer: &mut BytesMut) -> (r: Result<(), ZkError>) {
        let ghost start = buf_bytes(*buffer);
        write_str(buffer, &self.path);
        buf_put_u8(buffer, self.watch as u8);
        assert(buf_bytes(*buffer) =~= start + self.wire());
        Ok(())
    }

    fn size(&self) -> (n: usize) {
        4 + text_size(&self.path) + 1
    }
}

impl Record for ExistsRequest {
    open spec fn wire(&self) -> Seq<u8> {
        wire_exists_request(self@)
    }

    open spec fn spec_size(&self) -> int {
        size_path_watch(self.path@)
    }

    open spec fn can_serialize(&self) -> bool {
        true
    }

    fn serialize_into(&self, buffer: &mut BytesMut) -> (r: Result<(), ZkError>) {
        let ghost start = buf_bytes(*buffer);
        write_str(buffer, &self.path);
        buf_put_u8(buffer, self.watch as u8);
        assert(buf_bytes(*buffer) =~= start + self.wire());
        Ok(())
    }

    fn size(&self) -> (n: usize) {
        4 + text_size(&self.path) + 1
    }
}

impl Record for GetAclRequest {
    open spec fn wire(&self) -> Seq<u8> {
        wire_get_acl_request(self@)
    }

    open spec fn spec_size(&self) -> int {
        size_get_acl_request(self@)
    }

    open spec fn can_serialize(&self) -> bool {
        true
    }

    fn serialize_into(&self, buffer: &mut BytesMut) -> (r: Result<(), ZkError>) {
        write_str(buffer, &self.path);
        Ok(())
    }

    fn size(&self) -> (n: usize) {
        4 + text_size(&self.path)
    }
}

impl Record for SetAclRequest {
    open spec fn wire(&self) -> Seq<u8> {
        wire_set_acl_request(self@)
    }

    open spec fn spec_size(&self) -> int {
        size_set_acl_request(self@)
    }

    open spec fn can_serialize(&self) -> bool {
        true
    }

    fn serialize_into(&self, buffer: &mut BytesMut) -> (r: Result<(), ZkError>) {
        let ghost start = buf_bytes(*buffer);
        write_str(buffer, &self.path);
        write_acl_list(buffer, &self.acl);
        buf_put_i32(buffer, self.version);
        assert(buf_bytes(*buffer) =~= start + self.wire());
        Ok(())
    }

    fn size(&self) -> (n: usize) {
        proof {
            assert forall|k: int| 0 <= k < self.acl.deep_view().len() implies acl_sizer()(
                #[trigger] self.acl.deep_view()[k],
            ) >= 0 by {}
            lemma_sum_map_prefix(self.acl.deep_view(), acl_sizer(), 0);
        }
        4 + text_size(&self.path) + 4 + acl_list_size(&self.acl) + 4
    }
}

impl Record for SetWatchesRequest {
    open spec fn wire(&self) -> Seq<u8> {
        wire_set_watches_request(self@)
    }

    open spec fn spec_size(&self) -> int {
        size_set_watches_request(self@)
    }

    open spec fn can_serialize(&self) -> bool {
        true
    }

    fn serialize_into(&self, buffer: &mut BytesMut) -> (r: Result<(), ZkError>) {
        let ghost start = buf_bytes(*buffer);
        buf_put_i64(buffer, self.relative_zxid);
        write_str_list(buffer, &self.data_watches);
        write_str_list(buffer, &self.exist_watches);
        write_str_list(buffer, &self.child_watches);
        assert(buf_bytes(*buffer) =~= start + self.wire());
        Ok(())
    }

    fn size(&self) -> (n: usize) {
        proof {
            assert forall|k: int| 0 <= k < self.data_watches.deep_view().len() implies str_sizer()(
                #[trigger] self.data_watches.deep_view()[k],
            ) >= 0 by {}
            assert forall|k: int| 0 <= k < self.exist_watches.deep_view().len() implies str_sizer()(
                #[trigger] self.exist_watches.deep_view()[k],
            ) >= 0 by {}
            assert forall|k: int| 0 <= k < self.child_watches.deep_view().len() implies str_sizer()(
                #[trigger] self.child_watches.deep_view()[k],
            ) >= 0 by {}
            lemma_sum_map_prefix(self.data_watches.deep_view(), str_sizer(), 0);
            lemma_sum_map_prefix(self.exist_watches.deep_view(), str_sizer(), 0);
            lemma_sum_map_prefix(self.child_watches.deep_view(), str_sizer(), 0);
        }
        8 + 4 + str_list_size(&self.data_watches) + 4 + str_list_size(&self.exist_watches) + 4
            + str_list_size(&self.child_watches)
    }
}

} // verus!

verus! {

impl Record for Request {
    open spec fn wire(&self) -> Seq<u8> {
        wire_request(self@)
    }

    open spec fn spec_size(&self) -> int {
        size_request(self@)
    }

    open spec fn can_serialize(&self) -> bool {
        true
    }

    fn serialize_into(&self, buffer: &mut BytesMut) -> (r: Result<(), ZkError>) {
        match self {
            Request::Create(req) => req.serialize_into(buffer),
            Request::Delete(req) => req.serialize_into(buffer),
            Request::Exists(req) => req.serialize_into(buffer),
            Request::GetData(req) => req.serialize_into(buffer),
            Request::SetData(req) => req.serialize_into(buffer),
            Request::GetAcl(req) => req.serialize_into(buffer),
            Request::SetAcl(req) => req.serialize_into(buffer),
            Request::GetChildren(req) => req.serialize_into(buffer),
            Request::GetChildren2(req) => req.serialize_into(buffer),
            Request::Ping(req) => req.serialize_into(buffer),
            Request::GetChildren3(req) => req.serialize_into(buffer),
            Request::Close(req) => req.serialize_into(buffer),
            Request::SetWatches(req) => req.serialize_into(buffer),
            Request::Connect(req) => req.serialize_into(buffer),
        }
    }

    fn size(&self) -> (n: usize) {
        match self {
            Request::Create(req) => req.size(),
            Request::Delete(req) => req.size(),
            Request::Exists(req) => req.size(),
            Request::GetData(req) => req.size(),
            Request::SetData(req) => req.size(),
            Request::GetAcl(req) => req.size(),
            Request::SetAcl(req) => req.size(),
            Request::GetChildren(req) => req.size(),
            Request::GetChildren2(req) => req.size(),
            Request::Ping(req) => req.size(),
            Request::GetChildren3(req) => req.size(),
            Request::Close(req) => req.size(),
            Request::SetWatches(req) => req.size(),
            Request::Connect(req) => req.size(),
        }
    }
}

impl Record for RequestHeader {
    open spec fn wire(&self) -> Seq<u8> {
        wire_request_header(*self)
    }

    open spec fn spec_size(&self) -> int {
        8
    }

    open spec fn can_serialize(&self) -> bool {
        true
    }

    fn serialize_into(&self, buffer: &mut BytesMut) -> (r: Result<(), ZkError>) {
        let ghost start = buf_bytes(*buffer);
        buf_put_i32(buffer, self.xid);
        buf_put_i32(buffer, self.opcode);
        assert(buf_bytes(*buffer) =~= start + self.wire());
        Ok(())
    }

    fn size(&self) -> (n: usize) {
        8
    }
}

impl Record for RequestPacket {
    open spec fn wire(&self) -> Seq<u8> {
        wire_request_packet(self@)
    }

    open spec fn spec_size(&self) -> int {
        size_request_packet(self@)
    }

    open spec fn can_serialize(&self) -> bool {
        true
    }

    fn serialize_into(&self, buffer: &mut BytesMut) -> (r: Result<(), ZkError>) {
        let ghost start = buf_bytes(*buffer);
        if let Some(header) = &self.request_header {
            header.serialize_into(buffer)?;
        }
        self.request.serialize_into(buffer)?;
        assert(buf_bytes(*buffer) =~= start + self.wire());
        Ok(())
    }

    fn size(&self) -> (n: usize) {
        let h: usize = match &self.request_header {
            Some(h) => h.size(),
            None => 0,
        };
        h + self.request.size()
    }
}

impl Record for ReplyHeader {
    open spec fn wire(&self) -> Seq<u8> {
        wire_reply_header(*self)
    }

    open spec fn spec_size(&self) -> int {
        16
    }

    open spec fn can_serialize(&self) -> bool {
        true
    }

    fn serialize_into(&self, buffer: &mut BytesMut) -> (r: Result<(), ZkError>) {
        let ghost start = buf_bytes(*buffer);
        buf_put_i32(buffer, self.xid);
        buf_put_i64(buffer, self.zxid);
        buf_put_i32(buffer, self.err);
        assert(buf_bytes(*buffer) =~= start + self.wire());
        Ok(())
    }

    fn size(&self) -> (n: usize) {
        16
    }
}

impl Record for ConnectResponse {
    open spec fn wire(&self) -> Seq<u8> {
        wire_connect_response(self@)
    }

    open spec fn spec_size(&self) -> int {
        size_connect_response(self@)
    }

    open spec fn can_serialize(&self) -> bool {
        true
    }

    fn serialize_into(&self, buffer: &mut BytesMut) -> (r: Result<(), ZkError>) {
        let ghost start = buf_bytes(*buffer);
        buf_put_i32(buffer, self.protocol_version);
        buf_put_i32(buffer, self.timeout);
        buf_put_i64(buffer, self.session_id);
        write_bytes(buffer, self.passwd.as_slice());
        buf_put_i8(buffer, self.read_only as i8);
        assert(buf_bytes(*buffer) =~= start + self.wire());
        Ok(())
    }

    fn size(&self) -> (n: usize) {
        4 + 4 + 8 + 4 + self.passwd.len() + 1
    }
}

impl Record for Stat {
    open spec fn wire(&self) -> Seq<u8> {
        wire_stat(*self)
    }

    open spec fn spec_size(&self) -> int {
        68
    }

    open spec fn can_serialize(&self) -> bool {
        true
    }

    fn serialize_into(&self, buffer: &mut BytesMut) -> (r: Result<(), ZkError>) {
        let ghost start = buf_bytes(*buffer);
        buf_put_i64(buffer, self.czxid);
        buf_put_i64(buffer, self.mzxid);
        buf_put_i64(buffer, self.ctime);
        buf_put_i64(buffer, self.mtime);
        buf_put_i32(buffer, self.version);
        buf_put_i32(buffer, self.cversion);
        buf_put_i32(buffer, self.aversion);
        buf_put_i64(buffer, self.ephemeral_owner);
        buf_put_i32(buffer, self.data_length);
        buf_put_i32(buffer, self.num_children);
        buf_put_i64(buffer, self.pzxid);
        assert(buf_bytes(*buffer) =~= start + self.wire());
        Ok(())
    }

    fn size(&self) -> (n: usize) {
        6 * 8 + 4 * 5
    }
}

impl Record for GetDataResponse {
    open spec fn wire(&self) -> Seq<u8> {
        wire_get_data_response(self@)
    }

    open spec fn spec_size(&self) -> int {
        (4 + self@.data.len() + 68) as int
    }

    open spec fn can_serialize(&self) -> bool {
        true
    }

    fn serialize_into(&self, buffer: &mut BytesMut) -> (r: Result<(), ZkError>) {
        let ghost start = buf_bytes(*buffer);
        write_bytes(buffer, self.data.as_slice());
        self.stat.serialize_into(buffer)?;
        assert(buf_bytes(*buffer) =~= start + self.wire());
        Ok(())
    }

    fn size(&self) -> (n: usize) {
        4 + self.data.len() + self.stat.size()
    }
}

impl Record for ZkResponse {
    open spec fn wire(&self) -> Seq<u8> {
        wire_response(self@)
    }

    open spec fn spec_size(&self) -> int {
        size_response(self@)
    }

    /// A multi-response has no encoding.
    open spec fn can_serialize(&self) -> bool {
        !(self is Multi)
    }

    fn serialize_into(&self, buffer: &mut BytesMut) -> (r: Result<(), ZkError>) {
        let ghost start = buf_bytes(*buffer);
        match self {
            ZkResponse::Connect(resp) => {
                resp.serialize_into(buffer)?;
            },
            ZkResponse::GetData(r) => {
                r.serialize_into(buffer)?;
            },
            ZkResponse::Ping => {},
            ZkResponse::GetAcl { acl, stat } => {
                write_acl_list(buffer, acl);
                stat.serialize_into(buffer)?;
            },
            ZkResponse::Stat(stat) => {
                stat.serialize_into(buffer)?;
            },
            ZkResponse::Empty => {},
            ZkResponse::Strings(strs) => {
                write_str_list(buffer, strs);
            },
            ZkResponse::String(str) => {
                write_str(buffer, str);
            },
            ZkResponse::Multi(_) => {},
            ZkResponse::GetChildren2 { children, stat } => {
                write_str_list(buffer, children);
                stat.serialize_into(buffer)?;
            },
        }
        assert(buf_bytes(*buffer) =~= start + self.wire());
        Ok(())
    }

    fn size(&self) -> (n: usize) {
        match self {
            ZkResponse::Connect(r) => 4 + 4 + 8 + 4 + r.passwd.len() + 1,
            ZkResponse::GetData(r) => 4 + r.data.len() + 6 * 8 + 4 * 5,
            ZkResponse::Ping => 0,
            ZkResponse::GetAcl { acl, stat } => 4 + acl.len() * 8 + stat.size(),
            ZkResponse::Stat(stat) => stat.size(),
            ZkResponse::Empty => 0,
            ZkResponse::Strings(strs) => {
                proof {
                    assert forall|k: int| 0 <= k < strs.deep_view().len() implies str_sizer()(
                        #[trigger] strs.deep_view()[k],
                    ) >= 0 by {}
                    lemma_sum_map_prefix(strs.deep_view(), str_sizer(), 0);
                }
                4 + str_list_size(strs)
            },
            ZkResponse::String(str) => 4 + text_size(str),
            ZkResponse::Multi(_) => 0,
            ZkResponse::GetChildren2 { children, stat } => {
                proof {
                    assert forall|k: int| 0 <= k < children.deep_view().len() implies str_sizer()(
                        #[trigger] children.deep_view()[k],
                    ) >= 0 by {}
                    lemma_sum_map_prefix(children.deep_view(), str_sizer(), 0);
                }
                4 + str_list_size(children) + stat.size()
            },
        }
    }
}

impl Record for ResponsePacket {
    open spec fn wire(&self) -> Seq<u8> {
        wire_response_packet(self@)
    }

    open spec fn spec_size(&self) -> int {
        size_response_packet(self@)
    }

    open spec fn can_serialize(&self) -> bool {
        self.response.can_serialize()
    }

    fn serialize_into(&self, buffer: &mut BytesMut) -> (r: Result<(), ZkError>) {
        let ghost start = buf_bytes(*buffer);
        if let Some(header) = &self.response_header {
            header.serialize_into(buffer)?;
        }
        self.response.serialize_into(buffer)?;
        assert(buf_bytes(*buffer) =~= start + self.wire());
        Ok(())
    }

    fn size(&self) -> (n: usize) {
        let h: usize = match &self.response_header {
            Some(h) => h.size(),
            None => 0,
        };
        h + self.response.size()
    }
}

} // verus!
