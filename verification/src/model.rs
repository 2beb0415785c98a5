//! Mathematical models of the protocol records: what each record holds,
//! with byte strings as `Seq<u8>` and text as `Seq<char>`.

use crate::codec::{ReplyHeader, RequestHeader, Stat};
use vstd::prelude::*;

verus! {

/// An access-control entry.
pub struct SpecAcl {
    pub perms: i32,
    pub scheme: Seq<u8>,
    pub cred: Seq<u8>,
}

/// The request that opens a session.
pub struct SpecConnectRequest {
    pub protocol_version: i32,
    pub last_zxid_seen: i64,
    pub timeout: i32,
    pub session_id: i64,
    pub passwd: Seq<u8>,
    pub read_only: bool,
}

/// Reads the data of a node, and may leave a watch on it.
pub struct SpecGetDataRequest {
    pub path: Seq<char>,
    pub watch: bool,
}

/// Creates a node.
pub struct SpecCreateRequest {
    pub path: Seq<char>,
    pub data: Seq<u8>,
    pub acl: Seq<SpecAcl>,
    pub flags: i32,
}

/// Writes the data of a node.
pub struct SpecSetDataRequest {
    pub path: Seq<char>,
    pub data: Seq<u8>,
    pub version: i32,
}

/// Deletes a node.
pub struct SpecDeleteRequest {
    pub path: Seq<char>,
    pub version: i32,
}

/// Lists the children of a node.
pub struct SpecGetChildrenRequest {
    pub path: Seq<char>,
    pub watch: bool,
}

/// Asks whether a node exists.
pub struct SpecExistsRequest {
    pub path: Seq<char>,
    pub watch: bool,
}

/// Reads the access-control list of a node.
pub struct SpecGetAclRequest {
    pub path: Seq<char>,
}

/// Writes the access-control list of a node.
pub struct SpecSetAclRequest {
    pub path: Seq<char>,
    pub acl: Seq<SpecAcl>,
    pub version: i32,
}

/// Re-registers the watches of a session.
pub struct SpecSetWatchesRequest {
    pub relative_zxid: i64,
    pub data_watches: Seq<Seq<char>>,
    pub exist_watches: Seq<Seq<char>>,
    pub child_watches: Seq<Seq<char>>,
}

/// The body of a request.
pub enum SpecRequest {
    Connect(SpecConnectRequest),
    Create(SpecCreateRequest),
    Delete(SpecDeleteRequest),
    Exists(SpecExistsRequest),
    GetData(SpecGetDataRequest),
    SetData(SpecSetDataRequest),
    GetAcl(SpecGetAclRequest),
    SetAcl(SpecSetAclRequest),
    GetChildren(SpecGetChildrenRequest),
    GetChildren2(SpecGetChildrenRequest),
    Ping,
    GetChildren3(SpecGetChildrenRequest),
    Close,
    SetWatches(SpecSetWatchesRequest),
}

/// A request with its optional header.
pub struct SpecRequestPacket {
    pub request_header: Option<RequestHeader>,
    pub request: SpecRequest,
}

/// The answer to a connect request.
pub struct SpecConnectResponse {
    pub protocol_version: i32,
    pub timeout: i32,
    pub session_id: i64,
    pub passwd: Seq<u8>,
    pub read_only: bool,
}

/// The answer to a get-data request.
pub struct SpecGetDataResponse {
    pub data: Seq<u8>,
    pub stat: Stat,
}

/// The body of a response. A multi-response is modelled without its parts.
pub enum SpecZkResponse {
    Connect(SpecConnectResponse),
    GetData(SpecGetDataResponse),
    GetChildren2 { children: Seq<Seq<char>>, stat: Stat },
    GetAcl { acl: Seq<SpecAcl>, stat: Stat },
    Ping,
    Stat(Stat),
    Empty,
    Strings(Seq<Seq<char>>),
    String(Seq<char>),
    Multi,
}

/// A response with its optional header.
pub struct SpecResponsePacket {
    pub response_header: Option<ReplyHeader>,
    pub response: SpecZkResponse,
}

} // verus!
