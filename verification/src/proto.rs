//! An earlier, smaller set of records: a client's connect and get-data
//! requests and pings, and the server's answers to them.

use crate::buffer::{
    be32, be32_value, be64, be64_value, buf_bytes, buf_extend_from_slice, buf_get_i32, buf_get_i64,
    buf_get_u8, buf_put_i32, buf_put_i64, buf_put_i8, buf_put_u8,
};
use crate::errors::ZkError;
use crate::record::Record;
use crate::wire::{bool_byte, wire_bytes, wire_str};
use bytes::BytesMut;
use vstd::prelude::*;

verus! {

/// The request that opens a session.
#[derive(Debug, PartialEq, Eq)]
pub struct ConnectRequest {
    pub protocol_version: i32,
    pub last_zxid_seen: i64,
    pub timeout: i32,
    pub session_id: i64,
    pub passwd: Vec<u8>,
    pub read_only: bool,
}

/// Whether `ConnectRequest::deserialize` can read `s`: a length, the four
/// fixed fields and a password length, which must not be negative, and then
/// one more byte.
pub open spec fn connect_request_readable(s: Seq<u8>) -> bool {
    s.len() >= 33 && be32_value(s.skip(28)) >= 0
}

impl ConnectRequest {
    /// Reads a connect request that starts with its own length. The
    /// password length is read, but not the password: the request carries
    /// that many zero bytes, and the flag is the byte that follows the
    /// password length.
    pub fn deserialize(bytes: &mut BytesMut) -> (r: Self)
        requires
            connect_request_readable(buf_bytes(*old(bytes))),
        ensures
            ({
                let s = buf_bytes(*old(bytes));
                &&& r.protocol_version == be32_value(s.skip(4))
                &&& r.last_zxid_seen == be64_value(s.skip(8))
                &&& r.timeout == be32_value(s.skip(16))
                &&& r.session_id == be64_value(s.skip(20))
                &&& r.passwd@ == Seq::new(be32_value(s.skip(28)) as nat, |i: int| 0u8)
                &&& r.read_only == (s[32] != 0)
                &&& buf_bytes(*final(bytes)) == s.skip(33)
            }),
    {
        let ghost s = buf_bytes(*bytes);
        let _len = buf_get_i32(bytes);
        assert(buf_bytes(*bytes) =~= s.skip(4));
        let protocol_version = buf_get_i32(bytes);
        assert(buf_bytes(*bytes) =~= s.skip(8));
        let last_zxid_seen = buf_get_i64(bytes);
        assert(buf_bytes(*bytes) =~= s.skip(16));
        let timeout = buf_get_i32(bytes);
        assert(buf_bytes(*bytes) =~= s.skip(20));
        let session_id = buf_get_i64(bytes);
        assert(buf_bytes(*bytes) =~= s.skip(28));
        let passwd_len = buf_get_i32(bytes);
        assert(buf_bytes(*bytes) =~= s.skip(32));
        let n = passwd_len as usize;
        let mut passwd: Vec<u8> = Vec::new();
        let mut i: usize = 0;
        while i < n
            invariant
                i <= n,
                passwd@ == Seq::new(i as nat, |k: int| 0u8),
            decreases n - i,
        {
            passwd.push(0);
            i = i + 1;
            assert(passwd@ =~= Seq::new(i as nat, |k: int| 0u8));
        }
        let read_only = buf_get_u8(bytes);
        assert(buf_bytes(*bytes) =~= s.skip(33));
        ConnectRequest {
            protocol_version,
            last_zxid_seen,
            timeout,
            session_id,
            passwd,
            read_only: read_only != 0,
        }
    }
}

/// Reads the data of a node, and may leave a watch on it.
#[derive(Debug, PartialEq, Eq)]
pub struct GetDataRequest {
    pub path: String,
    pub watch: bool,
}

/// The body of a request.
#[derive(Debug, PartialEq, Eq)]
pub enum ZkRequest {
    ConnectInit(ConnectRequest),
    GetData(GetDataRequest),
    Ping,
}

/// The encoding of a request body.
pub open spec fn wire_zk_request(r: ZkRequest) -> Seq<u8> {
    match r {
        ZkRequest::GetData(req) => wire_str(req.path@) + seq![bool_byte(req.watch)],
        ZkRequest::Ping => Seq::empty(),
        ZkRequest::ConnectInit(c) => be32(c.protocol_version) + be64(c.last_zxid_seen) + be32(
            c.timeout,
        ) + be64(c.session_id) + wire_bytes(c.passwd@) + seq![bool_byte(c.read_only)],
    }
}

/// The size that a request body announces.
pub open spec fn size_zk_request(r: ZkRequest) -> int {
    match r {
        ZkRequest::GetData(req) => 4 + crate::wire::text_len(req.path@) + 1,
        ZkRequest::Ping => 0,
        ZkRequest::ConnectInit(c) => (4 + 8 + 4 + 8 + 4 + c.passwd@.len() + 1) as int,
    }
}

impl Record for ZkRequest {
    open spec fn wire(&self) -> Seq<u8> {
        wire_zk_request(*self)
    }

    open spec fn spec_size(&self) -> int {
        size_zk_request(*self)
    }

    open spec fn can_serialize(&self) -> bool {
        true
    }

    fn serialize_into(&self, buffer: &mut BytesMut) -> (r: Result<(), ZkError>) {
        let ghost start = buf_bytes(*buffer);
        match self {
            ZkRequest::GetData(req) => {
                let path = req.path.as_str().as_bytes();
                buf_put_i32(buffer, path.len() as i32);
                buf_extend_from_slice(buffer, path);
                buf_put_u8(buffer, req.watch as u8);
            },
            ZkRequest::Ping => {},
            ZkRequest::ConnectInit(r) => {
                buf_put_i32(buffer, r.protocol_version);
                buf_put_i64(buffer, r.last_zxid_seen);
                buf_put_i32(buffer, r.timeout);
                buf_put_i64(buffer, r.session_id);
                buf_put_i32(buffer, r.passwd.len() as i32);
                buf_extend_from_slice(buffer, r.passwd.as_slice());
                buf_put_u8(buffer, r.read_only as u8);
            },
        }
        assert(buf_bytes(*buffer) =~= start + self.wire());
        Ok(())
    }

    fn size(&self) -> (n: usize) {
        match self {
            ZkRequest::GetData(req) => 4 + req.path.as_str().as_bytes().len() + 1,
            ZkRequest::Ping => 0,
            ZkRequest::ConnectInit(r) => 4 + 8 + 4 + 8 + 4 + r.passwd.len() + 1,
        }
    }
}

/// A request with its optional header.
#[derive(Debug, PartialEq, Eq)]
pub struct RequestPacket {
    pub request_header: Option<RequestHeader>,
    pub request: ZkRequest,
}

impl Record for RequestPacket {
    open spec fn wire(&self) -> Seq<u8> {
        match self.request_header {
            Some(h) => h.wire() + self.request.wire(),
            None => self.request.wire(),
        }
    }

    open spec fn spec_size(&self) -> int {
        (if self.request_header is Some {
            8int
        } else {
            0int
        }) + self.request.spec_size()
    }

    open spec fn can_serialize(&self) -> bool {
        true
    }

    fn serialize_into(&self, buffer: &mut BytesMut) -> (r: Result<(), ZkError>) {
        let ghost start = buf_bytes(*buffer);
        if let Some(header) = &self.request_header {
            header.serialize_into(buffer)?;
        }
        self.request.serialize_into(buffer)?;
        assert(buf_bytes(*buffer) =~= start + self.wire());
        Ok(())
    }

    fn size(&self) -> (n: usize) {
        let h: usize = match &self.request_header {
            Some(h) => h.size(),
            None => 0,
        };
        h + self.request.size()
    }
}

/// The header of a request: its transaction id and its operation.
#[derive(Debug, Clone, Copy, PartialEq, Eq)]
pub struct RequestHeader {
    pub xid: i32,
    pub opcode: i32,
}

impl Record for RequestHeader {
    open spec fn wire(&self) -> Seq<u8> {
        be32(self.xid) + be32(self.opcode)
    }

    open spec fn spec_size(&self) -> int {
        8
    }

    open spec fn can_serialize(&self) -> bool {
        true
    }

    fn serialize_into(&self, buffer: &mut BytesMut) -> (r: Result<(), ZkError>) {
        let ghost start = buf_bytes(*buffer);
        buf_put_i32(buffer, self.xid);
        buf_put_i32(buffer, self.opcode);
        assert(buf_bytes(*buffer) =~= start + self.wire());
        Ok(())
    }

    fn size(&self) -> (n: usize) {
        8
    }
}

/// The body of a response.
#[derive(Debug, PartialEq, Eq)]
pub enum ZkResponse {
    Connect(ConnectResponse),
    GetData(GetDataResponse),
    Ping(ReplyHeader),
}

/// The encoding of a get-data response: its header, its data with the
/// length in front, and the metadata of the node.
pub open spec fn wire_get_data_response(r: GetDataResponse) -> Seq<u8> {
    r.reply_header.wire() + wire_bytes(r.data@) + be64(r.czxid) + be64(r.mzxid) + be64(r.ctime)
        + be64(r.mtime) + be32(r.version) + be32(r.cversion) + be32(r.aversion) + be64(
        r.ephemeral_owner,
    ) + be32(r.data_length) + be32(r.num_children) + be64(r.pzxid)
}

/// The encoding of a response body.
pub open spec fn wire_zk_response(r: ZkResponse) -> Seq<u8> {
    match r {
        ZkResponse::Connect(c) => be32(c.protocol_version) + be32(c.timeout) + be64(c.session_id)
            + wire_bytes(c.passwd@) + seq![bool_byte(c.read_only)],
        ZkResponse::GetData(g) => wire_get_data_response(g),
        ZkResponse::Ping(h) => h.wire(),
    }
}

/// The size that a response body announces.
pub open spec fn size_zk_response(r: ZkResponse) -> int {
    match r {
        ZkResponse::Connect(c) => (4 + 4 + 8 + 4 + c.passwd@.len() + 1) as int,
        ZkResponse::GetData(g) => (16 + 4 + g.data@.len() + 6 * 8 + 4 * 5) as int,
        ZkResponse::Ping(_) => 16,
    }
}

impl Record for ZkResponse {
    open spec fn wire(&self) -> Seq<u8> {
        wire_zk_response(*self)
    }

    open spec fn spec_size(&self) -> int {
        size_zk_response(*self)
    }

    open spec fn can_serialize(&self) -> bool {
        true
    }

    fn serialize_into(&self, buffer: &mut BytesMut) -> (r: Result<(), ZkError>) {
        let ghost start = buf_bytes(*buffer);
        match self {
            ZkResponse::Connect(resp) => {
                buf_put_i32(buffer, resp.protocol_version);
                buf_put_i32(buffer, resp.timeout);
                buf_put_i64(buffer, resp.session_id);
                buf_put_i32(buffer, resp.passwd.len() as i32);
                buf_extend_from_slice(buffer, resp.passwd.as_slice());
                buf_put_i8(buffer, resp.read_only as i8);
            },
            ZkResponse::GetData(r) => {
                r.serialize_into(buffer)?;
            },
            ZkResponse::Ping(resp) => {
                resp.serialize_into(buffer)?;
            },
        }
        assert(buf_bytes(*buffer) =~= start + self.wire());
        Ok(())
    }

    fn size(&self) -> (n: usize) {
        match self {
            ZkResponse::Connect(r) => 4 + 4 + 8 + 4 + r.passwd.len() + 1,
            ZkResponse::GetData(r) => r.reply_header.size() + 4 + r.data.len() + 6 * 8 + 4 * 5,
            ZkResponse::Ping(r) => r.size(),
        }
    }
}

/// The header of a response.
#[derive(Debug, Clone, Copy, PartialEq, Eq)]
pub struct ReplyHeader {
    pub xid: i32,
    pub zxid: i64,
    pub err: i32,
}

impl Record for ReplyHeader {
    open spec fn wire(&self) -> Seq<u8> {
        be32(self.xid) + be64(self.zxid) + be32(self.err)
    }

    open spec fn spec_size(&self) -> int {
        16
    }

    open spec fn can_serialize(&self) -> bool {
        true
    }

    fn serialize_into(&self, buffer: &mut BytesMut) -> (r: Result<(), ZkError>) {
        let ghost start = buf_bytes(*buffer);
        buf_put_i32(buffer, self.xid);
        buf_put_i64(buffer, self.zxid);
        buf_put_i32(buffer, self.err);
        assert(buf_bytes(*buffer) =~= start + self.wire());
        Ok(())
    }

    fn size(&self) -> (n: usize) {
        16
    }
}

/// The answer to a connect request.
#[derive(Debug, PartialEq, Eq)]
pub struct ConnectResponse {
    pub protocol_version: i32,
    pub timeout: i32,
    pub session_id: i64,
    pub passwd: Vec<u8>,
    pub read_only: bool,
}

/// The answer to a get-data request, with its header and the node's metadata.
#[derive(Debug, PartialEq, Eq)]
pub struct GetDataResponse {
    pub reply_header: ReplyHeader,
    pub data: Vec<u8>,
    pub czxid: i64,
    /// The last transaction that modified the znode.
    pub mzxid: i64,
    /// Milliseconds since epoch when the znode was created.
    pub ctime: i64,
    /// Milliseconds since epoch when the znode was last modified.
    pub mtime: i64,
    /// The number of changes to the data of the znode.
    pub version: i32,
    /// The number of changes to the children of the znode.
    pub cversion: i32,
    /// The number of changes to the ACL of the znode.
    pub aversion: i32,
    /// The session ID of the owner of this znode, if it is an ephemeral entry.
    pub ephemeral_owner: i64,
    /// The length of the data field of the znode.
    pub data_length: i32,
    /// The number of children this znode has.
    pub num_children: i32,
    /// The transaction ID that last modified the children of the znode.
    pub pzxid: i64,
}

impl GetDataResponse {
    /// Appends the encoding of the response (see `wire_get_data_response`).
    pub fn serialize_into(&self, buffer: &mut BytesMut) -> (r: Result<(), ZkError>)
        requires
            buf_bytes(*old(buffer)).len() + wire_get_data_response(*self).len() <= isize::MAX,
        ensures
            r is Ok,
            buf_bytes(*final(buffer)) == buf_bytes(*old(buffer)) + wire_get_data_response(*self),
    {
        let ghost start = buf_bytes(*buffer);
        self.reply_header.serialize_into(buffer)?;
        buf_put_i32(buffer, self.data.len() as i32);
        buf_extend_from_slice(buffer, self.data.as_slice());
        buf_put_i64(buffer, self.czxid);
        buf_put_i64(buffer, self.mzxid);
        buf_put_i64(buffer, self.ctime);
        buf_put_i64(buffer, self.mtime);
        buf_put_i32(buffer, self.version);
        buf_put_i32(buffer, self.cversion);
        buf_put_i32(buffer, self.aversion);
        buf_put_i64(buffer, self.ephemeral_owner);
        buf_put_i32(buffer, self.data_length);
        buf_put_i32(buffer, self.num_children);
        buf_put_i64(buffer, self.pzxid);
        assert(buf_bytes(*buffer) =~= start + wire_get_data_response(*self));
        Ok(())
    }
}

} // verus!
