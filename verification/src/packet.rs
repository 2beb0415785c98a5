//! The two packet codecs of the proxy. The server-side codec reads the
//! requests of clients and writes responses to them; the client-side codec
//! writes requests to the server and reads its responses, which it can only
//! decode by remembering which operation each transaction id was for.

use crate::buffer::{be32, be32_value, buf_bytes, buf_new, buf_put_i32, buf_reserve};
use crate::codec::{
    get_acl, get_data, get_str, get_str_vec, read_i32, read_i64, ConnectRequest, ConnectResponse, CreateRequest, DeleteRequest, ExistsRequest, GetAclRequest,
    GetChildrenRequest, GetDataRequest, GetDataResponse, PingRequest, ReplyHeader, Request,
    RequestHeader, RequestPacket, ResponsePacket, SetAclRequest, SetDataRequest, SetWatchesRequest,
    Stat, ZkResponse,
};
use crate::codes::{spec_opcode_from_i32, OpCodes, XidCodes};
use crate::errors::ZkError;
use crate::framing::{
    frame_decode, frame_encode, frame_pending, frame_step, max_frame_len, new_frame_codec,
    zk_framing, FrameStep,
};
use crate::model::SpecResponsePacket;
use crate::parse::{parse_reply_body, parse_request_body, parse_request_packet, parse_response_frame};
use crate::record::{decoded, decoded_as, outcome_as, Decoded, Deserialize, Record, SpecParse};
use bytes::BytesMut;
use dashmap::DashMap;
use std::sync::Arc;
use tokio_util::codec::LengthDelimitedCodec;
use vstd::prelude::*;

verus! {

#[verifier::external_type_specification]
#[verifier::external_body]
#[verifier::reject_recursive_types(K)]
#[verifier::reject_recursive_types(V)]
#[verifier::reject_recursive_types(S)]
pub struct ExDashMap<K, V, S>(DashMap<K, V, S>);

/// `DashMap::insert`: records that transaction `xid` is for operation `op`.
/// The map is shared with the other direction of the connection, which
/// removes entries, so nothing is stated of what later reads find.
#[verifier::external_body]
fn record_request(map: &Arc<DashMap<i32, OpCodes>>, xid: i32, op: OpCodes) {
    map.insert(xid, op);
}

/// `DashMap::get`, with the entry copied out: the operation on record for
/// transaction `xid` at the time of the call, if any. The map is shared, so
/// nothing is stated of what the call finds.
#[verifier::external_body]
fn recorded_request(map: &Arc<DashMap<i32, OpCodes>>, xid: i32) -> Option<OpCodes> {
    match map.get(&xid) {
        Some(entry) => Some(*entry.value()),
        None => None,
    }
}

/// The model of a decoded response packet, if there is one.
pub open spec fn response_view(p: Option<ResponsePacket>) -> Option<SpecResponsePacket> {
    match p {
        Some(p) => Some(p@),
        None => None,
    }
}

/// Reads the body of a request whose header holds `xid` and `opcode`.
pub fn decode_request_body(xid: i32, opcode: i32, src: &mut BytesMut) -> (r: Decoded<RequestPacket>)
    ensures
        decoded(r, parse_request_body(xid, opcode, buf_bytes(*old(src))), buf_bytes(*final(src))),
{
    let request_header = Some(RequestHeader { xid, opcode });
    let opcode_enum = match OpCodes::from_i32(opcode) {
        Some(op) => op,
        None => return Decoded::Aborts,
    };
    match opcode_enum {
        OpCodes::GetData => match GetDataRequest::try_deserialize(src) {
            Decoded::Done(req) => Decoded::Done(RequestPacket { request_header, request: Request::GetData(req) }),
            Decoded::Failed(e) => Decoded::Failed(e),
            Decoded::Aborts => Decoded::Aborts,
        },
        OpCodes::Create | OpCodes::Create2 | OpCodes::CreateTtl | OpCodes::CreateContainer => {
            match CreateRequest::try_deserialize(src) {
                Decoded::Done(req) => Decoded::Done(RequestPacket { request_header, request: Request::Create(req) }),
                Decoded::Failed(e) => Decoded::Failed(e),
                Decoded::Aborts => Decoded::Aborts,
            }
        },
        OpCodes::SetData => match SetDataRequest::try_deserialize(src) {
            Decoded::Done(req) => Decoded::Done(RequestPacket { request_header, request: Request::SetData(req) }),
            Decoded::Failed(e) => Decoded::Failed(e),
            Decoded::Aborts => Decoded::Aborts,
        },
        OpCodes::GetChildren | OpCodes::GetChildren2 => match GetChildrenRequest::try_deserialize(src) {
            Decoded::Done(req) => Decoded::Done(
                RequestPacket { request_header, request: Request::GetChildren(req) },
            ),
            Decoded::Failed(e) => Decoded::Failed(e),
            Decoded::Aborts => Decoded::Aborts,
        },
        OpCodes::Delete => match DeleteRequest::try_deserialize(src) {
            Decoded::Done(req) => Decoded::Done(RequestPacket { request_header, request: Request::Delete(req) }),
            Decoded::Failed(e) => Decoded::Failed(e),
            Decoded::Aborts => Decoded::Aborts,
        },
        OpCodes::Exists => match ExistsRequest::try_deserialize(src) {
            Decoded::Done(req) => Decoded::Done(RequestPacket { request_header, request: Request::Exists(req) }),
            Decoded::Failed(e) => Decoded::Failed(e),
            Decoded::Aborts => Decoded::Aborts,
        },
        OpCodes::GetAcl => match GetAclRequest::try_deserialize(src) {
            Decoded::Done(req) => Decoded::Done(RequestPacket { request_header, request: Request::GetAcl(req) }),
            Decoded::Failed(e) => Decoded::Failed(e),
            Decoded::Aborts => Decoded::Aborts,
        },
        OpCodes::SetAcl => match SetAclRequest::try_deserialize(src) {
            Decoded::Done(req) => Decoded::Done(RequestPacket { request_header, request: Request::SetAcl(req) }),
            Decoded::Failed(e) => Decoded::Failed(e),
            Decoded::Aborts => Decoded::Aborts,
        },
        OpCodes::Close => Decoded::Done(
            RequestPacket { request_header, request: Request::Close(PingRequest {  }) },
        ),
        OpCodes::SetWatches => match SetWatchesRequest::try_deserialize(src) {
            Decoded::Done(req) => Decoded::Done(
                RequestPacket { request_header, request: Request::SetWatches(req) },
            ),
            Decoded::Failed(e) => Decoded::Failed(e),
            Decoded::Aborts => Decoded::Aborts,
        },
        _ => Decoded::Aborts,
    }
}

/// Reads a request packet from a frame (see `parse_request_packet`).
pub fn decode_request(src: &mut BytesMut) -> (r: Decoded<RequestPacket>)
    ensures
        decoded(r, parse_request_packet(buf_bytes(*old(src))), buf_bytes(*final(src))),
{
    let xid = match read_i32(src) {
        Decoded::Done(v) => v,
        Decoded::Failed(e) => return Decoded::Failed(e),
        Decoded::Aborts => return Decoded::Aborts,
    };
    let xid_enum = XidCodes::from_i32(xid);
    if let Some(xid_enum) = xid_enum {
        match xid_enum {
            XidCodes::ConnectXid => {
                return match ConnectRequest::try_deserialize(src) {
                    Decoded::Done(req) => Decoded::Done(
                        RequestPacket { request_header: None, request: Request::Connect(req) },
                    ),
                    Decoded::Failed(e) => Decoded::Failed(e),
                    Decoded::Aborts => Decoded::Aborts,
                };
            },
            XidCodes::WatchXid => {},
            XidCodes::PingXid => {
                let opcode = match read_i32(src) {
                    Decoded::Done(v) => v,
                    Decoded::Failed(e) => return Decoded::Failed(e),
                    Decoded::Aborts => return Decoded::Aborts,
                };
                return Decoded::Done(
                    RequestPacket {
                        request_header: Some(RequestHeader { xid, opcode }),
                        request: Request::Ping(PingRequest {  }),
                    },
                );
            },
            XidCodes::AuthXid => {},
            XidCodes::SetWatchesXid => {},
        }
    }
    let opcode = match read_i32(src) {
        Decoded::Done(v) => v,
        Decoded::Failed(e) => return Decoded::Failed(e),
        Decoded::Aborts => return Decoded::Aborts,
    };
    decode_request_body(xid, opcode, src)
}

/// Reads the body of a reply with header `h` to a request of operation `op`
/// (see `parse_reply_body`).
pub fn decode_reply_body(h: ReplyHeader, op: Option<OpCodes>, src: &mut BytesMut) -> (r: Decoded<
    Option<ResponsePacket>,
>)
    ensures
        decoded_as(r, parse_reply_body(h, op, buf_bytes(*old(src))), buf_bytes(*final(src)), |p| response_view(p)),
{
    let opcode = match op {
        Some(op) => op,
        None => return Decoded::Failed(ZkError::DecodeError),
    };
    let response_header = Some(h);
    match opcode {
        OpCodes::Exists | OpCodes::SetData | OpCodes::SetAcl => match Stat::try_deserialize(src) {
            Decoded::Done(stat) => Decoded::Done(
                Some(ResponsePacket { response_header, response: ZkResponse::Stat(stat) }),
            ),
            Decoded::Failed(e) => Decoded::Failed(e),
            Decoded::Aborts => Decoded::Aborts,
        },
        OpCodes::GetData => {
            let data = match get_data(src) {
                Decoded::Done(v) => v,
                Decoded::Failed(e) => return Decoded::Failed(e),
                Decoded::Aborts => return Decoded::Aborts,
            };
            let stat = match Stat::try_deserialize(src) {
                Decoded::Done(v) => v,
                Decoded::Failed(e) => return Decoded::Failed(e),
                Decoded::Aborts => return Decoded::Aborts,
            };
            Decoded::Done(
                Some(
                    ResponsePacket {
                        response_header,
                        response: ZkResponse::GetData(GetDataResponse::new(data, stat)),
                    },
                ),
            )
        },
        OpCodes::Delete => Decoded::Done(
            Some(ResponsePacket { response_header, response: ZkResponse::Empty }),
        ),
        OpCodes::GetChildren => match get_str_vec(src) {
            Decoded::Done(children) => Decoded::Done(
                Some(ResponsePacket { response_header, response: ZkResponse::Strings(children) }),
            ),
            Decoded::Failed(e) => Decoded::Failed(e),
            Decoded::Aborts => Decoded::Aborts,
        },
        OpCodes::Create => match get_str(src) {
            Decoded::Done(path) => Decoded::Done(
                Some(ResponsePacket { response_header, response: ZkResponse::String(path) }),
            ),
            Decoded::Failed(e) => Decoded::Failed(e),
            Decoded::Aborts => Decoded::Aborts,
        },
        OpCodes::GetAcl => {
            let acl = match get_acl(src) {
                Decoded::Done(v) => v,
                Decoded::Failed(e) => return Decoded::Failed(e),
                Decoded::Aborts => return Decoded::Aborts,
            };
            let stat = match Stat::try_deserialize(src) {
                Decoded::Done(v) => v,
                Decoded::Failed(e) => return Decoded::Failed(e),
                Decoded::Aborts => return Decoded::Aborts,
            };
            Decoded::Done(
                Some(ResponsePacket { response_header, response: ZkResponse::GetAcl { acl, stat } }),
            )
        },
        OpCodes::Check => Decoded::Done(
            Some(ResponsePacket { response_header, response: ZkResponse::Empty }),
        ),
        OpCodes::GetChildren2 => {
            let children = match get_str_vec(src) {
                Decoded::Done(v) => v,
                Decoded::Failed(e) => return Decoded::Failed(e),
                Decoded::Aborts => return Decoded::Aborts,
            };
            let stat = match Stat::try_deserialize(src) {
                Decoded::Done(v) => v,
                Decoded::Failed(e) => return Decoded::Failed(e),
                Decoded::Aborts => return Decoded::Aborts,
            };
            Decoded::Done(
                Some(
                    ResponsePacket {
                        response_header,
                        response: ZkResponse::GetChildren2 { children, stat },
                    },
                ),
            )
        },
        _ => Decoded::Done(None),
    }
}

/// Whether the bytes `s` of a frame begin with a reply header (sixteen bytes)
/// whose transaction id is neither that of a connect response (0) nor that
/// of a ping (-2): the body of such a reply is read by the operation on
/// record for that transaction id.
pub open spec fn reply_awaits_lookup(s: Seq<u8>) -> bool {
    s.len() >= 16 && be32_value(s) != 0 && be32_value(s) != -2
}

/// Whether `op` is what a lookup of transaction `xid` in `map` gave: the
/// postcondition of that lookup holds of it. The lookup promises nothing, so
/// this holds only of a value that such a lookup returned.
pub closed spec fn found_on_record(map: Arc<DashMap<i32, OpCodes>>, xid: i32, op: Option<OpCodes>) -> bool {
    call_ensures(recorded_request, (&map, xid), op)
}

/// Whether `op` was put on record for transaction `xid` in `map`: the
/// postcondition of that insertion holds. The insertion promises nothing, so
/// this holds only where such an insertion was made.
pub closed spec fn put_on_record(map: Arc<DashMap<i32, OpCodes>>, xid: i32, op: OpCodes) -> bool {
    call_ensures(record_request, (&map, xid, op), ())
}

/// Reads a response packet from a frame, looking up in `requests_by_xid` the
/// operation that the reply's transaction id was for. What the lookup finds
/// depends on the other direction of the connection; the result is what
/// `parse_response_frame` gives for the operation that the lookup found,
/// unchanged, and a reply whose body needs one is read with it.
pub fn decode_response(src: &mut BytesMut, requests_by_xid: &Arc<DashMap<i32, OpCodes>>) -> (r: Decoded<
    Option<ResponsePacket>,
>)
    ensures
        exists|op: Option<OpCodes>|
            decoded_as(
                r,
                #[trigger] parse_response_frame(buf_bytes(*old(src)), op),
                buf_bytes(*final(src)),
                |p| response_view(p),
            ) && (reply_awaits_lookup(buf_bytes(*old(src))) ==> found_on_record(
                *requests_by_xid,
                be32_value(buf_bytes(*old(src))),
                op,
            )),
{
    let ghost s = buf_bytes(*src);
    let xid = match read_i32(src) {
        Decoded::Done(v) => v,
        Decoded::Failed(e) => {
            assert(decoded_as(
                Decoded::<Option<ResponsePacket>>::Failed(e),
                parse_response_frame(s, None),
                buf_bytes(*src),
                |p| response_view(p),
            ));
            return Decoded::Failed(e);
        },
        Decoded::Aborts => {
            assert(decoded_as(
                Decoded::<Option<ResponsePacket>>::Aborts,
                parse_response_frame(s, None),
                buf_bytes(*src),
                |p| response_view(p),
            ));
            return Decoded::Aborts;
        },
    };
    let xid_enum = XidCodes::from_i32(xid);
    if let Some(XidCodes::ConnectXid) = xid_enum {
        let r = match ConnectResponse::try_deserialize(src) {
            Decoded::Done(resp) => Decoded::Done(
                Some(ResponsePacket { response_header: None, response: ZkResponse::Connect(resp) }),
            ),
            Decoded::Failed(e) => Decoded::Failed(e),
            Decoded::Aborts => Decoded::Aborts,
        };
        assert(decoded_as(
            r,
            parse_response_frame(s, None),
            buf_bytes(*src),
            |p| response_view(p),
        ));
        return r;
    }
    let zxid = match read_i64(src) {
        Decoded::Done(v) => v,
        Decoded::Failed(e) => {
            assert(decoded_as(
                Decoded::<Option<ResponsePacket>>::Failed(e),
                parse_response_frame(s, None),
                buf_bytes(*src),
                |p| response_view(p),
            ));
            return Decoded::Failed(e);
        },
        Decoded::Aborts => {
            assert(decoded_as(
                Decoded::<Option<ResponsePacket>>::Aborts,
                parse_response_frame(s, None),
                buf_bytes(*src),
                |p| response_view(p),
            ));
            return Decoded::Aborts;
        },
    };
    let err = match read_i32(src) {
        Decoded::Done(v) => v,
        Decoded::Failed(e) => {
            assert(decoded_as(
                Decoded::<Option<ResponsePacket>>::Failed(e),
                parse_response_frame(s, None),
                buf_bytes(*src),
                |p| response_view(p),
            ));
            return Decoded::Failed(e);
        },
        Decoded::Aborts => {
            assert(decoded_as(
                Decoded::<Option<ResponsePacket>>::Aborts,
                parse_response_frame(s, None),
                buf_bytes(*src),
                |p| response_view(p),
            ));
            return Decoded::Aborts;
        },
    };
    let reply_header = ReplyHeader { xid, zxid, err };
    if let Some(XidCodes::PingXid) = xid_enum {
        let r = Decoded::Done(Some(ResponsePacket { response_header: Some(reply_header), response: ZkResponse::Ping }));
        assert(decoded_as(
            r,
            parse_response_frame(s, None),
            buf_bytes(*src),
            |p| response_view(p),
        ));
        return r;
    }
    let op = recorded_request(requests_by_xid, xid);
    let r = decode_reply_body(reply_header, op, src);
    assert(decoded_as(
        r,
        parse_response_frame(s, op),
        buf_bytes(*src),
        |p| response_view(p),
    ));
    r
}

/// The model of a decoded request packet, if there is one.
pub open spec fn request_view(p: Option<RequestPacket>) -> Option<crate::model::SpecRequestPacket> {
    match p {
        Some(p) => Some(p@),
        None => None,
    }
}

/// What reading a request packet from a whole frame gives: a packet, since
/// every readable frame holds one.
pub open spec fn parse_request_frame(f: Seq<u8>) -> SpecParse<Option<crate::model::SpecRequestPacket>> {
    match parse_request_packet(f) {
        SpecParse::Done(p, rest) => SpecParse::Done(Some(p), rest),
        SpecParse::Failed(e, rest) => SpecParse::Failed(e, rest),
        SpecParse::Aborts => SpecParse::Aborts,
    }
}

/// The codec on the side of the clients: it reads requests and writes
/// responses, each in a frame with its length in front.
pub struct ServerPacketCodec {
    inner: LengthDelimitedCodec,
}

impl ServerPacketCodec {
    /// Whether the framing inside has this crate's configuration.
    pub closed spec fn wf(&self) -> bool {
        zk_framing(self.inner)
    }

    /// The length of the frame whose head has been read and whose data is
    /// awaited, if any.
    pub closed spec fn pending(&self) -> Option<int> {
        frame_pending(self.inner)
    }

    /// A codec that awaits the head of a frame.
    pub fn new() -> (c: Self)
        ensures
            c.wf(),
            c.pending() is None,
    {
        Self { inner: new_frame_codec() }
    }

    /// Reads a request packet from a frame that can be read (see
    /// `parse_request_packet`); a readable frame always holds a packet.
    pub fn decode_inner(src: &mut BytesMut) -> (r: Result<Option<RequestPacket>, ZkError>)
        requires
            !(parse_request_packet(buf_bytes(*old(src))) is Aborts),
        ensures
            match parse_request_packet(buf_bytes(*old(src))) {
                SpecParse::Done(p, rest) => r matches Ok(Some(x)) && x@ == p && buf_bytes(*final(src))
                    == rest,
                SpecParse::Failed(e, rest) => r matches Err(e2) && e2 == e && buf_bytes(*final(src))
                    == rest,
                SpecParse::Aborts => false,
            },
    {
        match decode_request(src) {
            Decoded::Done(p) => Ok(Some(p)),
            Decoded::Failed(e) => Err(e),
            Decoded::Aborts => Err(ZkError::DecodeError),
        }
    }

    /// Takes the next frame from `src`, if a whole one is there, and reads a
    /// request packet from it. A frame whose length passes the limit is a
    /// decode error.
    pub fn decode(&mut self, src: &mut BytesMut) -> (r: Decoded<Option<RequestPacket>>)
        requires
            old(self).wf(),
        ensures
            final(self).wf(),
            match frame_step(old(self).pending(), buf_bytes(*old(src))) {
                FrameStep::Frame(f, rest) => buf_bytes(*final(src)) == rest && final(self).pending() is None
                    && outcome_as(r, parse_request_frame(f), |p| request_view(p)),
                FrameStep::Incomplete(p, rest) => r matches Decoded::Done(None) && buf_bytes(*final(src))
                    == rest && final(self).pending() == p,
                FrameStep::TooLong => r matches Decoded::Failed(ZkError::DecodeError) && buf_bytes(
                    *final(src),
                ) == buf_bytes(*old(src)) && final(self).pending() == old(self).pending(),
            },
    {
        match frame_decode(&mut self.inner, src) {
            Err(_) => Decoded::Failed(ZkError::DecodeError),
            Ok(None) => Decoded::Done(None),
            Ok(Some(mut frame)) => match decode_request(&mut frame) {
                Decoded::Done(p) => Decoded::Done(Some(p)),
                Decoded::Failed(e) => Decoded::Failed(e),
                Decoded::Aborts => Decoded::Aborts,
            },
        }
    }

    /// Writes a response packet into `dst` in a frame with its length in
    /// front; a packet longer than the frame limit is an encode error that
    /// writes nothing.
    pub fn encode(&mut self, item: ResponsePacket, dst: &mut BytesMut) -> (r: Result<(), ZkError>)
        requires
            old(self).wf(),
            item.can_serialize(),
            item.spec_size() <= isize::MAX,
            buf_bytes(*old(dst)).len() + 4 + item.wire().len() <= isize::MAX,
        ensures
            final(self).wf(),
            final(self).pending() == old(self).pending(),
            item.wire().len() <= max_frame_len() ==> r is Ok && buf_bytes(*final(dst)) == buf_bytes(
                *old(dst),
            ) + be32(item.wire().len() as i32) + item.wire(),
            item.wire().len() > max_frame_len() ==> (r matches Err(ZkError::EncodeError) && buf_bytes(
                *final(dst),
            ) == buf_bytes(*old(dst))),
    {
        let mut buf = buf_new();
        buf_reserve(&mut buf, item.size());
        item.serialize_into(&mut buf)?;
        assert(buf_bytes(buf) =~= item.wire());
        match frame_encode(&mut self.inner, buf, dst) {
            Ok(()) => Ok(()),
            Err(_) => Err(ZkError::EncodeError),
        }
    }
}

/// The codec on the side of the server: it writes requests and reads
/// responses, each in a frame with its length in front. It shares with the
/// rest of the connection a map from transaction ids to the operations they
/// were sent for, which decoding a reply needs.
pub struct ClientPacketCodec {
    inner: LengthDelimitedCodec,
    requests_by_xid: Arc<DashMap<i32, OpCodes>>,
}

/// The response that the bytes `f` of a frame hold, read with the operation
/// that a lookup of its transaction id in `map` found, where its body needs one.
pub open spec fn response_frame_outcome(
    r: Decoded<Option<ResponsePacket>>,
    f: Seq<u8>,
    map: Arc<DashMap<i32, OpCodes>>,
) -> bool {
    exists|op: Option<OpCodes>|
        outcome_as(r, #[trigger] parse_response_frame(f, op), |p| response_view(p)) && (
        reply_awaits_lookup(f) ==> found_on_record(map, be32_value(f), op))
}

/// Whether writing a request packet fails: its header names an opcode that
/// is no operation.
pub open spec fn fails_to_encode(item: crate::model::SpecRequestPacket) -> bool {
    item.request_header matches Some(h) && spec_opcode_from_i32(h.opcode) is None
}

impl ClientPacketCodec {
    /// The map of transaction ids to operations that the codec shares.
    pub closed spec fn xid_map(&self) -> Arc<DashMap<i32, OpCodes>> {
        self.requests_by_xid
    }

    /// Whether the framing inside has this crate's configuration.
    pub closed spec fn wf(&self) -> bool {
        zk_framing(self.inner)
    }

    /// The length of the frame whose head has been read and whose data is
    /// awaited, if any.
    pub closed spec fn pending(&self) -> Option<int> {
        frame_pending(self.inner)
    }

    /// A codec that awaits the head of a frame and records requests in `map`.
    pub fn new(map: Arc<DashMap<i32, OpCodes>>) -> (c: Self)
        ensures
            c.wf(),
            c.pending() is None,
            c.xid_map() == map,
    {
        Self { inner: new_frame_codec(), requests_by_xid: map }
    }

    /// Writes a request packet into `dst` with its announced size in front.
    /// A header is first put on record with its operation; a header whose
    /// opcode is no operation is an encode error that writes nothing.
    pub fn encode(&mut self, item: RequestPacket, dst: &mut BytesMut) -> (r: Result<(), ZkError>)
        requires
            old(self).wf(),
            buf_bytes(*old(dst)).len() + 4 + item.wire().len() <= isize::MAX,
        ensures
            final(self).wf(),
            final(self).pending() == old(self).pending(),
            final(self).xid_map() == old(self).xid_map(),
            fails_to_encode(item@) ==> (r matches Err(ZkError::EncodeError) && buf_bytes(*final(dst))
                == buf_bytes(*old(dst))),
            !fails_to_encode(item@) ==> r is Ok && buf_bytes(*final(dst)) == buf_bytes(*old(dst)) + be32(
                item.spec_size() as i32,
            ) + item.wire(),
            !fails_to_encode(item@) ==> (item@.request_header matches Some(h) ==> put_on_record(
                old(self).xid_map(),
                h.xid,
                spec_opcode_from_i32(h.opcode)->0,
            )),
    {
        if let Some(header) = &item.request_header {
            let xid = header.xid;
            let op = header.opcode;
            match OpCodes::from_i32(op) {
                Some(code) => record_request(&self.requests_by_xid, xid, code),
                None => return Err(ZkError::EncodeError),
            }
        }
        proof {
            crate::laws::lemma_request_packet_size(item@);
        }
        let n = item.size();
        let ghost start = buf_bytes(*dst);
        buf_reserve(dst, n + 4);
        buf_put_i32(dst, n as i32);
        item.serialize_into(dst)?;
        assert(buf_bytes(*dst) =~= start + be32(item.spec_size() as i32) + item.wire());
        Ok(())
    }

    /// Takes the next frame from `src`, if a whole one is there, and reads a
    /// response packet from it. A frame whose length passes the limit is a
    /// decode error.
    pub fn decode(&mut self, src: &mut BytesMut) -> (r: Decoded<Option<ResponsePacket>>)
        requires
            old(self).wf(),
        ensures
            final(self).wf(),
            final(self).xid_map() == old(self).xid_map(),
            match frame_step(old(self).pending(), buf_bytes(*old(src))) {
                FrameStep::Frame(f, rest) => buf_bytes(*final(src)) == rest && final(self).pending() is None
                    && response_frame_outcome(r, f, old(self).xid_map()),
                FrameStep::Incomplete(p, rest) => r matches Decoded::Done(None) && buf_bytes(*final(src))
                    == rest && final(self).pending() == p,
                FrameStep::TooLong => r matches Decoded::Failed(ZkError::DecodeError) && buf_bytes(
                    *final(src),
                ) == buf_bytes(*old(src)) && final(self).pending() == old(self).pending(),
            },
    {
        match frame_decode(&mut self.inner, src) {
            Err(_) => Decoded::Failed(ZkError::DecodeError),
            Ok(None) => Decoded::Done(None),
            Ok(Some(mut frame)) => {
                let ghost f = buf_bytes(frame);
                let r = decode_response(&mut frame, &self.requests_by_xid);
                proof {
                    let op = choose|op: Option<OpCodes>|
                        decoded_as(
                            r,
                            #[trigger] parse_response_frame(f, op),
                            buf_bytes(frame),
                            |p| response_view(p),
                        ) && (reply_awaits_lookup(f) ==> found_on_record(
                            self.requests_by_xid,
                            be32_value(f),
                            op,
                        ));
                    assert(outcome_as(r, parse_response_frame(f, op), |p| response_view(p)));
                }
                r
            },
        }
    }
}

} // verus!
