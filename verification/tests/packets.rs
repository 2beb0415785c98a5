use bytes::BytesMut;
use dashmap::DashMap;
use std::sync::Arc;
use zkproxy::codec::{
    Acl, ConnectRequest, ConnectResponse, CreateRequest, GetChildrenRequest, GetDataRequest,
    GetDataResponse, PingRequest, ReplyHeader, Request, RequestHeader, RequestPacket,
    ResponsePacket, Stat, ZkResponse,
};
use zkproxy::codes::OpCodes;
use zkproxy::errors::ZkError;
use zkproxy::packet::{
    decode_reply_body, decode_request, decode_request_body, decode_response, ClientPacketCodec,
    ServerPacketCodec,
};
use zkproxy::record::{Decoded, Record};
use zkproxy::server::{route_request, Route, ZkServer};

fn stat() -> Stat {
    Stat {
        czxid: 10,
        mzxid: 20,
        ctime: 30,
        mtime: 40,
        version: 1,
        cversion: 2,
        aversion: 3,
        ephemeral_owner: 0,
        data_length: 2,
        num_children: 0,
        pzxid: 50,
    }
}

fn stat_bytes() -> Vec<u8> {
    let mut buf = BytesMut::new();
    stat().serialize_into(&mut buf).unwrap();
    buf.to_vec()
}

fn framed(body: &[u8]) -> Vec<u8> {
    let mut v = (body.len() as u32).to_be_bytes().to_vec();
    v.extend_from_slice(body);
    v
}

fn get_data_request_body() -> Vec<u8> {
    vec![0, 0, 0, 1, 0, 0, 0, 4, 0, 0, 0, 3, b'/', b'z', b'k', 0]
}

#[test]
fn server_codec_decodes_a_whole_frame() {
    let mut codec = ServerPacketCodec::new();
    let mut src = BytesMut::from(&framed(&get_data_request_body())[..]);
    src.extend_from_slice(&[9, 9]);
    match codec.decode(&mut src) {
        Decoded::Done(Some(packet)) => {
            assert_eq!(packet.request_header, Some(RequestHeader { xid: 1, opcode: 4 }));
            assert_eq!(
                packet.request,
                Request::GetData(GetDataRequest { path: "/zk".to_string(), watch: false })
            );
        }
        other => panic!("unexpected {:?}", other),
    }
    assert_eq!(&src[..], &[9u8, 9][..]);
}

#[test]
fn server_codec_waits_for_the_rest_of_a_frame() {
    let mut codec = ServerPacketCodec::new();
    let whole = framed(&get_data_request_body());
    let mut src = BytesMut::from(&whole[..2]);
    assert!(matches!(codec.decode(&mut src), Decoded::Done(None)));
    assert_eq!(src.len(), 2);
    src.extend_from_slice(&whole[2..7]);
    assert!(matches!(codec.decode(&mut src), Decoded::Done(None)));
    assert_eq!(src.len(), 3);
    src.extend_from_slice(&whole[7..]);
    match codec.decode(&mut src) {
        Decoded::Done(Some(packet)) => {
            assert_eq!(packet.request_header, Some(RequestHeader { xid: 1, opcode: 4 }))
        }
        other => panic!("unexpected {:?}", other),
    }
    assert!(src.is_empty());
}

#[test]
fn server_codec_rejects_a_frame_past_the_limit() {
    let mut codec = ServerPacketCodec::new();
    let mut src = BytesMut::from(&[0u8, 0x20, 0, 0, 1, 2, 3][..]);
    assert!(matches!(codec.decode(&mut src), Decoded::Failed(ZkError::DecodeError)));
    assert_eq!(src.len(), 7);
}

#[test]
fn server_codec_reports_an_unreadable_frame() {
    let mut codec = ServerPacketCodec::new();
    let mut src = BytesMut::from(&framed(&[0, 0, 0, 1, 0, 0, 0, 9])[..]);
    assert!(matches!(codec.decode(&mut src), Decoded::Aborts));
}

#[test]
fn decode_inner_reads_a_connect_request() {
    let mut body = vec![0u8, 0, 0, 0];
    body.extend_from_slice(&[0, 0, 0, 0, 0, 0, 0, 5, 0, 0, 0x75, 0x30, 0, 0, 0, 0, 0, 0, 0, 0]);
    body.extend_from_slice(&[0, 0, 0, 16]);
    body.extend_from_slice(&[0u8; 16]);
    body.push(0);
    let mut src = BytesMut::from(&body[..]);
    let packet = ServerPacketCodec::decode_inner(&mut src).unwrap().unwrap();
    assert_eq!(packet.request_header, None);
    assert_eq!(
        packet.request,
        Request::Connect(ConnectRequest {
            protocol_version: 0,
            last_zxid_seen: 5,
            timeout: 30000,
            session_id: 0,
            passwd: vec![0; 16],
            read_only: false,
        })
    );
}

#[test]
fn decode_inner_returns_body_errors() {
    let mut src = BytesMut::from(&[0u8, 0, 0, 7, 0, 0, 0, 4, 0, 0, 0, 5, b'/'][..]);
    assert_eq!(ServerPacketCodec::decode_inner(&mut src), Err(ZkError::InvalidPacketLength(5)));
}

#[test]
fn ping_request_keeps_its_opcode() {
    let mut src = BytesMut::from(&[0xffu8, 0xff, 0xff, 0xfe, 0, 0, 0, 11][..]);
    match decode_request(&mut src) {
        Decoded::Done(p) => {
            assert_eq!(p.request_header, Some(RequestHeader { xid: -2, opcode: 11 }));
            assert_eq!(p.request, Request::Ping(PingRequest));
        }
        other => panic!("unexpected {:?}", other),
    }
}

#[test]
fn request_bodies_by_opcode() {
    let body = [0u8, 0, 0, 2, b'/', b'c', 1];
    let mut src = BytesMut::from(&body[..]);
    match decode_request_body(4, 12, &mut src) {
        Decoded::Done(p) => assert_eq!(
            p.request,
            Request::GetChildren(GetChildrenRequest { path: "/c".to_string(), watch: true })
        ),
        other => panic!("unexpected {:?}", other),
    }
    let mut src = BytesMut::from(&body[..]);
    match decode_request_body(4, -11, &mut src) {
        Decoded::Done(p) => assert_eq!(p.request, Request::Close(PingRequest)),
        other => panic!("unexpected {:?}", other),
    }
    assert_eq!(src.len(), body.len());
    let mut src = BytesMut::from(&body[..]);
    assert!(matches!(decode_request_body(4, 9, &mut src), Decoded::Aborts));
    let mut src = BytesMut::from(&body[..]);
    assert!(matches!(decode_request_body(4, 77, &mut src), Decoded::Aborts));
}

#[test]
fn server_codec_encodes_a_framed_response() {
    let mut codec = ServerPacketCodec::new();
    let packet = ResponsePacket {
        response_header: Some(ReplyHeader { xid: 9, zxid: 1, err: 0 }),
        response: ZkResponse::Stat(stat()),
    };
    let mut dst = BytesMut::from(&[7u8][..]);
    codec.encode(packet, &mut dst).unwrap();
    let mut expected = vec![7u8, 0, 0, 0, 84, 0, 0, 0, 9, 0, 0, 0, 0, 0, 0, 0, 1, 0, 0, 0, 0];
    expected.extend_from_slice(&stat_bytes());
    assert_eq!(dst.to_vec(), expected);
}

#[test]
fn server_codec_refuses_a_response_past_the_limit() {
    let mut codec = ServerPacketCodec::new();
    let packet = ResponsePacket {
        response_header: None,
        response: ZkResponse::GetData(GetDataResponse::new(vec![0; 1 << 20], stat())),
    };
    let mut dst = BytesMut::new();
    assert_eq!(codec.encode(packet, &mut dst), Err(ZkError::EncodeError));
    assert!(dst.is_empty());
}

#[test]
fn client_codec_records_and_frames_a_request() {
    let map = Arc::new(DashMap::new());
    let mut codec = ClientPacketCodec::new(map.clone());
    let packet = RequestPacket {
        request_header: Some(RequestHeader { xid: 5, opcode: 4 }),
        request: Request::GetData(GetDataRequest { path: "/a".to_string(), watch: true }),
    };
    let mut dst = BytesMut::new();
    codec.encode(packet, &mut dst).unwrap();
    assert_eq!(dst.to_vec(), vec![0, 0, 0, 15, 0, 0, 0, 5, 0, 0, 0, 4, 0, 0, 0, 2, b'/', b'a', 1]);
    assert_eq!(map.get(&5).map(|e| *e.value()), Some(OpCodes::GetData));
}

#[test]
fn client_codec_refuses_an_unknown_opcode() {
    let map = Arc::new(DashMap::new());
    let mut codec = ClientPacketCodec::new(map.clone());
    let packet = RequestPacket {
        request_header: Some(RequestHeader { xid: 5, opcode: 999 }),
        request: Request::Ping(PingRequest),
    };
    let mut dst = BytesMut::new();
    assert_eq!(codec.encode(packet, &mut dst), Err(ZkError::EncodeError));
    assert!(dst.is_empty());
    assert!(map.is_empty());
}

#[test]
fn client_codec_frames_a_connect_request_without_recording() {
    let map = Arc::new(DashMap::new());
    let mut codec = ClientPacketCodec::new(map.clone());
    let packet = RequestPacket {
        request_header: None,
        request: Request::Connect(ConnectRequest {
            protocol_version: 0,
            last_zxid_seen: 0,
            timeout: 1,
            session_id: 0,
            passwd: vec![],
            read_only: false,
        }),
    };
    let mut dst = BytesMut::new();
    codec.encode(packet, &mut dst).unwrap();
    assert_eq!(&dst[..4], &[0u8, 0, 0, 29][..]);
    assert_eq!(dst.len(), 33);
    assert!(map.is_empty());
}

#[test]
fn client_codec_decodes_the_reply_to_a_recorded_request() {
    let map = Arc::new(DashMap::new());
    map.insert(5, OpCodes::GetData);
    let mut codec = ClientPacketCodec::new(map);
    let mut body = vec![0u8, 0, 0, 5, 0, 0, 0, 0, 0, 0, 0, 8, 0, 0, 0, 0, 0, 0, 0, 2, 7, 7];
    body.extend_from_slice(&stat_bytes());
    let mut src = BytesMut::from(&framed(&body)[..]);
    match codec.decode(&mut src) {
        Decoded::Done(Some(p)) => {
            assert_eq!(p.response_header, Some(ReplyHeader { xid: 5, zxid: 8, err: 0 }));
            assert_eq!(p.response, ZkResponse::GetData(GetDataResponse::new(vec![7, 7], stat())));
        }
        other => panic!("unexpected {:?}", other),
    }
    assert!(src.is_empty());
}

#[test]
fn client_codec_fails_on_a_reply_to_no_request() {
    let map = Arc::new(DashMap::new());
    let mut codec = ClientPacketCodec::new(map);
    let body = vec![0u8, 0, 0, 6, 0, 0, 0, 0, 0, 0, 0, 8, 0, 0, 0, 0];
    let mut src = BytesMut::from(&framed(&body)[..]);
    assert!(matches!(codec.decode(&mut src), Decoded::Failed(ZkError::DecodeError)));
}

#[test]
fn client_codec_reads_pings_and_connect_responses() {
    let map = Arc::new(DashMap::new());
    let mut codec = ClientPacketCodec::new(map);
    let ping = vec![0xffu8, 0xff, 0xff, 0xfe, 0, 0, 0, 0, 0, 0, 0, 3, 0, 0, 0, 0];
    let mut src = BytesMut::from(&framed(&ping)[..]);
    match codec.decode(&mut src) {
        Decoded::Done(Some(p)) => {
            assert_eq!(p.response_header, Some(ReplyHeader { xid: -2, zxid: 3, err: 0 }));
            assert_eq!(p.response, ZkResponse::Ping);
        }
        other => panic!("unexpected {:?}", other),
    }
    let connect = vec![0u8, 0, 0, 0, 0, 0, 0x0f, 0xa0, 0, 0, 0, 0, 0, 0, 0, 9, 0, 0, 0, 1, 4, 1];
    let mut src = BytesMut::from(&framed(&connect)[..]);
    match codec.decode(&mut src) {
        Decoded::Done(Some(p)) => {
            assert_eq!(p.response_header, None);
            assert_eq!(
                p.response,
                ZkResponse::Connect(ConnectResponse {
                    protocol_version: 0,
                    timeout: 4000,
                    session_id: 9,
                    passwd: vec![4],
                    read_only: true,
                })
            );
        }
        other => panic!("unexpected {:?}", other),
    }
}

#[test]
fn reply_bodies_by_operation() {
    let h = ReplyHeader { xid: 3, zxid: 4, err: 0 };
    let mut src = BytesMut::from(&[1u8, 2][..]);
    assert!(matches!(decode_reply_body(h, None, &mut src), Decoded::Failed(ZkError::DecodeError)));
    let mut src = BytesMut::from(&[1u8, 2][..]);
    match decode_reply_body(h, Some(OpCodes::Delete), &mut src) {
        Decoded::Done(Some(p)) => assert_eq!(p.response, ZkResponse::Empty),
        other => panic!("unexpected {:?}", other),
    }
    assert_eq!(src.len(), 2);
    let mut src = BytesMut::from(&[1u8, 2][..]);
    assert!(matches!(decode_reply_body(h, Some(OpCodes::Sync), &mut src), Decoded::Done(None)));
    let mut src = BytesMut::from(&[0u8, 0, 0, 2, b'/', b'p'][..]);
    match decode_reply_body(h, Some(OpCodes::Create), &mut src) {
        Decoded::Done(Some(p)) => assert_eq!(p.response, ZkResponse::String("/p".to_string())),
        other => panic!("unexpected {:?}", other),
    }
    let mut src = BytesMut::from(&[0u8, 0, 0, 1, 0, 0, 0, 1, b'k'][..]);
    match decode_reply_body(h, Some(OpCodes::GetChildren), &mut src) {
        Decoded::Done(Some(p)) => assert_eq!(p.response, ZkResponse::Strings(vec!["k".to_string()])),
        other => panic!("unexpected {:?}", other),
    }
    let mut src = BytesMut::from(&[1u8, 2][..]);
    assert!(matches!(decode_reply_body(h, Some(OpCodes::Exists), &mut src), Decoded::Aborts));
}

#[test]
fn decode_response_consults_the_map() {
    let map = Arc::new(DashMap::new());
    map.insert(11, OpCodes::Exists);
    let mut body = vec![0u8, 0, 0, 11, 0, 0, 0, 0, 0, 0, 0, 1, 0, 0, 0, 0];
    body.extend_from_slice(&stat_bytes());
    let mut src = BytesMut::from(&body[..]);
    match decode_response(&mut src, &map) {
        Decoded::Done(Some(p)) => assert_eq!(p.response, ZkResponse::Stat(stat())),
        other => panic!("unexpected {:?}", other),
    }
}

#[test]
fn a_request_written_by_the_client_side_is_read_back_by_the_server_side() {
    let map = Arc::new(DashMap::new());
    let mut client = ClientPacketCodec::new(map);
    let mut server = ServerPacketCodec::new();
    let make = || RequestPacket {
        request_header: Some(RequestHeader { xid: 42, opcode: 1 }),
        request: Request::Create(CreateRequest {
            path: "/node".to_string(),
            data: vec![1, 2, 3],
            acl: vec![Acl { perms: 31, scheme: b"world".to_vec(), cred: b"anyone".to_vec() }],
            flags: 0,
        }),
    };
    let mut wire = BytesMut::new();
    client.encode(make(), &mut wire).unwrap();
    match server.decode(&mut wire) {
        Decoded::Done(Some(back)) => assert_eq!(back, make()),
        other => panic!("unexpected {:?}", other),
    }
    assert!(wire.is_empty());
}

#[test]
fn a_response_written_by_the_server_side_is_read_back_by_the_client_side() {
    let map = Arc::new(DashMap::new());
    map.insert(8, OpCodes::GetAcl);
    let mut client = ClientPacketCodec::new(map);
    let mut server = ServerPacketCodec::new();
    let make = || ResponsePacket {
        response_header: Some(ReplyHeader { xid: 8, zxid: 100, err: 0 }),
        response: ZkResponse::GetAcl {
            acl: vec![Acl { perms: 1, scheme: b"digest".to_vec(), cred: b"u:p".to_vec() }],
            stat: stat(),
        },
    };
    let mut wire = BytesMut::new();
    server.encode(make(), &mut wire).unwrap();
    match client.decode(&mut wire) {
        Decoded::Done(Some(back)) => assert_eq!(back, make()),
        other => panic!("unexpected {:?}", other),
    }
}

#[test]
fn listing_the_root_is_answered_by_the_proxy() {
    let packet = RequestPacket {
        request_header: Some(RequestHeader { xid: 17, opcode: 8 }),
        request: Request::GetChildren(GetChildrenRequest { path: "/".to_string(), watch: false }),
    };
    match route_request(packet) {
        Route::Answer(resp) => {
            assert_eq!(resp.response_header, Some(ReplyHeader { xid: 17, zxid: 0, err: -102 }));
            assert_eq!(resp.response, ZkResponse::Ping);
        }
        other => panic!("unexpected {:?}", other),
    }
}

#[test]
fn other_requests_are_forwarded_unchanged() {
    let packet = RequestPacket {
        request_header: Some(RequestHeader { xid: 17, opcode: 8 }),
        request: Request::GetChildren(GetChildrenRequest { path: "/a".to_string(), watch: false }),
    };
    match route_request(packet) {
        Route::Forward(p) => assert_eq!(
            p.request,
            Request::GetChildren(GetChildrenRequest { path: "/a".to_string(), watch: false })
        ),
        other => panic!("unexpected {:?}", other),
    }
    let ping = RequestPacket {
        request_header: Some(RequestHeader { xid: -2, opcode: 11 }),
        request: Request::Ping(PingRequest),
    };
    assert!(matches!(route_request(ping), Route::Forward(_)));
}

#[test]
fn server_value_is_empty() {
    let _ = ZkServer::new();
}
