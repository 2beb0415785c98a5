use bytes::BytesMut;
use zkproxy::codec::{
    ensure_max_len, ensure_min_length, Acl, ConnectRequest, ConnectResponse, CreateRequest,
    DeleteRequest, ExistsRequest, GetAclRequest, GetChildrenRequest, GetDataRequest,
    GetDataResponse, PingRequest, ReplyHeader, Request, RequestHeader, RequestPacket,
    ResponsePacket, SetAclRequest, SetDataRequest, SetWatchesRequest, Stat, ZkResponse,
};
use zkproxy::codes::{OpCodes, XidCodes};
use zkproxy::errors::ZkError;
use zkproxy::record::{Decoded, Deserialize, Record};

fn encode<R: Record>(r: &R) -> Vec<u8> {
    let mut buf = BytesMut::new();
    r.serialize_into(&mut buf).unwrap();
    buf.to_vec()
}

fn sample_stat() -> Stat {
    Stat {
        czxid: 1,
        mzxid: 2,
        ctime: 3,
        mtime: 4,
        version: 5,
        cversion: 6,
        aversion: 7,
        ephemeral_owner: 8,
        data_length: 9,
        num_children: 10,
        pzxid: 11,
    }
}

#[test]
fn min_length_check() {
    assert_eq!(ensure_min_length(3, 4), Err(ZkError::InvalidPacketLength(3)));
    assert_eq!(ensure_min_length(4, 4), Ok(()));
    assert_eq!(ensure_min_length(-1, -5), Ok(()));
}

#[test]
fn max_length_accepts_everything() {
    assert_eq!(ensure_max_len(0), Ok(()));
    assert_eq!(ensure_max_len(usize::MAX), Ok(()));
}

#[test]
fn xid_codes_from_numbers() {
    assert_eq!(XidCodes::from_i32(0), Some(XidCodes::ConnectXid));
    assert_eq!(XidCodes::from_i32(-1), Some(XidCodes::WatchXid));
    assert_eq!(XidCodes::from_i32(-2), Some(XidCodes::PingXid));
    assert_eq!(XidCodes::from_i32(-4), Some(XidCodes::AuthXid));
    assert_eq!(XidCodes::from_i32(-8), Some(XidCodes::SetWatchesXid));
    assert_eq!(XidCodes::from_i32(7), None);
    assert_eq!(XidCodes::from_i32(-3), None);
}

#[test]
fn opcodes_from_numbers() {
    assert_eq!(OpCodes::from_i32(1), Some(OpCodes::Create));
    assert_eq!(OpCodes::from_i32(4), Some(OpCodes::GetData));
    assert_eq!(OpCodes::from_i32(12), Some(OpCodes::GetChildren2));
    assert_eq!(OpCodes::from_i32(21), Some(OpCodes::CreateTtl));
    assert_eq!(OpCodes::from_i32(101), Some(OpCodes::SetWatches));
    assert_eq!(OpCodes::from_i32(105), Some(OpCodes::SetWatches2));
    assert_eq!(OpCodes::from_i32(-10), Some(OpCodes::Connect));
    assert_eq!(OpCodes::from_i32(-11), Some(OpCodes::Close));
    assert_eq!(OpCodes::from_i32(10), None);
    assert_eq!(OpCodes::from_i32(20), None);
    assert_eq!(OpCodes::from_i32(0), None);
}

#[test]
fn get_data_request_bytes_and_size() {
    let req = GetDataRequest { path: "/a".to_string(), watch: true };
    assert_eq!(encode(&req), vec![0, 0, 0, 2, b'/', b'a', 1]);
    assert_eq!(req.size(), 7);
    let mut buf = BytesMut::from(&[0u8, 0, 0, 2, b'/', b'a', 1, 42][..]);
    let back = GetDataRequest::deserialize(&mut buf).unwrap();
    assert_eq!(back, req);
    assert_eq!(&buf[..], &[42u8][..]);
}

#[test]
fn get_data_request_watch_reads_only_one_as_true() {
    let mut buf = BytesMut::from(&[0u8, 0, 0, 1, b'/', 2][..]);
    let back = GetDataRequest::deserialize(&mut buf).unwrap();
    assert!(!back.watch);
    let mut buf = BytesMut::from(&[0u8, 0, 0, 1, b'/', 2][..]);
    let back = GetChildrenRequest::deserialize(&mut buf).unwrap();
    assert!(back.watch);
}

#[test]
fn multibyte_path_is_counted_in_bytes() {
    let req = ExistsRequest { path: "/é".to_string(), watch: false };
    assert_eq!(encode(&req), vec![0, 0, 0, 3, b'/', 0xc3, 0xa9, 0]);
    assert_eq!(req.size(), 8);
    let mut buf = BytesMut::from(&encode(&req)[..]);
    assert_eq!(ExistsRequest::deserialize(&mut buf).unwrap(), req);
}

#[test]
fn connect_request_bytes_and_size() {
    let req = ConnectRequest {
        protocol_version: 0,
        last_zxid_seen: 0x0102030405060708,
        timeout: 30000,
        session_id: 7,
        passwd: vec![9, 9],
        read_only: true,
    };
    let bytes = encode(&req);
    assert_eq!(
        bytes,
        vec![
            0, 0, 0, 0, 1, 2, 3, 4, 5, 6, 7, 8, 0, 0, 0x75, 0x30, 0, 0, 0, 0, 0, 0, 0, 7, 0, 0, 0,
            2, 9, 9, 1
        ]
    );
    assert_eq!(req.size(), 31);
    let mut buf = BytesMut::from(&bytes[4..]);
    assert_eq!(ConnectRequest::deserialize(&mut buf).unwrap(), req);
    assert!(buf.is_empty());
}

#[test]
fn connect_request_without_flag_byte_is_not_read_only() {
    let mut buf = BytesMut::from(&[0u8, 0, 0, 0, 0, 0, 0, 1, 0, 0, 0, 2, 0, 0, 0, 0, 0, 0, 0, 3, 0, 0, 0, 0][..]);
    let req = ConnectRequest::deserialize(&mut buf).unwrap();
    assert_eq!(req.protocol_version, 0);
    assert_eq!(req.last_zxid_seen, 1);
    assert_eq!(req.timeout, 2);
    assert_eq!(req.session_id, 3);
    assert!(req.passwd.is_empty());
    assert!(!req.read_only);
}

#[test]
fn connect_request_with_short_password_cannot_be_read() {
    let mut buf = BytesMut::from(&[0u8, 0, 0, 0, 0, 0, 0, 1, 0, 0, 0, 2, 0, 0, 0, 0, 0, 0, 0, 3, 0, 0, 0, 5, 1][..]);
    assert!(matches!(ConnectRequest::try_deserialize(&mut buf), Decoded::Aborts));
}

#[test]
fn connect_response_bytes_and_size() {
    let resp = ConnectResponse {
        protocol_version: 0,
        timeout: 4000,
        session_id: -1,
        passwd: vec![5],
        read_only: false,
    };
    let bytes = encode(&resp);
    assert_eq!(
        bytes,
        vec![0, 0, 0, 0, 0, 0, 0x0f, 0xa0, 0xff, 0xff, 0xff, 0xff, 0xff, 0xff, 0xff, 0xff, 0, 0, 0, 1, 5, 0]
    );
    assert_eq!(resp.size(), 22);
    let mut buf = BytesMut::from(&bytes[4..]);
    assert_eq!(ConnectResponse::deserialize(&mut buf).unwrap(), resp);
}

#[test]
fn stat_bytes_and_roundtrip() {
    let stat = sample_stat();
    let bytes = encode(&stat);
    assert_eq!(bytes.len(), 68);
    assert_eq!(stat.size(), 68);
    assert_eq!(&bytes[0..8], &[0u8, 0, 0, 0, 0, 0, 0, 1][..]);
    assert_eq!(&bytes[32..36], &[0u8, 0, 0, 5][..]);
    assert_eq!(&bytes[60..68], &[0u8, 0, 0, 0, 0, 0, 0, 11][..]);
    let mut buf = BytesMut::from(&bytes[..]);
    assert_eq!(Stat::deserialize(&mut buf).unwrap(), stat);
    let mut short = BytesMut::from(&bytes[..67]);
    assert!(matches!(Stat::try_deserialize(&mut short), Decoded::Aborts));
}

#[test]
fn acl_bytes_and_size() {
    let acl = Acl { perms: 31, scheme: b"world".to_vec(), cred: b"anyone".to_vec() };
    let mut expected = vec![0, 0, 0, 31, 0, 0, 0, 5];
    expected.extend_from_slice(b"world");
    expected.extend_from_slice(&[0, 0, 0, 6]);
    expected.extend_from_slice(b"anyone");
    assert_eq!(encode(&acl), expected);
    assert_eq!(acl.size(), 23);
}

#[test]
fn create_request_roundtrip_and_size() {
    let req = CreateRequest {
        path: "/n".to_string(),
        data: vec![1, 2, 3],
        acl: vec![Acl { perms: 31, scheme: b"world".to_vec(), cred: b"anyone".to_vec() }],
        flags: 2,
    };
    let bytes = encode(&req);
    assert_eq!(bytes.len(), 4 + 2 + 4 + 3 + 4 + 23 + 4);
    assert_eq!(req.size(), bytes.len());
    let mut buf = BytesMut::from(&bytes[..]);
    assert_eq!(CreateRequest::deserialize(&mut buf).unwrap(), req);
}

#[test]
fn data_longer_than_packet_is_an_error() {
    let mut buf = BytesMut::from(&[0u8, 0, 0, 1, b'/', 0, 0, 0, 10, 1, 2][..]);
    assert_eq!(CreateRequest::deserialize(&mut buf), Err(ZkError::InvalidPacketLength(10)));
}

#[test]
fn acl_count_beyond_remaining_bytes_is_an_error() {
    let mut buf = BytesMut::from(&[0u8, 0, 0, 0, 0, 0, 0, 0, 0, 0, 0, 9, 1, 2][..]);
    assert_eq!(CreateRequest::deserialize(&mut buf), Err(ZkError::InvalidPacketLength(9)));
}

#[test]
fn invalid_utf8_path_is_an_error() {
    let mut buf = BytesMut::from(&[0u8, 0, 0, 2, 0xff, 0xfe, 0, 0, 0, 1][..]);
    assert_eq!(DeleteRequest::deserialize(&mut buf), Err(ZkError::InvalidString));
}

#[test]
fn negative_length_reads_as_empty() {
    let mut buf = BytesMut::from(&[0xffu8, 0xff, 0xff, 0xff, 0, 0, 0, 7][..]);
    let req = DeleteRequest::deserialize(&mut buf).unwrap();
    assert_eq!(req, DeleteRequest { path: String::new(), version: 7 });
}

#[test]
fn get_acl_request_roundtrip() {
    let req = GetAclRequest { path: "/acl".to_string() };
    assert_eq!(encode(&req), vec![0, 0, 0, 4, b'/', b'a', b'c', b'l']);
    assert_eq!(req.size(), 8);
    let mut buf = BytesMut::from(&encode(&req)[..]);
    assert_eq!(GetAclRequest::deserialize(&mut buf).unwrap(), req);
}

#[test]
fn set_data_request_roundtrip() {
    let bytes = vec![0u8, 0, 0, 2, b'/', b'x', 0, 0, 0, 1, 0xaa, 0, 0, 0, 3];
    let mut buf = BytesMut::from(&bytes[..]);
    let req = SetDataRequest::deserialize(&mut buf).unwrap();
    assert_eq!(encode(&req), bytes);
    assert_eq!(req.size(), bytes.len());
}

#[test]
fn set_acl_request_roundtrip() {
    let bytes = vec![
        0u8, 0, 0, 1, b'/', 0, 0, 0, 1, 0, 0, 0, 31, 0, 0, 0, 2, b'i', b'p', 0, 0, 0, 1, b'*', 0, 0, 0, 4,
    ];
    let mut buf = BytesMut::from(&bytes[..]);
    let req = SetAclRequest::deserialize(&mut buf).unwrap();
    assert_eq!(encode(&req), bytes);
    assert_eq!(req.size(), bytes.len());
}

#[test]
fn set_acl_request_with_negative_count_cannot_be_read() {
    let mut buf = BytesMut::from(&[0u8, 0, 0, 1, b'/', 0xff, 0xff, 0xff, 0xff][..]);
    assert!(matches!(SetAclRequest::try_deserialize(&mut buf), Decoded::Aborts));
}

#[test]
fn set_watches_request_roundtrip() {
    let bytes = vec![
        0u8, 0, 0, 0, 0, 0, 0, 9, 0, 0, 0, 1, 0, 0, 0, 2, b'/', b'a', 0, 0, 0, 0, 0, 0, 0, 2, 0, 0,
        0, 1, b'/', 0, 0, 0, 1, b'b',
    ];
    let mut buf = BytesMut::from(&bytes[..]);
    let req = SetWatchesRequest::deserialize(&mut buf).unwrap();
    assert_eq!(encode(&req), bytes);
    assert_eq!(req.size(), bytes.len());
}

#[test]
fn set_watches_request_with_invalid_text_is_an_error() {
    let mut buf = BytesMut::from(&[0u8, 0, 0, 0, 0, 0, 0, 9, 0, 0, 0, 1, 0, 0, 0, 1, 0xff][..]);
    assert_eq!(SetWatchesRequest::deserialize(&mut buf), Err(ZkError::InvalidString));
}

#[test]
fn request_dispatches_to_its_body() {
    let req = Request::GetChildren2(GetChildrenRequest { path: "/c".to_string(), watch: false });
    assert_eq!(encode(&req), vec![0, 0, 0, 2, b'/', b'c', 0]);
    assert_eq!(req.size(), 7);
    assert_eq!(encode(&Request::Ping(PingRequest)), Vec::<u8>::new());
    assert_eq!(Request::Close(PingRequest).size(), 0);
    let mut buf = BytesMut::from(&[1u8][..]);
    assert!(matches!(PingRequest::try_deserialize(&mut buf), Decoded::Done(PingRequest)));
    assert_eq!(buf.len(), 1);
}

#[test]
fn request_packet_with_header() {
    let packet = RequestPacket {
        request_header: Some(RequestHeader { xid: 3, opcode: 2 }),
        request: Request::Delete(DeleteRequest { path: "/d".to_string(), version: -1 }),
    };
    assert_eq!(
        encode(&packet),
        vec![0, 0, 0, 3, 0, 0, 0, 2, 0, 0, 0, 2, b'/', b'd', 0xff, 0xff, 0xff, 0xff]
    );
    assert_eq!(packet.size(), 18);
}

#[test]
fn reply_header_bytes() {
    let h = ReplyHeader { xid: 1, zxid: 2, err: -101 };
    assert_eq!(encode(&h), vec![0, 0, 0, 1, 0, 0, 0, 0, 0, 0, 0, 2, 0xff, 0xff, 0xff, 0x9b]);
    assert_eq!(h.size(), 16);
}

#[test]
fn responses_sizes_and_bytes() {
    let strings = ZkResponse::Strings(vec!["a".to_string(), "bc".to_string()]);
    assert_eq!(encode(&strings), vec![0, 0, 0, 2, 0, 0, 0, 1, b'a', 0, 0, 0, 2, b'b', b'c']);
    assert_eq!(strings.size(), 15);
    let text = ZkResponse::String("/new".to_string());
    assert_eq!(encode(&text), vec![0, 0, 0, 4, b'/', b'n', b'e', b'w']);
    assert_eq!(text.size(), 8);
    assert_eq!(encode(&ZkResponse::Empty), Vec::<u8>::new());
    assert_eq!(ZkResponse::Ping.size(), 0);
    let data = ZkResponse::GetData(GetDataResponse::new(vec![7, 7], sample_stat()));
    assert_eq!(encode(&data).len(), 4 + 2 + 68);
    assert_eq!(data.size(), 74);
    let children = ZkResponse::GetChildren2 { children: vec!["z".to_string()], stat: sample_stat() };
    assert_eq!(encode(&children).len(), 4 + 5 + 68);
    assert_eq!(children.size(), 77);
    assert_eq!(ZkResponse::Stat(sample_stat()).size(), 68);
}

#[test]
fn acl_response_size_counts_eight_bytes_per_entry() {
    let resp = ZkResponse::GetAcl {
        acl: vec![Acl { perms: 1, scheme: b"s".to_vec(), cred: b"c".to_vec() }],
        stat: sample_stat(),
    };
    assert_eq!(resp.size(), 4 + 8 + 68);
    assert_eq!(encode(&resp).len(), 4 + 14 + 68);
    let empty = ZkResponse::GetAcl { acl: vec![], stat: sample_stat() };
    assert_eq!(empty.size(), encode(&empty).len());
}

#[test]
fn response_packet_with_header() {
    let packet = ResponsePacket {
        response_header: Some(ReplyHeader { xid: 9, zxid: 1, err: 0 }),
        response: ZkResponse::Stat(sample_stat()),
    };
    assert_eq!(packet.size(), 84);
    assert_eq!(encode(&packet).len(), 84);
    let plain = ResponsePacket { response_header: None, response: ZkResponse::Empty };
    assert_eq!(plain.size(), 0);
}
