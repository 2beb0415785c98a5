use bytes::BytesMut;
use zkproxy::proto::{
    ConnectRequest, ConnectResponse, GetDataRequest, GetDataResponse, ReplyHeader, RequestHeader,
    RequestPacket, ZkRequest, ZkResponse,
};
use zkproxy::record::Record;

fn encode<R: Record>(r: &R) -> Vec<u8> {
    let mut buf = BytesMut::new();
    r.serialize_into(&mut buf).unwrap();
    buf.to_vec()
}

fn data_response() -> GetDataResponse {
    GetDataResponse {
        reply_header: ReplyHeader { xid: 1, zxid: 2, err: 0 },
        data: vec![5, 6],
        czxid: 1,
        mzxid: 2,
        ctime: 3,
        mtime: 4,
        version: 5,
        cversion: 6,
        aversion: 7,
        ephemeral_owner: 8,
        data_length: 2,
        num_children: 0,
        pzxid: 9,
    }
}

#[test]
fn proto_connect_request_reads_fields_and_zero_password() {
    let bytes = vec![
        0u8, 0, 0, 44, 0, 0, 0, 0, 0, 0, 0, 0, 0, 0, 0, 3, 0, 0, 0x75, 0x30, 0, 0, 0, 0, 0, 0, 0,
        1, 0, 0, 0, 2, 9, 9, 1,
    ];
    let mut buf = BytesMut::from(&bytes[..]);
    let req = ConnectRequest::deserialize(&mut buf);
    assert_eq!(
        req,
        ConnectRequest {
            protocol_version: 0,
            last_zxid_seen: 3,
            timeout: 30000,
            session_id: 1,
            passwd: vec![0, 0],
            read_only: true,
        }
    );
    assert_eq!(&buf[..], &[9u8, 1][..]);
}

#[test]
fn proto_requests_bytes_and_sizes() {
    let get = ZkRequest::GetData(GetDataRequest { path: "/p".to_string(), watch: false });
    assert_eq!(encode(&get), vec![0, 0, 0, 2, b'/', b'p', 0]);
    assert_eq!(get.size(), 7);
    assert_eq!(encode(&ZkRequest::Ping), Vec::<u8>::new());
    assert_eq!(ZkRequest::Ping.size(), 0);
    let connect = ZkRequest::ConnectInit(ConnectRequest {
        protocol_version: 0,
        last_zxid_seen: 0,
        timeout: 2,
        session_id: 0,
        passwd: vec![1],
        read_only: true,
    });
    let bytes = encode(&connect);
    assert_eq!(bytes.len(), 30);
    assert_eq!(connect.size(), 30);
    assert_eq!(&bytes[24..], &[0u8, 0, 0, 1, 1, 1][..]);
    let packet = RequestPacket {
        request_header: Some(RequestHeader { xid: 4, opcode: 11 }),
        request: ZkRequest::Ping,
    };
    assert_eq!(encode(&packet), vec![0, 0, 0, 4, 0, 0, 0, 11]);
    assert_eq!(packet.size(), 8);
}

#[test]
fn proto_responses_bytes_and_sizes() {
    let ping = ZkResponse::Ping(ReplyHeader { xid: -2, zxid: 1, err: 0 });
    assert_eq!(encode(&ping), vec![0xff, 0xff, 0xff, 0xfe, 0, 0, 0, 0, 0, 0, 0, 1, 0, 0, 0, 0]);
    assert_eq!(ping.size(), 16);
    let connect = ZkResponse::Connect(ConnectResponse {
        protocol_version: 0,
        timeout: 1,
        session_id: 2,
        passwd: vec![3, 3],
        read_only: true,
    });
    assert_eq!(
        encode(&connect),
        vec![0, 0, 0, 0, 0, 0, 0, 1, 0, 0, 0, 0, 0, 0, 0, 2, 0, 0, 0, 2, 3, 3, 1]
    );
    assert_eq!(connect.size(), 23);
    let data = ZkResponse::GetData(data_response());
    assert_eq!(encode(&data).len(), 16 + 4 + 2 + 68);
    assert_eq!(data.size(), 90);
}

#[test]
fn proto_get_data_response_layout() {
    let mut buf = BytesMut::new();
    data_response().serialize_into(&mut buf).unwrap();
    let bytes = buf.to_vec();
    assert_eq!(&bytes[..16], &[0u8, 0, 0, 1, 0, 0, 0, 0, 0, 0, 0, 2, 0, 0, 0, 0][..]);
    assert_eq!(&bytes[16..22], &[0u8, 0, 0, 2, 5, 6][..]);
    assert_eq!(&bytes[22..30], &[0u8, 0, 0, 0, 0, 0, 0, 1][..]);
    assert_eq!(&bytes[82..90], &[0u8, 0, 0, 0, 0, 0, 0, 9][..]);
}
