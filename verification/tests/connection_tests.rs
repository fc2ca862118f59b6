use flow_transport::connection::{ConnState, ConnectPacket, Connection, FLAG_CHECKSUM};
use flow_transport::errors::FlowError;
use flow_transport::frame::{Frame, NetAddress};
use flow_transport::uid::UID;

fn local_packet(version: u64, flags: u32) -> ConnectPacket {
    ConnectPacket {
        protocol_version: version,
        flags,
        canonical_address: NetAddress { ip: 0x7f000001, port: 6789 },
    }
}

#[test]
fn connect_packet_round_trip() {
    let p = local_packet(0x0fdb00b073000000, FLAG_CHECKSUM);
    let bytes = p.encode();
    assert_eq!(bytes.len(), 18);
    let q = ConnectPacket::decode(&bytes).unwrap();
    assert_eq!(p, q);
}

#[test]
fn connect_packet_layout() {
    let p = local_packet(0x1122334455667788, 0x0a0b0c0d);
    let bytes = p.encode();
    assert_eq!(&bytes[0..8], &0x1122334455667788u64.to_le_bytes());
    assert_eq!(&bytes[8..12], &0x0a0b0c0du32.to_le_bytes());
    assert_eq!(&bytes[12..16], &0x7f000001u32.to_le_bytes());
    assert_eq!(&bytes[16..18], &6789u16.to_le_bytes());
}

#[test]
fn connect_packet_short_read() {
    assert_eq!(ConnectPacket::decode(&[0u8; 17]), Err(FlowError::Truncated));
}

#[test]
fn handshake_reaches_ready() {
    let mut a = Connection::new(local_packet(7, FLAG_CHECKSUM));
    let mut b = Connection::new(local_packet(7, FLAG_CHECKSUM));
    let a_bytes = a.send_connect_packet().unwrap();
    let b_bytes = b.send_connect_packet().unwrap();
    a.receive_connect_packet(&b_bytes).unwrap();
    b.receive_connect_packet(&a_bytes).unwrap();
    assert_eq!(a.state, ConnState::HandshakeReceived);
    a.complete_handshake().unwrap();
    b.complete_handshake().unwrap();
    assert_eq!(a.state, ConnState::Ready);
    assert_eq!(b.state, ConnState::Ready);
    // both offered the checksum flag, so framing is checksummed
    assert!(a.with_checksum);
    assert!(b.with_checksum);
}

#[test]
fn checksum_requires_both_peers() {
    let mut a = Connection::new(local_packet(7, FLAG_CHECKSUM));
    let mut b = Connection::new(local_packet(7, 0));
    let b_bytes = b.send_connect_packet().unwrap();
    a.send_connect_packet().unwrap();
    a.receive_connect_packet(&b_bytes).unwrap();
    a.complete_handshake().unwrap();
    assert_eq!(a.state, ConnState::Ready);
    assert!(!a.with_checksum);
}

#[test]
fn version_mismatch_closes() {
    let mut a = Connection::new(local_packet(7, 0));
    let mut b = Connection::new(local_packet(8, 0));
    let b_bytes = b.send_connect_packet().unwrap();
    a.send_connect_packet().unwrap();
    a.receive_connect_packet(&b_bytes).unwrap();
    assert_eq!(a.complete_handshake(), Err(FlowError::HandshakeMismatch));
    assert_eq!(a.state, ConnState::Closed);
    // a closed connection rejects everything
    assert_eq!(a.complete_handshake(), Err(FlowError::ConnectionClosed));
}

#[test]
fn short_handshake_read_closes() {
    let mut a = Connection::new(local_packet(7, 0));
    a.send_connect_packet().unwrap();
    assert_eq!(a.receive_connect_packet(&[0u8; 3]), Err(FlowError::Truncated));
    assert_eq!(a.state, ConnState::Closed);
}

#[test]
fn no_frames_before_handshake() {
    let conn = Connection::new(local_packet(7, 0));
    let frame = Frame { token: UID { first: 1, second: 2 }, payload: vec![0; 8] };
    assert!(matches!(
        conn.frame_bytes(&frame),
        Err(FlowError::ConnectionClosed)
    ));
    assert!(matches!(
        conn.read_wire(&[], 0),
        Err(FlowError::ConnectionClosed)
    ));
}

#[test]
fn ready_connection_frames_round_trip() {
    let mut a = Connection::new(local_packet(7, FLAG_CHECKSUM));
    let mut b = Connection::new(local_packet(7, FLAG_CHECKSUM));
    let a_bytes = a.send_connect_packet().unwrap();
    let b_bytes = b.send_connect_packet().unwrap();
    a.receive_connect_packet(&b_bytes).unwrap();
    b.receive_connect_packet(&a_bytes).unwrap();
    a.complete_handshake().unwrap();
    b.complete_handshake().unwrap();
    let frame = Frame {
        token: UID { first: 0x0123456789abcdef, second: 0xfedcba9876543210 },
        payload: vec![1, 2, 3, 4, 5, 6, 7, 8],
    };
    let wire = a.frame_bytes(&frame).unwrap();
    let (got, end) = b.read_wire(&wire, 0).unwrap().unwrap();
    assert_eq!(got.token, frame.token);
    assert_eq!(got.payload, frame.payload);
    assert_eq!(end, wire.len());
}

#[test]
fn double_send_is_rejected() {
    let mut a = Connection::new(local_packet(7, 0));
    a.send_connect_packet().unwrap();
    assert!(matches!(
        a.send_connect_packet(),
        Err(FlowError::ConnectionClosed)
    ));
}
