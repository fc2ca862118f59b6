use flow_transport::codec::write_frame;
use flow_transport::errors::FlowError;
use flow_transport::frame::{Flow, FlowMessage, Frame, NetAddress, Peer};
use flow_transport::limits::{ConnectionLimiter, RequestLimiter, MAX_CONNECTIONS, MAX_REQUESTS};
use flow_transport::receiver::{receiver_step, ReceiverStep};
use flow_transport::router::{
    endpoint_not_found_reply, ping_reply, PendingTable, RequestRouter, RouteDecision,
};
use flow_transport::router::{FlowRequest, FlowResponse};
use flow_transport::sender::{handle_req, write_batch, OutboundQueue};
use flow_transport::uid::{UID, WLTOKEN};

fn peer() -> NetAddress {
    NetAddress { ip: 0x7f000001, port: 6789 }
}

fn message(token: UID) -> FlowMessage {
    let frame = Frame { token, payload: vec![1, 2, 3, 4, 5, 6, 7, 8] };
    FlowMessage::new(
        Flow { src: Peer::Remote(peer()), dst: Peer::Local(None) },
        frame,
    )
    .unwrap()
}

#[test]
fn pending_table_never_takes_well_known_tokens() {
    let mut table = PendingTable::new();
    for w in [
        WLTOKEN::EndpointNotFound,
        WLTOKEN::PingPacket,
        WLTOKEN::AuthTenant,
        WLTOKEN::UnauthorizedEndpoint,
        WLTOKEN::NetworkTest,
        WLTOKEN::ReservedForTesting,
    ] {
        let token = UID::well_known_token(w);
        assert_eq!(table.insert(token), Err(FlowError::WellKnownReplyToken));
        assert!(!table.contains(&token));
    }
    assert_eq!(table.len(), 0);
}

#[test]
fn pending_table_insert_remove() {
    let mut table = PendingTable::new();
    let u = UID { first: 1, second: 2 };
    let v = UID { first: 3, second: 4 };
    table.insert(u).unwrap();
    table.insert(v).unwrap();
    assert_eq!(table.insert(u), Err(FlowError::DuplicateReplyToken));
    assert_eq!(table.len(), 2);
    assert!(table.contains(&u));
    assert!(table.remove(&u));
    assert!(!table.contains(&u));
    assert!(table.contains(&v));
    assert!(!table.remove(&u));
    assert_eq!(table.len(), 1);
}

#[test]
fn teardown_drains_every_waiter() {
    let mut table = PendingTable::new();
    let u = UID { first: 1, second: 2 };
    let v = UID { first: 3, second: 4 };
    table.insert(u).unwrap();
    table.insert(v).unwrap();
    let orphans = table.drain();
    assert_eq!(orphans, vec![u, v]);
    assert_eq!(table.len(), 0);
    assert!(!table.contains(&u));
}

#[test]
fn route_well_known_with_handler() {
    let mut router = RequestRouter::new();
    router.register_handler(WLTOKEN::PingPacket);
    let d = router.route(UID::well_known_token(WLTOKEN::PingPacket));
    assert_eq!(d, RouteDecision::CallHandler(WLTOKEN::PingPacket));
}

#[test]
fn route_well_known_without_handler() {
    let mut router = RequestRouter::new();
    router.register_handler(WLTOKEN::PingPacket);
    let d = router.route(UID::well_known_token(WLTOKEN::AuthTenant));
    assert_eq!(d, RouteDecision::ReplyEndpointNotFound);
}

#[test]
fn route_ephemeral_resolves_pending_once() {
    let mut router = RequestRouter::new();
    let reply = UID { first: 0x0123456789abcdef, second: 0xfedcba9876543210 };
    router.prepare_send(Some(reply)).unwrap();
    assert_eq!(router.route(reply), RouteDecision::DeliverPending);
    // the entry is gone: a second matching frame finds nobody
    assert_eq!(router.route(reply), RouteDecision::ReplyEndpointNotFound);
}

#[test]
fn prepare_send_rejects_well_known_reply_promise() {
    let mut router = RequestRouter::new();
    let token = UID::well_known_token(WLTOKEN::PingPacket);
    assert_eq!(
        router.prepare_send(Some(token)),
        Err(FlowError::WellKnownReplyToken)
    );
    assert_eq!(router.prepare_send(None), Ok(()));
}

#[test]
fn ping_reply_addresses_reply_promise() {
    let reply = UID { first: 0x0123456789abcdef, second: 0xfedcba9876543210 };
    let frame = ping_reply(reply);
    assert_eq!(frame.token, reply);
    assert!(frame.payload.is_empty());
}

#[test]
fn endpoint_not_found_reply_carries_original_token() {
    let original = message(UID { first: 5, second: 6 });
    let reply = endpoint_not_found_reply(&original);
    assert_eq!(
        reply.frame.token.get_well_known_endpoint(),
        Some(WLTOKEN::EndpointNotFound)
    );
    let mut expected = Vec::new();
    expected.extend_from_slice(&5u64.to_le_bytes());
    expected.extend_from_slice(&6u64.to_le_bytes());
    assert_eq!(reply.frame.payload, expected);
    assert_eq!(reply.flow.dst, original.flow.src);
    assert_eq!(reply.flow.src, original.flow.dst);
}

#[test]
fn flow_request_caches_parsed_header() {
    let frame = Frame {
        token: UID { first: 1, second: 2 },
        payload: vec![0xdd, 0xcc, 0xbb, 0xaa, 0, 0, 0, 0],
    };
    let request = FlowRequest::new(frame).unwrap();
    assert_eq!(request.parsed_file_identifier.file_identifier, 0xaabbccdd);
    let response = FlowResponse { frame: request.frame };
    assert_eq!(response.frame.token, UID { first: 1, second: 2 });
    let short = Frame { token: UID { first: 1, second: 2 }, payload: vec![1] };
    assert!(matches!(
        FlowRequest::new(short),
        Err(FlowError::FrameTooShort)
    ));
}

#[test]
fn error_labels_are_distinct() {
    assert_eq!(FlowError::FrameTooShort.label(), "frame_too_short");
    assert_eq!(FlowError::HandshakeMismatch.label(), "handshake_mismatch");
    assert_ne!(
        FlowError::LengthZero.label(),
        FlowError::LengthOverMax.label()
    );
}

#[test]
fn connection_limiter_caps_at_max() {
    let mut limiter = ConnectionLimiter::new();
    for _ in 0..MAX_CONNECTIONS {
        assert!(limiter.try_acquire());
    }
    assert_eq!(limiter.live, MAX_CONNECTIONS);
    // the extra connection waits until another closes
    assert!(!limiter.try_acquire());
    limiter.release();
    assert!(limiter.try_acquire());
}

#[test]
fn request_limiter_caps_at_max() {
    let mut limiter = RequestLimiter::new();
    for _ in 0..MAX_REQUESTS {
        assert!(limiter.try_admit());
    }
    assert!(!limiter.try_admit());
    assert_eq!(limiter.in_flight, MAX_REQUESTS);
    limiter.finish();
    assert!(limiter.try_admit());
}

#[test]
fn sender_writes_batch_in_enqueue_order() {
    let mut queue = OutboundQueue::new();
    let a = message(UID { first: 1, second: 1 });
    let b = message(UID { first: 2, second: 2 });
    let mut expected = Vec::new();
    write_frame(&mut expected, &a.frame, false);
    write_frame(&mut expected, &b.frame, false);
    queue.enqueue(a).unwrap();
    queue.enqueue(b).unwrap();
    let batch = queue.drain();
    let mut out = Vec::new();
    write_batch(&mut out, &batch, false).unwrap();
    assert_eq!(out, expected);
}

#[test]
fn closed_queue_refuses_messages() {
    let mut queue = OutboundQueue::new();
    queue.close();
    assert!(matches!(
        queue.enqueue(message(UID { first: 1, second: 1 })),
        Err(FlowError::ConnectionClosed)
    ));
}

#[test]
fn handle_req_validates_then_enqueues() {
    let mut queue = OutboundQueue::new();
    let m = message(UID { first: 9, second: 9 });
    assert!(matches!(handle_req(&mut queue, m), Ok(None)));
    let short = FlowMessage {
        flow: Flow { src: Peer::Local(None), dst: Peer::Remote(peer()) },
        frame: Frame { token: UID { first: 1, second: 1 }, payload: vec![1, 2] },
        file_identifier: 0,
    };
    assert!(matches!(
        handle_req(&mut queue, short),
        Err(FlowError::FrameTooShort)
    ));
}

#[test]
fn receiver_discards_short_frames_and_keeps_going() {
    let mut router = RequestRouter::new();
    router.register_handler(WLTOKEN::PingPacket);
    let mut limiter = RequestLimiter::new();
    let short = Frame { token: UID::well_known_token(WLTOKEN::PingPacket), payload: vec![1, 2, 3] };
    let step = receiver_step(&mut router, &mut limiter, peer(), short);
    assert!(matches!(step, ReceiverStep::Discard));
    assert_eq!(limiter.in_flight, 0);
    // the next, valid frame on the same connection is processed normally
    let good = Frame {
        token: UID::well_known_token(WLTOKEN::PingPacket),
        payload: vec![1, 2, 3, 4, 5, 6, 7, 8],
    };
    match receiver_step(&mut router, &mut limiter, peer(), good) {
        ReceiverStep::Dispatched(m, d) => {
            assert_eq!(d, RouteDecision::CallHandler(WLTOKEN::PingPacket));
            assert_eq!(m.flow.src, Peer::Remote(peer()));
            assert_eq!(m.flow.dst, Peer::Local(None));
        },
        _ => panic!("expected a dispatch"),
    }
    assert_eq!(limiter.in_flight, 1);
}

#[test]
fn ping_round_trip_over_the_codec() {
    // Client: a ping whose payload carries the reply-promise token
    // after the 8-byte schema header.
    let reply_uid = UID { first: 0x0123456789abcdef, second: 0xfedcba9876543210 };
    let mut payload = vec![0u8; 8];
    payload.extend_from_slice(&reply_uid.first.to_le_bytes());
    payload.extend_from_slice(&reply_uid.second.to_le_bytes());
    let request = Frame { token: UID::well_known_token(WLTOKEN::PingPacket), payload };
    let mut client_router = RequestRouter::new();
    client_router.prepare_send(Some(reply_uid)).unwrap();
    let mut wire = Vec::new();
    write_frame(&mut wire, &request, false);

    // Server: read the frame, admit it, dispatch to the ping handler.
    let (got, _) = flow_transport::codec::read_frame(&wire, 0, false)
        .unwrap()
        .unwrap();
    let mut server_router = RequestRouter::new();
    server_router.register_handler(WLTOKEN::PingPacket);
    let mut limiter = RequestLimiter::new();
    let step = receiver_step(&mut server_router, &mut limiter, peer(), got);
    let decision = match step {
        ReceiverStep::Dispatched(_, d) => d,
        _ => panic!("expected a dispatch"),
    };
    assert_eq!(decision, RouteDecision::CallHandler(WLTOKEN::PingPacket));

    // Server replies straight to the reply promise, empty payload.
    let reply = ping_reply(reply_uid);
    let mut reply_wire = Vec::new();
    write_frame(&mut reply_wire, &reply, false);

    // Client: the reply's token is the promised UID and resolves the
    // pending entry, exactly once.
    let (reply_got, _) = flow_transport::codec::read_frame(&reply_wire, 0, false)
        .unwrap()
        .unwrap();
    assert_eq!(reply_got.token, reply_uid);
    assert!(reply_got.payload.is_empty());
    assert_eq!(
        client_router.route(reply_got.token),
        RouteDecision::DeliverPending
    );
    assert_eq!(
        client_router.route(reply_uid),
        RouteDecision::ReplyEndpointNotFound
    );
}

#[test]
fn receiver_backpressure_at_request_cap() {
    let mut router = RequestRouter::new();
    let mut limiter = RequestLimiter::new();
    for _ in 0..MAX_REQUESTS {
        assert!(limiter.try_admit());
    }
    let frame = Frame {
        token: UID::well_known_token(WLTOKEN::PingPacket),
        payload: vec![1, 2, 3, 4, 5, 6, 7, 8],
    };
    let step = receiver_step(&mut router, &mut limiter, peer(), frame);
    assert!(matches!(step, ReceiverStep::Backpressure));
    assert_eq!(limiter.in_flight, MAX_REQUESTS);
}
