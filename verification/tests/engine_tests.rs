use tunvpn::codec::{encode_exit, ProtocolFault};
use tunvpn::engine::{outcome_code, Engine, EngineState, InboundStep};

/// Feeds `wire` to `receiver` and drains every step that is ready.
fn drain(receiver: &mut Engine, wire: &[u8]) -> Vec<InboundStep> {
    receiver.on_tcp_bytes(&wire.to_vec());
    let mut steps = Vec::new();
    loop {
        match receiver.next_inbound() {
            InboundStep::Pending => break,
            step @ InboundStep::Deliver { .. } => steps.push(step),
            step => {
                steps.push(step);
                break;
            }
        }
    }
    steps
}

fn expect_delivery(step: &InboundStep) -> Vec<u8> {
    match step {
        InboundStep::Deliver { packet } => packet.clone(),
        _ => panic!("expected a delivered packet"),
    }
}

#[test]
fn clean_single_packet_client_to_server() {
    let mut client = Engine::new();
    let mut server = Engine::new();

    let wire = client.on_tun_packet(&vec![0xDE, 0xAD, 0xBE, 0xEF]);
    assert_eq!(
        wire,
        vec![0, 0, 0, 1, 0, 0, 0, 4, 0, 0, 0, 0, 0, 0, 0, 1, 0xDE, 0xAD, 0xBE, 0xEF]
    );

    let steps = drain(&mut server, &wire);
    assert_eq!(steps.len(), 1);
    assert_eq!(expect_delivery(&steps[0]), vec![0xDE, 0xAD, 0xBE, 0xEF]);
    assert_eq!(server.state(), EngineState::Running);
}

#[test]
fn clean_single_packet_server_to_client() {
    let mut server = Engine::new();
    let mut client = Engine::new();

    let wire = server.on_tun_packet(&vec![0x01, 0x02, 0x03]);
    assert_eq!(server.counter(), 1);
    // counter = 1 on the wire
    assert_eq!(&wire[8..16], &[0, 0, 0, 0, 0, 0, 0, 1]);

    let steps = drain(&mut client, &wire);
    assert_eq!(steps.len(), 1);
    assert_eq!(expect_delivery(&steps[0]), vec![0x01, 0x02, 0x03]);
}

#[test]
fn interleaved_bidirectional() {
    let mut client = Engine::new();
    let mut server = Engine::new();

    let c1 = client.on_tun_packet(&vec![b'A']);
    let s1 = server.on_tun_packet(&vec![b'B']);
    let c2 = client.on_tun_packet(&vec![b'C', b'C']);

    assert_eq!(client.counter(), 2);
    assert_eq!(server.counter(), 1);
    assert_eq!(&c1[8..16], &[0, 0, 0, 0, 0, 0, 0, 1]);
    assert_eq!(&c2[8..16], &[0, 0, 0, 0, 0, 0, 0, 2]);
    assert_eq!(&s1[8..16], &[0, 0, 0, 0, 0, 0, 0, 1]);

    // The server sees the client's payloads in production order.
    let mut to_server = c1.clone();
    to_server.extend_from_slice(&c2);
    let steps = drain(&mut server, &to_server);
    assert_eq!(steps.len(), 2);
    assert_eq!(expect_delivery(&steps[0]), vec![b'A']);
    assert_eq!(expect_delivery(&steps[1]), vec![b'C', b'C']);

    let steps = drain(&mut client, &s1);
    assert_eq!(steps.len(), 1);
    assert_eq!(expect_delivery(&steps[0]), vec![b'B']);
}

#[test]
fn counters_are_consecutive() {
    let mut client = Engine::new();
    for k in 1u64..=3 {
        let wire = client.on_tun_packet(&vec![k as u8]);
        let mut be = [0u8; 8];
        be.copy_from_slice(&wire[8..16]);
        assert_eq!(u64::from_be_bytes(be), k);
        assert_eq!(client.counter(), k);
    }
}

#[test]
fn local_shutdown() {
    let mut client = Engine::new();
    let mut server = Engine::new();

    let w1 = client.on_tun_packet(&vec![1]);
    let w2 = client.on_tun_packet(&vec![2]);
    // SIGINT on the client: its next network bytes are exactly EXIT(0).
    let bye = client.on_signal();
    assert_eq!(bye, vec![0, 0, 0, 2, 0, 0, 0, 0]);
    assert_eq!(client.state(), EngineState::LocalExit);
    assert_eq!(outcome_code(&client.state()), 0);

    let mut to_server = w1.clone();
    to_server.extend_from_slice(&w2);
    to_server.extend_from_slice(&bye);
    let steps = drain(&mut server, &to_server);
    assert_eq!(steps.len(), 3);
    assert_eq!(expect_delivery(&steps[0]), vec![1]);
    assert_eq!(expect_delivery(&steps[1]), vec![2]);
    assert!(matches!(steps[2], InboundStep::PeerExit));
    assert_eq!(server.state(), EngineState::RemoteExit);
    assert_eq!(outcome_code(&server.state()), 0);
}

#[test]
fn remote_shutdown() {
    let mut client = Engine::new();
    let steps = drain(&mut client, &encode_exit(0));
    assert_eq!(steps.len(), 1);
    assert!(matches!(steps[0], InboundStep::PeerExit));
    assert_eq!(client.state(), EngineState::RemoteExit);
    assert_eq!(outcome_code(&client.state()), 0);
}

#[test]
fn protocol_violation_is_fatal() {
    let mut client = Engine::new();
    // An adversary injects EXIT with reserved reason 1.
    let steps = drain(&mut client, &[0, 0, 0, 2, 0, 0, 0, 1]);
    assert_eq!(steps.len(), 1);
    match &steps[0] {
        InboundStep::Fault { fault } => {
            assert_eq!(*fault, ProtocolFault::BadExitReason { reason: 1 });
        }
        _ => panic!("expected a protocol fault"),
    }
    let state = client.state();
    assert!(matches!(state, EngineState::Failed { .. }));
    assert_eq!(outcome_code(&state), 1);
}

#[test]
fn unknown_frame_type_is_fatal() {
    let mut server = Engine::new();
    let steps = drain(&mut server, &[0, 0, 0, 7]);
    assert_eq!(steps.len(), 1);
    match &steps[0] {
        InboundStep::Fault { fault } => {
            assert_eq!(*fault, ProtocolFault::UnknownKind { kind: 7 });
        }
        _ => panic!("expected a protocol fault"),
    }
    assert_eq!(outcome_code(&server.state()), 1);
}

#[test]
fn fragmented_frame_is_delivered_whole_or_not_at_all() {
    let mut sender = Engine::new();
    let mut receiver = Engine::new();
    let wire = sender.on_tun_packet(&vec![9, 8, 7, 6, 5]);

    // The frame arrives in three cuts; nothing reaches the TUN before the
    // last byte is in.
    receiver.on_tcp_bytes(&wire[..3].to_vec());
    assert!(matches!(receiver.next_inbound(), InboundStep::Pending));
    receiver.on_tcp_bytes(&wire[3..17].to_vec());
    assert!(matches!(receiver.next_inbound(), InboundStep::Pending));
    receiver.on_tcp_bytes(&wire[17..].to_vec());
    match receiver.next_inbound() {
        InboundStep::Deliver { packet } => assert_eq!(packet, vec![9, 8, 7, 6, 5]),
        _ => panic!("expected the whole packet once complete"),
    }
    assert!(matches!(receiver.next_inbound(), InboundStep::Pending));
}
