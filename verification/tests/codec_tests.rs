use tunvpn::codec::{
    decode_frame, encode_data, encode_exit, send_exit_pkt, DecodeResult, Frame, ProtocolFault,
    BUF_SZ,
};

#[test]
fn data_frame_wire_layout() {
    let payload = vec![0xDEu8, 0xAD, 0xBE, 0xEF];
    let wire = encode_data(1, &payload);
    assert_eq!(
        wire,
        vec![
            0, 0, 0, 1, // type = DATA
            0, 0, 0, 4, // length = 4
            0, 0, 0, 0, 0, 0, 0, 1, // counter = 1
            0xDE, 0xAD, 0xBE, 0xEF,
        ]
    );
}

#[test]
fn data_frame_round_trip() {
    let payload = vec![7u8, 8, 9];
    let wire = encode_data(42, &payload);
    match decode_frame(&wire) {
        DecodeResult::Complete { frame: Frame::Data { counter, payload: got }, consumed } => {
            assert_eq!(counter, 42);
            assert_eq!(got, payload);
            assert_eq!(consumed, 16 + 3);
        }
        _ => panic!("expected a complete DATA frame"),
    }
}

#[test]
fn largest_payload_round_trips() {
    let payload = vec![0xA5u8; BUF_SZ];
    let wire = encode_data(1, &payload);
    match decode_frame(&wire) {
        DecodeResult::Complete { frame: Frame::Data { counter, payload: got }, consumed } => {
            assert_eq!(counter, 1);
            assert_eq!(got, payload);
            assert_eq!(consumed, 16 + BUF_SZ);
        }
        _ => panic!("expected a complete DATA frame"),
    }
}

#[test]
fn exit_frame_wire_layout() {
    assert_eq!(encode_exit(0), vec![0, 0, 0, 2, 0, 0, 0, 0]);
}

#[test]
fn exit_frame_round_trip() {
    let wire = encode_exit(0);
    match decode_frame(&wire) {
        DecodeResult::Complete { frame: Frame::Exit { reason }, consumed } => {
            assert_eq!(reason, 0);
            assert_eq!(consumed, 8);
        }
        _ => panic!("expected a complete EXIT frame"),
    }
}

#[test]
fn send_exit_pkt_appends_exit_frame() {
    let mut stream = vec![0xFFu8, 0xFE];
    send_exit_pkt(&mut stream, 0);
    assert_eq!(stream, vec![0xFF, 0xFE, 0, 0, 0, 2, 0, 0, 0, 0]);
}

#[test]
fn empty_buffer_is_pending() {
    let buf: Vec<u8> = Vec::new();
    assert!(matches!(decode_frame(&buf), DecodeResult::Pending));
}

#[test]
fn every_proper_prefix_is_pending() {
    let payload = vec![1u8, 2, 3, 4, 5];
    let wire = encode_data(9, &payload);
    for cut in 0..wire.len() {
        let partial: Vec<u8> = wire[..cut].to_vec();
        assert!(
            matches!(decode_frame(&partial), DecodeResult::Pending),
            "cut at {} must stay pending",
            cut
        );
    }
}

#[test]
fn unknown_type_is_fatal() {
    let buf = vec![0u8, 0, 0, 7, 1, 2, 3, 4];
    match decode_frame(&buf) {
        DecodeResult::Violation { fault } => {
            assert_eq!(fault, ProtocolFault::UnknownKind { kind: 7 });
        }
        _ => panic!("type 7 must be a protocol violation"),
    }
}

#[test]
fn oversize_length_is_fatal() {
    // DATA announcing 4097 bytes: fatal as soon as the length is readable,
    // before any payload byte arrives.
    let buf = vec![0u8, 0, 0, 1, 0, 0, 0x10, 0x01];
    match decode_frame(&buf) {
        DecodeResult::Violation { fault } => {
            assert_eq!(fault, ProtocolFault::Oversize { length: 4097 });
        }
        _ => panic!("length over BUF_SZ must be a protocol violation"),
    }
}

#[test]
fn nonzero_exit_reason_is_fatal() {
    let buf = vec![0u8, 0, 0, 2, 0, 0, 0, 1];
    match decode_frame(&buf) {
        DecodeResult::Violation { fault } => {
            assert_eq!(fault, ProtocolFault::BadExitReason { reason: 1 });
        }
        _ => panic!("exit reason 1 must be a protocol violation"),
    }
}
