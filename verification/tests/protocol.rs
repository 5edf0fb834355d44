use rocks_lib::relay::MessageRelayAction;
use rocks_lib::relay::MessageRelayEvent;
use rocks_lib::relay::RelayAction;
use rocks_lib::relay::RelayEvent;
use rocks_lib::relay::message_relay_step;
use rocks_lib::relay::relay_step;
use rocks_lib::write_ext::UnsendData;
use rocks_lib::write_ext::WriteOutcome;
use rocks_lib::BufferParseResult;
use rocks_lib::BufferParser;
use rocks_lib::VlessrParseOptions;
use rocks_lib::ConnectionState;
use rocks_lib::HeaderProgress;
use rocks_lib::ProxyAddress;
use rocks_lib::ProxyAddressWithPort;
use rocks_lib::VlessCommand;
use rocks_lib::VlessHeaderParseError;
use rocks_lib::VlessProtocol;
use rocks_lib::VlessRequestHeader;
use rocks_lib::VlessResponseHeader;

fn sample_user() -> Vec<u8> {
    (1u8..=16u8).collect()
}

fn tcp_header() -> VlessRequestHeader {
    VlessRequestHeader {
        address: ProxyAddressWithPort {
            address: ProxyAddress::IPv4(vec![93, 184, 216, 34]),
            port: 80,
        },
        user: sample_user(),
        command: VlessCommand::Tcp,
    }
}

#[test]
fn test_request_round_trip_tcp() {
    let header = tcp_header();
    let mut wire = vec![0u8; header.size()];
    assert_eq!(header.form(&mut wire).unwrap(), 26);
    assert_eq!(wire[0], 0x00);
    assert_eq!(&wire[1..17], sample_user().as_slice());
    assert_eq!(wire[17], 0x00);
    assert_eq!(wire[18], 0x01);
    assert_eq!(&wire[19..21], &[0x00, 80]);
    assert_eq!(&wire[21..26], &[0x01, 93, 184, 216, 34]);
    match VlessRequestHeader::parse(&wire) {
        BufferParseResult::Parsed { value, size } => {
            assert_eq!(size, 26);
            assert_eq!(value, header);
        }
        _ => panic!("Round trip failed"),
    }
}

#[test]
fn test_request_round_trip_udp_domain() {
    let header = VlessRequestHeader {
        address: ProxyAddressWithPort {
            address: ProxyAddress::Domain(b"example.com".to_vec()),
            port: 53,
        },
        user: sample_user(),
        command: VlessCommand::Udp,
    };
    let mut wire = vec![0u8; header.size()];
    let size = header.form(&mut wire).unwrap();
    assert_eq!(size, 19 + 2 + 13);
    match VlessRequestHeader::parse(&wire) {
        BufferParseResult::Parsed { value, size: parsed } => {
            assert_eq!(parsed, size);
            assert_eq!(value, header);
        }
        _ => panic!("Round trip failed"),
    }
}

#[test]
fn test_request_mux_forms_19_bytes_and_parses_sentinel() {
    let header = VlessRequestHeader {
        address: ProxyAddressWithPort {
            address: ProxyAddress::IPv4(vec![10, 0, 0, 1]),
            port: 9,
        },
        user: sample_user(),
        command: VlessCommand::Mux,
    };
    assert_eq!(header.size(), 19);
    let mut wire = vec![0u8; 19];
    assert_eq!(header.form(&mut wire).unwrap(), 19);
    assert_eq!(wire[18], 0x03);
    match VlessRequestHeader::parse(&wire) {
        BufferParseResult::Parsed { value, size } => {
            assert_eq!(size, 19);
            assert_eq!(value.command, VlessCommand::Mux);
            assert_eq!(value.user, sample_user());
            assert_eq!(value.address.port, 0);
            assert_eq!(
                value.address.address,
                ProxyAddress::Domain(b"v1.mux.cool".to_vec())
            );
        }
        _ => panic!("Mux parse failed"),
    }
}

#[test]
fn test_request_every_prefix_incomplete() {
    let header = tcp_header();
    let mut wire = vec![0u8; header.size()];
    let size = header.form(&mut wire).unwrap();
    for cut in 0..size {
        match VlessRequestHeader::parse(&wire[..cut]) {
            BufferParseResult::Incomplete { needed } => assert!(needed >= 1),
            _ => panic!("Expected incomplete at cut {}", cut),
        }
    }
    assert!(matches!(
        VlessRequestHeader::parse(&wire),
        BufferParseResult::Parsed { .. }
    ));
}

#[test]
fn test_request_invalid_version() {
    let mut wire = vec![0u8; 26];
    tcp_header().form(&mut wire).unwrap();
    wire[0] = 0x01;
    match VlessRequestHeader::parse(&wire) {
        BufferParseResult::Error(e) => assert_eq!(e, VlessHeaderParseError::InvalidVersion),
        _ => panic!("Expected invalid version"),
    }
}

#[test]
fn test_request_addon_not_supported() {
    let mut wire = vec![0u8; 26];
    tcp_header().form(&mut wire).unwrap();
    wire[17] = 0x01;
    match VlessRequestHeader::parse(&wire) {
        BufferParseResult::Error(e) => assert_eq!(e, VlessHeaderParseError::AddonIsNotSupported),
        _ => panic!("Expected addon rejection"),
    }
}

#[test]
fn test_request_invalid_command() {
    let mut wire = vec![0u8; 26];
    tcp_header().form(&mut wire).unwrap();
    wire[18] = 0x09;
    match VlessRequestHeader::parse(&wire) {
        BufferParseResult::Error(e) => assert_eq!(e, VlessHeaderParseError::InvalidCommand),
        _ => panic!("Expected invalid command"),
    }
}

#[test]
fn test_request_invalid_address() {
    let mut wire = vec![0u8; 26];
    tcp_header().form(&mut wire).unwrap();
    wire[21] = 0x04; // bad address tag behind the port
    match VlessRequestHeader::parse(&wire) {
        BufferParseResult::Error(e) => assert_eq!(e, VlessHeaderParseError::InvalidAddress),
        _ => panic!("Expected invalid address"),
    }
}

#[test]
fn test_response_header_codec() {
    let response = VlessResponseHeader {};
    assert_eq!(response.to_bytes(), vec![0x00, 0x00]);
    let mut buffer = vec![0xFFu8; 4];
    assert_eq!(response.form(&mut buffer).unwrap(), 2);
    assert_eq!(buffer, vec![0x00, 0x00, 0xFF, 0xFF]);
    match VlessResponseHeader::parse(&[0x00, 0x00, b'O', b'K']) {
        BufferParseResult::Parsed { size, .. } => assert_eq!(size, 2),
        _ => panic!("Expected parsed response"),
    }
    match VlessResponseHeader::parse(&[0x00]) {
        BufferParseResult::Incomplete { needed } => assert_eq!(needed, 1),
        _ => panic!("Expected incomplete response"),
    }
    match VlessResponseHeader::parse(&[0x01, 0x00]) {
        BufferParseResult::Error(e) => assert_eq!(e, VlessHeaderParseError::InvalidVersion),
        _ => panic!("Expected invalid version"),
    }
    match VlessResponseHeader::parse(&[0x00, 0x02]) {
        BufferParseResult::Error(e) => assert_eq!(e, VlessHeaderParseError::AddonIsNotSupported),
        _ => panic!("Expected addon rejection"),
    }
}

#[test]
fn test_protocol_user_id_padded_and_truncated() {
    let proto = VlessProtocol::new("test");
    let mut expected = b"test".to_vec();
    expected.resize(16, 0u8);
    assert_eq!(proto.user_id(), expected);

    let long = VlessProtocol::new("a-user-name-longer-than-sixteen");
    assert_eq!(long.user_id(), b"a-user-name-long".to_vec());
}

#[test]
fn test_prepend_adapter_all_at_once() {
    let mut adapter = UnsendData::new(vec![0x00, 0x00]);
    let mut inner: Vec<u8> = Vec::new();

    // First application write; the inner writer accepts the whole view.
    let mut view = adapter.pending_bytes();
    view.extend_from_slice(b"OK");
    inner.extend_from_slice(&view);
    assert_eq!(adapter.write_step(b"OK", view.len()), WriteOutcome::Accepted(2));
    assert!(!adapter.has_pending());

    // Second write passes straight through.
    let mut view = adapter.pending_bytes();
    view.extend_from_slice(b"!");
    inner.extend_from_slice(&view);
    assert_eq!(adapter.write_step(b"!", view.len()), WriteOutcome::Accepted(1));

    assert_eq!(inner, vec![0x00, 0x00, b'O', b'K', b'!']);
}

#[test]
fn test_prepend_adapter_chunked() {
    let mut adapter = UnsendData::new(vec![0x00, 0x00]);
    let mut inner: Vec<u8> = Vec::new();

    // The inner writer accepts one byte per attempt.
    let view = adapter.pending_bytes();
    inner.push(view[0]);
    assert_eq!(adapter.write_step(b"OK", 1), WriteOutcome::NotReady);
    assert!(adapter.has_pending());

    let view = adapter.pending_bytes();
    inner.push(view[0]);
    assert_eq!(adapter.write_step(b"OK", 1), WriteOutcome::Accepted(0));
    assert!(!adapter.has_pending());

    inner.push(b'O');
    assert_eq!(adapter.write_step(b"OK", 1), WriteOutcome::Accepted(1));
    inner.push(b'K');
    assert_eq!(adapter.write_step(b"K", 1), WriteOutcome::Accepted(1));

    // However the accepted counts were chunked, the inner writer saw the
    // prepend bytes as a contiguous prefix of the stream.
    assert_eq!(inner, vec![0x00, 0x00, b'O', b'K']);
}

#[test]
fn test_relay_step_decisions() {
    match relay_step(RelayEvent::Inbound(b"abc".to_vec())) {
        (RelayAction::ForwardToOutbound(d), false) => assert_eq!(d, b"abc".to_vec()),
        _ => panic!("Expected forward to outbound"),
    }
    match relay_step(RelayEvent::Outbound(b"xy".to_vec())) {
        (RelayAction::ForwardToInbound(d), false) => assert_eq!(d, b"xy".to_vec()),
        _ => panic!("Expected forward to inbound"),
    }
    assert!(matches!(
        relay_step(RelayEvent::Inbound(Vec::new())),
        (RelayAction::ShutdownOutbound, true)
    ));
    assert!(matches!(
        relay_step(RelayEvent::Outbound(Vec::new())),
        (RelayAction::ShutdownInbound, true)
    ));
}

#[test]
fn test_message_relay_step_decisions() {
    match message_relay_step(MessageRelayEvent::ClientMessage(b"req".to_vec())) {
        (MessageRelayAction::ForwardToTarget(d), false) => assert_eq!(d, b"req".to_vec()),
        _ => panic!("Expected forward to target"),
    }
    match message_relay_step(MessageRelayEvent::TargetData(b"OK".to_vec())) {
        (MessageRelayAction::ForwardToClient(d), false) => assert_eq!(d, b"OK".to_vec()),
        _ => panic!("Expected forward to client"),
    }
    assert!(matches!(
        message_relay_step(MessageRelayEvent::TargetData(Vec::new())),
        (MessageRelayAction::SignalClose, true)
    ));
    assert!(matches!(
        message_relay_step(MessageRelayEvent::ClientEnded),
        (MessageRelayAction::Stop, true)
    ));
    assert!(matches!(
        message_relay_step(MessageRelayEvent::ClientFailed),
        (MessageRelayAction::Stop, true)
    ));
    assert!(matches!(
        message_relay_step(MessageRelayEvent::TargetFailed),
        (MessageRelayAction::Stop, true)
    ));
}

#[test]
fn test_end_to_end_tcp_proxy_decisions() {
    // The client sends a well-formed TCP request with payload appended;
    // the driver establishes the header and hands back the payload.
    let header = tcp_header();
    let mut wire = vec![0u8; header.size()];
    let header_len = header.form(&mut wire).unwrap();
    let payload = b"GET / HTTP/1.0\r\n\r\n";

    let mut conn = ConnectionState::new();
    conn.feed(&wire[..10]);
    match conn.poll_header() {
        HeaderProgress::NeedMore { needed } => assert!(needed >= 1),
        _ => panic!("Expected more bytes needed"),
    }
    conn.feed(&wire[10..]);
    conn.feed(payload);
    let (parsed, leftover) = match conn.poll_header() {
        HeaderProgress::Established {
            header: h,
            consumed,
            leftover,
        } => {
            assert_eq!(consumed, header_len);
            (h, leftover)
        }
        _ => panic!("Expected established header"),
    };
    assert_eq!(parsed, header);
    assert_eq!(leftover, payload.to_vec());

    // The leftover goes to the target first; the target replies "OK",
    // which reaches the client behind the two response-header bytes.
    let mut target_received: Vec<u8> = Vec::new();
    target_received.extend_from_slice(&leftover);

    let mut adapter = UnsendData::new(VlessResponseHeader {}.to_bytes());
    let mut client_received: Vec<u8> = Vec::new();
    let reply = match relay_step(RelayEvent::Outbound(b"OK".to_vec())) {
        (RelayAction::ForwardToInbound(d), false) => d,
        _ => panic!("Expected forward to inbound"),
    };
    let mut view = adapter.pending_bytes();
    view.extend_from_slice(&reply);
    client_received.extend_from_slice(&view);
    assert_eq!(
        adapter.write_step(&reply, view.len()),
        WriteOutcome::Accepted(2)
    );

    // The client observes exactly the response header then the reply.
    assert_eq!(client_received, vec![0x00, 0x00, b'O', b'K']);

    // Target EOF shuts the client side down and ends the relay.
    assert!(matches!(
        relay_step(RelayEvent::Outbound(Vec::new())),
        (RelayAction::ShutdownInbound, true)
    ));
    assert_eq!(target_received, payload.to_vec());
}

#[test]
fn test_end_to_end_message_stream_proxy_decisions() {
    // Same flow over a message transport: the first client message holds
    // the whole request plus payload.
    let header = tcp_header();
    let mut message = vec![0u8; header.size()];
    header.form(&mut message).unwrap();
    message.extend_from_slice(b"GET / HTTP/1.0\r\n\r\n");

    let mut conn = ConnectionState::new();
    conn.feed(&message);
    let leftover = match conn.poll_header() {
        HeaderProgress::Established { leftover, .. } => leftover,
        _ => panic!("Expected established header"),
    };
    assert_eq!(leftover, b"GET / HTTP/1.0\r\n\r\n".to_vec());

    // The target's reply becomes one message; the first message to the
    // client carries the two response-header bytes in front.
    let reply = match message_relay_step(MessageRelayEvent::TargetData(b"OK".to_vec())) {
        (MessageRelayAction::ForwardToClient(d), false) => d,
        _ => panic!("Expected forward to client"),
    };
    let mut first_message = VlessResponseHeader {}.to_bytes();
    first_message.extend_from_slice(&reply);
    assert_eq!(first_message, vec![0x00, 0x00, b'O', b'K']);

    // On target EOF the client receives one empty message.
    assert!(matches!(
        message_relay_step(MessageRelayEvent::TargetData(Vec::new())),
        (MessageRelayAction::SignalClose, true)
    ));
}

#[test]
fn test_request_parse_fallback_prefix() {
    // Under the fallback flag the pre-command prefix doubles: the command
    // byte sits at offset 35 and the destination follows at 36.
    let mut wire = vec![0u8; 43];
    wire[1..17].copy_from_slice(&sample_user());
    wire[35] = 0x01;
    wire[36..38].copy_from_slice(&[0x00, 80]);
    wire[38..43].copy_from_slice(&[0x01, 93, 184, 216, 34]);
    match VlessRequestHeader::parse_with_options(&wire, VlessrParseOptions { is_fb: true }) {
        BufferParseResult::Parsed { value, size } => {
            assert_eq!(size, 43);
            assert_eq!(value.command, VlessCommand::Tcp);
            assert_eq!(value.user, sample_user());
            assert_eq!(value.address.port, 80);
        }
        _ => panic!("Expected parsed fallback header"),
    }
    match VlessRequestHeader::parse_with_options(&wire[..20], VlessrParseOptions { is_fb: true }) {
        BufferParseResult::Incomplete { needed } => assert_eq!(needed, 16),
        _ => panic!("Expected incomplete fallback header"),
    }
}

#[test]
fn test_request_incomplete_needed_formula() {
    // With fewer than nineteen bytes, the parser reports exactly the gap
    // to the nineteen-byte minimum.
    match VlessRequestHeader::parse(&[0x00]) {
        BufferParseResult::Incomplete { needed } => assert_eq!(needed, 18),
        _ => panic!("Expected incomplete"),
    }
    match VlessRequestHeader::parse(&[]) {
        BufferParseResult::Incomplete { needed } => assert_eq!(needed, 19),
        _ => panic!("Expected incomplete"),
    }
}

#[test]
fn test_driver_rejects_bad_version() {
    let mut conn = ConnectionState::new();
    let mut wire = vec![0u8; 26];
    tcp_header().form(&mut wire).unwrap();
    wire[0] = 0x05;
    conn.feed(&wire);
    match conn.poll_header() {
        HeaderProgress::Reject(e) => assert_eq!(e, VlessHeaderParseError::InvalidVersion),
        _ => panic!("Expected rejection"),
    }
}
