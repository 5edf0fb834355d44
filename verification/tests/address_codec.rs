use rocks_lib::BufferParseResult;
use rocks_lib::InsufficientBuffer;
use rocks_lib::InvalidAddressType;
use rocks_lib::ProxyAddress;
use rocks_lib::ProxyAddressWithPort;

#[test]
fn test_parse_domain() {
    let buffer = [
        0x02, 0x0B, b'e', b'x', b'a', b'm', b'p', b'l', b'e', b'.', b'c', b'o', b'm',
    ];
    match ProxyAddress::parse(&buffer) {
        BufferParseResult::Parsed {
            value: ProxyAddress::Domain(domain),
            ..
        } => {
            assert_eq!(domain, b"example.com".to_vec());
        }
        _ => panic!("Failed to parse domain"),
    }
}

#[test]
fn test_parse_ipv6() {
    let buffer = [
        0x03, 0x20, 0x01, 0x0d, 0xb8, 0x85, 0xa3, 0x00, 0x00, 0x00, 0x00, 0x8a, 0x2e, 0x03, 0x70,
        0x73, 0x34,
    ];

    let expected_ip = vec![
        0x20, 0x01, 0x0d, 0xb8, 0x85, 0xa3, 0x00, 0x00, 0x00, 0x00, 0x8a, 0x2e, 0x03, 0x70, 0x73,
        0x34,
    ];
    match ProxyAddress::parse(&buffer) {
        BufferParseResult::Parsed {
            value: ProxyAddress::IPv6(ip),
            ..
        } => {
            assert_eq!(ip, expected_ip);
        }
        _ => panic!("Failed to parse IPv6 address"),
    }
}

#[test]
fn test_incomplete_domain() {
    let buffer = [0x02, 0x0B, b'e', b'x', b'a', b'm', b'p', b'l', b'e'];
    match ProxyAddress::parse(&buffer) {
        BufferParseResult::Incomplete { needed } => {
            assert_eq!(needed, 4);
        }
        _ => panic!("Expected incomplete buffer"),
    }
}

#[test]
fn test_incomplete_ipv6() {
    let buffer = [
        0x03, 0x20, 0x01, 0x0d, 0xb8, 0x85, 0xa3, 0x00, 0x00, 0x00, 0x00, 0x8a, 0x2e, 0x03, 0x70,
    ];
    match ProxyAddress::parse(&buffer) {
        BufferParseResult::Incomplete { needed } => {
            assert_eq!(needed, 2);
        }
        _ => panic!("Expected incomplete buffer"),
    }
}

#[test]
fn test_invalid_type() {
    let buffer = [0x04, 0, 0];
    match ProxyAddress::parse(&buffer) {
        BufferParseResult::Error(InvalidAddressType) => (),
        _ => panic!("Expected error for invalid type"),
    }
}

#[test]
fn test_form_buffer_with_ipv4() {
    let address = ProxyAddress::IPv4(vec![192, 168, 1, 1]);
    let mut buffer = vec![0x00; address.size()];
    assert_eq!(address.form(&mut buffer).unwrap(), 5);
    assert_eq!(buffer, vec![0x01, 192, 168, 1, 1]);
}

#[test]
fn test_form_buffer_with_ipv6() {
    let address = ProxyAddress::IPv6(vec![
        0x20, 0x01, 0x0d, 0xb8, 0x85, 0xa3, 0x00, 0x00, 0x00, 0x00, 0x8a, 0x2e, 0x03, 0x70, 0x73,
        0x34,
    ]);
    let mut buffer = vec![0x00; address.size()];
    assert_eq!(address.form(&mut buffer).unwrap(), 17);
    assert_eq!(
        buffer,
        vec![
            0x03, 0x20, 0x01, 0x0d, 0xb8, 0x85, 0xa3, 0x00, 0x00, 0x00, 0x00, 0x8a, 0x2e, 0x03,
            0x70, 0x73, 0x34
        ]
    );
}

#[test]
fn test_form_buffer_with_domain() {
    let address = ProxyAddress::Domain(b"example.com".to_vec());
    let mut buffer = vec![0x00; address.size()];
    assert_eq!(address.form(&mut buffer).unwrap(), 13);
    assert_eq!(
        buffer,
        vec![0x02, 0x0B, b'e', b'x', b'a', b'm', b'p', b'l', b'e', b'.', b'c', b'o', b'm']
    );
}

#[test]
fn test_form_buffer_with_empty_domain() {
    let address = ProxyAddress::Domain(Vec::new());
    let mut buffer = vec![0x00; address.size()];
    assert_eq!(address.form(&mut buffer).unwrap(), 2);
    assert_eq!(buffer, vec![0x02, 0x00]);
}

#[test]
fn test_form_buffer_with_insufficient_buffer() {
    let address = ProxyAddress::IPv4(vec![192, 168, 1, 1]);
    let mut buffer = Vec::with_capacity(2); // Intentionally small buffer
    let result = address.form(&mut buffer);
    assert_eq!(result, Err(InsufficientBuffer));
}

#[test]
fn test_form_buffer_with_insufficient_buffer_ipv6() {
    let address = ProxyAddress::IPv6(vec![
        0x20, 0x01, 0x0d, 0xb8, 0x85, 0xa3, 0x00, 0x00, 0x00, 0x00, 0x8a, 0x2e, 0x03, 0x70, 0x73,
        0x34,
    ]);
    let mut buffer = Vec::with_capacity(10); // Intentionally small buffer
    let result = address.form(&mut buffer);
    assert_eq!(result, Err(InsufficientBuffer));
}

#[test]
fn test_form_buffer_with_insufficient_buffer_domain() {
    let address = ProxyAddress::Domain(b"example.com".to_vec());
    let mut buffer = Vec::with_capacity(5); // Intentionally small buffer
    let result = address.form(&mut buffer);
    assert_eq!(result, Err(InsufficientBuffer));
}

#[test]
fn test_parse_ipv4_with_port() {
    // Port 443 big-endian, then an IPv4 address.
    let buffer = [0x01, 0xBB, 0x01, 93, 184, 216, 34];
    match ProxyAddressWithPort::parse(&buffer) {
        BufferParseResult::Parsed { value, size } => {
            assert_eq!(size, 7);
            assert_eq!(value.port, 443);
            assert_eq!(value.address, ProxyAddress::IPv4(vec![93, 184, 216, 34]));
        }
        _ => panic!("Failed to parse address with port"),
    }
}

#[test]
fn test_address_with_port_round_trip() {
    let value = ProxyAddressWithPort {
        address: ProxyAddress::Domain(b"example.com".to_vec()),
        port: 8080,
    };
    let mut buffer = vec![0x00; value.size()];
    assert_eq!(value.form(&mut buffer).unwrap(), 15);
    match ProxyAddressWithPort::parse(&buffer) {
        BufferParseResult::Parsed { value: parsed, size } => {
            assert_eq!(size, 15);
            assert_eq!(parsed, value);
        }
        _ => panic!("Round trip failed"),
    }
}

#[test]
fn test_address_round_trip_every_prefix_incomplete() {
    let address = ProxyAddress::Domain(b"example.com".to_vec());
    let mut buffer = vec![0x00; address.size()];
    let size = address.form(&mut buffer).unwrap();
    assert_eq!(size, buffer.len());
    for cut in 0..size {
        match ProxyAddress::parse(&buffer[..cut]) {
            BufferParseResult::Incomplete { needed } => assert!(needed >= 1),
            _ => panic!("Expected incomplete at cut {}", cut),
        }
    }
    match ProxyAddress::parse(&buffer) {
        BufferParseResult::Parsed { value, size: parsed_size } => {
            assert_eq!(parsed_size, size);
            assert_eq!(value, address);
        }
        _ => panic!("Expected full parse"),
    }
}
