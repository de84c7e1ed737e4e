use socks5_proxy::connection::{ConnectFailure, Connection, Phase};
use socks5_proxy::handshake::{parse_greeting, parse_request, Decode, HandshakeError, TargetAddr};
use socks5_proxy::server::Server;

fn drive(chunks: &[&[u8]]) -> Connection {
    let mut c = Connection::new();
    for chunk in chunks {
        assert!(chunk.len() <= c.client_read_budget());
        c.on_client_data(chunk);
    }
    c
}

fn ipv4(a: [u8; 4], port: u16) -> TargetAddr {
    TargetAddr::Ipv4 { octets: a.to_vec(), port }
}

#[test]
fn greeting_in_one_piece_selects_no_auth() {
    match parse_greeting(&[5, 2, 2, 0]) {
        Decode::Done(m, used) => {
            assert_eq!(m, 0);
            assert_eq!(used, 4);
        }
        other => panic!("unexpected {:?}", other),
    }
}

#[test]
fn greeting_waits_for_all_methods() {
    assert!(matches!(parse_greeting(&[]), Decode::Incomplete));
    assert!(matches!(parse_greeting(&[5]), Decode::Incomplete));
    assert!(matches!(parse_greeting(&[5, 3, 1, 0]), Decode::Incomplete));
}

#[test]
fn greeting_fragmented_byte_by_byte_matches_whole() {
    let whole = drive(&[&[5, 3, 2, 1, 0]]);
    let split = drive(&[&[5], &[3], &[2, 1], &[], &[0]]);
    assert_eq!(whole.phase(), Phase::AwaitingRequest);
    assert_eq!(split.phase(), Phase::AwaitingRequest);
    assert_eq!(whole.client_outbound(), &[5, 0]);
    assert_eq!(split.client_outbound(), whole.client_outbound());
}

#[test]
fn bad_version_closes_without_reply() {
    for v in [0u8, 4, 6, 255] {
        let c = drive(&[&[v, 1, 0]]);
        assert_eq!(c.phase(), Phase::Closing);
        assert!(c.client_outbound().is_empty());
        assert!(c.is_finished());
    }
    assert!(matches!(
        parse_greeting(&[4]),
        Decode::Failed(HandshakeError::UnsupportedVersion)
    ));
}

#[test]
fn no_acceptable_method_is_refused() {
    let c = drive(&[&[5, 2, 1, 2]]);
    assert_eq!(c.phase(), Phase::Closing);
    assert_eq!(c.client_outbound(), &[5, 0xFF]);
    assert!(!c.is_finished());
}

#[test]
fn zero_methods_is_refused() {
    assert!(matches!(
        parse_greeting(&[5, 0]),
        Decode::Failed(HandshakeError::NoAcceptableMethod)
    ));
}

#[test]
fn ipv4_request_decodes() {
    let req = [5u8, 1, 0, 1, 0x7F, 0x00, 0x00, 0x01, 0x1F, 0x90];
    match parse_request(&req) {
        Decode::Done(TargetAddr::Ipv4 { octets, port }, used) => {
            assert_eq!(octets, vec![127, 0, 0, 1]);
            assert_eq!(port, 8080);
            assert_eq!(used, 10);
        }
        other => panic!("unexpected {:?}", other),
    }
    match Server::read_address(&[1, 0x7F, 0x00, 0x00, 0x01, 0x1F, 0x90]) {
        Decode::Done(TargetAddr::Ipv4 { octets, port }, used) => {
            assert_eq!(octets, vec![127, 0, 0, 1]);
            assert_eq!(port, 8080);
            assert_eq!(used, 7);
        }
        other => panic!("unexpected {:?}", other),
    }
}

#[test]
fn ipv4_request_fragmented_reaches_connecting() {
    let c = drive(&[&[5, 1], &[0, 5, 1, 0], &[1, 0x7F, 0], &[0, 1, 0x1F], &[0x90]]);
    assert_eq!(c.phase(), Phase::Connecting);
    match c.target() {
        Some(TargetAddr::Ipv4 { octets, port }) => {
            assert_eq!(octets, &vec![127, 0, 0, 1]);
            assert_eq!(*port, 8080);
        }
        other => panic!("unexpected {:?}", other),
    }
    assert_eq!(c.client_outbound(), &[5, 0]);
}

#[test]
fn ipv6_and_domain_requests_decode() {
    let mut req = vec![5u8, 1, 0, 4];
    req.extend_from_slice(&[0, 0, 0, 0, 0, 0, 0, 0, 0, 0, 0, 0, 0, 0, 0, 1]);
    req.extend_from_slice(&[0x01, 0xBB]);
    match parse_request(&req) {
        Decode::Done(TargetAddr::Ipv6 { octets, port }, used) => {
            assert_eq!(octets.len(), 16);
            assert_eq!(octets[15], 1);
            assert_eq!(port, 443);
            assert_eq!(used, 22);
        }
        other => panic!("unexpected {:?}", other),
    }
    let mut req = vec![5u8, 1, 0, 3, 11];
    req.extend_from_slice(b"example.com");
    req.extend_from_slice(&[0x00, 0x50]);
    match parse_request(&req) {
        Decode::Done(TargetAddr::Domain { name, port }, used) => {
            assert_eq!(name, b"example.com".to_vec());
            assert_eq!(port, 80);
            assert_eq!(used, 18);
        }
        other => panic!("unexpected {:?}", other),
    }
    assert!(matches!(parse_request(&req[..17]), Decode::Incomplete));
}

#[test]
fn unsupported_command_gets_failure_reply() {
    for cmd in [2u8, 3, 0, 9] {
        let c = drive(&[&[5, 1, 0], &[5, cmd, 0, 1, 127, 0, 0, 1, 0x1F, 0x90]]);
        assert_eq!(c.phase(), Phase::Closing);
        assert!(c.target().is_none());
        assert_eq!(c.client_outbound(), &[5, 0, 5, 7, 0, 1, 0, 0, 0, 0, 0, 0]);
    }
    assert!(matches!(
        parse_request(&[5, 2]),
        Decode::Failed(HandshakeError::UnsupportedCommand)
    ));
}

#[test]
fn unsupported_address_type_gets_failure_reply() {
    let c = drive(&[&[5, 1, 0, 5, 1, 0, 2, 1, 2, 3]]);
    assert_eq!(c.phase(), Phase::Closing);
    assert_eq!(c.client_outbound(), &[5, 0, 5, 8, 0, 1, 0, 0, 0, 0, 0, 0]);
    assert!(matches!(
        Server::read_address(&[2]),
        Decode::Failed(HandshakeError::UnsupportedAddressType)
    ));
}

#[test]
fn bad_request_version_closes_without_reply() {
    let c = drive(&[&[5, 1, 0, 4, 1, 0]]);
    assert_eq!(c.phase(), Phase::Closing);
    assert_eq!(c.client_outbound(), &[5, 0]);
}

#[test]
fn reply_round_trip() {
    let bound = ipv4([10, 0, 0, 5], 5000);
    let mut out = Vec::new();
    Server::write_reply(&mut out, 0, &bound);
    assert_eq!(out, vec![5, 0, 0, 1, 10, 0, 0, 5, 0x13, 0x88]);
    match Server::read_address(&out[3..]) {
        Decode::Done(TargetAddr::Ipv4 { octets, port }, used) => {
            assert_eq!(octets, vec![10, 0, 0, 5]);
            assert_eq!(port, 5000);
            assert_eq!(used, 7);
        }
        other => panic!("unexpected {:?}", other),
    }
}

#[test]
fn domain_reply_round_trip() {
    let bound = TargetAddr::Domain { name: b"proxy".to_vec(), port: 1080 };
    let mut out = vec![9];
    Server::write_reply(&mut out, 0, &bound);
    assert_eq!(out, vec![9, 5, 0, 0, 3, 5, b'p', b'r', b'o', b'x', b'y', 0x04, 0x38]);
}

#[test]
fn write_ack_appends_two_bytes() {
    let mut out = vec![1];
    Server::write_ack(&mut out, 0xFF);
    assert_eq!(out, vec![1, 5, 0xFF]);
}

#[test]
fn field_readers() {
    assert!(Server::read_version(5).is_ok());
    assert_eq!(Server::read_version(4), Err(HandshakeError::UnsupportedVersion));
    assert_eq!(Server::read_methods(&[3, 0]), Ok(0));
    assert_eq!(Server::read_methods(&[]), Err(HandshakeError::NoAcceptableMethod));
    assert!(Server::read_command(1).is_ok());
    assert_eq!(Server::read_command(2), Err(HandshakeError::UnsupportedCommand));
    assert!(Server::read_reserved(7).is_ok());
}

#[test]
fn connect_success_queues_reply_and_relays() {
    let mut c = drive(&[&[5, 1, 0, 5, 1, 0, 1, 127, 0, 0, 1, 0x1F, 0x90]]);
    assert_eq!(c.phase(), Phase::Connecting);
    assert_eq!(c.client_read_budget(), 0);
    c.on_connected(&ipv4([10, 0, 0, 5], 5000));
    assert_eq!(c.phase(), Phase::Relaying);
    assert!(c.target().is_none());
    assert_eq!(c.client_outbound(), &[5, 0, 5, 0, 0, 1, 10, 0, 0, 5, 0x13, 0x88]);
}

#[test]
fn connect_failure_codes() {
    let cases = [
        (ConnectFailure::General, 1u8),
        (ConnectFailure::NotAllowed, 2),
        (ConnectFailure::NetworkUnreachable, 3),
        (ConnectFailure::HostUnreachable, 4),
        (ConnectFailure::ConnectionRefused, 5),
    ];
    for (failure, code) in cases {
        assert_eq!(failure.code(), code);
        let mut c = drive(&[&[5, 1, 0], &[5, 1, 0, 1, 127, 0, 0, 1, 0x1F, 0x90]]);
        c.on_client_written(2);
        c.on_connect_failed(failure);
        assert_eq!(c.phase(), Phase::Closing);
        assert_eq!(c.client_outbound(), &[5, code, 0, 1, 0, 0, 0, 0, 0, 0]);
        let n = c.client_outbound().len();
        c.on_client_written(n);
        assert!(c.is_finished());
    }
}

#[test]
fn client_eof_mid_handshake_drops_reply() {
    let mut c = drive(&[&[5, 1, 0]]);
    assert_eq!(c.client_outbound(), &[5, 0]);
    c.on_client_eof();
    assert_eq!(c.phase(), Phase::Closing);
    assert!(c.client_outbound().is_empty());
    assert!(c.is_finished());
}
