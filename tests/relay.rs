use socks5_proxy::connection::{Connection, Phase};
use socks5_proxy::cursor::{read_byte, ByteCursor};
use socks5_proxy::handshake::TargetAddr;
use socks5_proxy::relay::{Pump, HIGH_WATER_MARK, MAX_READ_CHUNK};
use socks5_proxy::server::{Server, MAX_CONNECTIONS};

fn relaying(early: &[u8]) -> Connection {
    let mut c = Connection::new();
    let mut first = vec![5u8, 1, 0, 5, 1, 0, 1, 127, 0, 0, 1, 0x1F, 0x90];
    first.extend_from_slice(early);
    c.on_client_data(&first);
    c.on_connected(&TargetAddr::Ipv4 { octets: vec![10, 0, 0, 5], port: 5000 });
    let n = c.client_outbound().len();
    assert_eq!(n, 12);
    c.on_client_written(n);
    assert_eq!(c.phase(), Phase::Relaying);
    c
}

#[test]
fn cursor_take_is_all_or_nothing() {
    let mut cur = ByteCursor::new();
    cur.feed(&[1, 2]);
    assert_eq!(cur.try_take(3), None);
    assert_eq!(cur.available(), 2);
    cur.feed(&[3]);
    assert_eq!(cur.try_take(3), Some(vec![1, 2, 3]));
    assert_eq!(cur.available(), 0);
    assert_eq!(read_byte(&mut cur), None);
    cur.feed(&[9, 8]);
    assert_eq!(read_byte(&mut cur), Some(9));
    assert_eq!(cur.unread(), &[8]);
    assert_eq!(cur.take_all(), vec![8]);
}

#[test]
fn relay_keeps_bytes_in_order_across_fragments() {
    let mut c = relaying(&[1, 2]);
    let mut at_dest = Vec::new();
    let sent: Vec<u8> = (0u8..200).collect();
    for chunk in sent.chunks(7) {
        c.on_client_data(chunk);
        let pending = c.dest_outbound().len();
        let n = pending.min(5);
        at_dest.extend_from_slice(&c.dest_outbound()[..n]);
        c.on_dest_written(n);
    }
    let rest = c.dest_outbound().to_vec();
    c.on_dest_written(rest.len());
    at_dest.extend_from_slice(&rest);
    let mut expected = vec![1u8, 2];
    expected.extend_from_slice(&sent);
    assert_eq!(at_dest, expected);

    let mut at_client = Vec::new();
    for chunk in sent.chunks(13) {
        c.on_dest_data(chunk);
        let n = c.client_outbound().len().min(3);
        at_client.extend_from_slice(&c.client_outbound()[..n]);
        c.on_client_written(n);
    }
    let rest = c.client_outbound().to_vec();
    c.on_client_written(rest.len());
    at_client.extend_from_slice(&rest);
    assert_eq!(at_client, sent);
}

#[test]
fn half_close_keeps_client_direction() {
    let mut c = relaying(&[]);
    c.on_client_data(&[1, 2, 3]);
    c.on_dest_eof();
    assert_eq!(c.dest_outbound(), &[1, 2, 3]);
    assert!(c.client_read_budget() > 0);
    assert_eq!(c.dest_read_budget(), 0);
    assert!(!c.is_finished());
    c.on_client_data(&[4]);
    assert_eq!(c.dest_outbound(), &[1, 2, 3, 4]);
    c.on_dest_written(4);
    assert!(!c.is_finished());
    c.on_client_eof();
    assert!(c.is_finished());
}

#[test]
fn backpressure_stops_reads_at_high_water() {
    let mut p = Pump::new();
    assert_eq!(p.read_budget(), MAX_READ_CHUNK);
    let chunk = vec![7u8; MAX_READ_CHUNK];
    while p.read_budget() > 0 {
        let n = p.read_budget();
        p.accept(&chunk[..n]);
        assert!(p.pending().len() <= HIGH_WATER_MARK);
    }
    assert_eq!(p.pending().len(), HIGH_WATER_MARK);
    p.consume(10);
    assert_eq!(p.read_budget(), 10);
    p.consume(HIGH_WATER_MARK - 10);
    assert_eq!(p.read_budget(), MAX_READ_CHUNK);
    p.close_read();
    assert_eq!(p.read_budget(), 0);
    assert!(p.is_drained());
}

#[test]
fn connection_backpressure_on_client() {
    let mut c = relaying(&[]);
    let chunk = vec![1u8; MAX_READ_CHUNK];
    while c.client_read_budget() > 0 {
        let n = c.client_read_budget();
        c.on_client_data(&chunk[..n]);
    }
    assert_eq!(c.dest_outbound().len(), HIGH_WATER_MARK);
    c.on_dest_written(1);
    assert_eq!(c.client_read_budget(), 1);
}

#[test]
fn abort_discards_everything() {
    let mut c = relaying(&[]);
    c.on_client_data(&[1, 2, 3]);
    c.abort();
    assert_eq!(c.phase(), Phase::Closing);
    assert!(c.is_finished());
}

#[test]
fn server_table_reuses_slots() {
    let mut s = Server::new();
    assert_eq!(s.open_connection(), Some(1));
    assert_eq!(s.open_connection(), Some(2));
    let c = s.take(1).expect("connection 1");
    assert!(s.take(1).is_none());
    assert!(s.take(0).is_none());
    assert!(s.take(9).is_none());
    assert_eq!(c.phase(), Phase::AwaitingGreeting);
    assert_eq!(s.open_connection(), Some(1));
    let d = s.take(2).expect("connection 2");
    s.put(2, d);
    assert!(s.take(2).is_some());
}

#[test]
fn server_refuses_past_limit() {
    let mut s = Server::new();
    assert!(!s.is_full());
    for t in 1..=MAX_CONNECTIONS {
        assert_eq!(s.open_connection(), Some(t));
    }
    assert!(s.is_full());
    assert_eq!(s.open_connection(), None);
    let c = s.take(7).expect("connection 7");
    assert!(!s.is_full());
    drop(c);
    assert_eq!(s.open_connection(), Some(7));
}
