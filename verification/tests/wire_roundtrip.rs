//! The raw-datagram path: hand-built IPv4+TCP bytes go in through
//! `handle_datagram`, and the answer bytes are checked field by field —
//! including the computed checksums — with `etherparse` as the
//! independent decoder.

use trust::manager::ConnectionManager;

const LOCAL: [u8; 4] = [192, 168, 0, 40];
const REMOTE: [u8; 4] = [192, 168, 0, 1];

/// A 40-byte IPv4+TCP datagram, built octet by octet. The checksum
/// fields are left zero: the decoder does not check them.
fn datagram(
    src: [u8; 4],
    dst: [u8; 4],
    src_port: u16,
    dst_port: u16,
    seq: u32,
    ack: u32,
    flags: u8,
    window: u16,
    payload: &[u8],
) -> Vec<u8> {
    let total: u16 = 40 + payload.len() as u16;
    let mut b = Vec::new();
    b.extend_from_slice(&[0x45, 0x00]);
    b.extend_from_slice(&total.to_be_bytes());
    b.extend_from_slice(&[0, 0, 0, 0, 64, 6, 0, 0]);
    b.extend_from_slice(&src);
    b.extend_from_slice(&dst);
    b.extend_from_slice(&src_port.to_be_bytes());
    b.extend_from_slice(&dst_port.to_be_bytes());
    b.extend_from_slice(&seq.to_be_bytes());
    b.extend_from_slice(&ack.to_be_bytes());
    b.push(0x50);
    b.push(flags);
    b.extend_from_slice(&window.to_be_bytes());
    b.extend_from_slice(&[0, 0, 0, 0]);
    b.extend_from_slice(payload);
    b
}

const FLAG_FIN: u8 = 0x01;
const FLAG_SYN: u8 = 0x02;
const FLAG_ACK: u8 = 0x10;

#[test]
fn handshake_over_raw_datagrams() {
    let mut mgr = ConnectionManager::new();
    mgr.bind(1000).expect("port 1000 is free");

    let syn = datagram(REMOTE, LOCAL, 34562, 1000, 0x77344604, 0, FLAG_SYN, 64240, &[]);
    let out = mgr.handle_datagram(&syn);
    assert_eq!(out.len(), 1);
    let reply = &out[0];
    assert_eq!(reply.len(), 40);

    // Decode the answer with etherparse and hold it to the scenario.
    let ip = etherparse::Ipv4HeaderSlice::from_slice(reply).expect("a well-formed IPv4 header");
    assert_eq!(ip.version(), 4);
    assert_eq!(ip.ihl(), 5);
    assert_eq!(ip.ttl(), 64);
    assert_eq!(ip.protocol(), 6);
    assert_eq!(ip.source(), LOCAL);
    assert_eq!(ip.destination(), REMOTE);
    assert_eq!(ip.total_len(), 40);

    let tcp = etherparse::TcpHeaderSlice::from_slice(&reply[20..])
        .expect("a well-formed TCP header");
    assert_eq!(tcp.source_port(), 1000);
    assert_eq!(tcp.destination_port(), 34562);
    assert_eq!(tcp.sequence_number(), 0);
    assert_eq!(tcp.acknowledgment_number(), 0x77344605);
    assert!(tcp.syn() && tcp.ack());
    assert!(!tcp.fin() && !tcp.rst() && !tcp.psh() && !tcp.urg());
    assert_eq!(tcp.window_size(), 1024);
    assert_eq!(tcp.data_offset(), 5);

    // The IPv4 header checksum was really computed.
    let (decoded_ip, _) = etherparse::Ipv4Header::from_slice(reply).expect("decodes");
    assert_eq!(
        decoded_ip.calc_header_checksum().expect("in range"),
        decoded_ip.header_checksum,
    );
    // So was the TCP checksum, over the pseudo-header.
    assert_eq!(
        tcp.calc_checksum_ipv4(&ip, &[]).expect("length in range"),
        tcp.checksum(),
    );

    // The handshake completes over raw bytes too.
    let ack = datagram(REMOTE, LOCAL, 34562, 1000, 0x77344605, 1, FLAG_ACK, 64240, &[]);
    let out = mgr.handle_datagram(&ack);
    assert!(out.is_empty());
    assert!(mgr.try_accept(1000).is_ok());
}

#[test]
fn fin_elicits_an_ack_datagram() {
    let mut mgr = ConnectionManager::new();
    mgr.bind(1000).expect("port 1000 is free");
    mgr.handle_datagram(&datagram(REMOTE, LOCAL, 34562, 1000, 0x77344604, 0, FLAG_SYN, 64240, &[]));
    mgr.handle_datagram(&datagram(
        REMOTE, LOCAL, 34562, 1000, 0x77344605, 1, FLAG_ACK, 64240, &[],
    ));
    // Our FIN goes out on the next acknowledgment.
    let out = mgr.handle_datagram(&datagram(
        REMOTE, LOCAL, 34562, 1000, 0x77344605, 1, FLAG_ACK, 64240, &[],
    ));
    assert_eq!(out.len(), 1);
    let tcp = etherparse::TcpHeaderSlice::from_slice(&out[0][20..]).expect("well-formed");
    assert!(tcp.fin() && tcp.ack());
    assert_eq!(tcp.sequence_number(), 1);
    assert_eq!(tcp.acknowledgment_number(), 0x77344605);

    // The peer acknowledges the FIN and closes in turn.
    mgr.handle_datagram(&datagram(
        REMOTE, LOCAL, 34562, 1000, 0x77344605, 2, FLAG_ACK, 64240, &[],
    ));
    let out = mgr.handle_datagram(&datagram(
        REMOTE, LOCAL, 34562, 1000, 0x77344605, 2, FLAG_ACK | FLAG_FIN, 64240, &[],
    ));
    assert_eq!(out.len(), 1);
    let tcp = etherparse::TcpHeaderSlice::from_slice(&out[0][20..]).expect("well-formed");
    assert!(!tcp.fin() && tcp.ack());
    assert_eq!(tcp.acknowledgment_number(), 0x77344606);
}

#[test]
fn non_tcp_and_malformed_datagrams_are_dropped() {
    let mut mgr = ConnectionManager::new();
    mgr.bind(1000).expect("port 1000 is free");

    // UDP: protocol 17.
    let mut udp = datagram(REMOTE, LOCAL, 34562, 1000, 1, 0, FLAG_SYN, 64240, &[]);
    udp[9] = 17;
    assert!(mgr.handle_datagram(&udp).is_empty());

    // Too short to hold an IPv4 header.
    assert!(mgr.handle_datagram(&[0x45, 0, 0, 5, 0]).is_empty());

    // IPv6 version nibble.
    let mut v6 = datagram(REMOTE, LOCAL, 34562, 1000, 1, 0, FLAG_SYN, 64240, &[]);
    v6[0] = 0x65;
    assert!(mgr.handle_datagram(&v6).is_empty());

    // TCP header truncated: the datagram ends inside it.
    let cut = datagram(REMOTE, LOCAL, 34562, 1000, 1, 0, FLAG_SYN, 64240, &[]);
    assert!(mgr.handle_datagram(&cut[..30]).is_empty());

    assert!(mgr.connections.is_empty());
}

#[test]
fn payload_bytes_travel_from_the_wire_to_the_reader() {
    let mut mgr = ConnectionManager::new();
    mgr.bind(1000).expect("port 1000 is free");
    mgr.handle_datagram(&datagram(REMOTE, LOCAL, 34562, 1000, 0x77344604, 0, FLAG_SYN, 64240, &[]));
    mgr.handle_datagram(&datagram(
        REMOTE, LOCAL, 34562, 1000, 0x77344605, 1, FLAG_ACK, 64240, &[],
    ));
    let q = mgr.try_accept(1000).expect("pending");
    // Data without the ACK bit: delivered, nothing emitted.
    let out = mgr.handle_datagram(&datagram(
        REMOTE, LOCAL, 34562, 1000, 0x77344605, 0, 0, 64240, b"hello",
    ));
    assert!(out.is_empty());
    assert_eq!(mgr.read(q, 64).unwrap(), b"hello".to_vec());
}
