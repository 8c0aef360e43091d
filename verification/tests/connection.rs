//! The per-connection engine: passive open, emission bookkeeping, and
//! the segment handler on one TCB.

use trust::tcp::{
    Connection, Ipv4Template, RecvSequenceSpace, SendSequenceSpace, State, TcpTemplate,
};
use trust::wire::{Ipv4HeaderInfo, TcpHeaderInfo};

const LOCAL: u32 = 0xC0A80028; // 192.168.0.40
const REMOTE: u32 = 0xC0A80001; // 192.168.0.1

fn remote_iph() -> Ipv4HeaderInfo {
    Ipv4HeaderInfo { src: REMOTE, dst: LOCAL, protocol: 6, header_len: 20 }
}

fn tcph(seq: u32, ack: u32, syn: bool, ack_flag: bool, fin: bool) -> TcpHeaderInfo {
    TcpHeaderInfo {
        src_port: 34562,
        dst_port: 1000,
        seq,
        ack,
        fin,
        syn,
        rst: false,
        ack_flag,
        window: 64240,
        header_len: 20,
    }
}

/// A connection as it stands right after the three-way handshake, with
/// the sequence spaces chosen by the tests.
fn estab(una: u32, nxt: u32, rcv_nxt: u32, rcv_wnd: u16) -> Connection {
    Connection {
        state: State::Estab,
        send: SendSequenceSpace { iss: 0, una, nxt, wnd: 1024, up: false, wl1: 0, wl2: 0 },
        recv: RecvSequenceSpace { irs: rcv_nxt.wrapping_sub(1), nxt: rcv_nxt, wnd: rcv_wnd, up: false },
        ip: Ipv4Template { src: LOCAL, dst: REMOTE },
        tcp: TcpTemplate {
            src_port: 1000,
            dst_port: 34562,
            window: 1024,
            syn: false,
            fin: false,
            rst: false,
            ack: true,
        },
        incoming: Vec::new(),
        unacked: Vec::new(),
    }
}

#[test]
fn accept_refuses_a_segment_without_syn() {
    let r = Connection::accept(&remote_iph(), &tcph(0x77344604, 0, false, true, false));
    assert!(r.is_none());
}

#[test]
fn accept_builds_the_tcb_and_the_syn_ack() {
    let (c, seg) = Connection::accept(&remote_iph(), &tcph(0x77344604, 0, true, false, false))
        .expect("a SYN must be accepted");
    assert!(matches!(c.state, State::SynRcvd));
    assert_eq!(c.send.iss, 0);
    assert_eq!(c.send.una, 0);
    // The SYN-ACK consumed one sequence number.
    assert_eq!(c.send.nxt, 1);
    assert_eq!(c.recv.irs, 0x77344604);
    assert_eq!(c.recv.nxt, 0x77344605);
    assert_eq!(c.recv.wnd, 1024);
    assert_eq!(c.ip.src, LOCAL);
    assert_eq!(c.ip.dst, REMOTE);
    assert_eq!(c.tcp.src_port, 1000);
    assert_eq!(c.tcp.dst_port, 34562);
    assert!(!c.tcp.syn && !c.tcp.fin);
    assert_eq!(seg.src_ip, LOCAL);
    assert_eq!(seg.dst_ip, REMOTE);
    assert_eq!(seg.src_port, 1000);
    assert_eq!(seg.dst_port, 34562);
    assert_eq!(seg.seq, 0);
    assert_eq!(seg.ack, 0x77344605);
    assert!(seg.syn && seg.ack_flag && !seg.fin && !seg.rst);
    assert_eq!(seg.window, 1024);
    assert!(seg.payload.is_empty());
}

#[test]
fn a_syn_emission_consumes_one_sequence_number() {
    let mut c = estab(0, 41, 0x1000, 1024);
    c.tcp.syn = true;
    let (n, seg) = c.write(&[]);
    assert_eq!(n, 0);
    assert!(seg.syn);
    assert_eq!(seg.seq, 41);
    assert_eq!(c.send.nxt, 42);
    assert!(!c.tcp.syn);
}

#[test]
fn a_fin_emission_consumes_one_sequence_number() {
    let mut c = estab(0, 41, 0x1000, 1024);
    c.tcp.fin = true;
    let (n, _seg) = c.write(&[]);
    assert_eq!(n, 0);
    assert_eq!(c.send.nxt, 42);
    assert!(!c.tcp.fin);
}

#[test]
fn write_caps_the_payload_at_one_mtu() {
    let mut c = estab(0, 100, 0x1000, 1024);
    let payload = vec![7u8; 2000];
    let (n, seg) = c.write(&payload);
    assert_eq!(n, 1460);
    assert_eq!(seg.payload.len(), 1460);
    assert_eq!(seg.seq, 100);
    assert_eq!(seg.ack, 0x1000);
    assert_eq!(c.send.nxt, 1560);
}

#[test]
fn write_wraps_the_sequence_space() {
    let mut c = estab(0, 0xFFFFFFFF, 0x1000, 1024);
    let (n, _) = c.write(&[1, 2, 3]);
    assert_eq!(n, 3);
    assert_eq!(c.send.nxt, 2);
}

#[test]
fn send_rst_emits_a_reset_without_consuming_sequence_numbers() {
    let mut c = estab(0, 55, 0x1000, 1024);
    let seg = c.send_rst();
    assert!(seg.rst);
    assert_eq!(seg.seq, 55);
    assert_eq!(seg.ack, 0x1000);
    assert!(seg.payload.is_empty());
    assert_eq!(c.send.nxt, 55);
    assert!(c.tcp.rst);
}

#[test]
fn unacceptable_segment_elicits_one_empty_ack_and_no_change() {
    // §scenario: Estab with RCV.NXT = 0x77344605, RCV.WND = 1024; a
    // segment 2000 past the window start is unacceptable.
    let mut c = estab(0, 1, 0x77344605, 1024);
    let out = c.on_packet(
        &remote_iph(),
        &tcph(0x77344605u32.wrapping_add(2000), 1, false, true, false),
        &[],
    );
    assert_eq!(out.len(), 1);
    assert_eq!(out[0].ack, 0x77344605);
    assert_eq!(out[0].seq, 1);
    assert!(!out[0].syn && !out[0].fin && !out[0].rst && out[0].ack_flag);
    assert!(out[0].payload.is_empty());
    // No state change.
    assert!(matches!(c.state, State::Estab));
    assert_eq!(c.send.una, 0);
    assert_eq!(c.send.nxt, 1);
    assert_eq!(c.recv.nxt, 0x77344605);
    assert!(c.incoming.is_empty());
}

#[test]
fn duplicate_ack_advances_nothing_and_removes_nothing() {
    let mut c = estab(5, 10, 0x1000, 1024);
    c.state = State::FinWait1;
    c.unacked = vec![1, 2, 3, 4];
    // seg.ack == SND.UNA: a duplicate.
    let out = c.on_packet(&remote_iph(), &tcph(0x1000, 5, false, true, false), &[]);
    assert!(out.is_empty());
    assert_eq!(c.send.una, 5);
    assert_eq!(c.unacked, vec![1, 2, 3, 4]);
    // seg.ack before SND.UNA: older still, equally ignored.
    let out = c.on_packet(&remote_iph(), &tcph(0x1000, 3, false, true, false), &[]);
    assert!(out.is_empty());
    assert_eq!(c.send.una, 5);
    assert_eq!(c.unacked, vec![1, 2, 3, 4]);
}

#[test]
fn acceptable_ack_advances_una_and_drains_unacked() {
    let mut c = estab(5, 10, 0x1000, 1024);
    c.state = State::FinWait2;
    c.unacked = vec![1, 2, 3, 4];
    let out = c.on_packet(&remote_iph(), &tcph(0x1000, 7, false, true, false), &[]);
    assert!(out.is_empty());
    assert_eq!(c.send.una, 7);
    // Two octets acknowledged: two leave the front of the queue.
    assert_eq!(c.unacked, vec![3, 4]);
}

#[test]
fn segment_without_ack_stops_after_the_receive_step() {
    let mut c = estab(0, 1, 0x1000, 1024);
    let out = c.on_packet(&remote_iph(), &tcph(0x1000, 0, false, false, false), &[9, 8, 7]);
    assert!(out.is_empty());
    assert!(matches!(c.state, State::Estab));
    assert_eq!(c.recv.nxt, 0x1003);
    assert_eq!(c.incoming, vec![9, 8, 7]);
    assert_eq!(c.send.una, 0);
    assert_eq!(c.send.nxt, 1);
}

#[test]
fn overlapping_retransmission_delivers_only_the_new_bytes() {
    let mut c = estab(0, 1, 0x1000, 1024);
    c.on_packet(&remote_iph(), &tcph(0x1000, 0, false, false, false), &[1, 2, 3]);
    assert_eq!(c.recv.nxt, 0x1003);
    // Retransmission starting one octet back, carrying two old bytes and
    // two new ones.
    c.on_packet(&remote_iph(), &tcph(0x1001, 0, false, false, false), &[2, 3, 4, 5]);
    assert_eq!(c.recv.nxt, 0x1005);
    assert_eq!(c.incoming, vec![1, 2, 3, 4, 5]);
}

#[test]
fn state_synchronization_predicate() {
    assert!(!State::SynRcvd.is_synchronized());
    assert!(!State::Closed.is_synchronized());
    assert!(State::Estab.is_synchronized());
    assert!(State::FinWait1.is_synchronized());
    assert!(State::FinWait2.is_synchronized());
    assert!(State::TimeWait.is_synchronized());
    assert!(State::Closing.is_synchronized());
    assert!(State::CloseWait.is_synchronized());
    assert!(State::LastAck.is_synchronized());
}

#[test]
fn fin_in_estab_moves_to_close_wait() {
    // A FIN whose acknowledgment is a duplicate: the ACK step changes
    // nothing, the FIN is acknowledged and the state follows figure 6.
    let mut c = estab(5, 10, 0x1000, 1024);
    let out = c.on_packet(&remote_iph(), &tcph(0x1000, 5, false, true, true), &[]);
    assert!(matches!(c.state, State::CloseWait));
    assert_eq!(c.recv.nxt, 0x1001);
    assert_eq!(out.len(), 1);
    assert_eq!(out[0].ack, 0x1001);
    assert_eq!(out[0].seq, 10);
    assert!(!out[0].fin && !out[0].syn);
}

#[test]
fn syn_ack_in_syn_rcvd_is_handled_like_a_pure_ack() {
    // Simultaneous open: a SYN+ACK arriving in SynRcvd runs the same ACK
    // path as a plain ACK and synchronizes the connection.
    let (mut c, _) = Connection::accept(&remote_iph(), &tcph(0x77344604, 0, true, false, false))
        .expect("a SYN must be accepted");
    let out = c.on_packet(&remote_iph(), &tcph(0x77344605, 1, true, true, false), &[]);
    assert!(out.is_empty());
    assert!(matches!(c.state, State::Estab));
    // The SYN consumed one receive sequence number.
    assert_eq!(c.recv.nxt, 0x77344606);
}

#[test]
fn zero_window_probe_elicits_an_ack_and_changes_nothing() {
    let mut c = estab(0, 1, 0x1000, 0);
    let out = c.on_packet(&remote_iph(), &tcph(0x1000, 1, false, true, false), &[42]);
    assert_eq!(out.len(), 1);
    assert_eq!(out[0].ack, 0x1000);
    assert!(out[0].payload.is_empty());
    assert!(matches!(c.state, State::Estab));
    assert_eq!(c.recv.nxt, 0x1000);
    assert!(c.incoming.is_empty());
    assert_eq!(c.send.una, 0);
}
