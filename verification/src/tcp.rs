//! The per-connection TCP engine: one transmission control block (TCB),
//! its send/receive sequence spaces, and the RFC 793 segment handler.
//!
//! The engine is passive-open only. A connection is created by `accept`
//! when a SYN arrives, replies with a SYN-ACK, and then runs every later
//! segment through `on_packet`: the acceptability test of RFC 793 §3.3,
//! the receive-side advance, ACK processing by state, and FIN handling.
//! Emission is split from I/O: the engine returns `SegmentMeta` records
//! and the caller transmits them.

use vstd::prelude::*;

use crate::seqnums::{
    between_wrapped, is_between_wrapped, wrap_add, wrap_dist, wrap_lt, wrap_sub, wrapping_lt,
};
use crate::wire::{Ipv4HeaderInfo, SegmentMeta, TcpHeaderInfo};

verus! {

/// Largest payload of one emitted segment: an MTU of 1500 bytes minus the
/// 20-byte IPv4 header and the 20-byte TCP header.
pub const SEGMENT_PAYLOAD_MAX: usize = 1460;

/// The connection states of RFC 793. `Listen` is not represented here: a
/// listening port is a queue in the connection manager, not a TCB.
#[derive(Clone, Copy, Debug, PartialEq, Eq, Structural)]
pub enum State {
    SynRcvd,
    Estab,
    FinWait1,
    FinWait2,
    TimeWait,
    Closing,
    CloseWait,
    LastAck,
    Closed,
}

impl State {
    /// A state is synchronized once the three-way handshake has completed
    /// and until the TCB is gone: every state but `SynRcvd` and `Closed`.
    pub fn is_synchronized(&self) -> (r: bool)
        ensures
            r == !(*self is SynRcvd || *self is Closed),
    {
        match *self {
            State::SynRcvd | State::Closed => false,
            _ => true,
        }
    }

    /// Whether `remote_closed` holds of this state: the peer's FIN has
    /// been processed, or the connection is dead.
    pub fn remote_is_closed(&self) -> (r: bool)
        ensures
            r == remote_closed(*self),
    {
        match *self {
            State::TimeWait | State::CloseWait | State::Closing | State::LastAck
                | State::Closed => true,
            _ => false,
        }
    }
}

/// The send sequence space (RFC 793 figure 4).
#[derive(Clone, Copy, Debug, PartialEq, Eq, Structural)]
pub struct SendSequenceSpace {
    /// Initial send sequence number.
    pub iss: u32,
    /// Oldest unacknowledged sequence number.
    pub una: u32,
    /// Next sequence number to send.
    pub nxt: u32,
    /// Send window.
    pub wnd: u16,
    /// Urgent-pointer flag (kept for completeness, never set).
    pub up: bool,
    /// Segment sequence number of the last window update.
    pub wl1: u32,
    /// Segment acknowledgment number of the last window update.
    pub wl2: u32,
}

/// The receive sequence space (RFC 793 figure 5).
#[derive(Clone, Copy, Debug, PartialEq, Eq, Structural)]
pub struct RecvSequenceSpace {
    /// Initial receive sequence number.
    pub irs: u32,
    /// Next sequence number expected.
    pub nxt: u32,
    /// Receive window.
    pub wnd: u16,
    /// Urgent-pointer flag (kept for completeness, never set).
    pub up: bool,
}

/// The cached outbound IPv4 header template: the two addresses, already
/// swapped from the segment that opened the connection.
#[derive(Clone, Copy, Debug, PartialEq, Eq, Structural)]
pub struct Ipv4Template {
    pub src: u32,
    pub dst: u32,
}

/// The cached outbound TCP header template: ports swapped from the opening
/// segment, the advertised window, and the control flags to carry on the
/// next emitted segment. SYN and FIN are set transiently and cleared by
/// emission, so that they are not repeated.
#[derive(Clone, Copy, Debug, PartialEq, Eq, Structural)]
pub struct TcpTemplate {
    pub src_port: u16,
    pub dst_port: u16,
    pub window: u16,
    pub syn: bool,
    pub fin: bool,
    pub rst: bool,
    /// The ACK control bit; set once the first SYN-ACK is formed and kept,
    /// since every segment after the initial SYN carries an ACK.
    pub ack: bool,
}

/// One transmission control block.
pub struct Connection {
    pub state: State,
    pub send: SendSequenceSpace,
    pub recv: RecvSequenceSpace,
    pub ip: Ipv4Template,
    pub tcp: TcpTemplate,
    /// In-order bytes received and not yet read by the application.
    pub incoming: Vec<u8>,
    /// Bytes queued by the application, not yet acknowledged by the peer.
    pub unacked: Vec<u8>,
}

/// `seg.len` of RFC 793: the payload length plus one for SYN and one for
/// FIN, each of which occupies one sequence number.
pub open spec fn spec_seg_len(syn: bool, fin: bool, data_len: int) -> int {
    data_len + (if syn { 1int } else { 0int }) + (if fin { 1int } else { 0int })
}

/// The segment-acceptability table of RFC 793 §3.3, with `wend` standing
/// for `RCV.NXT + RCV.WND`:
///
/// | seg.len | RCV.WND | acceptable when                                    |
/// |---------|---------|----------------------------------------------------|
/// | 0       | 0       | `seg.seq == RCV.NXT`                               |
/// | 0       | > 0     | `RCV.NXT - 1 < seg.seq < wend` (wrapped)           |
/// | > 0     | 0       | never                                              |
/// | > 0     | > 0     | that, or the same of `seg.seq + seg.len - 1`       |
pub open spec fn segment_acceptable(seq: u32, slen: u32, rcv_nxt: u32, rcv_wnd: u16) -> bool {
    let wend = wrap_add(rcv_nxt, rcv_wnd as u32);
    let nxt_m1 = wrap_sub(rcv_nxt, 1);
    if slen == 0 {
        if rcv_wnd == 0 {
            seq == rcv_nxt
        } else {
            between_wrapped(nxt_m1, seq, wend)
        }
    } else {
        if rcv_wnd == 0 {
            false
        } else {
            between_wrapped(nxt_m1, seq, wend)
                || between_wrapped(nxt_m1, wrap_add(seq, (slen - 1) as u32), wend)
        }
    }
}

/// An acknowledgment number is acceptable when it lies in `(SND.UNA,
/// SND.NXT]`, the half-open window of data in flight.
pub open spec fn ack_acceptable(una: u32, ackn: u32, nxt: u32) -> bool {
    between_wrapped(una, ackn, wrap_add(nxt, 1))
}

/// How many leading payload bytes of an acceptable segment duplicate data
/// already delivered: the distance from the segment's first data octet to
/// `RCV.NXT`, when that octet lies before `RCV.NXT`, capped by the payload
/// length. Only the bytes after these are new.
pub open spec fn dup_skip(seq: u32, syn: bool, rcv_nxt: u32, data_len: int) -> int {
    let start = wrap_add(seq, if syn { 1u32 } else { 0u32 });
    if wrap_lt(start, rcv_nxt) {
        if wrap_dist(start, rcv_nxt) < data_len {
            wrap_dist(start, rcv_nxt)
        } else {
            data_len
        }
    } else {
        0
    }
}

/// What one emitted segment looks like: addresses, ports, window and the
/// RST/ACK control bits taken from the connection's templates, sequence
/// and acknowledgment numbers and the SYN/FIN bits as given, no payload.
pub open spec fn seg_matches(
    seg: SegmentMeta,
    c: Connection,
    seqn: u32,
    ackn: u32,
    syn: bool,
    fin: bool,
) -> bool {
    &&& seg.src_ip == c.ip.src
    &&& seg.dst_ip == c.ip.dst
    &&& seg.src_port == c.tcp.src_port
    &&& seg.dst_port == c.tcp.dst_port
    &&& seg.seq == seqn
    &&& seg.ack == ackn
    &&& seg.syn == syn
    &&& seg.fin == fin
    &&& seg.rst == c.tcp.rst
    &&& seg.ack_flag == c.tcp.ack
    &&& seg.window == c.tcp.window
    &&& seg.payload@.len() == 0
}

/// A freshly accepted TCB, exactly as the passive open builds it: state
/// `SynRcvd`; `ISS = 0` with `SND.NXT` already past the emitted SYN;
/// `RCV.NXT` one past the peer's ISS; both windows 1024; addresses and
/// ports swapped from the inbound segment; empty byte queues.
pub open spec fn fresh_connection(
    c: Connection,
    iph: Ipv4HeaderInfo,
    tcph: TcpHeaderInfo,
) -> bool {
    &&& c.state is SynRcvd
    &&& c.send == (SendSequenceSpace { iss: 0, una: 0, nxt: 1, wnd: 1024, up: false, wl1: 0, wl2: 0 })
    &&& c.recv == (RecvSequenceSpace { irs: tcph.seq, nxt: wrap_add(tcph.seq, 1), wnd: 1024, up: false })
    &&& c.ip == (Ipv4Template { src: iph.dst, dst: iph.src })
    &&& c.tcp == (TcpTemplate {
        src_port: tcph.dst_port,
        dst_port: tcph.src_port,
        window: 1024,
        syn: false,
        fin: false,
        rst: false,
        ack: true,
    })
    &&& c.incoming@ == Seq::<u8>::empty()
    &&& c.unacked@ == Seq::<u8>::empty()
}

/// The SYN-ACK answering a SYN: sequence number `ISS = 0`, acknowledging
/// one past the peer's ISS, window 1024, addresses and ports swapped.
pub open spec fn syn_ack_reply(seg: SegmentMeta, iph: Ipv4HeaderInfo, tcph: TcpHeaderInfo) -> bool {
    &&& seg.src_ip == iph.dst
    &&& seg.dst_ip == iph.src
    &&& seg.src_port == tcph.dst_port
    &&& seg.dst_port == tcph.src_port
    &&& seg.seq == 0
    &&& seg.ack == wrap_add(tcph.seq, 1)
    &&& seg.syn
    &&& seg.ack_flag
    &&& !seg.fin
    &&& !seg.rst
    &&& seg.window == 1024
    &&& seg.payload@.len() == 0
}

/// How many sequence numbers an emission of `n` payload bytes consumes:
/// `n`, plus one if it carries SYN, plus one if it carries FIN.
pub open spec fn write_advance(syn: bool, fin: bool, n: int) -> int {
    n + (if syn { 1int } else { 0int }) + (if fin { 1int } else { 0int })
}

/// The connection after emitting `n` payload bytes: `SND.NXT` advanced by
/// `write_advance` and the one-shot SYN/FIN template flags cleared;
/// everything else untouched.
pub open spec fn post_write(o: Connection, n: int) -> Connection {
    Connection {
        send: (SendSequenceSpace {
            nxt: wrap_add(o.send.nxt, write_advance(o.tcp.syn, o.tcp.fin, n) as u32),
            ..o.send
        }),
        tcp: (TcpTemplate { syn: false, fin: false, ..o.tcp }),
        ..o
    }
}

/// ACK processing (step D of the segment handler): the state, `SND.UNA`
/// and `SND.NXT` after an acceptable segment carrying this acknowledgment
/// number. In `SynRcvd`, an ACK covering our SYN synchronizes the
/// connection. In `Estab`, `FinWait1` and `FinWait2`, an acceptable ACK
/// advances `SND.UNA`; in `Estab` it moreover triggers the close of this
/// simple engine: a FIN is emitted (advancing `SND.NXT` by one) and the
/// state becomes `FinWait1`. Finally, once everything through our FIN
/// (`ISS + 2`) is acknowledged, `FinWait1` becomes `FinWait2`.
pub open spec fn ack_transition(st: State, una: u32, nxt: u32, iss: u32, ackn: u32) -> (
    State,
    u32,
    u32,
) {
    let step = match st {
        State::SynRcvd => {
            if between_wrapped(wrap_sub(una, 1), ackn, wrap_add(nxt, 1)) {
                (State::Estab, una, nxt)
            } else {
                (State::SynRcvd, una, nxt)
            }
        },
        State::Estab => {
            if ack_acceptable(una, ackn, nxt) {
                (State::FinWait1, ackn, wrap_add(nxt, 1))
            } else {
                (State::Estab, una, nxt)
            }
        },
        State::FinWait1 => {
            if ack_acceptable(una, ackn, nxt) {
                (State::FinWait1, ackn, nxt)
            } else {
                (State::FinWait1, una, nxt)
            }
        },
        State::FinWait2 => {
            if ack_acceptable(una, ackn, nxt) {
                (State::FinWait2, ackn, nxt)
            } else {
                (State::FinWait2, una, nxt)
            }
        },
        _ => (st, una, nxt),
    };
    if step.0 is FinWait1 && step.1 == wrap_add(iss, 2) {
        (State::FinWait2, step.1, step.2)
    } else {
        step
    }
}

/// FIN processing (step E): where an inbound FIN takes each state, after
/// RFC 793's figure 6. Our own FIN cannot have been acknowledged by the
/// same segment here — that case has already moved `FinWait1` on — so a
/// FIN seen in `FinWait1` means a simultaneous close.
pub open spec fn fin_transition(st: State) -> State {
    match st {
        State::FinWait2 => State::TimeWait,
        State::Estab => State::CloseWait,
        State::SynRcvd => State::CloseWait,
        State::FinWait1 => State::Closing,
        _ => st,
    }
}

/// Whether step D emits a FIN of our own: only on an acceptable ACK in
/// `Estab`.
pub open spec fn emits_fin(st: State, una: u32, nxt: u32, ackn: u32) -> bool {
    st is Estab && ack_acceptable(una, ackn, nxt)
}

/// Whether step E answers an inbound FIN with an empty ACK: always, save
/// in `Closed`, where the TCB is already dead.
pub open spec fn fin_acked(st_after_d: State, fin: bool) -> bool {
    fin && !(st_after_d is Closed)
}

/// SYN and FIN each consume one sequence number: an emission carrying no
/// payload advances `SND.NXT` by exactly one when its template holds SYN
/// alone or FIN alone, and by two when it holds both.
pub proof fn lemma_syn_fin_consume_one(o: Connection)
    ensures
        o.tcp.syn != o.tcp.fin ==> post_write(o, 0).send.nxt == wrap_add(o.send.nxt, 1),
        o.tcp.syn && o.tcp.fin ==> post_write(o, 0).send.nxt == wrap_add(o.send.nxt, 2),
        !o.tcp.syn && !o.tcp.fin ==> post_write(o, 0).send.nxt == o.send.nxt,
{
    if !o.tcp.syn && !o.tcp.fin {
        assert(wrap_add(o.send.nxt, 0) == o.send.nxt);
    }
}

/// No further data can arrive from the peer in these states: its FIN has
/// been processed, or the connection is dead. For a reader, an empty
/// receive queue then means end of stream rather than try-again.
pub open spec fn remote_closed(st: State) -> bool {
    match st {
        State::TimeWait | State::CloseWait | State::Closing | State::LastAck | State::Closed
            => true,
        _ => false,
    }
}

/// The two connections agree on everything but the byte queues.
pub open spec fn same_conn_ctrl(a: Connection, b: Connection) -> bool {
    &&& a.state == b.state
    &&& a.send == b.send
    &&& a.recv == b.recv
    &&& a.ip == b.ip
    &&& a.tcp == b.tcp
}

/// The complete observable effect of `Connection::on_packet`: how the
/// final connection `f` and the emitted segments `out` follow from the
/// prior connection `o` and the inbound segment. The clauses mirror the
/// handler's steps; two hold unconditionally: `SND.UNA` is monotone in
/// modular order, and a duplicate acknowledgment (`seg.ack` not beyond
/// `SND.UNA`) neither advances it nor removes a byte from `unacked`.
pub open spec fn on_packet_post(
    o: Connection,
    tcph: TcpHeaderInfo,
    data: Seq<u8>,
    f: Connection,
    out: Seq<SegmentMeta>,
) -> bool {
    let slen = spec_seg_len(tcph.syn, tcph.fin, data.len() as int) as u32;
    let acc = segment_acceptable(tcph.seq, slen, o.recv.nxt, o.recv.wnd);
    let rnxt = wrap_add(tcph.seq, slen);
    &&& f.ip == o.ip
    &&& f.tcp == o.tcp
    &&& f.recv.irs == o.recv.irs
    &&& f.recv.wnd == o.recv.wnd
    &&& f.recv.up == o.recv.up
    &&& f.send.iss == o.send.iss
    &&& f.send.wnd == o.send.wnd
    &&& f.send.up == o.send.up
    &&& f.send.wl1 == o.send.wl1
    &&& f.send.wl2 == o.send.wl2
    // SND.UNA is monotone in modular order.
    &&& f.send.una == o.send.una || wrap_lt(o.send.una, f.send.una)
    // A duplicate ACK advances nothing and removes nothing.
    &&& !wrap_lt(o.send.una, tcph.ack) ==> f.send.una == o.send.una && f.unacked@ == o.unacked@
    // Every returned segment is empty.
    &&& forall|i: int| 0 <= i < out.len() ==> out[i].payload@.len() == 0
    &&& (!acc ==> {
        &&& f == o
        &&& out.len() == 1
        &&& seg_matches(out[0], o, o.send.nxt, o.recv.nxt, false, false)
    })
    &&& (acc ==> {
        &&& f.recv.nxt == rnxt
        &&& f.incoming@ == o.incoming@ + data.subrange(
            dup_skip(tcph.seq, tcph.syn, o.recv.nxt, data.len() as int),
            data.len() as int,
        )
    })
    &&& (acc && !tcph.ack_flag ==> {
        &&& f.state == o.state
        &&& f.send == o.send
        &&& f.unacked@ == o.unacked@
        &&& out.len() == 0
    })
    &&& (acc && tcph.ack_flag ==> {
        let d = ack_transition(o.state, o.send.una, o.send.nxt, o.send.iss, tcph.ack);
        let our_fin = emits_fin(o.state, o.send.una, o.send.nxt, tcph.ack);
        let their_fin_ack = fin_acked(d.0, tcph.fin);
        &&& f.state == (if tcph.fin {
            fin_transition(d.0)
        } else {
            d.0
        })
        &&& f.send.una == d.1
        &&& f.send.nxt == d.2
        &&& f.unacked@ == (if d.1 == o.send.una {
            o.unacked@
        } else {
            o.unacked@.subrange(
                (if wrap_dist(o.send.una, d.1) < o.unacked@.len() as int {
                    wrap_dist(o.send.una, d.1)
                } else {
                    o.unacked@.len() as int
                }),
                o.unacked@.len() as int,
            )
        })
        &&& out.len() == (if our_fin { 1int } else { 0int }) + (if their_fin_ack {
            1int
        } else {
            0int
        })
        &&& (our_fin ==> seg_matches(out[0], o, o.send.nxt, rnxt, false, true))
        &&& (their_fin_ack ==> seg_matches(out[out.len() - 1], o, d.2, rnxt, false, false))
    })
}

impl Connection {
    /// Between segment-handler steps the one-shot template flags are
    /// clear: SYN and FIN are set only transiently, just before the
    /// emission that carries them.
    pub open spec fn wf(self) -> bool {
        &&& !self.tcp.syn
        &&& !self.tcp.fin
    }

    /// An empty acknowledgment segment as the connection stands now:
    /// sequence `SND.NXT`, acknowledging `RCV.NXT`, no payload.
    fn empty_ack(&self) -> (seg: SegmentMeta)
        ensures
            seg_matches(seg, *self, self.send.nxt, self.recv.nxt, false, false),
    {
        SegmentMeta {
            src_ip: self.ip.src,
            dst_ip: self.ip.dst,
            src_port: self.tcp.src_port,
            dst_port: self.tcp.dst_port,
            seq: self.send.nxt,
            ack: self.recv.nxt,
            syn: false,
            ack_flag: self.tcp.ack,
            fin: false,
            rst: self.tcp.rst,
            window: self.tcp.window,
            payload: Vec::new(),
        }
    }

    /// Passive open (RFC 793's `LISTEN` + SYN): answer a SYN with a fresh
    /// TCB and its SYN-ACK. A segment without SYN is refused without side
    /// effects.
    pub fn accept(iph: &Ipv4HeaderInfo, tcph: &TcpHeaderInfo) -> (r: Option<(Connection, SegmentMeta)>)
        ensures
            r is Some <==> tcph.syn,
            r is Some ==> fresh_connection(r.unwrap().0, *iph, *tcph),
            r is Some ==> r.unwrap().0.wf(),
            r is Some ==> syn_ack_reply(r.unwrap().1, *iph, *tcph),
    {
        if !tcph.syn {
            return None;
        }
        let mut c = Connection {
            state: State::SynRcvd,
            send: SendSequenceSpace {
                iss: 0,
                una: 0,
                nxt: 0,
                wnd: 1024,
                up: false,
                wl1: 0,
                wl2: 0,
            },
            recv: RecvSequenceSpace {
                irs: tcph.seq,
                nxt: tcph.seq.wrapping_add(1),
                wnd: 1024,
                up: false,
            },
            ip: Ipv4Template { src: iph.dst, dst: iph.src },
            tcp: TcpTemplate {
                src_port: tcph.dst_port,
                dst_port: tcph.src_port,
                window: 1024,
                syn: true,
                fin: false,
                rst: false,
                ack: true,
            },
            incoming: Vec::new(),
            unacked: Vec::new(),
        };
        let nothing: Vec<u8> = Vec::new();
        let (_n, seg) = c.write(nothing.as_slice());
        Some((c, seg))
    }

    /// Assemble one outbound segment (§ emission): sequence `SND.NXT`,
    /// acknowledging `RCV.NXT`, carrying the template's one-shot flags and
    /// as much of `payload` as fits one MTU. `SND.NXT` advances by the
    /// sequence numbers consumed — the payload sent plus one each for SYN
    /// and FIN — and the one-shot flags are cleared so they are not
    /// repeated. Returns the number of payload bytes taken and the
    /// segment.
    pub fn write(&mut self, payload: &[u8]) -> (res: (usize, SegmentMeta))
        ensures
            res.0 == (if payload@.len() <= SEGMENT_PAYLOAD_MAX {
                payload@.len() as int
            } else {
                SEGMENT_PAYLOAD_MAX as int
            }),
            *final(self) == post_write(*old(self), res.0 as int),
            res.1.src_ip == old(self).ip.src,
            res.1.dst_ip == old(self).ip.dst,
            res.1.src_port == old(self).tcp.src_port,
            res.1.dst_port == old(self).tcp.dst_port,
            res.1.seq == old(self).send.nxt,
            res.1.ack == old(self).recv.nxt,
            res.1.syn == old(self).tcp.syn,
            res.1.fin == old(self).tcp.fin,
            res.1.rst == old(self).tcp.rst,
            res.1.ack_flag == old(self).tcp.ack,
            res.1.window == old(self).tcp.window,
            res.1.payload@ == payload@.subrange(0, res.0 as int),
    {
        let n: usize = if payload.len() <= SEGMENT_PAYLOAD_MAX {
            payload.len()
        } else {
            SEGMENT_PAYLOAD_MAX
        };
        let body = vstd::slice::slice_to_vec(vstd::slice::slice_subrange(payload, 0, n));
        let seg = SegmentMeta {
            src_ip: self.ip.src,
            dst_ip: self.ip.dst,
            src_port: self.tcp.src_port,
            dst_port: self.tcp.dst_port,
            seq: self.send.nxt,
            ack: self.recv.nxt,
            syn: self.tcp.syn,
            ack_flag: self.tcp.ack,
            fin: self.tcp.fin,
            rst: self.tcp.rst,
            window: self.tcp.window,
            payload: body,
        };
        let mut adv: u32 = n as u32;
        if self.tcp.syn {
            adv = adv + 1;
            self.tcp.syn = false;
        }
        if self.tcp.fin {
            adv = adv + 1;
            self.tcp.fin = false;
        }
        self.send.nxt = self.send.nxt.wrapping_add(adv);
        (n, seg)
    }

    /// Form a reset: the RST template flag is raised and an empty segment
    /// emitted with it, consuming no sequence number. The flag stays
    /// raised, as every further segment of a reset connection carries RST.
    pub fn send_rst(&mut self) -> (seg: SegmentMeta)
        requires
            old(self).wf(),
        ensures
            *final(self) == (Connection {
                tcp: (TcpTemplate { rst: true, ..old(self).tcp }),
                ..*old(self)
            }),
            seg_matches(
                seg,
                *final(self),
                old(self).send.nxt,
                old(self).recv.nxt,
                false,
                false,
            ),
            seg.rst,
    {
        self.tcp.rst = true;
        let nothing: Vec<u8> = Vec::new();
        let (_n, seg) = self.write(nothing.as_slice());
        seg
    }

    /// The segment handler (RFC 793 §3.9 SEGMENT ARRIVES, as this simple
    /// engine implements it).
    ///
    /// Step A: an unacceptable segment elicits exactly one empty ACK and
    /// changes nothing. Step B: an acceptable segment advances `RCV.NXT`
    /// past it and appends its new payload bytes — those not already
    /// delivered — to `incoming`. Step C: without the ACK bit, processing
    /// ends there. Step D is `ack_transition`: `SND.UNA` advances on an
    /// acceptable acknowledgment, acknowledged bytes leave `unacked`, and
    /// in `Estab` this engine answers the first acceptable ACK with its
    /// own FIN. Step E is `fin_transition`, answering an inbound FIN with
    /// an empty ACK.
    ///
    /// `SND.UNA` never moves backwards: it either stays or advances in
    /// modular order. A duplicate acknowledgment — `seg.ack` not beyond
    /// `SND.UNA` — neither advances it nor removes a byte from `unacked`.
    pub fn on_packet(
        &mut self,
        iph: &Ipv4HeaderInfo,
        tcph: &TcpHeaderInfo,
        data: &[u8],
    ) -> (out: Vec<SegmentMeta>)
        requires
            old(self).wf(),
            data@.len() + 2 <= u32::MAX,
        ensures
            final(self).wf(),
            on_packet_post(*old(self), *tcph, data@, *final(self), out@),
    {
        let mut out: Vec<SegmentMeta> = Vec::new();
        let mut slen: u32 = data.len() as u32;
        if tcph.fin {
            slen = slen + 1;
        }
        if tcph.syn {
            slen = slen + 1;
        }

        // Step A: acceptability (RFC 793 §3.3).
        let okay = check_acceptability(tcph.seq, slen, self.recv.nxt, self.recv.wnd);
        if !okay {
            out.push(self.empty_ack());
            return out;
        }

        // Step B: advance the receive side and keep the new bytes. The
        // first data octet sits one past `seg.seq` when SYN is present;
        // any octets before `RCV.NXT` were delivered already.
        let data_start = tcph.seq.wrapping_add(if tcph.syn { 1 } else { 0 });
        let skip: usize = if wrapping_lt(data_start, self.recv.nxt) {
            let d = self.recv.nxt.wrapping_sub(data_start);
            if (d as usize) < data.len() {
                d as usize
            } else {
                data.len()
            }
        } else {
            0
        };
        let mut fresh = vstd::slice::slice_to_vec(
            vstd::slice::slice_subrange(data, skip, data.len()),
        );
        self.incoming.append(&mut fresh);
        self.recv.nxt = tcph.seq.wrapping_add(slen);

        // Step C: nothing further without an acknowledgment.
        if !tcph.ack_flag {
            return out;
        }
        let ackn = tcph.ack;

        // Step D: ACK processing by state.
        match self.state {
            State::SynRcvd => {
                if is_between_wrapped(
                    self.send.una.wrapping_sub(1),
                    ackn,
                    self.send.nxt.wrapping_add(1),
                ) {
                    // The peer acknowledged our SYN.
                    self.state = State::Estab;
                }
                // Otherwise RFC 793 answers with an RST carrying seg.ack;
                // that reset path is left as a hook.
            },
            State::Estab | State::FinWait1 | State::FinWait2 => {
                if is_between_wrapped(self.send.una, ackn, self.send.nxt.wrapping_add(1)) {
                    let acked = ackn.wrapping_sub(self.send.una);
                    self.send.una = ackn;
                    let k: usize = if (acked as usize) < self.unacked.len() {
                        acked as usize
                    } else {
                        self.unacked.len()
                    };
                    let rest = self.unacked.split_off(k);
                    self.unacked = rest;
                    if self.state == State::Estab {
                        // This simple engine closes as soon as the
                        // connection is up: emit our FIN.
                        self.tcp.fin = true;
                        let nothing: Vec<u8> = Vec::new();
                        let (_n, seg) = self.write(nothing.as_slice());
                        out.push(seg);
                        self.state = State::FinWait1;
                    }
                }
            },
            _ => {},
        }
        if self.state == State::FinWait1 && self.send.una == self.send.iss.wrapping_add(2) {
            // Everything through our FIN is acknowledged.
            self.state = State::FinWait2;
        }

        // Step E: an inbound FIN is acknowledged and moves the state per
        // RFC 793 figure 6.
        if tcph.fin {
            match self.state {
                State::FinWait2 => {
                    out.push(self.empty_ack());
                    self.state = State::TimeWait;
                },
                State::Estab | State::SynRcvd => {
                    out.push(self.empty_ack());
                    self.state = State::CloseWait;
                },
                State::FinWait1 => {
                    out.push(self.empty_ack());
                    self.state = State::Closing;
                },
                State::TimeWait | State::CloseWait | State::Closing | State::LastAck => {
                    out.push(self.empty_ack());
                },
                State::Closed => {},
            }
        }
        out
    }
}

/// The acceptability test of RFC 793 §3.3, exactly the table of
/// `segment_acceptable`.
pub fn check_acceptability(seq: u32, slen: u32, rcv_nxt: u32, rcv_wnd: u16) -> (r: bool)
    ensures
        r == segment_acceptable(seq, slen, rcv_nxt, rcv_wnd),
{
    let wend = rcv_nxt.wrapping_add(rcv_wnd as u32);
    let nxt_m1 = rcv_nxt.wrapping_sub(1);
    if slen == 0 {
        if rcv_wnd == 0 {
            seq == rcv_nxt
        } else {
            is_between_wrapped(nxt_m1, seq, wend)
        }
    } else {
        if rcv_wnd == 0 {
            false
        } else {
            is_between_wrapped(nxt_m1, seq, wend) || is_between_wrapped(
                nxt_m1,
                seq.wrapping_add(slen - 1),
                wend,
            )
        }
    }
}

} // verus!
