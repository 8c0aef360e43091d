//! The connection manager: the process-global registry of connections
//! keyed by their 4-tuple, the per-port queues of accepted connections
//! awaiting pickup, and the operations behind the listener/stream
//! interface (`bind`, `try_accept`, `read`, `write`, `flush`) and behind
//! the packet pump (`on_segment_arrival`, `handle_datagram`).
//!
//! The hosting program serialises every call through one lock, so each
//! operation here sees and leaves a quiescent manager; `wf` is the
//! invariant that holds between operations.

use vstd::prelude::*;

use crate::tcp::{
    fresh_connection, on_packet_post, remote_closed, same_conn_ctrl, syn_ack_reply, Connection,
};
use crate::wire::{
    ipv4_header_fields, ipv4_header_ok, segment_wire_bytes, tcp_header_fields, tcp_header_ok,
    Ipv4HeaderInfo, SegmentMeta, TcpHeaderInfo,
};

verus! {

/// Bound on `unacked`: how many bytes an application may have queued for
/// sending at any one time.
pub const SENDQUEUE_SIZE: usize = 1024;

/// What a façade operation can report instead of a value.
#[derive(Clone, Copy, Debug, PartialEq, Eq, Structural)]
pub enum TcpError {
    /// Nothing to do now; try again after the pump has run.
    WouldBlock,
    /// The port already has a listener.
    AddrInUse,
    /// The connection is gone from the registry.
    ConnectionAborted,
}

/// The connection key: the remote (source) and local (destination)
/// address/port pairs of the segments the peer sends us. Addresses are
/// the big-endian interpretation of the four octets.
#[derive(Clone, Copy, Debug, Hash, PartialEq, Eq, Structural)]
pub struct Quad {
    pub src_ip: u32,
    pub src_port: u16,
    pub dst_ip: u32,
    pub dst_port: u16,
}

/// One registry entry: a connection under its key.
pub struct ConnEntry {
    pub quad: Quad,
    pub conn: Connection,
}

/// One listening port and its queue of accepted-but-unclaimed
/// connections, oldest first.
pub struct PortEntry {
    pub port: u16,
    pub queue: Vec<Quad>,
}

/// The registry. Both association lists are keyed uniquely; see `wf`.
pub struct ConnectionManager {
    pub connections: Vec<ConnEntry>,
    pub pending: Vec<PortEntry>,
}

/// The key an inbound segment selects: source is the remote end.
pub open spec fn quad_of(iph: Ipv4HeaderInfo, tcph: TcpHeaderInfo) -> Quad {
    Quad {
        src_ip: iph.src,
        src_port: tcph.src_port,
        dst_ip: iph.dst,
        dst_port: tcph.dst_port,
    }
}

/// Any index holding `q` is the registry index of `q`: `wf` keeps keys
/// unique.
proof fn lemma_conn_idx_is(m: ConnectionManager, q: Quad, i: int)
    requires
        forall|a: int, b: int|
            0 <= a < b < m.connections@.len() ==> m.connections@[a].quad
                != m.connections@[b].quad,
        0 <= i < m.connections@.len(),
        m.connections@[i].quad == q,
    ensures
        m.has_conn(q),
        m.conn_idx(q) == i,
{
    assert(m.has_conn(q));
    let c = m.conn_idx(q);
    assert(0 <= c < m.connections@.len() && m.connections@[c].quad == q);
    if c < i {
        assert(m.connections@[c].quad != m.connections@[i].quad);
    } else if i < c {
        assert(m.connections@[i].quad != m.connections@[c].quad);
    }
}

/// Any index holding port `p` is the port's index: `wf` keeps ports
/// unique.
proof fn lemma_port_idx_is(m: ConnectionManager, p: u16, i: int)
    requires
        forall|a: int, b: int|
            0 <= a < b < m.pending@.len() ==> m.pending@[a].port != m.pending@[b].port,
        0 <= i < m.pending@.len(),
        m.pending@[i].port == p,
    ensures
        m.has_port(p),
        m.port_idx(p) == i,
{
    assert(m.has_port(p));
    let c = m.port_idx(p);
    assert(0 <= c < m.pending@.len() && m.pending@[c].port == p);
    if c < i {
        assert(m.pending@[c].port != m.pending@[i].port);
    } else if i < c {
        assert(m.pending@[i].port != m.pending@[c].port);
    }
}

impl ConnectionManager {
    /// Some connection is registered under `q`.
    pub open spec fn has_conn(self, q: Quad) -> bool {
        exists|i: int| 0 <= i < self.connections@.len() && self.connections@[i].quad == q
    }

    /// The index of the connection registered under `q` (unique by `wf`).
    pub open spec fn conn_idx(self, q: Quad) -> int {
        choose|i: int| 0 <= i < self.connections@.len() && self.connections@[i].quad == q
    }

    /// The connection registered under `q`.
    pub open spec fn conn_of(self, q: Quad) -> Connection {
        self.connections@[self.conn_idx(q)].conn
    }

    /// A listener holds port `p`.
    pub open spec fn has_port(self, p: u16) -> bool {
        exists|i: int| 0 <= i < self.pending@.len() && self.pending@[i].port == p
    }

    /// The index of port `p`'s entry (unique by `wf`).
    pub open spec fn port_idx(self, p: u16) -> int {
        choose|i: int| 0 <= i < self.pending@.len() && self.pending@[i].port == p
    }

    /// The queue of connections accepted on port `p`, awaiting pickup.
    pub open spec fn queue_of(self, p: u16) -> Seq<Quad> {
        self.pending@[self.port_idx(p)].queue@
    }

    /// The manager's invariant between operations: no two registry
    /// entries share a key, no two listeners share a port, every
    /// registered connection is quiescent, and every key queued on a
    /// listening port is registered and names that port as its local
    /// (destination) port.
    pub open spec fn wf(self) -> bool {
        &&& forall|i: int, j: int|
            0 <= i < j < self.connections@.len() ==> self.connections@[i].quad
                != self.connections@[j].quad
        &&& forall|i: int, j: int|
            0 <= i < j < self.pending@.len() ==> self.pending@[i].port != self.pending@[j].port
        &&& forall|i: int|
            0 <= i < self.connections@.len() ==> (#[trigger] self.connections@[i].conn).wf()
        &&& forall|i: int, k: int|
            0 <= i < self.pending@.len() && 0 <= k < self.pending@[i].queue@.len()
                ==> self.has_conn(#[trigger] self.pending@[i].queue@[k])
                && self.pending@[i].queue@[k].dst_port == self.pending@[i].port
    }

    /// The index holding `q`, by linear search; `None` when `q` is not
    /// registered.
    fn find_conn(&self, q: &Quad) -> (r: Option<usize>)
        ensures
            r is Some ==> 0 <= r.unwrap() < self.connections@.len()
                && self.connections@[r.unwrap() as int].quad == *q,
            r is None ==> !self.has_conn(*q),
    {
        let mut i: usize = 0;
        while i < self.connections.len()
            invariant
                0 <= i <= self.connections@.len(),
                forall|j: int| 0 <= j < i ==> self.connections@[j].quad != *q,
            decreases self.connections@.len() - i,
        {
            if self.connections[i].quad == *q {
                return Some(i);
            }
            i = i + 1;
        }
        None
    }

    /// The index holding port `p`; `None` when no listener holds it.
    fn find_port(&self, p: u16) -> (r: Option<usize>)
        ensures
            r is Some ==> 0 <= r.unwrap() < self.pending@.len()
                && self.pending@[r.unwrap() as int].port == p,
            r is None ==> !self.has_port(p),
    {
        let mut i: usize = 0;
        while i < self.pending.len()
            invariant
                0 <= i <= self.pending@.len(),
                forall|j: int| 0 <= j < i ==> self.pending@[j].port != p,
            decreases self.pending@.len() - i,
        {
            if self.pending[i].port == p {
                return Some(i);
            }
            i = i + 1;
        }
        None
    }

    /// An empty manager: no connections, no listeners.
    pub fn new() -> (m: ConnectionManager)
        ensures
            m.wf(),
            m.connections@.len() == 0,
            m.pending@.len() == 0,
    {
        ConnectionManager { connections: Vec::new(), pending: Vec::new() }
    }

    /// Reserve a local port for listening. Fails with `AddrInUse`, and
    /// changes nothing, exactly when a listener already holds the port;
    /// otherwise the port gains an empty queue. Either way the port is
    /// held afterwards, which is why no two `bind` calls for one port can
    /// both succeed.
    pub fn bind(&mut self, port: u16) -> (r: Result<(), TcpError>)
        requires
            old(self).wf(),
        ensures
            final(self).wf(),
            r is Err <==> old(self).has_port(port),
            r is Err ==> r.unwrap_err() == TcpError::AddrInUse && *final(self) == *old(self),
            r is Ok ==> {
                &&& final(self).connections@ == old(self).connections@
                &&& final(self).pending@.len() == old(self).pending@.len() + 1
                &&& final(self).pending@[old(self).pending@.len() as int].port == port
                &&& final(self).pending@[old(self).pending@.len() as int].queue@.len() == 0
                &&& forall|i: int|
                    0 <= i < old(self).pending@.len() ==> final(self).pending@[i] == old(
                        self,
                    ).pending@[i]
            },
            final(self).has_port(port),
    {
        match self.find_port(port) {
            Some(_) => Err(TcpError::AddrInUse),
            None => {
                self.pending.push(PortEntry { port, queue: Vec::new() });
                proof {
                    let n = old(self).pending@.len() as int;
                    assert(self.pending@[n].port == port);
                    assert forall|i: int, k: int|
                        0 <= i < self.pending@.len() && 0 <= k < self.pending@[i].queue@.len()
                        implies self.has_conn(#[trigger] self.pending@[i].queue@[k])
                        && self.pending@[i].queue@[k].dst_port == self.pending@[i].port by {
                        assert(i < n);
                        assert(old(self).has_conn(old(self).pending@[i].queue@[k]));
                        let w = old(self).conn_idx(old(self).pending@[i].queue@[k]);
                        assert(self.connections@[w].quad == self.pending@[i].queue@[k]);
                    }
                }
                Ok(())
            },
        }
    }

    /// Pop the oldest accepted connection waiting on `port`. A port
    /// without a listener reports `ConnectionAborted`; a listener with an
    /// empty queue reports `WouldBlock`; otherwise the front key leaves
    /// the queue and is returned — by the manager invariant it is
    /// registered and local to `port`.
    pub fn try_accept(&mut self, port: u16) -> (r: Result<Quad, TcpError>)
        requires
            old(self).wf(),
        ensures
            final(self).wf(),
            final(self).connections@ == old(self).connections@,
            !old(self).has_port(port) ==> r == Err::<Quad, TcpError>(TcpError::ConnectionAborted)
                && *final(self) == *old(self),
            old(self).has_port(port) && old(self).queue_of(port).len() == 0 ==> r == Err::<
                Quad,
                TcpError,
            >(TcpError::WouldBlock) && *final(self) == *old(self),
            old(self).has_port(port) && old(self).queue_of(port).len() > 0 ==> {
                &&& r == Ok::<Quad, TcpError>(old(self).queue_of(port)[0])
                &&& old(self).queue_of(port)[0].dst_port == port
                &&& final(self).has_conn(old(self).queue_of(port)[0])
                &&& final(self).has_port(port)
                &&& final(self).queue_of(port) == old(self).queue_of(port).skip(1)
                &&& final(self).pending@.len() == old(self).pending@.len()
                &&& forall|i: int|
                    0 <= i < old(self).pending@.len() && old(self).pending@[i].port != port
                        ==> final(self).pending@[i] == old(self).pending@[i]
            },
    {
        let pi = match self.find_port(port) {
            None => {
                return Err(TcpError::ConnectionAborted);
            },
            Some(i) => i,
        };
        proof {
            lemma_port_idx_is(*self, port, pi as int);
        }
        if vstd::std_specs::vec::vec_index(&self.pending, pi).queue.len() == 0 {
            return Err(TcpError::WouldBlock);
        }
        let entry = vstd::std_specs::vec::vec_index_mut(&mut self.pending, pi);
        let q = entry.queue.remove(0);
        proof {
            lemma_port_idx_is(*self, port, pi as int);
            assert(self.pending@ == old(self).pending@.update(pi as int, self.pending@[pi as int]));
            assert forall|i: int, k: int|
                0 <= i < self.pending@.len() && 0 <= k < self.pending@[i].queue@.len()
                implies self.has_conn(#[trigger] self.pending@[i].queue@[k])
                && self.pending@[i].queue@[k].dst_port == self.pending@[i].port by {
                if i == pi as int {
                    assert(self.pending@[i].queue@[k] == old(self).pending@[i].queue@[k + 1]);
                    assert(old(self).has_conn(old(self).pending@[i].queue@[k + 1]));
                } else {
                    assert(self.pending@[i] == old(self).pending@[i]);
                    assert(old(self).has_conn(old(self).pending@[i].queue@[k]));
                }
            }
            assert(old(self).has_conn(old(self).pending@[pi as int].queue@[0]));
        }
        Ok(q)
    }

    /// Read from the stream registered under `quad`: up to `max` bytes
    /// leave the front of its receive queue. An unregistered key reports
    /// `ConnectionAborted`. An empty queue reports `WouldBlock` while
    /// data may still arrive, and end of stream — zero bytes — once the
    /// peer has closed.
    pub fn read(&mut self, quad: Quad, max: usize) -> (r: Result<Vec<u8>, TcpError>)
        requires
            old(self).wf(),
        ensures
            final(self).wf(),
            final(self).pending@ == old(self).pending@,
            !old(self).has_conn(quad) ==> r is Err && r.unwrap_err()
                == TcpError::ConnectionAborted && *final(self) == *old(self),
            old(self).has_conn(quad) && old(self).conn_of(quad).incoming@.len() == 0
                && !remote_closed(old(self).conn_of(quad).state) ==> r is Err && r.unwrap_err()
                == TcpError::WouldBlock && *final(self) == *old(self),
            old(self).has_conn(quad) && (old(self).conn_of(quad).incoming@.len() > 0
                || remote_closed(old(self).conn_of(quad).state)) ==> ({
                let oc = old(self).conn_of(quad);
                let n = if max as int <= oc.incoming@.len() {
                    max as int
                } else {
                    oc.incoming@.len() as int
                };
                &&& r is Ok
                &&& r.unwrap()@ == oc.incoming@.subrange(0, n)
                &&& final(self).has_conn(quad)
                &&& final(self).conn_of(quad).incoming@ == oc.incoming@.subrange(
                    n,
                    oc.incoming@.len() as int,
                )
                &&& same_conn_ctrl(final(self).conn_of(quad), oc)
                &&& final(self).conn_of(quad).unacked@ == oc.unacked@
                &&& final(self).connections@.len() == old(self).connections@.len()
                &&& forall|j: int|
                    0 <= j < old(self).connections@.len() ==> final(self).connections@[j].quad
                        == old(self).connections@[j].quad
                &&& forall|j: int|
                    0 <= j < old(self).connections@.len() && old(self).connections@[j].quad
                        != quad ==> final(self).connections@[j] == old(self).connections@[j]
            }),
    {
        let ci = match self.find_conn(&quad) {
            None => {
                return Err(TcpError::ConnectionAborted);
            },
            Some(i) => i,
        };
        proof {
            lemma_conn_idx_is(*self, quad, ci as int);
        }
        let len = vstd::std_specs::vec::vec_index(&self.connections, ci).conn.incoming.len();
        if len == 0 {
            let closed = vstd::std_specs::vec::vec_index(&self.connections, ci)
                .conn
                .state
                .remote_is_closed();
            if !closed {
                return Err(TcpError::WouldBlock);
            }
        }
        let n: usize = if max <= len {
            max
        } else {
            len
        };
        let entry = vstd::std_specs::vec::vec_index_mut(&mut self.connections, ci);
        let taken = vstd::slice::slice_to_vec(
            vstd::slice::slice_subrange(entry.conn.incoming.as_slice(), 0, n),
        );
        let rest = entry.conn.incoming.split_off(n);
        entry.conn.incoming = rest;
        proof {
            lemma_conn_idx_is(*self, quad, ci as int);
            assert forall|i: int, k: int|
                0 <= i < self.pending@.len() && 0 <= k < self.pending@[i].queue@.len()
                implies self.has_conn(#[trigger] self.pending@[i].queue@[k])
                && self.pending@[i].queue@[k].dst_port == self.pending@[i].port by {
                assert(old(self).has_conn(old(self).pending@[i].queue@[k]));
                let w = old(self).conn_idx(old(self).pending@[i].queue@[k]);
                assert(self.connections@[w].quad == self.pending@[i].queue@[k]);
            }
        }
        Ok(taken)
    }

    /// Queue bytes for sending on the stream registered under `quad`:
    /// as much of `data` as fits under the `SENDQUEUE_SIZE` bound joins
    /// the back of `unacked`, and the count taken is returned. A full
    /// queue reports `WouldBlock`; an unregistered key,
    /// `ConnectionAborted`. Transmission of the queued bytes is left to
    /// the pump's write-selection, a hook this simple engine does not
    /// run.
    pub fn write(&mut self, quad: Quad, data: &[u8]) -> (r: Result<usize, TcpError>)
        requires
            old(self).wf(),
        ensures
            final(self).wf(),
            final(self).pending@ == old(self).pending@,
            !old(self).has_conn(quad) ==> r is Err && r.unwrap_err()
                == TcpError::ConnectionAborted && *final(self) == *old(self),
            old(self).has_conn(quad) && old(self).conn_of(quad).unacked@.len() >= SENDQUEUE_SIZE
                ==> r is Err && r.unwrap_err() == TcpError::WouldBlock && *final(self) == *old(
                self,
            ),
            old(self).has_conn(quad) && old(self).conn_of(quad).unacked@.len() < SENDQUEUE_SIZE
                ==> ({
                let oc = old(self).conn_of(quad);
                let room = SENDQUEUE_SIZE - oc.unacked@.len();
                let n = if data@.len() as int <= room {
                    data@.len() as int
                } else {
                    room
                };
                &&& r is Ok
                &&& r.unwrap() == n
                &&& final(self).has_conn(quad)
                &&& final(self).conn_of(quad).unacked@ == oc.unacked@ + data@.subrange(0, n)
                &&& same_conn_ctrl(final(self).conn_of(quad), oc)
                &&& final(self).conn_of(quad).incoming@ == oc.incoming@
                &&& final(self).connections@.len() == old(self).connections@.len()
                &&& forall|j: int|
                    0 <= j < old(self).connections@.len() ==> final(self).connections@[j].quad
                        == old(self).connections@[j].quad
                &&& forall|j: int|
                    0 <= j < old(self).connections@.len() && old(self).connections@[j].quad
                        != quad ==> final(self).connections@[j] == old(self).connections@[j]
            }),
    {
        let ci = match self.find_conn(&quad) {
            None => {
                return Err(TcpError::ConnectionAborted);
            },
            Some(i) => i,
        };
        proof {
            lemma_conn_idx_is(*self, quad, ci as int);
        }
        let queued = vstd::std_specs::vec::vec_index(&self.connections, ci).conn.unacked.len();
        if queued >= SENDQUEUE_SIZE {
            return Err(TcpError::WouldBlock);
        }
        let room = SENDQUEUE_SIZE - queued;
        let n: usize = if data.len() <= room {
            data.len()
        } else {
            room
        };
        let entry = vstd::std_specs::vec::vec_index_mut(&mut self.connections, ci);
        let mut part = vstd::slice::slice_to_vec(vstd::slice::slice_subrange(data, 0, n));
        entry.conn.unacked.append(&mut part);
        proof {
            lemma_conn_idx_is(*self, quad, ci as int);
            assert forall|i: int, k: int|
                0 <= i < self.pending@.len() && 0 <= k < self.pending@[i].queue@.len()
                implies self.has_conn(#[trigger] self.pending@[i].queue@[k])
                && self.pending@[i].queue@[k].dst_port == self.pending@[i].port by {
                assert(old(self).has_conn(old(self).pending@[i].queue@[k]));
                let w = old(self).conn_idx(old(self).pending@[i].queue@[k]);
                assert(self.connections@[w].quad == self.pending@[i].queue@[k]);
            }
        }
        Ok(n)
    }

    /// Report whether everything queued on the stream registered under
    /// `quad` has drained: `Ok` on an empty `unacked`, `WouldBlock`
    /// otherwise, `ConnectionAborted` for an unregistered key.
    pub fn flush(&self, quad: Quad) -> (r: Result<(), TcpError>)
        requires
            self.wf(),
        ensures
            !self.has_conn(quad) ==> r is Err && r.unwrap_err() == TcpError::ConnectionAborted,
            self.has_conn(quad) && self.conn_of(quad).unacked@.len() == 0 ==> r is Ok,
            self.has_conn(quad) && self.conn_of(quad).unacked@.len() > 0 ==> r is Err
                && r.unwrap_err() == TcpError::WouldBlock,
    {
        let ci = match self.find_conn(&quad) {
            None => {
                return Err(TcpError::ConnectionAborted);
            },
            Some(i) => i,
        };
        proof {
            lemma_conn_idx_is(*self, quad, ci as int);
        }
        if vstd::std_specs::vec::vec_index(&self.connections, ci).conn.unacked.len() == 0 {
            Ok(())
        } else {
            Err(TcpError::WouldBlock)
        }
    }
}

/// The complete observable effect of `ConnectionManager::on_segment_arrival`
/// on a manager `o`, yielding the manager `f` and the segments `segs` to
/// transmit. A segment for a registered key runs through that
/// connection's handler (`on_packet_post`) and touches nothing else. A
/// SYN for an unregistered key whose local port has a listener creates a
/// fresh connection, queues its key on the port, and answers with the
/// SYN-ACK. Anything else is dropped without effect — in particular a
/// non-SYN segment to an unknown key elicits nothing.
pub open spec fn arrival_post(
    o: ConnectionManager,
    iph: Ipv4HeaderInfo,
    tcph: TcpHeaderInfo,
    data: Seq<u8>,
    f: ConnectionManager,
    segs: Seq<SegmentMeta>,
) -> bool {
    let q = quad_of(iph, tcph);
    &&& forall|i: int| 0 <= i < segs.len() ==> segs[i].payload@.len() == 0
    &&& (o.has_conn(q) ==> {
        &&& f.pending@ == o.pending@
        &&& f.connections@.len() == o.connections@.len()
        &&& forall|j: int|
            0 <= j < o.connections@.len() ==> f.connections@[j].quad == o.connections@[j].quad
        &&& forall|j: int|
            0 <= j < o.connections@.len() && o.connections@[j].quad != q ==> f.connections@[j]
                == o.connections@[j]
        &&& on_packet_post(o.conn_of(q), tcph, data, f.conn_of(q), segs)
    })
    &&& (!o.has_conn(q) && tcph.syn && o.has_port(tcph.dst_port) ==> {
        &&& f.connections@.len() == o.connections@.len() + 1
        &&& forall|j: int|
            0 <= j < o.connections@.len() ==> f.connections@[j] == o.connections@[j]
        &&& f.connections@[o.connections@.len() as int].quad == q
        &&& fresh_connection(f.connections@[o.connections@.len() as int].conn, iph, tcph)
        &&& segs.len() == 1
        &&& syn_ack_reply(segs[0], iph, tcph)
        &&& f.pending@.len() == o.pending@.len()
        &&& forall|i: int|
            0 <= i < o.pending@.len() && o.pending@[i].port != tcph.dst_port ==> f.pending@[i]
                == o.pending@[i]
        &&& f.has_port(tcph.dst_port)
        &&& f.queue_of(tcph.dst_port) == o.queue_of(tcph.dst_port).push(q)
    })
    &&& (!o.has_conn(q) && !(tcph.syn && o.has_port(tcph.dst_port)) ==> f == o && segs.len()
        == 0)
}

impl ConnectionManager {
    /// The pump's dispatch for one parsed inbound segment. A registered
    /// key gets its connection's segment handler; an unregistered key
    /// gets the passive-open path when it carries SYN and its local port
    /// has a listener — the new connection is registered and queued for
    /// pickup — and is dropped otherwise. Returns the segments to
    /// transmit.
    pub fn on_segment_arrival(
        &mut self,
        iph: &Ipv4HeaderInfo,
        tcph: &TcpHeaderInfo,
        data: &[u8],
    ) -> (out: Vec<SegmentMeta>)
        requires
            old(self).wf(),
            data@.len() + 2 <= u32::MAX,
        ensures
            final(self).wf(),
            arrival_post(*old(self), *iph, *tcph, data@, *final(self), out@),
    {
        let quad = Quad {
            src_ip: iph.src,
            src_port: tcph.src_port,
            dst_ip: iph.dst,
            dst_port: tcph.dst_port,
        };
        match self.find_conn(&quad) {
            Some(ci) => {
                proof {
                    lemma_conn_idx_is(*self, quad, ci as int);
                }
                let entry = vstd::std_specs::vec::vec_index_mut(&mut self.connections, ci);
                let segs = entry.conn.on_packet(iph, tcph, data);
                proof {
                    lemma_conn_idx_is(*self, quad, ci as int);
                    assert forall|i: int, k: int|
                        0 <= i < self.pending@.len() && 0 <= k < self.pending@[i].queue@.len()
                        implies self.has_conn(#[trigger] self.pending@[i].queue@[k])
                        && self.pending@[i].queue@[k].dst_port == self.pending@[i].port by {
                        assert(old(self).has_conn(old(self).pending@[i].queue@[k]));
                        let w = old(self).conn_idx(old(self).pending@[i].queue@[k]);
                        assert(self.connections@[w].quad == self.pending@[i].queue@[k]);
                    }
                }
                segs
            },
            None => {
                let pi = match self.find_port(tcph.dst_port) {
                    None => {
                        return Vec::new();
                    },
                    Some(i) => i,
                };
                proof {
                    lemma_port_idx_is(*self, tcph.dst_port, pi as int);
                }
                match Connection::accept(iph, tcph) {
                    None => Vec::new(),
                    Some((c, seg)) => {
                        let ghost oldlen = self.connections@.len() as int;
                        self.connections.push(ConnEntry { quad, conn: c });
                        let entry = vstd::std_specs::vec::vec_index_mut(&mut self.pending, pi);
                        entry.queue.push(quad);
                        proof {
                            assert forall|a: int, b: int|
                                0 <= a < b < self.connections@.len()
                                implies self.connections@[a].quad != self.connections@[b].quad by {
                                if b == oldlen {
                                    assert(old(self).connections@[a].quad != quad);
                                } else {
                                    assert(old(self).connections@[a].quad != old(
                                        self,
                                    ).connections@[b].quad);
                                }
                            }
                            lemma_conn_idx_is(*self, quad, oldlen);
                            lemma_port_idx_is(*self, tcph.dst_port, pi as int);
                            assert forall|i: int, k: int|
                                0 <= i < self.pending@.len() && 0 <= k
                                    < self.pending@[i].queue@.len()
                                implies self.has_conn(#[trigger] self.pending@[i].queue@[k])
                                && self.pending@[i].queue@[k].dst_port
                                == self.pending@[i].port by {
                                if i == pi as int && k == self.pending@[i].queue@.len() - 1 {
                                    assert(self.pending@[i].queue@[k] == quad);
                                    assert(self.connections@[oldlen].quad == quad);
                                } else {
                                    assert(old(self).has_conn(old(self).pending@[i].queue@[k]));
                                    let w = old(self).conn_idx(old(self).pending@[i].queue@[k]);
                                    assert(self.connections@[w].quad == self.pending@[i].queue@[k]);
                                }
                            }
                        }
                        let mut out: Vec<SegmentMeta> = Vec::new();
                        out.push(seg);
                        out
                    },
                }
            },
        }
    }
}

/// A raw datagram the pump dispatches: an IPv4 header `etherparse`
/// accepts, protocol TCP, and after the IPv4 header a TCP header it
/// accepts too. Anything else is dropped.
pub open spec fn datagram_dispatchable(b: Seq<u8>) -> bool {
    &&& ipv4_header_ok(b)
    &&& ipv4_header_fields(b).protocol == 6
    &&& tcp_header_ok(b.subrange(ipv4_header_fields(b).header_len as int, b.len() as int))
}

/// The TCP header fields of a dispatchable datagram.
pub open spec fn datagram_tcph(b: Seq<u8>) -> TcpHeaderInfo {
    tcp_header_fields(b.subrange(ipv4_header_fields(b).header_len as int, b.len() as int))
}

/// The TCP payload of a dispatchable datagram: what follows both headers.
pub open spec fn datagram_payload(b: Seq<u8>) -> Seq<u8> {
    let rest = b.subrange(ipv4_header_fields(b).header_len as int, b.len() as int);
    rest.subrange(tcp_header_fields(rest).header_len as int, rest.len() as int)
}

impl ConnectionManager {
    /// One pump iteration after the tun read: parse IPv4, require
    /// protocol TCP, parse the TCP header, dispatch the segment, and
    /// serialise every answer into a full IPv4+TCP datagram ready for the
    /// device. A datagram that does not parse as IPv4+TCP is dropped
    /// without effect.
    pub fn handle_datagram(&mut self, buf: &[u8]) -> (out: Vec<Vec<u8>>)
        requires
            old(self).wf(),
            buf@.len() + 2 <= u32::MAX,
        ensures
            final(self).wf(),
            !datagram_dispatchable(buf@) ==> *final(self) == *old(self) && out@.len() == 0,
            datagram_dispatchable(buf@) ==> (exists|segs: Seq<SegmentMeta>|
                {
                    &&& #[trigger] arrival_post(
                        *old(self),
                        ipv4_header_fields(buf@),
                        datagram_tcph(buf@),
                        datagram_payload(buf@),
                        *final(self),
                        segs,
                    )
                    &&& out@.len() == segs.len()
                    &&& forall|i: int| 0 <= i < segs.len() ==> segment_wire_bytes(segs[i], out@[i]@)
                }),
    {
        let iph = match crate::wire::parse_ipv4_header(buf) {
            None => {
                return Vec::new();
            },
            Some(h) => h,
        };
        if iph.protocol != 6 {
            return Vec::new();
        }
        let rest = vstd::slice::slice_subrange(buf, iph.header_len, buf.len());
        let tcph = match crate::wire::parse_tcp_header(rest) {
            None => {
                return Vec::new();
            },
            Some(h) => h,
        };
        let payload = vstd::slice::slice_subrange(rest, tcph.header_len, rest.len());
        let segs = self.on_segment_arrival(&iph, &tcph, payload);
        let mut out: Vec<Vec<u8>> = Vec::new();
        let mut i: usize = 0;
        while i < segs.len()
            invariant
                0 <= i <= segs@.len(),
                out@.len() == i,
                forall|j: int| 0 <= j < i ==> segment_wire_bytes(segs@[j], out@[j]@),
                forall|j: int| 0 <= j < segs@.len() ==> segs@[j].payload@.len() == 0,
            decreases segs@.len() - i,
        {
            let bytes = crate::wire::encode_segment(vstd::std_specs::vec::vec_index(&segs, i));
            out.push(bytes);
            i = i + 1;
        }
        proof {
            assert(arrival_post(
                *old(self),
                ipv4_header_fields(buf@),
                datagram_tcph(buf@),
                datagram_payload(buf@),
                *self,
                segs@,
            ));
        }
        out
    }
}

/// Bind exclusivity: once a `bind` of port `p` has succeeded — leaving
/// the manager in a state `m1` extending `m0` with a fresh queue for `p`,
/// as `bind`'s contract states — the port is held, so a second `bind` of
/// `p` must fail. With every operation serialised by the manager lock,
/// two concurrent binds of one port resolve to one success and one
/// `AddrInUse`.
pub proof fn lemma_bind_exclusive(m0: ConnectionManager, m1: ConnectionManager, p: u16)
    requires
        !m0.has_port(p),
        m1.pending@.len() == m0.pending@.len() + 1,
        m1.pending@[m0.pending@.len() as int].port == p,
    ensures
        m1.has_port(p),
{
    assert(m1.pending@[m0.pending@.len() as int].port == p);
}

} // verus!
