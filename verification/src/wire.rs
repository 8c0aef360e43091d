//! On-wire IPv4/TCP header values, and the codec boundary.
//!
//! The connection engine works on `Ipv4HeaderInfo` and `TcpHeaderInfo`,
//! plain-value records of the header fields it reads, and emits
//! `SegmentMeta` records describing outbound segments. Decoding a byte
//! slice into those records and serialising a `SegmentMeta` into an
//! IPv4+TCP datagram (checksums included) is done by the `etherparse`
//! crate behind the trusted wrappers at the bottom of this file; their
//! contracts pin the byte layout exactly, except for the two checksum
//! fields, which only `etherparse` computes.

use vstd::prelude::*;

verus! {

/// The fields of an IPv4 header that the engine reads.
#[derive(Clone, Copy, Debug, PartialEq, Eq, Structural)]
pub struct Ipv4HeaderInfo {
    /// Source address, as the big-endian interpretation of its four octets.
    pub src: u32,
    /// Destination address, big-endian.
    pub dst: u32,
    /// The protocol field; TCP is 6.
    pub protocol: u8,
    /// Header length in bytes (IHL times four), between 20 and 60.
    pub header_len: usize,
}

/// The fields of a TCP header that the engine reads.
#[derive(Clone, Copy, Debug, PartialEq, Eq, Structural)]
pub struct TcpHeaderInfo {
    pub src_port: u16,
    pub dst_port: u16,
    /// Sequence number of the first octet (or the ISN when SYN is set).
    pub seq: u32,
    /// Acknowledgment number; meaningful only when `ack_flag` is set.
    pub ack: u32,
    pub fin: bool,
    pub syn: bool,
    pub rst: bool,
    /// The ACK control bit.
    pub ack_flag: bool,
    pub window: u16,
    /// Header length in bytes (data offset times four), between 20 and 60.
    pub header_len: usize,
}

/// One outbound segment, fully determining the datagram to transmit
/// (the codec adds only the two checksums).
#[derive(Debug)]
pub struct SegmentMeta {
    pub src_ip: u32,
    pub dst_ip: u32,
    pub src_port: u16,
    pub dst_port: u16,
    pub seq: u32,
    pub ack: u32,
    pub syn: bool,
    pub ack_flag: bool,
    pub fin: bool,
    pub rst: bool,
    pub window: u16,
    pub payload: Vec<u8>,
}

/// Big-endian 16-bit value at offset `i`.
pub open spec fn be16(b: Seq<u8>, i: int) -> int {
    b[i] * 0x100 + b[i + 1]
}

/// Big-endian 32-bit value at offset `i`.
pub open spec fn be32(b: Seq<u8>, i: int) -> int {
    b[i] * 0x100_0000 + b[i + 1] * 0x1_0000 + b[i + 2] * 0x100 + b[i + 3]
}

/// Exactly the checks under which `etherparse` accepts an IPv4 header at
/// the start of `b`: version 4, IHL at least 5, the slice long enough to
/// hold the whole header, and a total-length field no smaller than the
/// header itself.
pub open spec fn ipv4_header_ok(b: Seq<u8>) -> bool {
    &&& b.len() >= 20
    &&& b[0] / 16 == 4
    &&& b[0] % 16 >= 5
    &&& b.len() >= (b[0] % 16) * 4
    &&& be16(b, 2) >= (b[0] % 16) * 4
}

/// The field values an accepted IPv4 header at the start of `b` carries.
pub open spec fn ipv4_header_fields(b: Seq<u8>) -> Ipv4HeaderInfo {
    Ipv4HeaderInfo {
        src: be32(b, 12) as u32,
        dst: be32(b, 16) as u32,
        protocol: b[9],
        header_len: ((b[0] % 16) * 4) as usize,
    }
}

/// Exactly the checks under which `etherparse` accepts a TCP header at the
/// start of `b`: data offset at least 5 and the slice long enough for it.
pub open spec fn tcp_header_ok(b: Seq<u8>) -> bool {
    &&& b.len() >= 20
    &&& b[12] / 16 >= 5
    &&& b.len() >= (b[12] / 16) * 4
}

/// The field values an accepted TCP header at the start of `b` carries.
pub open spec fn tcp_header_fields(b: Seq<u8>) -> TcpHeaderInfo {
    TcpHeaderInfo {
        src_port: be16(b, 0) as u16,
        dst_port: be16(b, 2) as u16,
        seq: be32(b, 4) as u32,
        ack: be32(b, 8) as u32,
        fin: b[13] % 2 == 1,
        syn: (b[13] / 2) % 2 == 1,
        rst: (b[13] / 4) % 2 == 1,
        ack_flag: (b[13] / 16) % 2 == 1,
        window: be16(b, 14) as u16,
        header_len: ((b[12] / 16) * 4) as usize,
    }
}

/// The TCP flags octet for the four flags this engine ever sets
/// (FIN, SYN, RST, ACK; PSH/URG/ECE/CWR stay clear).
pub open spec fn flags_octet(fin: bool, syn: bool, rst: bool, ack_flag: bool) -> u8 {
    ((if fin { 1int } else { 0int }) + (if syn { 2int } else { 0int })
        + (if rst { 4int } else { 0int }) + (if ack_flag { 16int } else { 0int })) as u8
}

/// The wire layout of an emitted datagram: a 20-byte IPv4 header with
/// version 4, IHL 5, TOS 0, identification 0, flags and fragment offset 0,
/// TTL 64, protocol TCP, then a 20-byte TCP header with data offset 5 and
/// urgent pointer 0, then the payload. The IPv4 checksum (bytes 10..12)
/// and TCP checksum (bytes 36..38) are left unconstrained; the codec
/// computes them.
pub open spec fn segment_wire_bytes(seg: SegmentMeta, r: Seq<u8>) -> bool {
    &&& r.len() == 40 + seg.payload@.len()
    &&& r[0] == 0x45u8
    &&& r[1] == 0u8
    &&& be16(r, 2) == 40 + seg.payload@.len()
    &&& r[4] == 0u8 && r[5] == 0u8 && r[6] == 0u8 && r[7] == 0u8
    &&& r[8] == 64u8
    &&& r[9] == 6u8
    &&& be32(r, 12) == seg.src_ip
    &&& be32(r, 16) == seg.dst_ip
    &&& be16(r, 20) == seg.src_port
    &&& be16(r, 22) == seg.dst_port
    &&& be32(r, 24) == seg.seq
    &&& be32(r, 28) == seg.ack
    &&& r[32] == 0x50u8
    &&& r[33] == flags_octet(seg.fin, seg.syn, seg.rst, seg.ack_flag)
    &&& be16(r, 34) == seg.window
    &&& be16(r, 38) == 0
    &&& r.skip(40) == seg.payload@
}

/// Relies on `etherparse::Ipv4HeaderSlice::from_slice`: it succeeds exactly
/// when the version, IHL, slice-length and total-length checks pass, and its
/// accessors (`source`, `destination`, `protocol`, `slice`) read the fields
/// at the documented byte offsets.
#[verifier::external_body]
pub(crate) fn parse_ipv4_header(buf: &[u8]) -> (r: Option<Ipv4HeaderInfo>)
    ensures
        r is Some <==> ipv4_header_ok(buf@),
        r is Some ==> r.unwrap() == ipv4_header_fields(buf@),
{
    match etherparse::Ipv4HeaderSlice::from_slice(buf) {
        Ok(h) => Some(Ipv4HeaderInfo {
            src: u32::from_be_bytes(h.source()),
            dst: u32::from_be_bytes(h.destination()),
            protocol: h.protocol(),
            header_len: h.slice().len(),
        }),
        Err(_) => None,
    }
}

/// Relies on `etherparse::TcpHeaderSlice::from_slice`: it succeeds exactly
/// when the data-offset and slice-length checks pass, and its accessors read
/// the ports, sequence numbers, flag bits and window at the documented byte
/// offsets.
#[verifier::external_body]
pub(crate) fn parse_tcp_header(buf: &[u8]) -> (r: Option<TcpHeaderInfo>)
    ensures
        r is Some <==> tcp_header_ok(buf@),
        r is Some ==> r.unwrap() == tcp_header_fields(buf@),
{
    match etherparse::TcpHeaderSlice::from_slice(buf) {
        Ok(h) => Some(TcpHeaderInfo {
            src_port: h.source_port(), dst_port: h.destination_port(),
            seq: h.sequence_number(), ack: h.acknowledgment_number(),
            fin: h.fin(), syn: h.syn(), rst: h.rst(), ack_flag: h.ack(),
            window: h.window_size(), header_len: h.slice().len(),
        }),
        Err(_) => None,
    }
}

/// Relies on `etherparse::Ipv4Header::new`/`write` and
/// `etherparse::TcpHeader::new`/`calc_checksum_ipv4`/`write`: with IHL 5 and
/// data offset 5 they serialise the two 20-byte headers field by field at
/// the documented offsets and compute the two checksums.
#[verifier::external_body]
pub(crate) fn encode_segment(seg: &SegmentMeta) -> (r: Vec<u8>)
    requires
        seg.payload@.len() <= 1460,
    ensures
        segment_wire_bytes(*seg, r@),
{
    let mut ip = etherparse::Ipv4Header::new(
        20 + seg.payload.len() as u16, 64, etherparse::IpNumber::Tcp,
        seg.src_ip.to_be_bytes(), seg.dst_ip.to_be_bytes());
    ip.dont_fragment = false;
    let mut tcp = etherparse::TcpHeader::new(seg.src_port, seg.dst_port, seg.seq, seg.window);
    tcp.acknowledgment_number = seg.ack;
    tcp.fin = seg.fin; tcp.syn = seg.syn; tcp.rst = seg.rst; tcp.ack = seg.ack_flag;
    tcp.checksum = tcp.calc_checksum_ipv4(&ip, &seg.payload).expect("tcp length fits in u16");
    let mut out = Vec::with_capacity(40 + seg.payload.len());
    ip.write(&mut out).expect("field ranges hold");
    tcp.write(&mut out).expect("writing to a Vec cannot fail");
    out.extend_from_slice(&seg.payload);
    out
}

} // verus!
