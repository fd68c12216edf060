//! The header-codec boundary and the frame-level entry point.
//!
//! Decoding and encoding of IPv4 and TCP headers is done by the
//! `etherparse` crate behind trusted wrappers. The wire format itself
//! is stated here as spec functions over the frame bytes, so the
//! contract of `handle_frame` speaks of the raw bytes the caller read
//! from the network interface.

use vstd::prelude::*;

use crate::conn::{Quad, SegmentHeader};
use crate::dispatch::{dispatch_step, handle_segment};
use crate::table::ConnectionTable;

verus! {

/// Time-to-live written into reply frames.
pub const REPLY_TTL: u8 = 64;

/// The EtherType of IPv4 in a TUN frame's protocol field.
pub const ETHERTYPE_IPV4: u16 = 0x0800;

/// The IP protocol number of TCP.
pub const IP_PROTO_TCP: u8 = 6;

/// A 16-bit big-endian value read from two bytes.
pub open spec fn be16(b0: u8, b1: u8) -> u16 {
    ((b0 as u16) * 0x100 + b1 as u16) as u16
}

/// A 32-bit big-endian value read from four bytes.
pub open spec fn be32(b0: u8, b1: u8, b2: u8, b3: u8) -> u32 {
    ((b0 as u32) * 0x100_0000 + (b1 as u32) * 0x1_0000 + (b2 as u32) * 0x100 + b3 as u32) as u32
}

/// The fields read from a decoded IPv4 header: addresses packed
/// big-endian into integers, the protocol number, and how many bytes
/// the header (with options) occupies.
#[derive(Clone, Copy, PartialEq, Eq, Structural, Debug)]
pub struct Ipv4Fields {
    pub src: u32,
    pub dst: u32,
    pub protocol: u8,
    pub header_len: usize,
}

/// The fields read from a decoded TCP header, and how many bytes the
/// header (with options) occupies.
#[derive(Clone, Copy, PartialEq, Eq, Structural, Debug)]
pub struct TcpFields {
    pub seg: SegmentHeader,
    pub header_len: usize,
}

/// What decoding an IPv4 header from a byte slice yields: the header is
/// well formed when the slice holds at least 20 bytes, the version
/// nibble is 4, the header-length field is at least 5 words, and the
/// slice covers the whole header. The source and destination addresses
/// sit at offsets 12 and 16, the protocol number at offset 9.
pub open spec fn spec_parse_ipv4(b: Seq<u8>) -> Option<Ipv4Fields> {
    if b.len() >= 20 && b[0] / 16 == 4 && (b[0] % 16) >= 5 && b.len() >= 4 * (b[0] % 16) {
        Some(Ipv4Fields {
            src: be32(b[12], b[13], b[14], b[15]),
            dst: be32(b[16], b[17], b[18], b[19]),
            protocol: b[9],
            header_len: (4 * (b[0] % 16)) as usize,
        })
    } else {
        None
    }
}

/// What decoding a TCP header from a byte slice yields: the header is
/// well formed when the slice holds at least 20 bytes, the data-offset
/// nibble is at least 5 words, and the slice covers the whole header.
/// Ports sit at offsets 0 and 2, sequence and acknowledgment numbers at
/// 4 and 8, the flag bits in byte 13 (FIN 0x01, SYN 0x02, RST 0x04,
/// ACK 0x10), and the window at offset 14.
pub open spec fn spec_parse_tcp(b: Seq<u8>) -> Option<TcpFields> {
    if b.len() >= 20 && b[12] / 16 >= 5 && b.len() >= 4 * (b[12] / 16) {
        Some(TcpFields {
            seg: SegmentHeader {
                src_port: be16(b[0], b[1]),
                dst_port: be16(b[2], b[3]),
                seqn: be32(b[4], b[5], b[6], b[7]),
                ackn: be32(b[8], b[9], b[10], b[11]),
                wnd: be16(b[14], b[15]),
                syn: (b[13] / 2) % 2 == 1,
                ack: (b[13] / 16) % 2 == 1,
                fin: b[13] % 2 == 1,
                rst: (b[13] / 4) % 2 == 1,
            },
            header_len: (4 * (b[12] / 16)) as usize,
        })
    } else {
        None
    }
}

/// Relies on `etherparse::Ipv4HeaderSlice::from_slice` and its field
/// accessors: decoding succeeds exactly under the conditions of
/// `spec_parse_ipv4`, and the accessors read the documented fixed
/// offsets of the IPv4 wire format.
#[verifier::external_body]
fn parse_ipv4(b: &[u8]) -> (r: Option<Ipv4Fields>)
    ensures
        r == spec_parse_ipv4(b@),
{
    match etherparse::Ipv4HeaderSlice::from_slice(b) {
        Ok(h) => Some(Ipv4Fields {
            src: u32::from_be_bytes(h.source()), dst: u32::from_be_bytes(h.destination()),
            protocol: h.protocol().0, header_len: h.slice().len(),
        }),
        Err(_) => None,
    }
}

/// Relies on `etherparse::TcpHeaderSlice::from_slice` and its field
/// accessors: decoding succeeds exactly under the conditions of
/// `spec_parse_tcp`, and the accessors read the documented fixed
/// offsets of the TCP wire format.
#[verifier::external_body]
fn parse_tcp(b: &[u8]) -> (r: Option<TcpFields>)
    ensures
        r == spec_parse_tcp(b@),
{
    match etherparse::TcpHeaderSlice::from_slice(b) {
        Ok(h) => Some(TcpFields {
            seg: SegmentHeader {
                src_port: h.source_port(), dst_port: h.destination_port(),
                seqn: h.sequence_number(), ackn: h.acknowledgment_number(),
                wnd: h.window_size(), syn: h.syn(), ack: h.ack(), fin: h.fin(), rst: h.rst(),
            },
            header_len: h.slice().len(),
        }),
        Err(_) => None,
    }
}

/// The bytes of an IPv4 packet carrying one payload-free TCP segment
/// with the given header fields, addresses and time-to-live, checksums
/// included: a function of its arguments alone.
pub uninterp spec fn encoded_frame(src_ip: u32, dst_ip: u32, seg: SegmentHeader, ttl: u8) -> Seq<u8>;

/// Relies on `etherparse::Ipv4Header` and `etherparse::TcpHeader`
/// (their constructors, checksum computation and writers): the encoded
/// packet is a deterministic function of the fields, and both headers
/// are written without options, 20 bytes each.
#[verifier::external_body]
fn encode_reply(src_ip: u32, dst_ip: u32, seg: &SegmentHeader, ttl: u8) -> (r: Vec<u8>)
    ensures
        r@ == encoded_frame(src_ip, dst_ip, *seg, ttl),
        r@.len() == 40,
{
    let mut tcp = etherparse::TcpHeader::new(seg.src_port, seg.dst_port, seg.seqn, seg.wnd);
    tcp.acknowledgment_number = seg.ackn;
    tcp.syn = seg.syn;
    tcp.ack = seg.ack;
    tcp.fin = seg.fin;
    tcp.rst = seg.rst;
    let ip = etherparse::Ipv4Header::new(tcp.header_len_u16(), ttl, etherparse::IpNumber::TCP,
        src_ip.to_be_bytes(), dst_ip.to_be_bytes()).unwrap();
    tcp.checksum = tcp.calc_checksum_ipv4(&ip, &[]).unwrap();
    let mut out = Vec::new();
    ip.write(&mut out).unwrap();
    tcp.write(&mut out).unwrap();
    out
}

/// What one raw TUN frame carries for the TCP layer: the four-tuple as
/// seen inbound, the decoded TCP header, and the payload bytes. `None`
/// when the frame is not IPv4 carrying TCP or a header fails to decode;
/// such a frame is dropped without any effect.
pub open spec fn frame_tcp_input(frame: Seq<u8>) -> Option<(Quad, SegmentHeader, Seq<u8>)> {
    if frame.len() < 4 || be16(frame[2], frame[3]) != ETHERTYPE_IPV4 {
        None
    } else {
        match spec_parse_ipv4(frame.subrange(4, frame.len() as int)) {
            None => None,
            Some(ip) => {
                if ip.protocol != IP_PROTO_TCP {
                    None
                } else {
                    match spec_parse_tcp(frame.subrange(4 + ip.header_len as int, frame.len() as int)) {
                        None => None,
                        Some(t) => {
                            let quad = Quad {
                                src_ip: ip.src,
                                src_port: t.seg.src_port,
                                dst_ip: ip.dst,
                                dst_port: t.seg.dst_port,
                            };
                            let payload = frame.subrange(
                                4 + ip.header_len + t.header_len,
                                frame.len() as int,
                            );
                            Some((quad, t.seg, payload))
                        }
                    }
                }
            }
        }
    }
}

/// The dispatch-loop body, minus the I/O: take one raw frame as read
/// from the TUN interface (4-byte prefix included), filter and decode
/// it, feed the segment to the table, and return the encoded reply
/// packet to write back, if any. The reply swaps the addresses of the
/// inbound packet.
pub fn handle_frame(table: &mut ConnectionTable, frame: &[u8], iss: u32, local_wnd: u16) -> (r: Option<Vec<u8>>)
    requires
        old(table).well_formed(),
        frame@.len() <= 0xFFFF,
    ensures
        final(table).well_formed(),
        match frame_tcp_input(frame@) {
            None => final(table).contents() == old(table).contents() && r is None,
            Some(inp) => ({
                let (m1, rep) = dispatch_step(old(table).contents(), inp.0, inp.1, inp.2, iss, local_wnd);
                &&& final(table).contents() == m1
                &&& match (r, rep) {
                    (Some(v), Some(h)) => v@ == encoded_frame(inp.0.dst_ip, inp.0.src_ip, h, REPLY_TTL),
                    (None, None) => true,
                    _ => false,
                }
            }),
        },
{
    if frame.len() < 4 {
        return None;
    }
    let eth_proto: u16 = (frame[2] as u16) * 0x100 + frame[3] as u16;
    if eth_proto != ETHERTYPE_IPV4 {
        return None;
    }
    let ip_bytes = vstd::slice::slice_subrange(frame, 4, frame.len());
    let ip = match parse_ipv4(ip_bytes) {
        None => {
            return None;
        }
        Some(ip) => ip,
    };
    if ip.protocol != IP_PROTO_TCP {
        return None;
    }
    let tcp_off = 4 + ip.header_len;
    let tcp_bytes = vstd::slice::slice_subrange(frame, tcp_off, frame.len());
    let t = match parse_tcp(tcp_bytes) {
        None => {
            return None;
        }
        Some(t) => t,
    };
    let data_off = tcp_off + t.header_len;
    let payload = vstd::slice::slice_subrange(frame, data_off, frame.len());
    let quad = Quad {
        src_ip: ip.src,
        src_port: t.seg.src_port,
        dst_ip: ip.dst,
        dst_port: t.seg.dst_port,
    };
    match handle_segment(table, quad, &t.seg, payload, iss, local_wnd) {
        Some(h) => Some(encode_reply(ip.dst, ip.src, &h, REPLY_TTL)),
        None => None,
    }
}

} // verus!
