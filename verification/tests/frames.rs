use tcp_engine::conn::State;
use tcp_engine::codec::handle_frame;
use tcp_engine::table::ConnectionTable;

const ISS: u32 = 31000;
const LOCAL_WND: u16 = 10;

const SRC_IP: [u8; 4] = [10, 0, 0, 2];
const DST_IP: [u8; 4] = [10, 0, 0, 1];

/// A raw TUN frame: 4-byte prefix, a 20-byte IPv4 header and a 20-byte
/// TCP header built by hand, followed by the payload.
fn frame(seqn: u32, ackn: u32, flags: u8, payload: &[u8]) -> Vec<u8> {
    let mut f = vec![0u8, 0, 0x08, 0x00];
    let total_len = (40 + payload.len()) as u16;
    // IPv4: version 4, ihl 5, ttl 64, protocol TCP
    f.extend_from_slice(&[0x45, 0]);
    f.extend_from_slice(&total_len.to_be_bytes());
    f.extend_from_slice(&[0, 0, 0, 0, 64, 6, 0, 0]);
    f.extend_from_slice(&SRC_IP);
    f.extend_from_slice(&DST_IP);
    // TCP: ports 40000 -> 80, data offset 5, window 1000
    f.extend_from_slice(&40000u16.to_be_bytes());
    f.extend_from_slice(&80u16.to_be_bytes());
    f.extend_from_slice(&seqn.to_be_bytes());
    f.extend_from_slice(&ackn.to_be_bytes());
    f.push(0x50);
    f.push(flags);
    f.extend_from_slice(&1000u16.to_be_bytes());
    f.extend_from_slice(&[0, 0, 0, 0]);
    f.extend_from_slice(payload);
    f
}

const FL_FIN: u8 = 0x01;
const FL_SYN: u8 = 0x02;
const FL_ACK: u8 = 0x10;

#[test]
fn syn_frame_is_answered_with_a_valid_syn_ack_packet() {
    let mut table = ConnectionTable::new();
    let reply = handle_frame(&mut table, &frame(100, 0, FL_SYN, &[]), ISS, LOCAL_WND)
        .expect("a SYN frame is answered");
    assert_eq!(reply.len(), 40);

    // decode the produced packet independently
    let ip = etherparse::Ipv4HeaderSlice::from_slice(&reply).expect("valid IPv4 header");
    assert_eq!(ip.source(), DST_IP);
    assert_eq!(ip.destination(), SRC_IP);
    assert_eq!(ip.protocol(), etherparse::IpNumber::TCP);
    assert_eq!(ip.ttl(), 64);
    // the writer computes the IPv4 header checksum
    assert_eq!(ip.header_checksum(), ip.to_header().calc_header_checksum());

    let tcp = etherparse::TcpHeaderSlice::from_slice(&reply[20..]).expect("valid TCP header");
    assert!(tcp.syn() && tcp.ack());
    assert!(!tcp.fin() && !tcp.rst());
    assert_eq!(tcp.source_port(), 80);
    assert_eq!(tcp.destination_port(), 40000);
    assert_eq!(tcp.sequence_number(), ISS);
    assert_eq!(tcp.acknowledgment_number(), 101);
    assert_eq!(tcp.window_size(), LOCAL_WND);
    // the writer computes the TCP checksum over the pseudo header
    let expected = tcp
        .to_header()
        .calc_checksum_ipv4_raw(DST_IP, SRC_IP, &[])
        .unwrap();
    assert_eq!(tcp.checksum(), expected);
}

#[test]
fn handshake_and_data_through_raw_frames() {
    let mut table = ConnectionTable::new();
    handle_frame(&mut table, &frame(100, 0, FL_SYN, &[]), ISS, LOCAL_WND);
    let reply = handle_frame(&mut table, &frame(101, ISS + 1, FL_ACK, &[]), ISS, LOCAL_WND);
    assert!(reply.is_none());

    let reply = handle_frame(&mut table, &frame(101, ISS + 1, FL_ACK, b"hi"), ISS, LOCAL_WND)
        .expect("data is acknowledged");
    let tcp = etherparse::TcpHeaderSlice::from_slice(&reply[20..]).unwrap();
    assert_eq!(tcp.acknowledgment_number(), 103);

    let quad = tcp_engine::conn::Quad {
        src_ip: u32::from_be_bytes(SRC_IP),
        src_port: 40000,
        dst_ip: u32::from_be_bytes(DST_IP),
        dst_port: 80,
    };
    let c = table.lookup_or_none(quad).unwrap();
    assert_eq!(c.state, State::Estab);
    assert_eq!(c.incoming, b"hi".to_vec());
}

#[test]
fn fin_frame_closes_gracefully() {
    let mut table = ConnectionTable::new();
    handle_frame(&mut table, &frame(100, 0, FL_SYN, &[]), ISS, LOCAL_WND);
    handle_frame(&mut table, &frame(101, ISS + 1, FL_ACK, &[]), ISS, LOCAL_WND);
    let reply = handle_frame(&mut table, &frame(101, ISS + 1, FL_FIN | FL_ACK, &[]), ISS, LOCAL_WND)
        .expect("a FIN is acknowledged");
    let tcp = etherparse::TcpHeaderSlice::from_slice(&reply[20..]).unwrap();
    assert_eq!(tcp.acknowledgment_number(), 102);
}

#[test]
fn non_ipv4_and_malformed_frames_are_dropped() {
    let mut table = ConnectionTable::new();

    // too short for the TUN prefix
    assert!(handle_frame(&mut table, &[0, 0, 8], ISS, LOCAL_WND).is_none());

    // EtherType is not IPv4
    let mut f = frame(100, 0, FL_SYN, &[]);
    f[2] = 0x86;
    f[3] = 0xDD;
    assert!(handle_frame(&mut table, &f, ISS, LOCAL_WND).is_none());

    // IP version nibble is not 4
    let mut f = frame(100, 0, FL_SYN, &[]);
    f[4] = 0x65;
    assert!(handle_frame(&mut table, &f, ISS, LOCAL_WND).is_none());

    // protocol is not TCP
    let mut f = frame(100, 0, FL_SYN, &[]);
    f[13] = 17;
    assert!(handle_frame(&mut table, &f, ISS, LOCAL_WND).is_none());

    // TCP header truncated
    let f = frame(100, 0, FL_SYN, &[]);
    assert!(handle_frame(&mut table, &f[..30], ISS, LOCAL_WND).is_none());

    // nothing was created by any of them
    let quad = tcp_engine::conn::Quad {
        src_ip: u32::from_be_bytes(SRC_IP),
        src_port: 40000,
        dst_ip: u32::from_be_bytes(DST_IP),
        dst_port: 80,
    };
    assert!(table.lookup_or_none(quad).is_none());
}
