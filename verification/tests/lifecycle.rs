use tcp_engine::conn::{CloseError, Connection, Quad, SegmentHeader, State, TIME_WAIT_TICKS};
use tcp_engine::dispatch::{handle_segment, tick_connection};
use tcp_engine::table::ConnectionTable;

fn quad() -> Quad {
    Quad { src_ip: 0x0A00_0002, src_port: 40000, dst_ip: 0x0A00_0001, dst_port: 80 }
}

fn seg(seqn: u32, ackn: u32, syn: bool, ack: bool, fin: bool, rst: bool) -> SegmentHeader {
    SegmentHeader { src_port: 40000, dst_port: 80, seqn, ackn, wnd: 1000, syn, ack, fin, rst }
}

const ISS: u32 = 7000;
const LOCAL_WND: u16 = 10;

fn established() -> ConnectionTable {
    let mut table = ConnectionTable::new();
    handle_segment(&mut table, quad(), &seg(100, 0, true, false, false, false), &[], ISS, LOCAL_WND);
    handle_segment(&mut table, quad(), &seg(101, ISS + 1, false, true, false, false), &[], ISS, LOCAL_WND);
    assert_eq!(table.lookup_or_none(quad()).unwrap().state, State::Estab);
    table
}

#[test]
fn graceful_close_walks_fin_wait_to_removal() {
    let mut table = established();

    // local close: emits a FIN, enters FinWait1
    let mut c = table.remove(quad()).unwrap();
    let fin = c.close().expect("close is valid in Estab");
    assert!(fin.fin && fin.ack && !fin.syn && !fin.rst);
    assert_eq!(fin.seqn, ISS + 1);
    assert_eq!(c.state, State::FinWait1);
    assert_eq!(c.send.nxt, ISS + 2);
    table.insert(quad(), c);

    // peer acknowledges our FIN: FinWait2
    handle_segment(&mut table, quad(), &seg(101, ISS + 2, false, true, false, false), &[], ISS, LOCAL_WND);
    assert_eq!(table.lookup_or_none(quad()).unwrap().state, State::FinWait2);

    // peer's own FIN: TimeWait, and the FIN is acknowledged
    let reply = handle_segment(&mut table, quad(), &seg(101, ISS + 2, false, true, true, false), &[], ISS, LOCAL_WND);
    let ack = reply.expect("the peer's FIN is acknowledged");
    assert!(ack.ack && !ack.fin);
    assert_eq!(ack.ackn, 102);
    assert_eq!(table.lookup_or_none(quad()).unwrap().state, State::TimeWait);

    // first tick arms the teardown deadline; the connection stays
    assert!(!tick_connection(&mut table, quad(), 5));
    assert!(table.lookup_or_none(quad()).is_some());

    // before the deadline nothing happens
    assert!(!tick_connection(&mut table, quad(), 5 + TIME_WAIT_TICKS - 1));
    assert!(table.lookup_or_none(quad()).is_some());

    // once the deadline elapses the connection is removed
    assert!(tick_connection(&mut table, quad(), 5 + TIME_WAIT_TICKS));
    assert!(table.lookup_or_none(quad()).is_none());
}

#[test]
fn passive_close_walks_close_wait_to_removal() {
    let mut table = established();

    // peer FIN: CloseWait, acknowledged
    let reply = handle_segment(&mut table, quad(), &seg(101, ISS + 1, false, true, true, false), &[], ISS, LOCAL_WND);
    assert_eq!(reply.unwrap().ackn, 102);
    assert_eq!(table.lookup_or_none(quad()).unwrap().state, State::CloseWait);

    // local close from CloseWait: LastAck
    let mut c = table.remove(quad()).unwrap();
    let fin = c.close().expect("close is valid in CloseWait");
    assert_eq!(fin.seqn, ISS + 1);
    assert_eq!(c.state, State::LastAck);
    table.insert(quad(), c);

    // ACK of our FIN: the connection closes and leaves the table
    let reply = handle_segment(&mut table, quad(), &seg(102, ISS + 2, false, true, false, false), &[], ISS, LOCAL_WND);
    assert!(reply.is_none());
    assert!(table.lookup_or_none(quad()).is_none());
}

#[test]
fn close_is_rejected_outside_estab_and_close_wait() {
    let mut table = ConnectionTable::new();
    handle_segment(&mut table, quad(), &seg(100, 0, true, false, false, false), &[], ISS, LOCAL_WND);
    let mut c = table.remove(quad()).unwrap();
    assert_eq!(c.state, State::SynRcvd);
    assert_eq!(c.close(), Err(CloseError::InvalidState));
    assert_eq!(c.state, State::SynRcvd);
}

#[test]
fn rst_removes_connection_without_reply() {
    // from Estab
    let mut table = established();
    let reply = handle_segment(&mut table, quad(), &seg(101, 0, false, false, false, true), &[], ISS, LOCAL_WND);
    assert!(reply.is_none());
    assert!(table.lookup_or_none(quad()).is_none());

    // from SynRcvd
    let mut table = ConnectionTable::new();
    handle_segment(&mut table, quad(), &seg(100, 0, true, false, false, false), &[], ISS, LOCAL_WND);
    let reply = handle_segment(&mut table, quad(), &seg(101, 0, false, false, false, true), &[], ISS, LOCAL_WND);
    assert!(reply.is_none());
    assert!(table.lookup_or_none(quad()).is_none());

    // from FinWait1
    let mut table = established();
    let mut c = table.remove(quad()).unwrap();
    c.close().unwrap();
    table.insert(quad(), c);
    let reply = handle_segment(&mut table, quad(), &seg(101, 0, false, false, false, true), &[], ISS, LOCAL_WND);
    assert!(reply.is_none());
    assert!(table.lookup_or_none(quad()).is_none());
}

#[test]
fn out_of_window_rst_is_dropped_silently() {
    let mut table = established();
    // sequence number far outside the window: dropped, no abort, no reply
    let reply = handle_segment(&mut table, quad(), &seg(60000, 0, false, false, false, true), &[], ISS, LOCAL_WND);
    assert!(reply.is_none());
    assert_eq!(table.lookup_or_none(quad()).unwrap().state, State::Estab);
}

#[test]
fn acceptance_rejects_one_before_window() {
    let table = established();
    let c = table.lookup_or_none(quad()).unwrap();
    // an empty segment one before the window is rejected...
    assert!(!c.segment_acceptable(c.recv.nxt.wrapping_sub(1), 0));
    // ...and one at the window start is accepted
    assert!(c.segment_acceptable(c.recv.nxt, 0));
}

#[test]
fn zero_window_accepts_only_empty_segments_at_nxt() {
    // a SYN advertising a zero window gives recv.wnd == 0
    let syn = SegmentHeader {
        src_port: 40000,
        dst_port: 80,
        seqn: 100,
        ackn: 0,
        wnd: 0,
        syn: true,
        ack: false,
        fin: false,
        rst: false,
    };
    let (c, _) = Connection::accept(quad(), &syn, ISS, LOCAL_WND).unwrap();
    assert_eq!(c.recv.wnd, 0);
    // empty segment at exactly recv.nxt: accepted
    assert!(c.segment_acceptable(c.recv.nxt, 0));
    // anything carrying sequence space, or anywhere else: rejected
    assert!(!c.segment_acceptable(c.recv.nxt, 1));
    assert!(!c.segment_acceptable(c.recv.nxt.wrapping_add(1), 0));
    assert!(!c.segment_acceptable(c.recv.nxt.wrapping_sub(1), 0));
}

#[test]
fn out_of_window_segment_triggers_corrective_ack() {
    let mut table = established();
    // empty segment one before the window: rejected, answered with the
    // current position
    let reply = handle_segment(&mut table, quad(), &seg(100, ISS + 1, false, true, false, false), &[], ISS, LOCAL_WND);
    let ack = reply.expect("an unacceptable non-RST segment is answered");
    assert_eq!(ack.ackn, 101);
    assert_eq!(ack.seqn, ISS + 1);
    let c = table.lookup_or_none(quad()).unwrap();
    assert_eq!(c.recv.nxt, 101);
}
