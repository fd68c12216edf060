use tcp_engine::conn::{Quad, SegmentHeader, State};
use tcp_engine::dispatch::handle_segment;
use tcp_engine::table::ConnectionTable;

fn seg(src_port: u16, seqn: u32, ackn: u32, syn: bool, ack: bool, rst: bool) -> SegmentHeader {
    SegmentHeader { src_port, dst_port: 80, seqn, ackn, wnd: 1000, syn, ack, fin: false, rst }
}

const LOCAL_WND: u16 = 10;

#[test]
fn distinct_quads_never_observe_each_other() {
    let qa = Quad { src_ip: 0x0A00_0002, src_port: 41000, dst_ip: 0x0A00_0001, dst_port: 80 };
    let qb = Quad { src_ip: 0x0A00_0003, src_port: 42000, dst_ip: 0x0A00_0001, dst_port: 80 };
    let mut table = ConnectionTable::new();

    // open two connections with different initial sequence numbers
    handle_segment(&mut table, qa, &seg(41000, 100, 0, true, false, false), &[], 1000, LOCAL_WND);
    handle_segment(&mut table, qa, &seg(41000, 101, 1001, false, true, false), &[], 1000, LOCAL_WND);
    handle_segment(&mut table, qb, &seg(42000, 900, 0, true, false, false), &[], 2000, LOCAL_WND);

    let snap_b = {
        let b = table.lookup_or_none(qb).unwrap();
        (b.state, b.send, b.recv)
    };

    // drive the first connection: data, then an abort
    handle_segment(&mut table, qa, &seg(41000, 101, 1001, false, true, false), b"data", 1000, LOCAL_WND);
    handle_segment(&mut table, qa, &seg(41000, 105, 0, false, false, true), &[], 1000, LOCAL_WND);
    assert!(table.lookup_or_none(qa).is_none());

    // the second connection's sequence spaces are untouched
    let b = table.lookup_or_none(qb).unwrap();
    assert_eq!((b.state, b.send, b.recv), snap_b);
    assert_eq!(b.state, State::SynRcvd);
    assert_eq!(b.recv.irs, 900);
    assert_eq!(b.send.iss, 2000);
    assert!(b.incoming.is_empty());
}

#[test]
fn swapped_roles_are_distinct_quads() {
    let qa = Quad { src_ip: 0x0A00_0002, src_port: 41000, dst_ip: 0x0A00_0001, dst_port: 80 };
    let reversed = Quad { src_ip: 0x0A00_0001, src_port: 80, dst_ip: 0x0A00_0002, dst_port: 41000 };
    let mut table = ConnectionTable::new();
    handle_segment(&mut table, qa, &seg(41000, 100, 0, true, false, false), &[], 1000, LOCAL_WND);
    assert!(table.lookup_or_none(qa).is_some());
    assert!(table.lookup_or_none(reversed).is_none());
}
