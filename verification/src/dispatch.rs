//! Segment dispatch: route one decoded inbound segment to the right
//! connection in the table, creating a connection on a bare SYN and
//! removing it when it closes, and hand the reply (if any) back to the
//! caller, who performs the actual frame write.

use vstd::prelude::*;

use crate::conn::{Connection, ConnView, Quad, SegmentHeader, SegmentOutcome,
    accept_conn, accept_reply, acceptable, is_bare_syn, lemma_step_wf, seg_len, step, tick_spec};
use crate::table::ConnectionTable;

verus! {

/// What one inbound segment does to the whole table, and the reply it
/// produces: an existing connection takes a `step`; a missing one is
/// created by a bare SYN and answered with a SYN+ACK; anything else is
/// dropped.
pub open spec fn dispatch_step(
    m: Map<Quad, ConnView>,
    quad: Quad,
    seg: SegmentHeader,
    payload: Seq<u8>,
    iss: u32,
    local_wnd: u16,
) -> (Map<Quad, ConnView>, Option<SegmentHeader>) {
    if m.contains_key(quad) {
        let (c1, out) = step(m[quad], seg, payload);
        match out {
            SegmentOutcome::NoReply => (m.insert(quad, c1), None),
            SegmentOutcome::Reply(h) => (m.insert(quad, c1), Some(h)),
            SegmentOutcome::Closed => (m.remove(quad), None),
        }
    } else if is_bare_syn(seg) {
        (m.insert(quad, accept_conn(quad, seg, iss, local_wnd)), Some(accept_reply(seg, iss, local_wnd)))
    } else {
        (m, None)
    }
}

/// Feed one decoded segment to the connection table.
///
/// Besides realising `dispatch_step`, the contract states two laws
/// directly: four-tuple isolation (no other quad's connection is
/// observed or mutated), and the reset rule (an acceptable RST on a
/// live connection removes it with no reply).
pub fn handle_segment(
    table: &mut ConnectionTable,
    quad: Quad,
    seg: &SegmentHeader,
    payload: &[u8],
    iss: u32,
    local_wnd: u16,
) -> (r: Option<SegmentHeader>)
    requires
        old(table).well_formed(),
        payload@.len() <= 0xFFFF,
    ensures
        final(table).well_formed(),
        final(table).contents() == dispatch_step(old(table).contents(), quad, *seg, payload@, iss, local_wnd).0,
        r == dispatch_step(old(table).contents(), quad, *seg, payload@, iss, local_wnd).1,
        // four-tuple isolation
        forall|q2: Quad| q2 != quad ==> #[trigger] final(table).contents().contains_key(q2)
            == old(table).contents().contains_key(q2),
        forall|q2: Quad| q2 != quad && old(table).contents().contains_key(q2)
            ==> #[trigger] final(table).contents()[q2] == old(table).contents()[q2],
        // reset rule
        old(table).contents().contains_key(quad) && seg.rst
            && acceptable(old(table).contents()[quad].recv, seg.seqn, seg_len(*seg, payload@.len() as int))
            ==> final(table).contents() == old(table).contents().remove(quad) && r is None,
{
    let r = match table.remove(quad) {
        Some(mut c) => {
            proof {
                lemma_step_wf(c@, *seg, payload@);
            }
            let out = c.on_segment(seg, payload);
            match out {
                SegmentOutcome::Closed => None,
                SegmentOutcome::Reply(h) => {
                    table.insert(quad, c);
                    Some(h)
                }
                SegmentOutcome::NoReply => {
                    table.insert(quad, c);
                    None
                }
            }
        }
        None => {
            match Connection::accept(quad, seg, iss, local_wnd) {
                Some((c, h)) => {
                    table.insert(quad, c);
                    Some(h)
                }
                None => None,
            }
        }
    };
    proof {
        let m0 = old(table).contents();
        if m0.contains_key(quad) {
            let (c1, out) = step(m0[quad], *seg, payload@);
            if !(out == SegmentOutcome::Closed) {
                assert(table.contents() =~= m0.insert(quad, c1));
            }
        } else {
            if is_bare_syn(*seg) {
                assert(table.contents() =~= m0.insert(quad, accept_conn(quad, *seg, iss, local_wnd)));
            }
        }
    }
    r
}

/// One tick of the cooperative teardown timer for the connection under
/// `quad`: arms or checks its `TimeWait` deadline and removes it once
/// the deadline has elapsed. Returns whether it was removed. No other
/// quad's connection is touched.
pub fn tick_connection(table: &mut ConnectionTable, quad: Quad, now: u64) -> (removed: bool)
    requires
        old(table).well_formed(),
    ensures
        final(table).well_formed(),
        !old(table).contents().contains_key(quad) ==> !removed
            && final(table).contents() == old(table).contents(),
        old(table).contents().contains_key(quad) ==> ({
            let (c1, rem) = tick_spec(old(table).contents()[quad], now);
            &&& removed == rem
            &&& rem ==> final(table).contents() == old(table).contents().remove(quad)
            &&& !rem ==> final(table).contents() == old(table).contents().insert(quad, c1)
        }),
        forall|q2: Quad| q2 != quad ==> #[trigger] final(table).contents().contains_key(q2)
            == old(table).contents().contains_key(q2),
        forall|q2: Quad| q2 != quad && old(table).contents().contains_key(q2)
            ==> #[trigger] final(table).contents()[q2] == old(table).contents()[q2],
{
    let removed = match table.remove(quad) {
        Some(mut c) => {
            let rem = c.on_tick(now);
            if rem {
                true
            } else {
                table.insert(quad, c);
                false
            }
        }
        None => false,
    };
    proof {
        let m0 = old(table).contents();
        if m0.contains_key(quad) {
            let (c1, rem) = tick_spec(m0[quad], now);
            if !rem {
                assert(table.contents() =~= m0.insert(quad, c1));
            }
        }
    }
    removed
}

} // verus!
