//! One TCP connection: its sequence spaces, its protocol state, and the
//! transitions driven by inbound segments, a local close request, and
//! the teardown timer.

use vstd::prelude::*;

use crate::seqnum::{seq_add, in_window, in_open_closed, wrap_add, in_window_ex, in_open_closed_ex};

verus! {

/// The TCP protocol states. `Closed` and `Listen` are pre-connection
/// placeholders; a connection held in the table is always in one of the
/// other, live states.
#[derive(Clone, Copy, PartialEq, Eq, Structural, Debug)]
pub enum State {
    Closed,
    Listen,
    SynRcvd,
    Estab,
    FinWait1,
    FinWait2,
    Closing,
    TimeWait,
    CloseWait,
    LastAck,
}

/// A four-tuple identifying one connection's traffic, stored as seen in
/// inbound segments: source is the remote side, destination the local.
#[derive(Clone, Copy, PartialEq, Eq, Structural, Debug)]
pub struct Quad {
    pub src_ip: u32,
    pub src_port: u16,
    pub dst_ip: u32,
    pub dst_port: u16,
}

/// The decoded fields of one TCP segment header that the state machine
/// reads or emits.
#[derive(Clone, Copy, PartialEq, Eq, Structural, Debug)]
pub struct SegmentHeader {
    pub src_port: u16,
    pub dst_port: u16,
    /// Sequence number.
    pub seqn: u32,
    /// Acknowledgment number.
    pub ackn: u32,
    /// Advertised window size.
    pub wnd: u16,
    pub syn: bool,
    pub ack: bool,
    pub fin: bool,
    pub rst: bool,
}

/// The sender's view of the byte stream (RFC 793 SND.*).
#[derive(Clone, Copy, PartialEq, Eq, Structural, Debug)]
pub struct SendSequenceSpace {
    /// Oldest unacknowledged sequence number.
    pub una: u32,
    /// Next sequence number this side will send.
    pub nxt: u32,
    /// Window advertised in outgoing segments.
    pub wnd: u16,
    /// Urgent flag state.
    pub up: bool,
    /// Segment sequence number used for the last window update.
    pub wl1: u32,
    /// Segment acknowledgment number used for the last window update.
    pub wl2: u32,
    /// Initial send sequence number.
    pub iss: u32,
}

/// The receiver's view of the byte stream (RFC 793 RCV.*).
#[derive(Clone, Copy, PartialEq, Eq, Structural, Debug)]
pub struct RecvSequenceSpace {
    /// Next sequence number expected from the peer.
    pub nxt: u32,
    /// Window used by the acceptance test.
    pub wnd: u16,
    /// Urgent flag state.
    pub up: bool,
    /// Initial receive sequence number, from the peer's SYN.
    pub irs: u32,
}

/// What a connection asks its caller to do after a segment was
/// processed: nothing, send one reply segment, or drop the connection
/// from the table because it is now closed.
#[derive(Clone, Copy, PartialEq, Eq, Structural, Debug)]
pub enum SegmentOutcome {
    NoReply,
    Reply(SegmentHeader),
    Closed,
}

/// The error reported for a local `close()` request made in a state
/// that forbids it. The connection is left unchanged.
#[derive(Clone, Copy, PartialEq, Eq, Structural, Debug)]
pub enum CloseError {
    InvalidState,
}

/// Ticks of the teardown timer a connection lingers in `TimeWait`
/// before it may be removed: a deadline equivalent to twice the
/// maximum segment lifetime.
pub const TIME_WAIT_TICKS: u64 = 240;

/// One TCP connection: state, both sequence spaces, the four-tuple it
/// serves, the `TimeWait` teardown deadline, and the read-side buffer
/// holding in-order payload bytes consumed from the peer.
pub struct Connection {
    pub state: State,
    pub send: SendSequenceSpace,
    pub recv: RecvSequenceSpace,
    pub quad: Quad,
    pub time_wait_deadline: Option<u64>,
    pub incoming: Vec<u8>,
}

/// The mathematical model of a connection: every field a plain value,
/// the read-side buffer a sequence of bytes.
#[verifier::ext_equal]
pub ghost struct ConnView {
    pub state: State,
    pub send: SendSequenceSpace,
    pub recv: RecvSequenceSpace,
    pub quad: Quad,
    pub time_wait_deadline: Option<u64>,
    pub incoming: Seq<u8>,
}

impl View for Connection {
    type V = ConnView;

    open spec fn view(&self) -> ConnView {
        ConnView {
            state: self.state,
            send: self.send,
            recv: self.recv,
            quad: self.quad,
            time_wait_deadline: self.time_wait_deadline,
            incoming: self.incoming@,
        }
    }
}

impl ConnView {
    /// Well-formedness. A connection in the table is in a live state,
    /// and because this engine sends no payload of its own, the send
    /// space is pinned: exactly the unacknowledged SYN or FIN may be in
    /// flight, depending on the state.
    pub open spec fn wf(self) -> bool {
        match self.state {
            State::Closed | State::Listen => false,
            State::SynRcvd | State::FinWait1 | State::Closing | State::LastAck =>
                self.send.nxt == seq_add(self.send.una, 1),
            State::Estab | State::CloseWait | State::FinWait2 | State::TimeWait =>
                self.send.nxt == self.send.una,
        }
    }
}

/// The amount of sequence space a segment occupies: its payload length
/// plus one for SYN and one for FIN.
pub open spec fn seg_len(seg: SegmentHeader, plen: int) -> int {
    plen + (if seg.syn { 1int } else { 0int }) + (if seg.fin { 1int } else { 0int })
}

/// The acceptance test of RFC 793: with a nonzero receive window a
/// segment is acceptable iff its first or its last occupied sequence
/// number falls in `[recv.nxt, recv.nxt + recv.wnd)`; with a zero
/// window only an empty segment at exactly `recv.nxt` is acceptable.
pub open spec fn acceptable(recv: RecvSequenceSpace, seqn: u32, slen: int) -> bool {
    if slen == 0 {
        if recv.wnd == 0 {
            seqn == recv.nxt
        } else {
            in_window(recv.nxt, seqn, recv.wnd as int)
        }
    } else {
        recv.wnd != 0 && (in_window(recv.nxt, seqn, recv.wnd as int)
            || in_window(recv.nxt, seq_add(seqn, slen - 1), recv.wnd as int))
    }
}

/// An acknowledgment advances `send.una` only when its number lies in
/// `(send.una, send.nxt]`; older (duplicate) ACKs acknowledge nothing.
pub open spec fn ack_acceptable(send: SendSequenceSpace, seg: SegmentHeader) -> bool {
    seg.ack && in_open_closed(send.una, seg.ackn, send.nxt)
}

/// The reply header a connection sends to inform the peer of its
/// current position: an ACK carrying `send.nxt` and `recv.nxt`.
pub open spec fn ack_reply(c: ConnView) -> SegmentHeader {
    SegmentHeader {
        src_port: c.quad.dst_port,
        dst_port: c.quad.src_port,
        seqn: c.send.nxt,
        ackn: c.recv.nxt,
        wnd: c.send.wnd,
        syn: false,
        ack: true,
        fin: false,
        rst: false,
    }
}

/// Acknowledgment processing: advance `send.una` when the segment
/// carries an acceptable ACK, and take the transitions that an
/// acknowledgment of our FIN drives.
pub open spec fn step_ack(c: ConnView, seg: SegmentHeader) -> ConnView {
    if ack_acceptable(c.send, seg) {
        let una1 = seg.ackn;
        let state1 = if una1 == c.send.nxt {
            match c.state {
                State::FinWait1 => State::FinWait2,
                State::Closing => State::TimeWait,
                State::LastAck => State::Closed,
                s => s,
            }
        } else {
            c.state
        };
        ConnView {
            state: state1,
            send: SendSequenceSpace { una: una1, ..c.send },
            ..c
        }
    } else {
        c
    }
}

/// How many payload bytes are consumed: only in `Estab`, only when the
/// segment is sequence-contiguous with `recv.nxt`, and truncated to the
/// receive window.
pub open spec fn consumed_len(c: ConnView, seg: SegmentHeader, plen: int) -> int {
    if c.state == State::Estab && plen > 0 && seg.seqn == c.recv.nxt {
        if plen <= c.recv.wnd as int {
            plen
        } else {
            c.recv.wnd as int
        }
    } else {
        0
    }
}

/// Data processing: the consumed prefix is delivered to the read-side
/// buffer and `recv.nxt` advances past it.
pub open spec fn step_data(c: ConnView, seg: SegmentHeader, payload: Seq<u8>) -> ConnView {
    let n = consumed_len(c, seg, payload.len() as int);
    if n == 0 {
        c
    } else {
        ConnView {
            recv: RecvSequenceSpace { nxt: seq_add(c.recv.nxt, n), ..c.recv },
            incoming: c.incoming + payload.subrange(0, n),
            ..c
        }
    }
}

/// A peer FIN is consumed when it sits exactly at `recv.nxt` (after any
/// payload of the same segment was consumed) and the state has a FIN
/// transition.
pub open spec fn fin_consumable(c: ConnView, seg: SegmentHeader, plen: int) -> bool {
    seg.fin && seq_add(seg.seqn, plen) == c.recv.nxt
        && match c.state {
            State::Estab | State::FinWait1 | State::FinWait2 => true,
            _ => false,
        }
}

/// FIN processing: consume the peer's FIN and take its transition.
pub open spec fn step_fin(c: ConnView, seg: SegmentHeader, plen: int) -> ConnView {
    if fin_consumable(c, seg, plen) {
        let state1 = match c.state {
            State::Estab => State::CloseWait,
            State::FinWait1 => State::Closing,
            _ => State::TimeWait,
        };
        ConnView {
            state: state1,
            recv: RecvSequenceSpace { nxt: seq_add(c.recv.nxt, 1), ..c.recv },
            ..c
        }
    } else {
        c
    }
}

/// Processing common to all live states after acceptance, RST and SYN
/// screening and acknowledgment processing: consume data and FIN, then
/// decide the reply. A segment that carried payload or a FIN is
/// answered with an ACK; a pure acknowledgment needs no reply.
pub open spec fn step_live(c: ConnView, seg: SegmentHeader, payload: Seq<u8>) -> (ConnView, SegmentOutcome) {
    if c.state == State::Closed {
        (c, SegmentOutcome::Closed)
    } else {
        let c1 = step_data(c, seg, payload);
        let c2 = step_fin(c1, seg, payload.len() as int);
        if payload.len() > 0 || seg.fin {
            (c2, SegmentOutcome::Reply(ack_reply(c2)))
        } else {
            (c2, SegmentOutcome::NoReply)
        }
    }
}

/// The whole transition one inbound segment drives on one connection.
///
/// An unacceptable segment is dropped; unless it is a RST it is
/// answered with a corrective ACK. An acceptable RST aborts the
/// connection with no reply. An acceptable SYN in a live state is
/// ignored with a corrective ACK. In `SynRcvd` only an acceptable ACK
/// is taken, and moves the connection to `Estab`; in the other states
/// acknowledgment, data and FIN processing run in order.
pub open spec fn step(c: ConnView, seg: SegmentHeader, payload: Seq<u8>) -> (ConnView, SegmentOutcome) {
    let slen = seg_len(seg, payload.len() as int);
    if !acceptable(c.recv, seg.seqn, slen) {
        if seg.rst {
            (c, SegmentOutcome::NoReply)
        } else {
            (c, SegmentOutcome::Reply(ack_reply(c)))
        }
    } else if seg.rst {
        (ConnView { state: State::Closed, ..c }, SegmentOutcome::Closed)
    } else if seg.syn {
        (c, SegmentOutcome::Reply(ack_reply(c)))
    } else if c.state == State::SynRcvd {
        if ack_acceptable(c.send, seg) {
            let c1 = ConnView {
                state: State::Estab,
                send: SendSequenceSpace { una: seg.ackn, ..c.send },
                ..c
            };
            step_live(c1, seg, payload)
        } else {
            (c, SegmentOutcome::NoReply)
        }
    } else {
        step_live(step_ack(c, seg), seg, payload)
    }
}

/// A segment is a bare SYN: the only segment that may open a
/// connection where none exists.
pub open spec fn is_bare_syn(seg: SegmentHeader) -> bool {
    seg.syn && !seg.ack
}

/// The connection a bare SYN creates: `SynRcvd`, the receive space
/// initialised from the segment, the send space from the chosen initial
/// sequence number and the locally chosen advertised window. The
/// SYN+ACK this side emits costs one sequence number, so `send.nxt` is
/// already past `iss`.
pub open spec fn accept_conn(quad: Quad, seg: SegmentHeader, iss: u32, local_wnd: u16) -> ConnView {
    ConnView {
        state: State::SynRcvd,
        send: SendSequenceSpace {
            una: iss,
            nxt: seq_add(iss, 1),
            wnd: local_wnd,
            up: false,
            wl1: seg.seqn,
            wl2: 0,
            iss,
        },
        recv: RecvSequenceSpace {
            nxt: seq_add(seg.seqn, 1),
            wnd: seg.wnd,
            up: false,
            irs: seg.seqn,
        },
        quad,
        time_wait_deadline: None,
        incoming: Seq::empty(),
    }
}

/// The SYN+ACK emitted for an accepted SYN: `seq = iss`,
/// `ack = recv.nxt`.
pub open spec fn accept_reply(seg: SegmentHeader, iss: u32, local_wnd: u16) -> SegmentHeader {
    SegmentHeader {
        src_port: seg.dst_port,
        dst_port: seg.src_port,
        seqn: iss,
        ackn: seq_add(seg.seqn, 1),
        wnd: local_wnd,
        syn: true,
        ack: true,
        fin: false,
        rst: false,
    }
}

/// A local close is allowed only in `Estab` and `CloseWait`.
pub open spec fn close_allowed(s: State) -> bool {
    s == State::Estab || s == State::CloseWait
}

/// The FIN segment a local close emits, carrying the pre-increment
/// `send.nxt` and acknowledging `recv.nxt`.
pub open spec fn fin_reply(c: ConnView) -> SegmentHeader {
    SegmentHeader {
        src_port: c.quad.dst_port,
        dst_port: c.quad.src_port,
        seqn: c.send.nxt,
        ackn: c.recv.nxt,
        wnd: c.send.wnd,
        syn: false,
        ack: true,
        fin: true,
        rst: false,
    }
}

/// The teardown deadline armed at tick `now`, saturating at the top of
/// the tick counter.
pub open spec fn armed_deadline(now: u64) -> u64 {
    if now + TIME_WAIT_TICKS > u64::MAX {
        u64::MAX
    } else {
        (now + TIME_WAIT_TICKS) as u64
    }
}

/// What one timer tick does to a connection: in `TimeWait` it arms the
/// teardown deadline if none is armed yet, and asks for removal once
/// the deadline has elapsed; every other state ignores ticks.
pub open spec fn tick_spec(c: ConnView, now: u64) -> (ConnView, bool) {
    if c.state == State::TimeWait {
        match c.time_wait_deadline {
            None => (ConnView { time_wait_deadline: Some(armed_deadline(now)), ..c }, false),
            Some(d) => if now >= d {
                (c, true)
            } else {
                (c, false)
            },
        }
    } else {
        (c, false)
    }
}

/// Law: whatever segment arrives, a well-formed connection either stays
/// well formed or reports itself closed, and it reports itself closed
/// exactly when it reached the `Closed` state.
pub proof fn lemma_step_wf(c: ConnView, seg: SegmentHeader, payload: Seq<u8>)
    requires
        c.wf(),
    ensures
        ({
            let (c1, out) = step(c, seg, payload);
            &&& (out == SegmentOutcome::Closed <==> c1.state == State::Closed)
            &&& (out != SegmentOutcome::Closed ==> c1.wf())
            &&& c1.quad == c.quad
        }),
{
}

impl Connection {
    /// Handle a bare inbound SYN where no connection exists yet for the
    /// quad: allocate a connection in `SynRcvd` and produce the SYN+ACK
    /// to send. Any other segment is ignored. `iss` is the chosen
    /// initial send sequence number and `local_wnd` the window this
    /// side advertises; both are injected by the caller.
    pub fn accept(quad: Quad, seg: &SegmentHeader, iss: u32, local_wnd: u16) -> (r: Option<(Connection, SegmentHeader)>)
        ensures
            match r {
                Some(p) => is_bare_syn(*seg) && p.0@ == accept_conn(quad, *seg, iss, local_wnd)
                    && p.1 == accept_reply(*seg, iss, local_wnd) && p.0@.wf(),
                None => !is_bare_syn(*seg),
            },
    {
        if !(seg.syn && !seg.ack) {
            return None;
        }
        let c = Connection {
            state: State::SynRcvd,
            send: SendSequenceSpace {
                una: iss,
                nxt: wrap_add(iss, 1),
                wnd: local_wnd,
                up: false,
                wl1: seg.seqn,
                wl2: 0,
                iss,
            },
            recv: RecvSequenceSpace {
                nxt: wrap_add(seg.seqn, 1),
                wnd: seg.wnd,
                up: false,
                irs: seg.seqn,
            },
            quad,
            time_wait_deadline: None,
            incoming: Vec::new(),
        };
        let reply = SegmentHeader {
            src_port: seg.dst_port,
            dst_port: seg.src_port,
            seqn: iss,
            ackn: c.recv.nxt,
            wnd: local_wnd,
            syn: true,
            ack: true,
            fin: false,
            rst: false,
        };
        proof {
            assert(c@ =~= accept_conn(quad, *seg, iss, local_wnd));
        }
        Some((c, reply))
    }

    /// The acceptance test against this connection's receive window,
    /// for a segment with sequence number `seqn` occupying `slen`
    /// units of sequence space.
    pub fn segment_acceptable(&self, seqn: u32, slen: u32) -> (r: bool)
        ensures
            r == acceptable(self.recv, seqn, slen as int),
    {
        if slen == 0 {
            if self.recv.wnd == 0 {
                seqn == self.recv.nxt
            } else {
                in_window_ex(self.recv.nxt, seqn, self.recv.wnd as u32)
            }
        } else {
            self.recv.wnd != 0 && (in_window_ex(self.recv.nxt, seqn, self.recv.wnd as u32)
                || in_window_ex(self.recv.nxt, wrap_add(seqn, slen - 1), self.recv.wnd as u32))
        }
    }

    fn make_ack_reply(&self) -> (r: SegmentHeader)
        ensures
            r == ack_reply(self@),
    {
        SegmentHeader {
            src_port: self.quad.dst_port,
            dst_port: self.quad.src_port,
            seqn: self.send.nxt,
            ackn: self.recv.nxt,
            wnd: self.send.wnd,
            syn: false,
            ack: true,
            fin: false,
            rst: false,
        }
    }

    /// The main state-transition entry point: process one inbound
    /// segment and say what to do with the result. The whole effect is
    /// `step` of the previous state.
    pub fn on_segment(&mut self, seg: &SegmentHeader, payload: &[u8]) -> (r: SegmentOutcome)
        requires
            old(self)@.wf(),
            payload@.len() <= 0xFFFF,
        ensures
            final(self)@ == step(old(self)@, *seg, payload@).0,
            r == step(old(self)@, *seg, payload@).1,
            r == SegmentOutcome::Closed <==> final(self)@.state == State::Closed,
            r != SegmentOutcome::Closed ==> final(self)@.wf(),
    {
        proof {
            lemma_step_wf(old(self)@, *seg, payload@);
        }
        let plen = payload.len();
        let slen: u32 = plen as u32 + (if seg.syn { 1 } else { 0 }) + (if seg.fin { 1 } else { 0 });
        if !self.segment_acceptable(seg.seqn, slen) {
            if seg.rst {
                return SegmentOutcome::NoReply;
            }
            return SegmentOutcome::Reply(self.make_ack_reply());
        }
        if seg.rst {
            self.state = State::Closed;
            return SegmentOutcome::Closed;
        }
        if seg.syn {
            return SegmentOutcome::Reply(self.make_ack_reply());
        }
        if self.state == State::SynRcvd {
            if seg.ack && in_open_closed_ex(self.send.una, seg.ackn, self.send.nxt) {
                self.state = State::Estab;
                self.send.una = seg.ackn;
            } else {
                return SegmentOutcome::NoReply;
            }
        } else {
            if seg.ack && in_open_closed_ex(self.send.una, seg.ackn, self.send.nxt) {
                self.send.una = seg.ackn;
                if self.send.una == self.send.nxt {
                    match self.state {
                        State::FinWait1 => { self.state = State::FinWait2; }
                        State::Closing => { self.state = State::TimeWait; }
                        State::LastAck => { self.state = State::Closed; }
                        _ => {}
                    }
                }
            }
        }
        if self.state == State::Closed {
            return SegmentOutcome::Closed;
        }
        // data processing (Estab only, contiguous only, window-truncated)
        if self.state == State::Estab && plen > 0 && seg.seqn == self.recv.nxt {
            let wnd = self.recv.wnd as usize;
            let consumed: usize = if plen <= wnd { plen } else { wnd };
            if consumed > 0 {
                let prefix = vstd::slice::slice_subrange(payload, 0, consumed);
                self.incoming.extend_from_slice(prefix);
                self.recv.nxt = wrap_add(self.recv.nxt, consumed as u32);
            }
        }
        // FIN processing
        if seg.fin && wrap_add(seg.seqn, plen as u32) == self.recv.nxt {
            match self.state {
                State::Estab => {
                    self.state = State::CloseWait;
                    self.recv.nxt = wrap_add(self.recv.nxt, 1);
                }
                State::FinWait1 => {
                    self.state = State::Closing;
                    self.recv.nxt = wrap_add(self.recv.nxt, 1);
                }
                State::FinWait2 => {
                    self.state = State::TimeWait;
                    self.recv.nxt = wrap_add(self.recv.nxt, 1);
                }
                _ => {}
            }
        }
        proof {
            assert(self@ =~= step(old(self)@, *seg, payload@).0);
        }
        if plen > 0 || seg.fin {
            SegmentOutcome::Reply(self.make_ack_reply())
        } else {
            SegmentOutcome::NoReply
        }
    }

    /// Local-initiated teardown: valid only in `Estab` and `CloseWait`.
    /// Emits a FIN, which costs one sequence number, and moves to
    /// `FinWait1` or `LastAck`; in any other state it is a no-op that
    /// reports the error.
    pub fn close(&mut self) -> (r: Result<SegmentHeader, CloseError>)
        requires
            old(self)@.wf(),
        ensures
            final(self)@.wf(),
            match r {
                Ok(h) => close_allowed(old(self)@.state) && h == fin_reply(old(self)@)
                    && final(self)@ == (ConnView {
                        state: if old(self)@.state == State::Estab { State::FinWait1 } else { State::LastAck },
                        send: (SendSequenceSpace { nxt: seq_add(old(self)@.send.nxt, 1), ..old(self)@.send }),
                        ..old(self)@
                    }),
                Err(e) => !close_allowed(old(self)@.state) && final(self)@ == old(self)@
                    && e == CloseError::InvalidState,
            },
    {
        match self.state {
            State::Estab | State::CloseWait => {
                let h = SegmentHeader {
                    src_port: self.quad.dst_port,
                    dst_port: self.quad.src_port,
                    seqn: self.send.nxt,
                    ackn: self.recv.nxt,
                    wnd: self.send.wnd,
                    syn: false,
                    ack: true,
                    fin: true,
                    rst: false,
                };
                self.state = if self.state == State::Estab { State::FinWait1 } else { State::LastAck };
                self.send.nxt = wrap_add(self.send.nxt, 1);
                proof {
                    assert(self@ =~= (ConnView {
                        state: if old(self)@.state == State::Estab { State::FinWait1 } else { State::LastAck },
                        send: (SendSequenceSpace { nxt: seq_add(old(self)@.send.nxt, 1), ..old(self)@.send }),
                        ..old(self)@
                    }));
                }
                Ok(h)
            }
            _ => Err(CloseError::InvalidState),
        }
    }

    /// One tick of the cooperative teardown timer. Returns true when
    /// the connection's `TimeWait` deadline has elapsed and it should
    /// be removed from the table.
    pub fn on_tick(&mut self, now: u64) -> (remove: bool)
        requires
            old(self)@.wf(),
        ensures
            final(self)@ == tick_spec(old(self)@, now).0,
            remove == tick_spec(old(self)@, now).1,
            final(self)@.wf(),
    {
        if self.state == State::TimeWait {
            match self.time_wait_deadline {
                None => {
                    let d = if now > u64::MAX - TIME_WAIT_TICKS { u64::MAX } else { now + TIME_WAIT_TICKS };
                    self.time_wait_deadline = Some(d);
                    false
                }
                Some(d) => now >= d,
            }
        } else {
            false
        }
    }
}

/// Law: a segment one before the window is rejected. For every receive
/// space, a segment whose sequence number is the predecessor of
/// `recv.nxt` and that occupies at most one unit of sequence space
/// fails the acceptance test. (A longer segment starting there can
/// still be accepted when its end reaches into the window: that is the
/// either-end rule of the acceptance test itself.)
pub proof fn lemma_reject_below_window(recv: RecvSequenceSpace, slen: int)
    requires
        0 <= slen <= 1,
    ensures
        !acceptable(recv, seq_add(recv.nxt, 0xFFFF_FFFF), slen),
{
}

/// Law: with a zero receive window, a segment at exactly `recv.nxt` is
/// accepted exactly when it occupies no sequence space.
pub proof fn lemma_zero_window_accepts_only_empty(recv: RecvSequenceSpace, slen: int)
    requires
        recv.wnd == 0,
        0 <= slen,
    ensures
        acceptable(recv, recv.nxt, slen) <==> slen == 0,
{
}

/// Law: duplicate ACK idempotence. Applying the same pure ACK segment
/// to an `Estab` connection a second time changes nothing: in
/// particular `send.una` after the second application equals `send.una`
/// after the first.
pub proof fn lemma_duplicate_ack_idempotent(c: ConnView, seg: SegmentHeader)
    requires
        c.state == State::Estab,
        seg.ack,
        !seg.syn,
        !seg.fin,
        !seg.rst,
    ensures
        ({
            let (c1, _) = step(c, seg, Seq::empty());
            let (c2, _) = step(c1, seg, Seq::empty());
            c2 == c1 && c2.send.una == c1.send.una
        }),
{
    let (c1, _) = step(c, seg, Seq::empty());
    let (c2, _) = step(c1, seg, Seq::empty());
    assert(c2 =~= c1);
}

/// Law: an acceptable RST aborts: from every live state the connection
/// goes straight to `Closed`, asks for removal, and sends no reply.
pub proof fn lemma_rst_aborts(c: ConnView, seg: SegmentHeader, payload: Seq<u8>)
    requires
        c.wf(),
        seg.rst,
        acceptable(c.recv, seg.seqn, seg_len(seg, payload.len() as int)),
    ensures
        step(c, seg, payload).0.state == State::Closed,
        step(c, seg, payload).1 == SegmentOutcome::Closed,
{
}

} // verus!
