//! Forwarding engine: the state machine that drives a session after the
//! handshake. The engine owns no device; its caller waits on TUN, TCP and the
//! signal source, feeds whichever event fired, and performs the bytes the
//! engine hands back. The engine decides framing, sequencing and termination.

use vstd::prelude::*;

use crate::codec::{
    decode_frame, encode_data, encode_exit, spec_data_frame, spec_decode, spec_exit_frame,
    DecodeResult, Frame, ProtocolFault, SpecDecode, SpecFrame, BUF_SZ,
};

verus! {

/// The engine's state machine. `Running` loops on events; the other three
/// states are terminal: a session ends at the first of a local interrupt, a
/// peer `EXIT(0)`, or a protocol violation.
#[derive(Clone, Copy, Debug, PartialEq, Eq, Structural)]
pub enum EngineState {
    Running,
    /// A local interrupt ended the session; `EXIT(0)` was emitted.
    LocalExit,
    /// The peer sent `EXIT(0)`; nothing further is emitted.
    RemoteExit,
    /// The peer broke the protocol; nothing further is emitted.
    Failed { fault: ProtocolFault },
}

/// One step of inbound processing: what the caller must do next.
pub enum InboundStep {
    /// No whole frame has arrived yet; wait for more TCP bytes.
    Pending,
    /// A `DATA` frame arrived; write its payload to the TUN device.
    Deliver { packet: Vec<u8> },
    /// The peer sent `EXIT(0)`; close the socket and report a clean end.
    PeerExit,
    /// The peer broke the protocol; close the socket and report an error.
    Fault { fault: ProtocolFault },
}

/// The mathematical value of an engine: its state, the outbound sequence
/// counter, the inbound bytes not yet consumed, the history of payloads sent
/// to and delivered from the peer, and every `DATA` byte emitted so far.
pub struct EngineView {
    pub state: EngineState,
    pub counter: u64,
    pub inbuf: Seq<u8>,
    pub sent: Seq<Seq<u8>>,
    pub delivered: Seq<Seq<u8>>,
    pub wire: Seq<u8>,
}

/// A forwarding engine for one session, one per side.
pub struct Engine {
    state: EngineState,
    counter: u64,
    inbuf: Vec<u8>,
    sent: Ghost<Seq<Seq<u8>>>,
    delivered: Ghost<Seq<Seq<u8>>>,
    wire: Ghost<Seq<u8>>,
}

impl View for Engine {
    type V = EngineView;

    closed spec fn view(&self) -> EngineView {
        EngineView {
            state: self.state,
            counter: self.counter,
            inbuf: self.inbuf@,
            sent: self.sent@,
            delivered: self.delivered@,
            wire: self.wire@,
        }
    }
}

impl Engine {
    /// The counter always equals the number of `DATA` frames emitted so far,
    /// so the `k`-th outbound `DATA` of a session carries counter `k`; and the
    /// `DATA` bytes emitted so far are exactly the ordered framing of the
    /// payloads read from the TUN device.
    pub open spec fn wf(self) -> bool {
        &&& self@.counter == self@.sent.len()
        &&& self@.wire == crate::codec::spec_wire_of(self@.sent, 0)
    }

    /// A fresh engine: forwarding, with the counter reset for the session.
    pub fn new() -> (e: Engine)
        ensures
            e@.state == EngineState::Running,
            e@.counter == 0,
            e@.inbuf == Seq::<u8>::empty(),
            e@.sent == Seq::<Seq<u8>>::empty(),
            e@.delivered == Seq::<Seq<u8>>::empty(),
            e@.wire == Seq::<u8>::empty(),
            e.wf(),
    {
        Engine {
            state: EngineState::Running,
            counter: 0,
            inbuf: Vec::new(),
            sent: Ghost(Seq::empty()),
            delivered: Ghost(Seq::empty()),
            wire: Ghost(Seq::empty()),
        }
    }

    /// The current state, for the session driver's outcome report.
    pub fn state(&self) -> (s: EngineState)
        ensures
            s == self@.state,
    {
        self.state
    }

    /// The current outbound sequence counter.
    pub fn counter(&self) -> (c: u64)
        ensures
            c == self@.counter,
    {
        self.counter
    }

    /// A local interrupt fired: the session ends locally, and the returned
    /// bytes — one `EXIT(0)` frame, nothing else — are the side's last words
    /// on the wire. No `DATA` can follow: every emitting method requires
    /// `Running`, and the engine leaves it here for good.
    pub fn on_signal(&mut self) -> (out: Vec<u8>)
        requires
            old(self)@.state == EngineState::Running,
        ensures
            out@ == spec_exit_frame(0),
            final(self)@.state == EngineState::LocalExit,
            final(self)@.counter == old(self)@.counter,
            final(self)@.inbuf == old(self)@.inbuf,
            final(self)@.sent == old(self)@.sent,
            final(self)@.delivered == old(self)@.delivered,
            final(self)@.wire == old(self)@.wire,
            old(self).wf() ==> final(self).wf(),
    {
        self.state = EngineState::LocalExit;
        encode_exit(0)
    }

    /// The TUN device yielded one outbound IP packet: number it and frame it.
    /// Counter monotonicity: with `wf`, this is the `sent.len() + 1`-th
    /// outbound `DATA` and it carries exactly that counter value; the wire the
    /// side has emitted grows by exactly this frame.
    pub fn on_tun_packet(&mut self, pkt: &Vec<u8>) -> (out: Vec<u8>)
        requires
            old(self)@.state == EngineState::Running,
            old(self).wf(),
            0 < pkt@.len() <= BUF_SZ,
            old(self)@.counter < u64::MAX,
        ensures
            out@ == spec_data_frame((old(self)@.sent.len() + 1) as u64, pkt@),
            final(self)@.state == EngineState::Running,
            final(self)@.counter == old(self)@.counter + 1,
            final(self)@.inbuf == old(self)@.inbuf,
            final(self)@.sent == old(self)@.sent.push(pkt@),
            final(self)@.delivered == old(self)@.delivered,
            final(self)@.wire == old(self)@.wire + out@,
            final(self).wf(),
    {
        self.counter = self.counter + 1;
        let out = encode_data(self.counter, pkt);
        proof {
            crate::codec::lemma_wire_of_snoc(self.sent@, pkt@, 0);
            self.sent@ = self.sent@.push(pkt@);
            self.wire@ = self.wire@ + out@;
        }
        out
    }

    /// The TCP socket yielded `chunk` — any run of bytes, cut anywhere; the
    /// engine assembles frames itself, so the transport may fragment freely.
    pub fn on_tcp_bytes(&mut self, chunk: &Vec<u8>)
        requires
            old(self)@.state == EngineState::Running,
        ensures
            final(self)@.state == EngineState::Running,
            final(self)@.counter == old(self)@.counter,
            final(self)@.inbuf == old(self)@.inbuf + chunk@,
            final(self)@.sent == old(self)@.sent,
            final(self)@.delivered == old(self)@.delivered,
            final(self)@.wire == old(self)@.wire,
            old(self).wf() ==> final(self).wf(),
    {
        crate::codec::append_bytes(&mut self.inbuf, chunk);
    }

    /// Consumes at most one whole frame from the front of the inbound bytes
    /// and says what to do with it. Frames are consumed atomically: a partial
    /// frame changes nothing and delivers nothing, an oversize length or an
    /// unknown type or exit reason is fatal before any TUN write.
    pub fn next_inbound(&mut self) -> (step: InboundStep)
        requires
            old(self)@.state == EngineState::Running,
        ensures
            final(self)@.counter == old(self)@.counter,
            final(self)@.sent == old(self)@.sent,
            final(self)@.wire == old(self)@.wire,
            old(self).wf() ==> final(self).wf(),
            match spec_decode(old(self)@.inbuf) {
                SpecDecode::Pending => step is Pending && final(self)@ == old(self)@,
                SpecDecode::Complete { frame, consumed } => {
                    &&& final(self)@.inbuf == old(self)@.inbuf.skip(consumed)
                    &&& match frame {
                        SpecFrame::Data { counter, payload } => {
                            &&& step matches InboundStep::Deliver { packet } && packet@ == payload
                            &&& final(self)@.state == EngineState::Running
                            &&& final(self)@.delivered == old(self)@.delivered.push(payload)
                        },
                        SpecFrame::Exit { reason } => {
                            &&& step is PeerExit
                            &&& final(self)@.state == EngineState::RemoteExit
                            &&& final(self)@.delivered == old(self)@.delivered
                        },
                    }
                },
                SpecDecode::Violation { fault } => {
                    &&& step matches InboundStep::Fault { fault: g } && g == fault
                    &&& final(self)@.state == (EngineState::Failed { fault })
                    &&& final(self)@.inbuf == old(self)@.inbuf
                    &&& final(self)@.delivered == old(self)@.delivered
                },
            },
    {
        match decode_frame(&self.inbuf) {
            DecodeResult::Pending => InboundStep::Pending,
            DecodeResult::Complete { frame, consumed } => {
                self.inbuf = crate::codec::copy_range(&self.inbuf, consumed, self.inbuf.len());
                proof {
                    assert(self.inbuf@ =~= old(self)@.inbuf.skip(
                        spec_decode(old(self)@.inbuf)->Complete_consumed,
                    ));
                }
                match frame {
                    Frame::Data { counter: _, payload } => {
                        proof {
                            self.delivered@ = self.delivered@.push(payload@);
                        }
                        InboundStep::Deliver { packet: payload }
                    },
                    Frame::Exit { reason: _ } => {
                        self.state = EngineState::RemoteExit;
                        InboundStep::PeerExit
                    },
                }
            },
            DecodeResult::Violation { fault } => {
                self.state = EngineState::Failed { fault };
                InboundStep::Fault { fault }
            },
        }
    }
}

/// Order preservation across a session: a well-formed engine's emitted `DATA`
/// bytes are exactly `spec_wire_of(sent, 0)` — that is its `wf` invariant —
/// and a peer engine fed exactly that wire delivers exactly `sent`, in order.
pub proof fn lemma_forwarding_order(sent: Seq<Seq<u8>>)
    requires
        forall|i: int| 0 <= i < sent.len() ==> 0 < #[trigger] sent[i].len() <= BUF_SZ,
        sent.len() <= u64::MAX,
    ensures
        crate::codec::spec_deliveries(crate::codec::spec_wire_of(sent, 0)) == sent,
{
    crate::codec::lemma_order_preservation(sent, 0);
}

/// The exit code a session driver reports for a finished engine: 0 for a
/// clean end on either side, 1 for a protocol violation.
pub fn outcome_code(state: &EngineState) -> (c: i32)
    requires
        state != EngineState::Running,
    ensures
        c == (if state is Failed {
            1int
        } else {
            0int
        }),
{
    match state {
        EngineState::Failed { fault: _ } => 1,
        _ => 0,
    }
}

} // verus!
