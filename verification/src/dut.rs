//! The device under test: it checks every frame it receives and sends back
//! the next frame of the sequence.

use vstd::prelude::*;
use crate::error::{DutError, ErrorKind};
use crate::frame::{bumped, incremented, increment_frame, Frame, FrameView};
use crate::port::{counted, PortAction, PortActionView, PortEvent, PortEventView, CAN_MSG_ID};

verus! {

/// A payload is a chain when every byte but the first is one more than the
/// byte before it, with 0 following 255.
pub open spec fn is_chain(data: Seq<u8>) -> bool {
    forall|i: int| 0 < i < data.len() ==> #[trigger] data[i] == bumped(data[i - 1])
}

/// What the check says of a frame: the identifier is looked at first, then the payload.
pub open spec fn checked(f: FrameView) -> Result<(), ErrorKind> {
    if f.id != CAN_MSG_ID {
        Err(ErrorKind::IdentifierMismatch)
    } else if !is_chain(f.data) {
        Err(ErrorKind::PayloadChainMismatch)
    } else {
        Ok(())
    }
}

/// Checks a received frame: it must carry the protocol identifier, and its
/// payload must be a chain.
pub fn check(frame: Frame) -> (r: Result<(), ErrorKind>)
    ensures
        r == checked(frame@),
        r is Ok <==> frame@.id == CAN_MSG_ID && is_chain(frame@.data),
        frame@.id != CAN_MSG_ID ==> (r matches Err(kind) && kind
            == ErrorKind::IdentifierMismatch),
{
    if frame.id() != CAN_MSG_ID {
        return Err(ErrorKind::IdentifierMismatch);
    }
    let data = frame.data();
    let mut i: usize = 1;
    while i < data.len()
        invariant
            1 <= i,
            data@ == frame@.data,
            frame@.id == CAN_MSG_ID,
            forall|j: int| 0 < j < i && j < data.len() ==> #[trigger] data[j] == bumped(data[j - 1]),
        decreases data.len() - i,
    {
        let before: u8 = if data[i] == 0 {
            0xff
        } else {
            data[i] - 1
        };
        if data[i - 1] != before {
            assert(frame@.data[i as int] != bumped(frame@.data[i - 1]));
            return Err(ErrorKind::PayloadChainMismatch);
        }
        i += 1;
    }
    Ok(())
}

/// Checks a received frame and reports a failure with its message.
pub fn check_frame(frame: Frame) -> (r: Result<bool, DutError>)
    ensures
        r is Ok <==> checked(frame@) is Ok,
        r matches Ok(b) ==> b,
        r matches Err(e) ==> e@ == (if frame@.id != CAN_MSG_ID {
            "Received message ID mismatch!"@
        } else {
            "Received data byte mismatch!"@
        }),
{
    match check(frame) {
        Ok(()) => Ok(true),
        Err(ErrorKind::IdentifierMismatch) => Err(DutError::new("Received message ID mismatch!")),
        Err(_) => Err(DutError::new("Received data byte mismatch!")),
    }
}

/// Mathematical value of the state of the device under test.
pub struct DutView {
    /// How many frames were received so far.
    pub received: u64,
    /// The echo that is waiting to be sent.
    pub pending: Option<FrameView>,
    /// Why the run has ended, if it has.
    pub fault: Option<ErrorKind>,
}

impl DutView {
    /// The state before the first frame.
    pub open spec fn initial() -> DutView {
        DutView { received: 0, pending: None, fault: None }
    }

    /// The state in which the run has ended for the given reason.
    pub open spec fn failed(self, kind: ErrorKind) -> DutView {
        DutView { fault: Some(kind), ..self }
    }

    /// What the device asks for in this state: nothing more once the run
    /// has ended, else to send the pending echo, else to receive.
    pub open spec fn action(self) -> PortActionView {
        match (self.fault, self.pending) {
            (Some(kind), _) => PortActionView::Stop(kind),
            (None, Some(frame)) => PortActionView::Send { frame, pause_ms: 0 },
            (None, None) => PortActionView::Receive,
        }
    }

    /// The state after a received frame: the frame is counted, then checked,
    /// then incremented; the increment becomes the pending echo.
    pub open spec fn received_frame(self, f: FrameView) -> DutView {
        let counted = DutView { received: counted(self.received), ..self };
        match checked(f) {
            Err(kind) => counted.failed(kind),
            Ok(()) => match incremented(f) {
                None => counted.failed(ErrorKind::MutatorFailed),
                Some(echo) => DutView { pending: Some(echo), ..counted },
            },
        }
    }

    /// The state after `event`. Once the run has ended nothing changes, and
    /// an event that does not answer the action asked for changes nothing.
    pub open spec fn step(self, event: PortEventView) -> DutView {
        if self.fault is Some {
            self
        } else {
            match (self.pending, event) {
                (None, PortEventView::Received(f)) => self.received_frame(f),
                (None, PortEventView::ReceiveFailed) => self.failed(ErrorKind::TransportReadFailed),
                (Some(_), PortEventView::Sent) => DutView { pending: None, ..self },
                (Some(_), PortEventView::SendFailed) => self.failed(
                    ErrorKind::TransportWriteFailed,
                ),
                _ => self,
            }
        }
    }

    /// The state after a sequence of events, taken in order.
    pub open spec fn run(self, events: Seq<PortEventView>) -> DutView
        decreases events.len(),
    {
        if events.len() == 0 {
            self
        } else {
            self.step(events[0]).run(events.drop_first())
        }
    }
}

/// The device under test, as a state machine over the events of its port.
#[derive(Debug)]
pub struct Dut {
    received: u64,
    pending: Option<Frame>,
    fault: Option<ErrorKind>,
}

impl View for Dut {
    type V = DutView;

    closed spec fn view(&self) -> DutView {
        DutView {
            received: self.received,
            pending: match self.pending {
                Some(f) => Some(f@),
                None => None,
            },
            fault: self.fault,
        }
    }
}

impl Dut {
    /// A device that has not received anything yet.
    pub fn new() -> (dut: Dut)
        ensures
            dut@ == DutView::initial(),
    {
        Dut { received: 0, pending: None, fault: None }
    }

    /// What the caller is to do next.
    pub fn action(&self) -> (r: PortAction)
        ensures
            r@ == self@.action(),
    {
        match (self.fault, self.pending) {
            (Some(kind), _) => PortAction::Stop(kind),
            (None, Some(frame)) => PortAction::Send { frame, pause_ms: 0 },
            (None, None) => PortAction::Receive,
        }
    }

    /// Takes in what came of the last action. Gives the state after it and
    /// what to do next.
    pub fn step(self, event: PortEvent) -> (r: (Dut, PortAction))
        ensures
            r.0@ == self@.step(event@),
            r.1@ == r.0@.action(),
    {
        let next = if self.fault.is_some() {
            self
        } else {
            match (self.pending, event) {
                (None, PortEvent::Received(frame)) => self.received_frame(frame),
                (None, PortEvent::ReceiveFailed) => self.failed(ErrorKind::TransportReadFailed),
                (Some(_), PortEvent::Sent) => Dut { pending: None, ..self },
                (Some(_), PortEvent::SendFailed) => self.failed(ErrorKind::TransportWriteFailed),
                _ => self,
            }
        };
        let action = next.action();
        (next, action)
    }

    /// Takes in a recorded sequence of events, one after the other. Gives
    /// the state after the last one and what to do next.
    pub fn run(self, events: &[PortEvent]) -> (r: (Dut, PortAction))
        ensures
            r.0@ == self@.run(events@.map_values(|e: PortEvent| e@)),
            r.1@ == r.0@.action(),
    {
        let ghost trace = events@.map_values(|e: PortEvent| e@);
        let mut state = self;
        let mut i: usize = 0;
        assert(trace.skip(0) =~= trace);
        while i < events.len()
            invariant
                i <= events.len(),
                trace == events@.map_values(|e: PortEvent| e@),
                state@.run(trace.skip(i as int)) == self@.run(trace),
            decreases events.len() - i,
        {
            assert(trace.skip(i as int).drop_first() =~= trace.skip(i + 1));
            let (next, _) = state.step(events[i]);
            state = next;
            i += 1;
        }
        let action = state.action();
        (state, action)
    }

    fn failed(self, kind: ErrorKind) -> (r: Dut)
        ensures
            r@ == self@.failed(kind),
    {
        Dut { fault: Some(kind), ..self }
    }

    fn received_frame(self, frame: Frame) -> (r: Dut)
        ensures
            r@ == self@.received_frame(frame@),
    {
        let received = if self.received < u64::MAX {
            self.received + 1
        } else {
            self.received
        };
        let counted = Dut { received, ..self };
        match check(frame) {
            Err(kind) => counted.failed(kind),
            Ok(()) => match increment_frame(frame) {
                None => counted.failed(ErrorKind::MutatorFailed),
                Some(echo) => Dut { pending: Some(echo), ..counted },
            },
        }
    }

    /// How many frames were received so far.
    pub fn frames_received(&self) -> (n: u64)
        ensures
            n == self@.received,
    {
        self.received
    }

    /// Why the run has ended, if it has.
    pub fn fault(&self) -> (r: Option<ErrorKind>)
        ensures
            r == self@.fault,
    {
        self.fault
    }
}

/// A frame is accepted exactly when it carries the protocol identifier and
/// each byte of its payload is the byte before it plus one, modulo 256.
pub proof fn lemma_check_accepts_chains(f: FrameView)
    ensures
        checked(f) is Ok <==> f.id == CAN_MSG_ID && forall|i: int|
            0 < i < f.data.len() ==> #[trigger] f.data[i] == (f.data[i - 1] + 1) % 256,
{
}

/// A frame with any other identifier is rejected for its identifier,
/// whatever its payload.
pub proof fn lemma_identifier_gate(f: FrameView)
    requires
        f.id != CAN_MSG_ID,
    ensures
        checked(f) matches Err(kind) && kind == ErrorKind::IdentifierMismatch,
{
}

/// The device ends its run only because reading or writing failed or
/// because a received frame did not pass the check: a valid frame that passes
/// always has an increment.
pub proof fn lemma_dut_faults(s: DutView, event: PortEventView)
    requires
        s.fault is None,
        event matches PortEventView::Received(f) ==> f.valid(),
    ensures
        s.step(event).fault matches Some(kind) ==> kind == ErrorKind::TransportReadFailed || kind
            == ErrorKind::TransportWriteFailed || kind == ErrorKind::IdentifierMismatch || kind
            == ErrorKind::PayloadChainMismatch,
{
}

/// Every frame that arrives while the device waits for one is counted,
/// whether it passes the check or not.
pub proof fn lemma_dut_counts_received_frames(s: DutView, f: FrameView)
    requires
        s.fault is None,
        s.pending is None,
    ensures
        s.step(PortEventView::Received(f)).received == counted(s.received),
{
}

} // verus!
