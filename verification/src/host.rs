//! The host: it keeps a window of frames in flight, sends new frames while
//! the window has room, and otherwise checks each frame that arrives against
//! the window.

use vstd::prelude::*;
use crate::compare::{compare, compared, MismatchReason, Outcome};
use crate::error::{ErrorKind, HostError};
use crate::dut::checked;
use crate::frame::{bumped, frame_new, incremented, ConstructionError, Frame, FrameView};
use crate::port::{counted, PortAction, PortActionView, PortEvent, PortEventView, CAN_MSG_ID};
use crate::window::{Window, WindowView};

verus! {

/// The window size that the host uses when none is asked for.
pub const DEFAULT_INFLIGHT_COUNT: usize = 50;

/// The payload that the host generates at a given count: eight bytes that
/// start at the count and go up by one, with 0 following 255.
pub open spec fn payload(counter: u8) -> Seq<u8> {
    Seq::new(8, |i: int| ((counter + i) % 256) as u8)
}

/// The frame that the host generates at a given count.
pub open spec fn generated(counter: u8) -> FrameView {
    FrameView { id: CAN_MSG_ID, data: payload(counter), remote: false, extended: false }
}

/// The count after `counter`: one more, and 0 after 255.
pub open spec fn next_counter(counter: u8) -> u8 {
    ((counter + 1) % 256) as u8
}

/// The pause after the frame of a given count, in milliseconds: three when
/// the count that follows is a multiple of 33, else one.
pub open spec fn pause_after(counter: u8) -> u64 {
    if next_counter(counter) % 33 == 0 {
        3
    } else {
        1
    }
}

/// The message of a comparison that failed without tolerance.
pub open spec fn mismatch_text(reason: MismatchReason) -> Seq<char> {
    match reason {
        MismatchReason::Identifier => "ID mismatch!"@,
        MismatchReason::Payload => "Data byte mismatch!"@,
        MismatchReason::Flags => "Flag mismatch!"@,
    }
}

/// Mathematical value of the state of the host.
pub struct HostView {
    /// The frames in flight.
    pub window: WindowView,
    /// The count from which the next payload is generated.
    pub byte_counter: u8,
    /// The bound on the number of frames that the host was set up with.
    pub frame_count: usize,
    /// How many frames were fully verified so far.
    pub verified: u64,
    /// Why the run has ended, if it has.
    pub fault: Option<ErrorKind>,
}

impl HostView {
    /// The state before the first frame.
    pub open spec fn initial(inflight_count: usize, frame_count: usize) -> HostView {
        HostView {
            window: WindowView::empty(inflight_count as nat),
            byte_counter: 0,
            frame_count,
            verified: 0,
            fault: None,
        }
    }

    /// The window never holds more than its capacity.
    pub open spec fn wf(self) -> bool {
        self.window.wf()
    }

    /// The state in which the run has ended for the given reason. The
    /// window stays as it was.
    pub open spec fn failed(self, kind: ErrorKind) -> HostView {
        HostView { fault: Some(kind), ..self }
    }

    /// What the host asks for in this state: nothing more once the run has
    /// ended; to send the next generated frame while the window has room;
    /// else to receive.
    pub open spec fn action(self) -> PortActionView {
        if let Some(kind) = self.fault {
            PortActionView::Stop(kind)
        } else if !self.window.is_full() {
            PortActionView::Send {
                frame: generated(self.byte_counter),
                pause_ms: pause_after(self.byte_counter),
            }
        } else {
            PortActionView::Receive
        }
    }

    /// The state after the generated frame was sent: the frame is at the
    /// tail of the window and the count has moved on.
    pub open spec fn sent(self) -> HostView {
        HostView {
            window: self.window.pushed(generated(self.byte_counter)),
            byte_counter: next_counter(self.byte_counter),
            ..self
        }
    }

    /// The state after the host's own copy of a frame arrived. The copy
    /// must equal the oldest frame that still waits for its copy.
    pub open spec fn received_own(self, f: FrameView) -> HostView {
        match self.window.next_awaiting() {
            Some(expected) if compared(expected, f, 0) == Outcome::Match => HostView {
                window: self.window.confirmed_next(),
                ..self
            },
            _ => self.failed(ErrorKind::WindowMismatch),
        }
    }

    /// The state after the echo of the device under test arrived. The echo
    /// must equal the oldest frame of the window, incremented once, and that
    /// frame must have had its own copy matched; the frame then leaves the
    /// window.
    pub open spec fn received_echo(self, f: FrameView) -> HostView {
        match self.window.confirmed_head() {
            None => self.failed(ErrorKind::WindowMismatch),
            Some(expected) => match compared(expected, f, 1) {
                Outcome::Match => HostView {
                    window: self.window.popped(),
                    verified: counted(self.verified),
                    ..self
                },
                Outcome::Mismatch(_) => self.failed(ErrorKind::WindowMismatch),
                Outcome::Unavailable => self.failed(ErrorKind::MutatorFailed),
            },
        }
    }

    /// The count at which the frame at place `i` of the window was generated,
    /// given that the frames came one after the other.
    pub open spec fn counter_at(self, i: int) -> u8 {
        ((self.byte_counter - self.window.frames.len() + i) % 256) as u8
    }

    /// Whether the window holds the frames that were generated last, oldest first.
    pub open spec fn in_sequence(self) -> bool {
        forall|i: int|
            0 <= i < self.window.frames.len() ==> #[trigger] self.window.frames[i] == generated(
                self.counter_at(i),
            )
    }

    /// Whether `event` makes the host put the generated frame into the window.
    pub open spec fn sends_on(self, event: PortEventView) -> bool {
        self.fault is None && !self.window.is_full() && event == PortEventView::Sent
    }

    /// Whether `event` is the echo that makes the oldest frame leave the window.
    pub open spec fn verifies_on(self, event: PortEventView) -> bool {
        &&& self.fault is None
        &&& self.window.is_full()
        &&& event matches PortEventView::Received(f)
        &&& f.id != CAN_MSG_ID
        &&& self.window.confirmed_head() matches Some(expected)
        &&& compared(expected, f, 1) == Outcome::Match
    }

    /// The state after `event`. Once the run has ended nothing changes, and
    /// an event that does not answer the action asked for changes nothing.
    pub open spec fn step(self, event: PortEventView) -> HostView {
        if self.fault is Some {
            self
        } else if !self.window.is_full() {
            match event {
                PortEventView::Sent => self.sent(),
                PortEventView::SendFailed => self.failed(ErrorKind::TransportWriteFailed),
                _ => self,
            }
        } else {
            match event {
                PortEventView::Received(f) => if f.id == CAN_MSG_ID {
                    self.received_own(f)
                } else {
                    self.received_echo(f)
                },
                PortEventView::ReceiveFailed => self.failed(ErrorKind::TransportReadFailed),
                _ => self,
            }
        }
    }

    /// The state after a sequence of events, taken in order.
    pub open spec fn run(self, events: Seq<PortEventView>) -> HostView
        decreases events.len(),
    {
        if events.len() == 0 {
            self
        } else {
            self.step(events[0]).run(events.drop_first())
        }
    }

    /// The frames that enter the window during a sequence of events, in order.
    pub open spec fn transmitted(self, events: Seq<PortEventView>) -> Seq<FrameView>
        decreases events.len(),
    {
        if events.len() == 0 {
            Seq::empty()
        } else {
            let first = if self.sends_on(events[0]) {
                seq![generated(self.byte_counter)]
            } else {
                Seq::empty()
            };
            first + self.step(events[0]).transmitted(events.drop_first())
        }
    }

    /// The frames that leave the window during a sequence of events, in order.
    pub open spec fn retired(self, events: Seq<PortEventView>) -> Seq<FrameView>
        decreases events.len(),
    {
        if events.len() == 0 {
            Seq::empty()
        } else {
            let first = if self.verifies_on(events[0]) {
                seq![self.window.frames[0]]
            } else {
                Seq::empty()
            };
            first + self.step(events[0]).retired(events.drop_first())
        }
    }
}

/// The host, as a state machine over the events of its port.
#[derive(Debug)]
pub struct Host {
    window: Window,
    byte_counter: u8,
    frame_count: usize,
    verified: u64,
    fault: Option<ErrorKind>,
}

impl View for Host {
    type V = HostView;

    closed spec fn view(&self) -> HostView {
        HostView {
            window: self.window@,
            byte_counter: self.byte_counter,
            frame_count: self.frame_count,
            verified: self.verified,
            fault: self.fault,
        }
    }
}

/// Builds the frame that the host sends at a given count.
fn generate(counter: u8) -> (r: Result<Frame, ConstructionError>)
    ensures
        r matches Ok(f) && f@ == generated(counter),
{
    let mut data_bytes: [u8; 8] = [0u8; 8];
    let mut i: usize = 0;
    while i < 8
        invariant
            i <= 8,
            forall|j: int| 0 <= j < i ==> data_bytes[j] == payload(counter)[j],
        decreases 8 - i,
    {
        let counted_bytes: usize = counter as usize;
        let byte: u8 = if counted_bytes + i > 255 {
            (counted_bytes + i - 256) as u8
        } else {
            counter + i as u8
        };
        data_bytes[i] = byte;
        i += 1;
    }
    assert(data_bytes@ =~= payload(counter));
    Frame::new(CAN_MSG_ID, data_bytes.as_slice(), false, false)
}

impl Host {
    #[verifier::type_invariant]
    spec fn inv(self) -> bool {
        self.window@.wf()
    }

    /// A host with an empty window for `inflight_count` frames.
    pub fn new(inflight_count: usize, frame_count: usize) -> (host: Host)
        ensures
            host@ == HostView::initial(inflight_count, frame_count),
            host@.wf(),
    {
        Host {
            window: Window::new(inflight_count),
            byte_counter: 0,
            frame_count,
            verified: 0,
            fault: None,
        }
    }

    /// Compares a received frame with an expected one after `increment`
    /// increments of the expected one. Without increments a difference is an
    /// error; with increments it is the answer `false`, and the error is that
    /// the expected frame could not be computed.
    pub fn compare_frame(expected_frame: Frame, received_frame: Frame, increment: usize) -> (r:
        Result<bool, HostError>)
        ensures
            match compared(expected_frame@, received_frame@, increment as nat) {
                Outcome::Match => r matches Ok(b) && b,
                Outcome::Mismatch(reason) => if increment == 0 {
                    r matches Err(e) && e@ == mismatch_text(reason)
                } else {
                    r matches Ok(b) && !b
                },
                Outcome::Unavailable => r matches Err(e) && e@
                    == "Could not compare expected receive from DUT!"@,
            },
    {
        match compare(expected_frame, received_frame, increment) {
            Outcome::Match => Ok(true),
            Outcome::Mismatch(reason) => if increment == 0 {
                match reason {
                    MismatchReason::Identifier => Err(HostError::new("ID mismatch!")),
                    MismatchReason::Payload => Err(HostError::new("Data byte mismatch!")),
                    MismatchReason::Flags => Err(HostError::new("Flag mismatch!")),
                }
            } else {
                Ok(false)
            },
            Outcome::Unavailable => Err(
                HostError::new("Could not compare expected receive from DUT!"),
            ),
        }
    }

    /// What the caller is to do next.
    pub fn action(&self) -> (r: PortAction)
        ensures
            r@ == self@.action(),
            self@.wf(),
    {
        proof {
            use_type_invariant(self);
        }
        if let Some(kind) = self.fault {
            PortAction::Stop(kind)
        } else if !self.window.is_full() {
            match generate(self.byte_counter) {
                Ok(frame) => {
                    let next: u8 = if self.byte_counter == 255 {
                        0
                    } else {
                        self.byte_counter + 1
                    };
                    let pause_ms: u64 = if next % 33 == 0 {
                        3
                    } else {
                        1
                    };
                    PortAction::Send { frame, pause_ms }
                },
                Err(_) => PortAction::Stop(ErrorKind::FrameConstructionFailed),
            }
        } else {
            PortAction::Receive
        }
    }

    /// Takes in what came of the last action. Gives the state after it and
    /// what to do next.
    pub fn step(self, event: PortEvent) -> (r: (Host, PortAction))
        ensures
            r.0@ == self@.step(event@),
            r.1@ == r.0@.action(),
            r.0@.wf(),
    {
        let next = if self.fault.is_some() {
            self
        } else if !self.window.is_full() {
            match event {
                PortEvent::Sent => self.sent(),
                PortEvent::SendFailed => self.failed(ErrorKind::TransportWriteFailed),
                _ => self,
            }
        } else {
            match event {
                PortEvent::Received(frame) => if frame.id() == CAN_MSG_ID {
                    self.received_own(frame)
                } else {
                    self.received_echo(frame)
                },
                PortEvent::ReceiveFailed => self.failed(ErrorKind::TransportReadFailed),
                _ => self,
            }
        };
        let action = next.action();
        (next, action)
    }

    /// Takes in a recorded sequence of events, one after the other. Gives
    /// the state after the last one and what to do next.
    pub fn run(self, events: &[PortEvent]) -> (r: (Host, PortAction))
        ensures
            r.0@ == self@.run(events@.map_values(|e: PortEvent| e@)),
            r.1@ == r.0@.action(),
            r.0@.wf(),
    {
        let ghost trace = events@.map_values(|e: PortEvent| e@);
        let mut state = self;
        let mut i: usize = 0;
        assert(trace.skip(0) =~= trace);
        while i < events.len()
            invariant
                i <= events.len(),
                trace == events@.map_values(|e: PortEvent| e@),
                state@.run(trace.skip(i as int)) == self@.run(trace),
            decreases events.len() - i,
        {
            assert(trace.skip(i as int).drop_first() =~= trace.skip(i + 1));
            let (next, _) = state.step(events[i]);
            state = next;
            i += 1;
        }
        let action = state.action();
        (state, action)
    }

    fn failed(self, kind: ErrorKind) -> (r: Host)
        ensures
            r@ == self@.failed(kind),
    {
        proof {
            use_type_invariant(&self);
        }
        Host { fault: Some(kind), ..self }
    }

    fn sent(self) -> (r: Host)
        requires
            !self@.window.is_full(),
        ensures
            r@ == self@.sent(),
    {
        match generate(self.byte_counter) {
            Ok(frame) => {
                let (window, _) = self.window.push(frame);
                let byte_counter: u8 = if self.byte_counter == 255 {
                    0
                } else {
                    self.byte_counter + 1
                };
                Host {
                    window,
                    byte_counter,
                    frame_count: self.frame_count,
                    verified: self.verified,
                    fault: self.fault,
                }
            },
            Err(_) => self.failed(ErrorKind::FrameConstructionFailed),
        }
    }

    fn received_own(self, frame: Frame) -> (r: Host)
        ensures
            r@ == self@.received_own(frame@),
    {
        match self.window.next_awaiting() {
            Some(expected) => match compare(expected, frame, 0) {
                Outcome::Match => {
                    let (window, _) = self.window.confirm_next();
                    Host {
                        window,
                        byte_counter: self.byte_counter,
                        frame_count: self.frame_count,
                        verified: self.verified,
                        fault: self.fault,
                    }
                },
                _ => self.failed(ErrorKind::WindowMismatch),
            },
            None => self.failed(ErrorKind::WindowMismatch),
        }
    }

    fn received_echo(self, frame: Frame) -> (r: Host)
        ensures
            r@ == self@.received_echo(frame@),
    {
        match self.window.confirmed_head() {
            None => self.failed(ErrorKind::WindowMismatch),
            Some(expected) => match compare(expected, frame, 1) {
                Outcome::Match => {
                    let (window, _) = self.window.pop();
                    let verified: u64 = if self.verified < u64::MAX {
                        self.verified + 1
                    } else {
                        self.verified
                    };
                    Host {
                        window,
                        byte_counter: self.byte_counter,
                        frame_count: self.frame_count,
                        verified,
                        fault: self.fault,
                    }
                },
                Outcome::Mismatch(_) => self.failed(ErrorKind::WindowMismatch),
                Outcome::Unavailable => self.failed(ErrorKind::MutatorFailed),
            },
        }
    }

    /// The window size that the host was set up with.
    pub fn inflight_count(&self) -> (n: usize)
        ensures
            n == self@.window.capacity,
    {
        self.window.capacity()
    }

    /// The bound on the number of frames that the host was set up with.
    pub fn frame_count(&self) -> (n: usize)
        ensures
            n == self@.frame_count,
    {
        self.frame_count
    }

    /// The frames in flight.
    pub fn window(&self) -> (w: &Window)
        ensures
            w@ == self@.window,
            self@.wf(),
    {
        proof {
            use_type_invariant(self);
        }
        &self.window
    }

    /// The count from which the next payload is generated.
    pub fn byte_counter(&self) -> (n: u8)
        ensures
            n == self@.byte_counter,
    {
        self.byte_counter
    }

    /// How many frames are in flight.
    pub fn in_flight(&self) -> (n: usize)
        ensures
            n == self@.window.frames.len(),
    {
        self.window.len()
    }

    /// How many frames were fully verified so far.
    pub fn frames_verified(&self) -> (n: u64)
        ensures
            n == self@.verified,
    {
        self.verified
    }

    /// Why the run has ended, if it has.
    pub fn fault(&self) -> (r: Option<ErrorKind>)
        ensures
            r == self@.fault,
    {
        self.fault
    }
}

/// Every generated frame can be built, is a valid standard data frame with
/// the protocol identifier, and has eight payload bytes that count up from
/// the count, modulo 256.
pub proof fn lemma_generated_frame(counter: u8)
    ensures
        frame_new(CAN_MSG_ID, payload(counter), false, false) matches Ok(f) && f == generated(
            counter,
        ),
        generated(counter).valid(),
        generated(counter).data.len() == 8,
        forall|i: int| 0 <= i < 8 ==> generated(counter).data[i] == (counter + i) % 256,
{
}

/// One event never takes the window over its capacity, and never changes
/// the capacity.
pub proof fn lemma_step_keeps_window_bounded(s: HostView, event: PortEventView)
    requires
        s.wf(),
    ensures
        s.step(event).wf(),
        s.step(event).window.capacity == s.window.capacity,
        s.step(event).window.frames.len() <= s.window.capacity,
{
}

/// One event changes the frames of the window in one of three ways: not at
/// all, by one generated frame more at the tail, or by the oldest frame less
/// at the head.
pub proof fn lemma_step_is_fifo(s: HostView, event: PortEventView)
    requires
        s.wf(),
    ensures
        s.sends_on(event) ==> s.step(event).window.frames == s.window.frames.push(
            generated(s.byte_counter),
        ),
        s.verifies_on(event) ==> s.window.frames.len() > 0 && s.step(event).window.frames
            == s.window.frames.drop_first(),
        !s.sends_on(event) && !s.verifies_on(event) ==> s.step(event).window.frames
            == s.window.frames,
{
}

/// Whatever events arrive, the window never holds more frames than its capacity.
pub proof fn lemma_run_keeps_window_bounded(s: HostView, events: Seq<PortEventView>)
    requires
        s.wf(),
    ensures
        s.run(events).wf(),
        s.run(events).window.capacity == s.window.capacity,
        s.run(events).window.frames.len() <= s.window.capacity,
    decreases events.len(),
{
    if events.len() > 0 {
        lemma_step_keeps_window_bounded(s, events[0]);
        lemma_run_keeps_window_bounded(s.step(events[0]), events.drop_first());
    }
}

/// Frames leave the window in the order in which they entered it: the
/// frames that were in the window at the start, followed by those that were
/// sent since, are the frames that have left followed by those still in it.
pub proof fn lemma_run_is_fifo(s: HostView, events: Seq<PortEventView>)
    requires
        s.wf(),
    ensures
        s.window.frames + s.transmitted(events) == s.retired(events) + s.run(
            events,
        ).window.frames,
    decreases events.len(),
{
    if events.len() > 0 {
        let next = s.step(events[0]);
        let rest = events.drop_first();
        lemma_step_keeps_window_bounded(s, events[0]);
        lemma_step_is_fifo(s, events[0]);
        lemma_run_is_fifo(next, rest);
        let enters = if s.sends_on(events[0]) {
            seq![generated(s.byte_counter)]
        } else {
            Seq::empty()
        };
        let leaves = if s.verifies_on(events[0]) {
            seq![s.window.frames[0]]
        } else {
            Seq::empty()
        };
        let before = s.window.frames;
        let after = next.window.frames;
        let sent = next.transmitted(rest);
        let gone = next.retired(rest);
        let last = next.run(rest).window.frames;
        assert(before + enters =~= leaves + after);
        assert(before + (enters + sent) =~= (before + enters) + sent);
        assert((leaves + after) + sent =~= leaves + (after + sent));
        assert(leaves + (gone + last) =~= (leaves + gone) + last);
    } else {
        let none = Seq::<FrameView>::empty();
        assert(s.window.frames + none =~= none + s.window.frames);
    }
}

/// A window that holds the frames generated last, oldest first, still does
/// so after any event.
pub proof fn lemma_step_keeps_sequence(s: HostView, event: PortEventView)
    requires
        s.wf(),
        s.in_sequence(),
    ensures
        s.step(event).in_sequence(),
{
    let next = s.step(event);
    if s.sends_on(event) {
        assert forall|i: int| 0 <= i < next.window.frames.len() implies #[trigger] next.window.frames[i]
            == generated(next.counter_at(i)) by {
            if i < s.window.frames.len() {
                assert(next.window.frames[i] == s.window.frames[i]);
                assert(next.counter_at(i) == s.counter_at(i));
            }
        }
    } else if s.verifies_on(event) {
        assert forall|i: int| 0 <= i < next.window.frames.len() implies #[trigger] next.window.frames[i]
            == generated(next.counter_at(i)) by {
            assert(next.window.frames[i] == s.window.frames[i + 1]);
            assert(next.counter_at(i) == s.counter_at(i + 1));
        }
    } else {
        lemma_step_is_fifo(s, event);
        assert forall|i: int| 0 <= i < next.window.frames.len() implies #[trigger] next.window.frames[i]
            == generated(next.counter_at(i)) by {
            assert(next.window.frames[i] == s.window.frames[i]);
        }
    }
}

/// A new host is well formed, and its empty window holds the frames
/// generated last: none.
pub proof fn lemma_new_host_is_in_sequence(inflight_count: usize, frame_count: usize)
    ensures
        HostView::initial(inflight_count, frame_count).wf(),
        HostView::initial(inflight_count, frame_count).in_sequence(),
{
}

/// A window that holds the frames generated last, oldest first, still does
/// so after any sequence of events.
pub proof fn lemma_run_keeps_sequence(s: HostView, events: Seq<PortEventView>)
    requires
        s.wf(),
        s.in_sequence(),
    ensures
        s.run(events).in_sequence(),
    decreases events.len(),
{
    if events.len() > 0 {
        lemma_step_keeps_window_bounded(s, events[0]);
        lemma_step_keeps_sequence(s, events[0]);
        lemma_run_keeps_sequence(s.step(events[0]), events.drop_first());
    }
}

/// A host whose window holds generated frames ends its run only because
/// reading or writing failed or because a received frame was not the one
/// expected: it never lacks a frame to send or an increment to compare with.
pub proof fn lemma_host_faults(s: HostView, event: PortEventView)
    requires
        s.wf(),
        s.in_sequence(),
        s.fault is None,
    ensures
        s.step(event).fault matches Some(kind) ==> kind == ErrorKind::TransportReadFailed || kind
            == ErrorKind::TransportWriteFailed || kind == ErrorKind::WindowMismatch,
{
    if s.window.frames.len() > 0 {
        assert(s.window.frames[0] == generated(s.counter_at(0)));
        lemma_echo_round_trip(s.counter_at(0));
    }
    reveal_with_fuel(compared, 2);
}

/// An event that ends the run leaves the window, the count and the number
/// of verified frames as they were.
pub proof fn lemma_fault_keeps_window(s: HostView, event: PortEventView)
    requires
        s.fault is None,
        s.step(event).fault is Some,
    ensures
        s.step(event).window == s.window,
        s.step(event).byte_counter == s.byte_counter,
        s.step(event).verified == s.verified,
{
}

/// While the host receives, a frame with another identifier than the
/// protocol's that is not the oldest frame of the window incremented once
/// ends the run, and the oldest frame stays in the window.
pub proof fn lemma_mismatch_is_fatal(s: HostView, f: FrameView)
    requires
        s.fault is None,
        s.window.is_full(),
        f.id != CAN_MSG_ID,
        s.window.frames.len() > 0 ==> compared(s.window.frames[0], f, 1) != Outcome::Match,
    ensures
        s.step(PortEventView::Received(f)).fault is Some,
        s.step(PortEventView::Received(f)).window == s.window,
{
}

/// The echo of a generated frame is what the host expects: the frame
/// passes the check of the device under test, its increment carries another
/// identifier than the protocol's, and the comparison with a tolerance of one
/// succeeds on it.
pub proof fn lemma_echo_round_trip(counter: u8)
    ensures
        checked(generated(counter)) is Ok,
        incremented(generated(counter)) matches Some(echo) && echo.id != CAN_MSG_ID && compared(
            generated(counter),
            echo,
            1,
        ) == Outcome::Match,
        compared(generated(counter), generated(counter), 0) == Outcome::Match,
{
    reveal_with_fuel(compared, 2);
    let f = generated(counter);
    assert forall|i: int| 0 < i < f.data.len() implies #[trigger] f.data[i] == bumped(
        f.data[i - 1],
    ) by {}
}

} // verus!
