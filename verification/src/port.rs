//! The boundary between a role and its transport port. A role never touches
//! the port: it asks its caller for one action at a time and is told what
//! came of it.

use vstd::prelude::*;
use crate::error::ErrorKind;
use crate::frame::{Frame, FrameView};

verus! {

/// The identifier that the host puts on every frame it generates.
pub const CAN_MSG_ID: u32 = 0x77;

/// One more in a count that stops at the largest `u64`.
pub open spec fn counted(n: u64) -> u64 {
    if n < u64::MAX {
        (n + 1) as u64
    } else {
        n
    }
}

/// What came of the action that a role asked for.
#[derive(Clone, Copy, Debug, PartialEq, Eq)]
pub enum PortEvent {
    /// The frame was written to the port.
    Sent,
    /// Writing the frame failed.
    SendFailed,
    /// A frame was read from the port.
    Received(Frame),
    /// Reading from the port failed.
    ReceiveFailed,
}

/// Mathematical value of a `PortEvent`.
pub enum PortEventView {
    Sent,
    SendFailed,
    Received(FrameView),
    ReceiveFailed,
}

impl View for PortEvent {
    type V = PortEventView;

    open spec fn view(&self) -> PortEventView {
        match *self {
            PortEvent::Sent => PortEventView::Sent,
            PortEvent::SendFailed => PortEventView::SendFailed,
            PortEvent::Received(f) => PortEventView::Received(f@),
            PortEvent::ReceiveFailed => PortEventView::ReceiveFailed,
        }
    }
}

/// What a role asks its caller to do next.
#[derive(Clone, Copy, Debug, PartialEq, Eq)]
pub enum PortAction {
    /// Write `frame` to the port and, once it is written, wait for
    /// `pause_ms` milliseconds. Answered by `Sent` or `SendFailed`.
    Send { frame: Frame, pause_ms: u64 },
    /// Block until a frame arrives. Answered by `Received` or `ReceiveFailed`.
    Receive,
    /// The run is over, for the given reason.
    Stop(ErrorKind),
}

/// Mathematical value of a `PortAction`.
pub enum PortActionView {
    Send { frame: FrameView, pause_ms: u64 },
    Receive,
    Stop(ErrorKind),
}

impl View for PortAction {
    type V = PortActionView;

    open spec fn view(&self) -> PortActionView {
        match *self {
            PortAction::Send { frame, pause_ms } => PortActionView::Send { frame: frame@, pause_ms },
            PortAction::Receive => PortActionView::Receive,
            PortAction::Stop(kind) => PortActionView::Stop(kind),
        }
    }
}

} // verus!
