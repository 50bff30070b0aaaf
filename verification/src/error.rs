//! What can end a run of the echo test, and the errors that the two roles
//! hand to their callers.

use vstd::prelude::*;

verus! {

/// The conditions that end a run. Each is fatal: nothing is retried.
#[derive(Clone, Copy, Debug, PartialEq, Eq, Structural)]
pub enum ErrorKind {
    /// The port could not be opened or set up.
    TransportOpenFailed,
    /// Reading a frame from the port failed.
    TransportReadFailed,
    /// Writing a frame to the port failed.
    TransportWriteFailed,
    /// A frame could not be built from an identifier and a payload.
    FrameConstructionFailed,
    /// A frame does not carry the identifier of the protocol.
    IdentifierMismatch,
    /// The payload of a frame is not a chain of bytes that each follow the one before.
    PayloadChainMismatch,
    /// A received frame is not the one that the window of the host expects.
    WindowMismatch,
    /// The next frame of the sequence could not be derived.
    MutatorFailed,
}

/// An error of the host, carrying a message for the user.
#[derive(Debug)]
pub struct HostError {
    details: String,
}

impl View for HostError {
    type V = Seq<char>;

    closed spec fn view(&self) -> Seq<char> {
        self.details@
    }
}

impl HostError {
    /// An error with the given message.
    pub fn new(msg: &str) -> (e: HostError)
        ensures
            e@ == msg@,
    {
        HostError { details: msg.to_owned() }
    }

    /// The message.
    pub fn message(&self) -> (s: String)
        ensures
            s@ == self@,
    {
        self.details.clone()
    }
}

/// An error of the device under test, carrying a message for the user.
#[derive(Debug)]
pub struct DutError {
    details: String,
}

impl View for DutError {
    type V = Seq<char>;

    closed spec fn view(&self) -> Seq<char> {
        self.details@
    }
}

impl DutError {
    /// An error with the given message.
    pub fn new(msg: &str) -> (e: DutError)
        ensures
            e@ == msg@,
    {
        DutError { details: msg.to_owned() }
    }

    /// The message.
    pub fn message(&self) -> (s: String)
        ensures
            s@ == self@,
    {
        self.details.clone()
    }
}

} // verus!
