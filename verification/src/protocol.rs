//! The values that cross the protocol boundary: handles, requests, and what
//! the dispatcher answers.

use crate::lifecycle::CompletionToken;
use vstd::prelude::*;

verus! {

/// The highest version of the manager interface that is advertised.
pub const MANAGER_VERSION: u32 = 3;

/// The manager object of one client: what a client gets when it binds the
/// screencopy global, and what it issues capture requests through.
#[derive(Clone, Copy, Debug, PartialEq, Eq, Structural)]
pub struct ManagerHandle {
    /// The client that bound the handle.
    pub client: u64,
    /// Tells the handle from every other handle that was ever bound.
    pub serial: u64,
}

/// A request that arrives on a manager handle.
#[derive(Clone, Copy, Debug, PartialEq, Eq, Structural)]
pub enum ManagerRequest {
    /// Capture the next frame of `output` into a new frame;
    /// `overlay_cursor` asks for the pointer to be part of the image.
    CaptureOutput { overlay_cursor: i32, output: u32 },
    /// The client releases the handle.
    Destroy,
    /// Any request that this layer does not serve.
    Unsupported,
}

/// A request that a client sends on one of its frames.
#[derive(Clone, Copy, Debug, PartialEq, Eq, Structural)]
pub enum FrameRequest {
    /// Supplies the buffer to fill.
    Copy { buffer: u32 },
    /// The client releases the frame.
    Destroy,
    /// Any request that this layer does not serve.
    Unsupported,
}

/// What the caller has to do after a manager request was accepted.
#[derive(Clone, Copy, Debug, PartialEq, Eq, Structural)]
pub enum Action {
    /// Invoke the capture handler, once, with these values. The frame is
    /// pending, and `token` names it for the handler's reports.
    Capture { token: CompletionToken, overlay_cursor: i32, output: u32 },
    /// The handle is gone; nothing is left to do.
    Released,
}

/// Why a request was turned down. Nothing changes when a request is turned
/// down.
#[derive(Clone, Copy, Debug, PartialEq, Eq, Structural)]
pub enum RequestError {
    /// The manager handle names another client than the one that sent the
    /// request.
    ForeignManager,
    /// The manager handle is not bound: it was released or never existed.
    UnknownManager,
    /// The request is none that this layer serves.
    UnsupportedRequest,
    /// An argument names the null object where an object is required.
    MalformedRequest,
    /// The client has no such frame: the frame was destroyed, never existed,
    /// or belongs to another client.
    UnknownFrame,
    /// The frame already has its outcome and takes no buffer any more.
    FrameCompleted,
    /// No further handle or frame can be allocated.
    Exhausted,
}

impl RequestError {
    /// A protocol violation ends the connection of the client that committed
    /// it. Exhaustion is no violation: it fails the one request.
    pub open spec fn is_violation(self) -> bool {
        !(self is Exhausted)
    }

    /// The code under which the error is posted to the client: that of an
    /// invalid object, of an invalid method, or of exhausted memory.
    pub open spec fn code(self) -> u32 {
        match self {
            RequestError::UnknownManager => 0,
            RequestError::ForeignManager => 0,
            RequestError::UnknownFrame => 0,
            RequestError::FrameCompleted => 0,
            RequestError::UnsupportedRequest => 1,
            RequestError::MalformedRequest => 1,
            RequestError::Exhausted => 2,
        }
    }

    pub fn wire_code(&self) -> (code: u32)
        ensures
            code == self.code(),
    {
        match self {
            RequestError::UnsupportedRequest => 1,
            RequestError::MalformedRequest => 1,
            RequestError::Exhausted => 2,
            _ => 0,
        }
    }

    /// Whether the offending client has to be disconnected.
    pub fn terminates_client(&self) -> (yes: bool)
        ensures
            yes == self.is_violation(),
    {
        match self {
            RequestError::Exhausted => false,
            _ => true,
        }
    }
}

} // verus!
