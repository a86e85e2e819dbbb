//! The life of one capture frame.
//!
//! A frame is created by a capture request, handed to the capture handler
//! exactly once, and then either settles in one terminal state (ready or
//! failed) or is destroyed by its client. Whatever the handler reports after
//! the frame has settled or has been destroyed is refused, so a client sees at
//! most one outcome per frame and nothing after it released the frame.

use vstd::prelude::*;

verus! {

/// Where a frame stands in its life.
#[derive(Clone, Copy, Debug, PartialEq, Eq, Structural)]
pub enum FrameState {
    /// Constructed; the capture handler has not been invoked yet.
    Created,
    /// The handler has been invoked and the capture is in progress.
    Pending,
    /// The capture succeeded and the client was told so.
    Ready,
    /// The capture could not be completed and the client was told so.
    Failed,
    /// The client released the frame.
    Destroyed,
}

impl FrameState {
    /// Ready and failed are the terminal states.
    pub open spec fn is_terminal(self) -> bool {
        self is Ready || self is Failed
    }

    /// A frame that still waits for its outcome.
    pub open spec fn is_open(self) -> bool {
        self is Created || self is Pending
    }

    pub fn terminal(&self) -> (yes: bool)
        ensures
            yes == self.is_terminal(),
    {
        match self {
            FrameState::Ready => true,
            FrameState::Failed => true,
            _ => false,
        }
    }
}

/// Why a capture failed.
#[derive(Clone, Copy, Debug, PartialEq, Eq, Structural)]
pub enum FailureReason {
    /// No more specific reason is known.
    Unspecified,
    /// The buffer supplied by the client does not meet the announced constraints.
    BufferConstraints,
    /// The output is no longer available.
    Stopped,
}

/// What a frame can tell its client.
#[derive(Clone, Copy, Debug, PartialEq, Eq, Structural)]
pub enum FrameEvent {
    /// Buffer requirements of the frame.
    Buffer { format: u32, width: u32, height: u32, stride: u32 },
    /// All supported buffer descriptions have been sent.
    BufferDone,
    /// Transform flags of the captured image.
    Flags { flags: u32 },
    /// A rectangle that changed since the previous capture.
    Damage { x: u32, y: u32, width: u32, height: u32 },
    /// The capture succeeded; carries the presentation time.
    Ready { tv_sec_hi: u32, tv_sec_lo: u32, tv_nsec: u32 },
    /// The capture failed.
    Failed { reason: FailureReason },
}

impl FrameEvent {
    /// Ready and failed are the terminal events: each settles the frame.
    pub open spec fn is_terminal(self) -> bool {
        self is Ready || self is Failed
    }

    pub fn terminal(&self) -> (yes: bool)
        ensures
            yes == self.is_terminal(),
    {
        match self {
            FrameEvent::Ready { .. } => true,
            FrameEvent::Failed { .. } => true,
            _ => false,
        }
    }
}

/// Why a frame refused an input.
#[derive(Clone, Copy, Debug, PartialEq, Eq, Structural)]
pub enum LifecycleError {
    /// The handler has not been invoked for this frame yet.
    NotInvoked,
    /// The handler has already been invoked for this frame.
    AlreadyInvoked,
    /// The frame has already reached a terminal state.
    AlreadyCompleted,
    /// The frame is gone: its client destroyed it, or there never was one.
    Destroyed,
}

/// Everything that can happen to a frame.
pub enum FrameInput {
    /// The capture handler is invoked for the frame.
    Invoke,
    /// The handler reports an event for the client.
    Emit(FrameEvent),
    /// The client supplies the buffer to fill.
    Copy { buffer: u32 },
    /// The client releases the frame.
    Destroy,
}

/// The state that follows `state` on `input`. A refused input leaves the
/// state as it is.
pub open spec fn next_state(state: FrameState, input: FrameInput) -> FrameState {
    match (state, input) {
        (_, FrameInput::Destroy) => FrameState::Destroyed,
        (FrameState::Created, FrameInput::Invoke) => FrameState::Pending,
        (FrameState::Pending, FrameInput::Emit(FrameEvent::Ready { .. })) => FrameState::Ready,
        (FrameState::Pending, FrameInput::Emit(FrameEvent::Failed { .. })) => FrameState::Failed,
        _ => state,
    }
}

/// Why `input` is refused in `state`, if it is.
pub open spec fn refusal(state: FrameState, input: FrameInput) -> Option<LifecycleError> {
    match (state, input) {
        (_, FrameInput::Destroy) => None,
        (FrameState::Destroyed, _) => Some(LifecycleError::Destroyed),
        (FrameState::Created, FrameInput::Invoke) => None,
        (_, FrameInput::Invoke) => Some(LifecycleError::AlreadyInvoked),
        (FrameState::Created, FrameInput::Emit(_)) => Some(LifecycleError::NotInvoked),
        (FrameState::Pending, FrameInput::Emit(_)) => None,
        (_, FrameInput::Emit(_)) => Some(LifecycleError::AlreadyCompleted),
        (FrameState::Created, FrameInput::Copy { .. }) => None,
        (FrameState::Pending, FrameInput::Copy { .. }) => None,
        (_, FrameInput::Copy { .. }) => Some(LifecycleError::AlreadyCompleted),
    }
}

/// What a caller is told about `input` in `state`.
pub open spec fn verdict(state: FrameState, input: FrameInput) -> Result<(), LifecycleError> {
    match refusal(state, input) {
        Some(error) => Err(error),
        None => Ok(()),
    }
}

/// The event that reaches the client on `input` in `state`, if any: only a
/// pending frame lets an event through.
pub open spec fn delivers(state: FrameState, input: FrameInput) -> Option<FrameEvent> {
    match input {
        FrameInput::Emit(event) => if state is Pending {
            Some(event)
        } else {
            None
        },
        _ => None,
    }
}

/// Names one frame for the capture handler. The handler reports the frame's
/// events under this token; the token of a destroyed frame is never issued
/// again.
#[derive(Clone, Copy, Debug, PartialEq, Eq, Structural)]
pub struct CompletionToken {
    pub serial: u64,
}

/// The mathematical value of a [`CaptureFrame`].
pub struct FrameView {
    pub token: CompletionToken,
    pub client: u64,
    pub output: u32,
    pub overlay_cursor: i32,
    pub state: FrameState,
    pub buffer: Option<u32>,
}

impl FrameView {
    /// A frame as its capture request makes it.
    pub open spec fn created(
        token: CompletionToken,
        client: u64,
        output: u32,
        overlay_cursor: i32,
    ) -> FrameView {
        FrameView {
            token,
            client,
            output,
            overlay_cursor,
            state: FrameState::Created,
            buffer: None,
        }
    }

    /// The frame after `input`. Only the state and the supplied buffer ever
    /// change.
    pub open spec fn step(self, input: FrameInput) -> FrameView {
        FrameView {
            state: next_state(self.state, input),
            buffer: match input {
                FrameInput::Copy { buffer } => if self.state.is_open() {
                    Some(buffer)
                } else {
                    self.buffer
                },
                _ => self.buffer,
            },
            ..self
        }
    }

    /// Two values describe the same capture request: they agree in all that is
    /// fixed when the frame is made.
    pub open spec fn same_request(self, other: FrameView) -> bool {
        &&& self.token == other.token
        &&& self.client == other.client
        &&& self.output == other.output
        &&& self.overlay_cursor == other.overlay_cursor
    }
}

/// One capture request in flight or completed.
#[derive(Clone, Copy, Debug)]
pub struct CaptureFrame {
    token: CompletionToken,
    client: u64,
    output: u32,
    overlay_cursor: i32,
    state: FrameState,
    buffer: Option<u32>,
}

impl View for CaptureFrame {
    type V = FrameView;

    closed spec fn view(&self) -> FrameView {
        FrameView {
            token: self.token,
            client: self.client,
            output: self.output,
            overlay_cursor: self.overlay_cursor,
            state: self.state,
            buffer: self.buffer,
        }
    }
}

impl CaptureFrame {
    /// Makes the frame of a capture request of `client`: `output` is the
    /// protocol id of the output to capture, and `overlay_cursor` the client's
    /// cursor flag as it came over the wire.
    pub fn new(
        token: CompletionToken,
        client: u64,
        output: u32,
        overlay_cursor: i32,
    ) -> (frame: CaptureFrame)
        ensures
            frame@ == FrameView::created(token, client, output, overlay_cursor),
    {
        CaptureFrame {
            token,
            client,
            output,
            overlay_cursor,
            state: FrameState::Created,
            buffer: None,
        }
    }

    pub fn token(&self) -> (token: CompletionToken)
        ensures
            token == self@.token,
    {
        self.token
    }

    pub fn client(&self) -> (client: u64)
        ensures
            client == self@.client,
    {
        self.client
    }

    pub fn output(&self) -> (output: u32)
        ensures
            output == self@.output,
    {
        self.output
    }

    pub fn overlay_cursor(&self) -> (flag: i32)
        ensures
            flag == self@.overlay_cursor,
    {
        self.overlay_cursor
    }

    pub fn state(&self) -> (state: FrameState)
        ensures
            state == self@.state,
    {
        self.state
    }

    pub fn buffer(&self) -> (buffer: Option<u32>)
        ensures
            buffer == self@.buffer,
    {
        self.buffer
    }

    /// Records that the capture handler is invoked for this frame. Succeeds
    /// once, on a created frame, which becomes pending.
    pub fn invoke(&mut self) -> (outcome: Result<(), LifecycleError>)
        ensures
            final(self)@ == old(self)@.step(FrameInput::Invoke),
            outcome == verdict(old(self)@.state, FrameInput::Invoke),
    {
        match self.state {
            FrameState::Created => {
                self.state = FrameState::Pending;
                Ok(())
            },
            FrameState::Destroyed => Err(LifecycleError::Destroyed),
            _ => Err(LifecycleError::AlreadyInvoked),
        }
    }

    /// Passes an event of the handler on to the client. Succeeds on a pending
    /// frame only; a terminal event settles the frame.
    pub fn emit(&mut self, event: FrameEvent) -> (outcome: Result<(), LifecycleError>)
        ensures
            final(self)@ == old(self)@.step(FrameInput::Emit(event)),
            outcome == verdict(old(self)@.state, FrameInput::Emit(event)),
            outcome is Ok <==> delivers(old(self)@.state, FrameInput::Emit(event)) == Some(event),
    {
        match self.state {
            FrameState::Pending => {
                match event {
                    FrameEvent::Ready { .. } => {
                        self.state = FrameState::Ready;
                    },
                    FrameEvent::Failed { .. } => {
                        self.state = FrameState::Failed;
                    },
                    _ => {},
                }
                Ok(())
            },
            FrameState::Created => Err(LifecycleError::NotInvoked),
            FrameState::Destroyed => Err(LifecycleError::Destroyed),
            _ => Err(LifecycleError::AlreadyCompleted),
        }
    }

    /// Takes the buffer that the client supplies. Succeeds while the frame
    /// waits for its outcome.
    pub fn copy(&mut self, buffer: u32) -> (outcome: Result<(), LifecycleError>)
        ensures
            final(self)@ == old(self)@.step(FrameInput::Copy { buffer }),
            outcome == verdict(old(self)@.state, FrameInput::Copy { buffer }),
    {
        match self.state {
            FrameState::Created => {
                self.buffer = Some(buffer);
                Ok(())
            },
            FrameState::Pending => {
                self.buffer = Some(buffer);
                Ok(())
            },
            FrameState::Destroyed => Err(LifecycleError::Destroyed),
            _ => Err(LifecycleError::AlreadyCompleted),
        }
    }

    /// Records that the client released the frame. Never refused.
    pub fn destroy(&mut self)
        ensures
            final(self)@ == old(self)@.step(FrameInput::Destroy),
            final(self)@.state is Destroyed,
    {
        self.state = FrameState::Destroyed;
    }
}

} // verus!
