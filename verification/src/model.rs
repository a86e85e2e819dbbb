//! The mathematical model of a screencopy session: which manager handles are
//! bound, which frames are live, and how each operation changes that.

use crate::lifecycle::refusal;
use crate::lifecycle::CompletionToken;
use crate::lifecycle::FrameEvent;
use crate::lifecycle::FrameInput;
use crate::lifecycle::FrameView;
use crate::lifecycle::LifecycleError;
use crate::protocol::Action;
use crate::protocol::FrameRequest;
use crate::protocol::ManagerHandle;
use crate::protocol::ManagerRequest;
use crate::protocol::RequestError;
use vstd::prelude::*;

verus! {

/// The state of a session as a value.
pub struct SessionView {
    /// The bound manager handles: serial to owning client.
    pub managers: Map<u64, u64>,
    /// The live frames, by the serial of their token.
    pub frames: Map<u64, FrameView>,
    /// How many serials have been handed out; the next one to hand out.
    pub issued: u64,
}

impl SessionView {
    /// A session in which nothing is bound and whose first serial is `first`.
    pub open spec fn starting_at(first: u64) -> SessionView {
        SessionView { managers: Map::empty(), frames: Map::empty(), issued: first }
    }

    /// The session before anything was bound.
    pub open spec fn empty() -> SessionView {
        SessionView::starting_at(0)
    }

    /// What holds of every session: serials in use were handed out, and a live
    /// frame is filed under its own token and has been handed to the handler.
    pub open spec fn wf(self) -> bool {
        &&& forall|s: u64| #[trigger] self.managers.contains_key(s) ==> s < self.issued
        &&& forall|t: u64| #[trigger]
            self.frames.contains_key(t) ==> {
                &&& t < self.issued
                &&& self.frames[t].token.serial == t
                &&& !(self.frames[t].state is Created)
                &&& !(self.frames[t].state is Destroyed)
            }
    }

    /// `manager` is bound, to the client it names.
    pub open spec fn registered(self, manager: ManagerHandle) -> bool {
        self.managers.contains_key(manager.serial) && self.managers[manager.serial]
            == manager.client
    }

    /// The frame that `token` names is live.
    pub open spec fn live(self, token: CompletionToken) -> bool {
        self.frames.contains_key(token.serial)
    }

    /// The frame that `token` names is live and belongs to `client`.
    pub open spec fn owns(self, client: u64, token: CompletionToken) -> bool {
        self.live(token) && self.frames[token.serial].client == client
    }

    /// The serials of the handles that `client` has bound.
    pub open spec fn managers_of(self, client: u64) -> Set<u64> {
        Set::new(|s: u64| self.managers.contains_key(s) && self.managers[s] == client)
    }

    /// The live frames of `client`.
    pub open spec fn frames_of(self, client: u64) -> Map<u64, FrameView> {
        Map::new(
            |t: u64| self.frames.contains_key(t) && self.frames[t].client == client,
            |t: u64| self.frames[t],
        )
    }

    /// `token` was issued and its frame is gone.
    pub open spec fn retired(self, token: CompletionToken) -> bool {
        token.serial < self.issued && !self.live(token)
    }

    /// No serial is left to hand out.
    pub open spec fn exhausted(self) -> bool {
        self.issued == u64::MAX
    }

    /// A client binds the global.
    pub open spec fn bind(self, client: u64) -> (SessionView, Result<ManagerHandle, RequestError>) {
        if self.exhausted() {
            (self, Err(RequestError::Exhausted))
        } else {
            (
                SessionView {
                    managers: self.managers.insert(self.issued, client),
                    issued: (self.issued + 1) as u64,
                    ..self
                },
                Ok(ManagerHandle { client, serial: self.issued }),
            )
        }
    }

    /// Why `client` may not use `manager`, if it may not. A handle that names
    /// another client is refused whatever the session holds.
    pub open spec fn admission(self, client: u64, manager: ManagerHandle) -> Option<RequestError> {
        if manager.client != client {
            Some(RequestError::ForeignManager)
        } else if !self.registered(manager) {
            Some(RequestError::UnknownManager)
        } else {
            None
        }
    }

    /// A capture request of `client` that was admitted.
    pub open spec fn capture(self, client: u64, overlay_cursor: i32, output: u32) -> (
        SessionView,
        Result<Action, RequestError>,
    ) {
        if output == 0 {
            (self, Err(RequestError::MalformedRequest))
        } else if self.exhausted() {
            (self, Err(RequestError::Exhausted))
        } else {
            let token = CompletionToken { serial: self.issued };
            let pending = FrameView::created(token, client, output, overlay_cursor).step(
                FrameInput::Invoke,
            );
            (
                SessionView {
                    frames: self.frames.insert(self.issued, pending),
                    issued: (self.issued + 1) as u64,
                    ..self
                },
                Ok(Action::Capture { token, overlay_cursor, output }),
            )
        }
    }

    /// `client` sends `request` on `manager`.
    pub open spec fn handle_request(
        self,
        client: u64,
        manager: ManagerHandle,
        request: ManagerRequest,
    ) -> (SessionView, Result<Action, RequestError>) {
        match self.admission(client, manager) {
            Some(error) => (self, Err(error)),
            None => match request {
                ManagerRequest::CaptureOutput { overlay_cursor, output } => self.capture(
                    client,
                    overlay_cursor,
                    output,
                ),
                ManagerRequest::Destroy => (
                    SessionView { managers: self.managers.remove(manager.serial), ..self },
                    Ok(Action::Released),
                ),
                ManagerRequest::Unsupported => (self, Err(RequestError::UnsupportedRequest)),
            },
        }
    }

    /// `client` sends `request` on the frame that `token` names. A frame of
    /// another client is as good as none.
    pub open spec fn frame_request(
        self,
        client: u64,
        token: CompletionToken,
        request: FrameRequest,
    ) -> (SessionView, Result<(), RequestError>) {
        if !self.owns(client, token) {
            (self, Err(RequestError::UnknownFrame))
        } else {
            match request {
                FrameRequest::Copy { buffer } => {
                    let frame = self.frames[token.serial];
                    if buffer == 0 {
                        (self, Err(RequestError::MalformedRequest))
                    } else if refusal(frame.state, FrameInput::Copy { buffer }) is None {
                        (
                            SessionView {
                                frames: self.frames.insert(
                                    token.serial,
                                    frame.step(FrameInput::Copy { buffer }),
                                ),
                                ..self
                            },
                            Ok(()),
                        )
                    } else {
                        (self, Err(RequestError::FrameCompleted))
                    }
                },
                FrameRequest::Destroy => (
                    SessionView { frames: self.frames.remove(token.serial), ..self },
                    Ok(()),
                ),
                FrameRequest::Unsupported => (self, Err(RequestError::UnsupportedRequest)),
            }
        }
    }

    /// The capture handler reports `event` for the frame that `token` names.
    /// The event reaches the client exactly when the answer is `Ok`.
    pub open spec fn emit(self, token: CompletionToken, event: FrameEvent) -> (
        SessionView,
        Result<(), LifecycleError>,
    ) {
        if !self.live(token) {
            (self, Err(LifecycleError::Destroyed))
        } else {
            let frame = self.frames[token.serial];
            match refusal(frame.state, FrameInput::Emit(event)) {
                Some(error) => (self, Err(error)),
                None => (
                    SessionView {
                        frames: self.frames.insert(
                            token.serial,
                            frame.step(FrameInput::Emit(event)),
                        ),
                        ..self
                    },
                    Ok(()),
                ),
            }
        }
    }

    /// The display reports that the manager object is gone.
    pub open spec fn manager_destroyed(self, manager: ManagerHandle) -> SessionView {
        if self.registered(manager) {
            SessionView { managers: self.managers.remove(manager.serial), ..self }
        } else {
            self
        }
    }

    /// The display reports that the frame object is gone.
    pub open spec fn frame_destroyed(self, token: CompletionToken) -> SessionView {
        SessionView { frames: self.frames.remove(token.serial), ..self }
    }

    /// The connection of `client` ended: all that it owned is gone.
    pub open spec fn disconnect(self, client: u64) -> SessionView {
        SessionView {
            managers: Map::new(
                |s: u64| self.managers.contains_key(s) && self.managers[s] != client,
                |s: u64| self.managers[s],
            ),
            frames: Map::new(
                |t: u64| self.frames.contains_key(t) && self.frames[t].client != client,
                |t: u64| self.frames[t],
            ),
            issued: self.issued,
        }
    }
}

/// Everything that can happen to a session.
pub enum SessionInput {
    /// A client binds the global.
    Bind { client: u64 },
    /// A client sends a request on a manager handle.
    Request { client: u64, manager: ManagerHandle, request: ManagerRequest },
    /// A client sends a request on a frame.
    FrameRequest { client: u64, token: CompletionToken, frame_request: FrameRequest },
    /// The capture handler reports an event for a frame.
    Emit { token: CompletionToken, event: FrameEvent },
    /// The display reports that a manager object is gone.
    ManagerDestroyed { manager: ManagerHandle },
    /// The display reports that a frame object is gone.
    FrameDestroyed { token: CompletionToken },
    /// The connection of a client ended.
    Disconnect { client: u64 },
}

impl SessionView {
    /// The session after `input`.
    pub open spec fn step(self, input: SessionInput) -> SessionView {
        match input {
            SessionInput::Bind { client } => self.bind(client).0,
            SessionInput::Request { client, manager, request } => self.handle_request(
                client,
                manager,
                request,
            ).0,
            SessionInput::FrameRequest { client, token, frame_request } => self.frame_request(
                client,
                token,
                frame_request,
            ).0,
            SessionInput::Emit { token, event } => self.emit(token, event).0,
            SessionInput::ManagerDestroyed { manager } => self.manager_destroyed(manager),
            SessionInput::FrameDestroyed { token } => self.frame_destroyed(token),
            SessionInput::Disconnect { client } => self.disconnect(client),
        }
    }

    /// The session after `inputs`, in order.
    pub open spec fn run(self, inputs: Seq<SessionInput>) -> SessionView
        decreases inputs.len(),
    {
        if inputs.len() == 0 {
            self
        } else {
            self.run(inputs.drop_last()).step(inputs.last())
        }
    }
}

} // verus!
