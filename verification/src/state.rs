//! The screencopy global of a display: its id, the session that it serves,
//! and the entry points through which the display and the compositor drive
//! it.

use crate::clients::distinct;
use crate::clients::lemma_number;
use crate::clients::number;
use crate::clients::seen;
use crate::clients::ClientTable;
use crate::lifecycle::CompletionToken;
use crate::lifecycle::FrameEvent;
use crate::lifecycle::LifecycleError;
use crate::model::SessionView;
use crate::protocol::Action;
use crate::protocol::FrameRequest;
use crate::protocol::ManagerHandle;
use crate::protocol::ManagerRequest;
use crate::protocol::RequestError;
use crate::protocol::MANAGER_VERSION;
use crate::session::Session;
use crate::wayland::create_manager_global;
use crate::wayland::init_frame;
use crate::wayland::init_manager;
use crate::wayland::reading;
use crate::wayland::refuse_manager;
use crate::wayland::split_request;
use crate::wayland::ManagerCall;
use vstd::prelude::*;
use wayland_protocols_wlr::screencopy::v1::server::zwlr_screencopy_frame_v1::ZwlrScreencopyFrameV1;
use wayland_protocols_wlr::screencopy::v1::server::zwlr_screencopy_manager_v1::Request;
use wayland_protocols_wlr::screencopy::v1::server::zwlr_screencopy_manager_v1::ZwlrScreencopyManagerV1;
use wayland_server::backend::ClientId;
use wayland_server::backend::GlobalId;
use wayland_server::protocol::wl_output::WlOutput;
use wayland_server::DataInit;
use wayland_server::Dispatch;
use wayland_server::Display;
use wayland_server::GlobalDispatch;
use wayland_server::New;

verus! {

/// The request that a manager call stands for. Capturing a region is not
/// served.
pub open spec fn request_of(call: ManagerCall) -> ManagerRequest {
    match call {
        ManagerCall::CaptureOutput { overlay_cursor, output_id, .. } => {
            ManagerRequest::CaptureOutput { overlay_cursor, output: output_id }
        },
        ManagerCall::CaptureOutputRegion => ManagerRequest::Unsupported,
        ManagerCall::Destroy => ManagerRequest::Destroy,
        ManagerCall::Other => ManagerRequest::Unsupported,
    }
}

/// A capture that was accepted: what the capture handler is invoked with, and
/// what the session knows of it.
#[derive(Debug)]
pub struct Capture {
    /// The frame object, which carries `token` as its user data.
    pub frame: ZwlrScreencopyFrameV1,
    /// Names the frame in the session.
    pub token: CompletionToken,
    /// The cursor flag of the request.
    pub overlay_cursor: i32,
    /// The output to capture.
    pub output: WlOutput,
    /// The protocol id of `output`.
    pub output_id: u32,
}

/// What is left to do once a manager call has been served.
#[derive(Debug)]
pub enum Accepted {
    /// A frame was made: the capture handler is to be invoked, once, with the
    /// frame, the cursor flag and the output of the capture.
    Capture(Capture),
    /// The manager was released. Nothing is left to do.
    Released,
    /// No frame could be allocated: the client is to be told on `frame` that
    /// the capture failed. The frame carries a token that names no frame of
    /// the session, now or later.
    Failed { frame: ZwlrScreencopyFrameV1 },
    /// The call violates the protocol: `error` is to be posted, which ends the
    /// client's connection.
    Refused { error: RequestError },
}

/// The mathematical value of a [`ScreencopyState`].
pub struct StateView {
    /// The id of the advertised global.
    pub global: GlobalId,
    /// The clients seen so far, each at the place of its number.
    pub clients: Seq<ClientId>,
    /// The session.
    pub session: SessionView,
}

impl StateView {
    /// What holds of every state: each client that was seen has one number
    /// that fits the machine, and the session is sound.
    pub open spec fn wf(self) -> bool {
        &&& distinct(self.clients)
        &&& self.clients.len() <= usize::MAX
        &&& self.session.wf()
    }
}

/// Screencopy global state.
#[derive(Debug)]
pub struct ScreencopyState {
    id: GlobalId,
    clients: ClientTable,
    session: Session,
}

impl View for ScreencopyState {
    type V = StateView;

    closed spec fn view(&self) -> StateView {
        StateView { global: self.id, clients: self.clients@, session: self.session@ }
    }
}

/// The frame of `capture` waits in `session` for its capture, and holds the
/// cursor flag and the output of `capture`.
pub open spec fn awaits_capture(session: SessionView, capture: Capture) -> bool {
    &&& session.live(capture.token)
    &&& session.frames[capture.token.serial].token == capture.token
    &&& session.frames[capture.token.serial].state is Pending
    &&& session.frames[capture.token.serial].overlay_cursor == capture.overlay_cursor
    &&& session.frames[capture.token.serial].output == capture.output_id
}

/// What the manager call `call` is answered with where the session answers
/// the request that it stands for with `answer`.
pub open spec fn answers(
    call: ManagerCall,
    answer: Result<Action, RequestError>,
    accepted: Accepted,
) -> bool {
    match answer {
        Ok(Action::Capture { token, .. }) => {
            &&& accepted matches Accepted::Capture(capture)
            &&& call matches ManagerCall::CaptureOutput { overlay_cursor, output, output_id, .. }
            &&& capture.token == token
            &&& capture.overlay_cursor == overlay_cursor
            &&& capture.output == output
            &&& capture.output_id == output_id
        },
        Ok(Action::Released) => accepted is Released,
        Err(RequestError::Exhausted) => accepted is Failed,
        Err(error) => accepted == (Accepted::Refused { error }),
    }
}

/// `served` is what the manager call `call` of `client` on `manager` is
/// answered with in the state `before`, and, but for an accepted capture,
/// `after` holds the session that the call leaves.
pub open spec fn serves(
    before: StateView,
    after: StateView,
    client: ClientId,
    manager: ManagerHandle,
    call: ManagerCall,
    served: Accepted,
) -> bool {
    let key = number(seen(before.clients, client), client);
    let (session, answer) = before.session.handle_request(key, manager, request_of(call));
    &&& answers(call, answer, served)
    &&& served is Capture || after.session == session
}

/// What the compositor supplies: access to the screencopy state that it
/// keeps, and the capture itself.
pub trait ScreencopyHandler {
    /// The value of the screencopy state that the compositor keeps. An
    /// implementation that is verified says which it is; of any other it is
    /// taken on trust that `screencopy_state` hands out one and the same
    /// state.
    open spec fn screencopy(&self) -> StateView {
        arbitrary()
    }

    /// Gets the [`ScreencopyState`] as a mutable reference: the state that
    /// the compositor keeps, and no other.
    fn screencopy_state(&mut self) -> (state: &mut ScreencopyState)
        ensures
            state@ == old(self).screencopy(),
            final(self).screencopy() == final(state)@,
    ;

    /// Called once for each capture request that was accepted: the client asks
    /// for `output` to be captured into `frame`, with the cursor if
    /// `overlay_cursor` is not zero. The frame is pending in the session and
    /// holds these values. The capture may be done at once or later; its
    /// events are reported through [`ScreencopyState::emit`] under the token
    /// that `frame` carries as its user data.
    fn capture_output(
        &mut self,
        frame: &ZwlrScreencopyFrameV1,
        overlay_cursor: i32,
        output: &WlOutput,
    )
        requires
            exists|capture: Capture|
                {
                    &&& #[trigger] awaits_capture(old(self).screencopy().session, capture)
                    &&& capture.frame == *frame
                    &&& capture.overlay_cursor == overlay_cursor
                    &&& capture.output == *output
                },
    ;
}

/// Invokes the capture handler for a capture whose frame waits in the session
/// of `state`, with the frame, the cursor flag and the output of that capture.
/// What the handler does to `state` is its own affair.
fn hand_over<D>(state: &mut D, capture: &Capture) where D: ScreencopyHandler
    requires
        awaits_capture(old(state).screencopy().session, *capture),
{
    state.capture_output(&capture.frame, capture.overlay_cursor, &capture.output);
}

impl ScreencopyState {
    /// Advertises the screencopy global on `display`, with the highest
    /// version of the manager interface, and makes its state, in which nothing
    /// is bound yet. Which id the global gets is for the display to say; the
    /// state keeps the id as [`ScreencopyState::with_global`] does.
    ///
    /// `D` is the state of the compositor: it implements
    /// [`ScreencopyHandler`] and hands the display's calls for the manager and
    /// the frame interface on to [`ScreencopyState::bind`],
    /// [`ScreencopyState::request`] and the other entry points of this type.
    pub fn new<D>(display: &Display<D>) -> (state: ScreencopyState) where
        D: GlobalDispatch<ZwlrScreencopyManagerV1, ()> + Dispatch<
            ZwlrScreencopyManagerV1,
            ManagerHandle,
        > + ScreencopyHandler + 'static,

        ensures
            state@.wf(),
            state@.clients == Seq::<ClientId>::empty(),
            state@.session == SessionView::empty(),
    {
        ScreencopyState::with_global(create_manager_global::<D>(display, MANAGER_VERSION))
    }

    /// The state of the screencopy global that a display advertised under
    /// `id`: it keeps `id`, and nothing is bound yet.
    pub fn with_global(id: GlobalId) -> (state: ScreencopyState)
        ensures
            state@.wf(),
            state@.global == id,
            state@.clients == Seq::<ClientId>::empty(),
            state@.session == SessionView::empty(),
    {
        ScreencopyState { id, clients: ClientTable::new(), session: Session::new() }
    }

    /// Gets the id of the screencopy manager global.
    pub fn global(&self) -> (id: GlobalId)
        ensures
            id == self@.global,
    {
        self.id.clone()
    }

    /// The session, to look into.
    pub fn session(&self) -> (session: &Session)
        ensures
            session@ == self@.session,
    {
        &self.session
    }

    /// Binds the global for the client `client`: see [`Session::bind`].
    pub fn bind_client(&mut self, client: ClientId) -> (bound: Result<ManagerHandle, RequestError>)
        ensures
            old(self)@.wf(),
            final(self)@.wf(),
            final(self)@.global == old(self)@.global,
            final(self)@.clients == seen(old(self)@.clients, client),
            final(self)@.session == old(self)@.session.bind(
                number(final(self)@.clients, client),
            ).0,
            bound == old(self)@.session.bind(number(final(self)@.clients, client)).1,
    {
        let key = self.clients.key_of(client);
        proof {
            lemma_number(self.clients@, client, key);
        }
        self.session.bind(key)
    }

    /// Serves a manager call of `client` on `manager`: see
    /// [`Session::handle_request`]. The new frame of an accepted capture
    /// request is initialized with its token; where no frame could be
    /// allocated it is initialized with a token that names no frame.
    pub fn accept<D>(
        &mut self,
        client: ClientId,
        manager: ManagerHandle,
        call: ManagerCall,
        data_init: &mut DataInit<'_, D>,
    ) -> (accepted: Accepted) where D: Dispatch<ZwlrScreencopyFrameV1, CompletionToken> + 'static
        ensures
            old(self)@.wf(),
            final(self)@.wf(),
            final(self)@.global == old(self)@.global,
            final(self)@.clients == seen(old(self)@.clients, client),
            final(self)@.session == old(self)@.session.handle_request(
                number(final(self)@.clients, client),
                manager,
                request_of(call),
            ).0,
            answers(
                call,
                old(self)@.session.handle_request(
                    number(final(self)@.clients, client),
                    manager,
                    request_of(call),
                ).1,
                accepted,
            ),
            accepted matches Accepted::Capture(capture) ==> awaits_capture(
                final(self)@.session,
                capture,
            ),
            serves(old(self)@, final(self)@, client, manager, call, accepted),
    {
        let key = self.clients.key_of(client);
        proof {
            lemma_number(self.clients@, client, key);
        }
        match call {
            ManagerCall::CaptureOutput { frame, overlay_cursor, output, output_id } => {
                let request = ManagerRequest::CaptureOutput { overlay_cursor, output: output_id };
                match self.session.handle_request(key, manager, request) {
                    Ok(Action::Capture { token, .. }) => {
                        let live = init_frame(data_init, frame, token);
                        Accepted::Capture(
                            Capture { frame: live, token, overlay_cursor, output, output_id },
                        )
                    },
                    Ok(Action::Released) => Accepted::Released,
                    Err(RequestError::Exhausted) => {
                        let nothing = CompletionToken { serial: u64::MAX };
                        let live = init_frame(data_init, frame, nothing);
                        Accepted::Failed { frame: live }
                    },
                    Err(error) => Accepted::Refused { error },
                }
            },
            ManagerCall::Destroy => {
                match self.session.handle_request(key, manager, ManagerRequest::Destroy) {
                    Ok(_) => Accepted::Released,
                    Err(error) => Accepted::Refused { error },
                }
            },
            _ => {
                match self.session.handle_request(key, manager, ManagerRequest::Unsupported) {
                    Ok(_) => Accepted::Released,
                    Err(error) => Accepted::Refused { error },
                }
            },
        }
    }

    /// Serves a request of `client` on the frame that `token` names: see
    /// [`Session::frame_request`].
    pub fn frame_request(
        &mut self,
        client: ClientId,
        token: CompletionToken,
        request: FrameRequest,
    ) -> (answer: Result<(), RequestError>)
        ensures
            old(self)@.wf(),
            final(self)@.wf(),
            final(self)@.global == old(self)@.global,
            final(self)@.clients == seen(old(self)@.clients, client),
            final(self)@.session == old(self)@.session.frame_request(
                number(final(self)@.clients, client),
                token,
                request,
            ).0,
            answer == old(self)@.session.frame_request(
                number(final(self)@.clients, client),
                token,
                request,
            ).1,
    {
        let key = self.clients.key_of(client);
        proof {
            lemma_number(self.clients@, client, key);
        }
        self.session.frame_request(key, token, request)
    }

    /// Takes an event that the capture handler reports for the frame that
    /// `token` names: see [`Session::emit`]. The event is to be sent to the
    /// client exactly when the answer is `Ok`.
    pub fn emit(&mut self, token: CompletionToken, event: FrameEvent) -> (answer: Result<
        (),
        LifecycleError,
    >)
        ensures
            old(self)@.wf(),
            final(self)@.wf(),
            final(self)@.global == old(self)@.global,
            final(self)@.clients == old(self)@.clients,
            final(self)@.session == old(self)@.session.emit(token, event).0,
            answer == old(self)@.session.emit(token, event).1,
    {
        proof {
            use_type_invariant(&self.clients);
            self.clients.lemma_sound();
        }
        self.session.emit(token, event)
    }

    /// Takes note that the display destroyed the manager object that carried
    /// `manager`.
    pub fn manager_destroyed(&mut self, manager: ManagerHandle)
        ensures
            old(self)@.wf(),
            final(self)@.wf(),
            final(self)@.global == old(self)@.global,
            final(self)@.clients == old(self)@.clients,
            final(self)@.session == old(self)@.session.manager_destroyed(manager),
    {
        proof {
            use_type_invariant(&self.clients);
            self.clients.lemma_sound();
        }
        self.session.manager_destroyed(manager)
    }

    /// Takes note that the display destroyed the frame object that carried
    /// `token`.
    pub fn frame_destroyed(&mut self, token: CompletionToken)
        ensures
            old(self)@.wf(),
            final(self)@.wf(),
            final(self)@.global == old(self)@.global,
            final(self)@.clients == old(self)@.clients,
            final(self)@.session == old(self)@.session.frame_destroyed(token),
    {
        proof {
            use_type_invariant(&self.clients);
            self.clients.lemma_sound();
        }
        self.session.frame_destroyed(token)
    }

    /// Takes note that the connection of `client` ended: see
    /// [`Session::disconnect`].
    pub fn disconnect(&mut self, client: ClientId)
        ensures
            old(self)@.wf(),
            final(self)@.wf(),
            final(self)@.global == old(self)@.global,
            final(self)@.clients == seen(old(self)@.clients, client),
            final(self)@.session == old(self)@.session.disconnect(
                number(final(self)@.clients, client),
            ),
    {
        let key = self.clients.key_of(client);
        proof {
            lemma_number(self.clients@, client, key);
        }
        self.session.disconnect(key)
    }

    /// Answers a client that binds the global: the new manager object is
    /// initialized with a handle that is scoped to `client`, or, where no
    /// handle can be allocated, the bind is answered with a protocol error.
    /// The session of `state` changes as [`Session::bind`] says for the number
    /// of `client`.
    pub fn bind<D>(
        state: &mut D,
        client: ClientId,
        resource: New<ZwlrScreencopyManagerV1>,
        data_init: &mut DataInit<'_, D>,
    ) where D: Dispatch<ZwlrScreencopyManagerV1, ManagerHandle> + ScreencopyHandler + 'static
        ensures
            old(state).screencopy().wf(),
            final(state).screencopy().wf(),
            final(state).screencopy().global == old(state).screencopy().global,
            final(state).screencopy().clients == seen(old(state).screencopy().clients, client),
            final(state).screencopy().session == old(state).screencopy().session.bind(
                number(final(state).screencopy().clients, client),
            ).0,
    {
        match state.screencopy_state().bind_client(client) {
            Ok(handle) => init_manager(data_init, resource, handle),
            Err(error) => {
                let message = "no screencopy manager can be allocated";
                proof {
                    reveal_strlit("no screencopy manager can be allocated");
                }
                refuse_manager(data_init, resource, error.wire_code(), message)
            },
        }
    }

    /// Serves a request that `client` sent on the manager object that carries
    /// `manager`, and invokes the capture handler, once, where a capture
    /// request was accepted: with the frame that was made for the request,
    /// and with the cursor flag and the output that the frame holds in the
    /// session. What is returned tells what is left to the caller: nothing
    /// after `Capture` and `Released`.
    ///
    /// The request is answered as [`ScreencopyState::accept`] answers its
    /// reading, and the state changes as it says there, but for what the
    /// handler does to it after a capture was accepted. A request on a handle of another client,
    /// or on a handle that is not bound, is refused whatever it asks for, and a
    /// request that is refused or that fails changes nothing.
    pub fn request<D>(
        state: &mut D,
        client: ClientId,
        manager: ManagerHandle,
        request: Request,
        data_init: &mut DataInit<'_, D>,
    ) -> (served: Accepted) where
        D: Dispatch<ZwlrScreencopyFrameV1, CompletionToken> + ScreencopyHandler + 'static,

        ensures
            ({
                let before = old(state).screencopy();
                let after = final(state).screencopy();
                let key = number(seen(before.clients, client), client);
                &&& before.wf()
                &&& !(served is Capture) ==> after.wf()
                &&& serves(before, after, client, manager, reading(request), served)
                &&& !(served is Capture) ==> after.global == before.global && after.clients
                    == seen(before.clients, client)
                &&& served is Refused || served is Failed ==> after.session == before.session
                &&& manager.client != key ==> served == (Accepted::Refused {
                    error: RequestError::ForeignManager,
                })
                &&& manager.client == key && !before.session.registered(manager) ==> served == (
                Accepted::Refused { error: RequestError::UnknownManager })
                &&& served is Released ==> {
                    &&& before.session.registered(manager)
                    &&& !after.session.registered(manager)
                    &&& after.session.frames == before.session.frames
                }
                &&& served is Failed ==> before.session.exhausted()
            }),
    {
        let call = split_request(request);
        let ghost asked = call;
        let ghost before = state.screencopy();
        let screencopy = state.screencopy_state();
        let accepted = screencopy.accept(client, manager, call, data_init);
        proof {
            assert(serves(before, state.screencopy(), client, manager, asked, accepted));
        }
        match &accepted {
            Accepted::Capture(capture) => hand_over(state, capture),
            _ => {},
        }
        proof {
            assert(serves(before, state.screencopy(), client, manager, asked, accepted));
        }
        accepted
    }
}

} // verus!
