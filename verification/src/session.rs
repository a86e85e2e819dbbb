//! The session: the manager handles that clients have bound and the frames
//! that are live, with the operations that the display and the capture
//! handler drive.

use crate::lifecycle::CaptureFrame;
use crate::lifecycle::CompletionToken;
use crate::lifecycle::FrameEvent;
use crate::lifecycle::FrameInput;
use crate::lifecycle::FrameView;
use crate::lifecycle::LifecycleError;
use crate::model::SessionView;
use crate::protocol::Action;
use crate::protocol::FrameRequest;
use crate::protocol::ManagerHandle;
use crate::protocol::ManagerRequest;
use crate::protocol::RequestError;
use crate::table::ascending;
use crate::table::below;
use crate::table::index;
use crate::table::lemma_absent;
use crate::table::lemma_entry;
use crate::table::lemma_push;
use crate::table::lemma_remove;
use crate::table::lemma_select_next;
use crate::table::lemma_selected_map;
use crate::table::lemma_update;
use crate::table::place;
use crate::table::selected;
use vstd::prelude::*;

verus! {

spec fn manager_key() -> spec_fn(ManagerHandle) -> u64 {
    |manager: ManagerHandle| manager.serial
}

spec fn manager_owner() -> spec_fn(ManagerHandle) -> u64 {
    |manager: ManagerHandle| manager.client
}

spec fn frame_key() -> spec_fn(CaptureFrame) -> u64 {
    |frame: CaptureFrame| frame@.token.serial
}

spec fn frame_value() -> spec_fn(CaptureFrame) -> FrameView {
    |frame: CaptureFrame| frame@
}

/// No frame of `frames` waits for the handler to be invoked or is destroyed.
spec fn all_invoked(frames: Seq<CaptureFrame>) -> bool {
    forall|i: int|
        0 <= i < frames.len() ==> !((#[trigger] frames[i])@.state is Created) && !(
        frames[i]@.state is Destroyed)
}

proof fn lemma_remove_keeps(frames: Seq<CaptureFrame>, i: int)
    requires
        0 <= i < frames.len(),
        all_invoked(frames),
    ensures
        all_invoked(frames.remove(i)),
{
    let shorter = frames.remove(i);
    assert forall|a: int| 0 <= a < shorter.len() implies !((#[trigger] shorter[a])@.state
        is Created) && !(shorter[a]@.state is Destroyed) by {
        let a0 = if a < i { a } else { a + 1 };
        assert(shorter[a] == frames[a0]);
    }
}

proof fn lemma_update_keeps(frames: Seq<CaptureFrame>, i: int, frame: CaptureFrame)
    requires
        0 <= i < frames.len(),
        all_invoked(frames),
        !(frame@.state is Created),
        !(frame@.state is Destroyed),
    ensures
        all_invoked(frames.update(i, frame)),
{
}

/// Where the handle with `serial` stands in `managers`.
fn find_manager(managers: &Vec<ManagerHandle>, serial: u64) -> (at: Option<usize>)
    ensures
        match at {
            Some(i) => i < managers@.len() && managers@[i as int].serial == serial,
            None => forall|i: int| 0 <= i < managers@.len() ==> (#[trigger] managers@[i]).serial
                != serial,
        },
{
    let mut i: usize = 0;
    while i < managers.len()
        invariant
            i <= managers@.len(),
            forall|j: int| 0 <= j < i ==> (#[trigger] managers@[j]).serial != serial,
        decreases managers@.len() - i,
    {
        if managers[i].serial == serial {
            return Some(i);
        }
        i = i + 1;
    }
    None
}

/// Where the frame with the token `serial` stands in `frames`.
fn find_frame(frames: &Vec<CaptureFrame>, serial: u64) -> (at: Option<usize>)
    ensures
        match at {
            Some(i) => i < frames@.len() && frames@[i as int]@.token.serial == serial,
            None => forall|i: int| 0 <= i < frames@.len() ==> (#[trigger] frames@[i])@.token.serial
                != serial,
        },
{
    let mut i: usize = 0;
    while i < frames.len()
        invariant
            i <= frames@.len(),
            forall|j: int| 0 <= j < i ==> (#[trigger] frames@[j])@.token.serial != serial,
        decreases frames@.len() - i,
    {
        if frames[i].token().serial == serial {
            return Some(i);
        }
        i = i + 1;
    }
    None
}

spec fn manager_of_other(client: u64) -> spec_fn(ManagerHandle) -> bool {
    |manager: ManagerHandle| manager.client != client
}

spec fn frame_of_other(client: u64) -> spec_fn(CaptureFrame) -> bool {
    |frame: CaptureFrame| frame@.client != client
}

/// The handles of `managers` that `client` does not own, in their order.
fn managers_of_others(managers: &Vec<ManagerHandle>, client: u64) -> (out: (
    Vec<ManagerHandle>,
    Ghost<Seq<int>>,
))
    ensures
        selected(
            managers@,
            out.0@,
            out.1@,
            manager_of_other(client),
            managers@.len() as int,
        ),
{
    let mut kept: Vec<ManagerHandle> = Vec::new();
    let ghost mut origin: Seq<int> = Seq::empty();
    let mut i: usize = 0;
    while i < managers.len()
        invariant
            i <= managers@.len(),
            selected(managers@, kept@, origin, manager_of_other(client), i as int),
        decreases managers@.len() - i,
    {
        proof {
            lemma_select_next(managers@, kept@, origin, manager_of_other(client), i as int);
        }
        if managers[i].client != client {
            kept.push(managers[i]);
            proof {
                origin = origin.push(i as int);
            }
        }
        i = i + 1;
    }
    (kept, Ghost(origin))
}

/// The frames of `frames` that `client` does not own, in their order.
fn frames_of_others(frames: &Vec<CaptureFrame>, client: u64) -> (out: (
    Vec<CaptureFrame>,
    Ghost<Seq<int>>,
))
    ensures
        selected(frames@, out.0@, out.1@, frame_of_other(client), frames@.len() as int),
{
    let mut kept: Vec<CaptureFrame> = Vec::new();
    let ghost mut origin: Seq<int> = Seq::empty();
    let mut i: usize = 0;
    while i < frames.len()
        invariant
            i <= frames@.len(),
            selected(frames@, kept@, origin, frame_of_other(client), i as int),
        decreases frames@.len() - i,
    {
        proof {
            lemma_select_next(frames@, kept@, origin, frame_of_other(client), i as int);
        }
        if frames[i].client() != client {
            kept.push(frames[i]);
            proof {
                origin = origin.push(i as int);
            }
        }
        i = i + 1;
    }
    (kept, Ghost(origin))
}

/// The bound manager handles and the live frames of one display.
#[derive(Debug)]
pub struct Session {
    managers: Vec<ManagerHandle>,
    frames: Vec<CaptureFrame>,
    issued: u64,
}

impl View for Session {
    type V = SessionView;

    closed spec fn view(&self) -> SessionView {
        SessionView {
            managers: index(self.managers@, manager_key(), manager_owner()),
            frames: index(self.frames@, frame_key(), frame_value()),
            issued: self.issued,
        }
    }
}

impl Session {
    #[verifier::type_invariant]
    spec fn inv(self) -> bool {
        &&& ascending(self.managers@, manager_key())
        &&& below(self.managers@, manager_key(), self.issued)
        &&& ascending(self.frames@, frame_key())
        &&& below(self.frames@, frame_key(), self.issued)
        &&& all_invoked(self.frames@)
    }

    proof fn lemma_inv_is_wf(self)
        requires
            self.inv(),
        ensures
            self@.wf(),
    {
        let managers = self@.managers;
        let frames = self@.frames;
        assert forall|s: u64| #[trigger] managers.contains_key(s) implies s < self.issued by {
            let at = place(self.managers@, manager_key(), s);
            assert(manager_key()(self.managers@[at]) == s);
        }
        assert forall|t: u64| #[trigger] frames.contains_key(t) implies {
            &&& t < self.issued
            &&& frames[t].token.serial == t
            &&& !(frames[t].state is Created)
            &&& !(frames[t].state is Destroyed)
        } by {
            let at = place(self.frames@, frame_key(), t);
            assert(frame_key()(self.frames@[at]) == t);
        }
    }

    /// A session in which nothing is bound.
    pub fn new() -> (session: Session)
        ensures
            session@ == SessionView::empty(),
            session@.wf(),
    {
        Session::starting_at(0)
    }

    /// A session in which nothing is bound and that hands out `first` as its
    /// first serial. Serials run up to `u64::MAX`, which is never handed out.
    pub fn starting_at(first: u64) -> (session: Session)
        ensures
            session@ == SessionView::starting_at(first),
            session@.wf(),
    {
        let session = Session { managers: Vec::new(), frames: Vec::new(), issued: first };
        proof {
            assert(session@.managers =~= Map::<u64, u64>::empty());
            assert(session@.frames =~= Map::<u64, FrameView>::empty());
        }
        session
    }

    /// Binds the global for `client`. Succeeds unless no serial is left; the
    /// new handle is scoped to `client` and differs from every handle bound
    /// before.
    pub fn bind(&mut self, client: u64) -> (bound: Result<ManagerHandle, RequestError>)
        ensures
            old(self)@.wf(),
            final(self)@.wf(),
            final(self)@ == old(self)@.bind(client).0,
            bound == old(self)@.bind(client).1,
            bound is Ok <==> !old(self)@.exhausted(),
            bound matches Ok(handle) ==> {
                &&& handle.client == client
                &&& handle.serial == old(self)@.issued
                &&& !old(self)@.managers.contains_key(handle.serial)
                &&& final(self)@.registered(handle)
            },
            bound is Err ==> final(self)@ == old(self)@,
    {
        proof {
            use_type_invariant(&*self);
            self.lemma_inv_is_wf();
        }
        if self.issued == u64::MAX {
            return Err(RequestError::Exhausted);
        }
        let handle = ManagerHandle { client, serial: self.issued };
        let mut managers: Vec<ManagerHandle> = Vec::new();
        core::mem::swap(&mut self.managers, &mut managers);
        self.issued = self.issued + 1;
        proof {
            lemma_push(managers@, manager_key(), manager_owner(), handle);
        }
        managers.push(handle);
        self.managers = managers;
        proof {
            use_type_invariant(&*self);
            self.lemma_inv_is_wf();
        }
        Ok(handle)
    }
    /// A capture request of a client that may make it.
    fn capture(&mut self, client: u64, overlay_cursor: i32, output: u32) -> (answer: Result<
        Action,
        RequestError,
    >)
        ensures
            final(self)@ == old(self)@.capture(client, overlay_cursor, output).0,
            answer == old(self)@.capture(client, overlay_cursor, output).1,
    {
        proof {
            use_type_invariant(&*self);
        }
        if output == 0 {
            return Err(RequestError::MalformedRequest);
        }
        if self.issued == u64::MAX {
            return Err(RequestError::Exhausted);
        }
        let token = CompletionToken { serial: self.issued };
        let mut made = CaptureFrame::new(token, client, output, overlay_cursor);
        let _ = made.invoke();
        let mut frames: Vec<CaptureFrame> = Vec::new();
        core::mem::swap(&mut self.frames, &mut frames);
        self.issued = self.issued + 1;
        proof {
            lemma_push(frames@, frame_key(), frame_value(), made);
        }
        frames.push(made);
        self.frames = frames;
        Ok(Action::Capture { token, overlay_cursor, output })
    }

    /// Serves a request that `client` sent on `manager`.
    ///
    /// The request is admitted if `client` is the client that `manager` names
    /// and `manager` is bound. A capture request then makes one new frame,
    /// pending, that
    /// holds the cursor flag and the output of the request as they came, and
    /// the answer tells the caller to invoke the capture handler with the same
    /// values. A request that is turned down changes nothing.
    pub fn handle_request(
        &mut self,
        client: u64,
        manager: ManagerHandle,
        request: ManagerRequest,
    ) -> (answer: Result<Action, RequestError>)
        ensures
            old(self)@.wf(),
            final(self)@.wf(),
            final(self)@ == old(self)@.handle_request(client, manager, request).0,
            answer == old(self)@.handle_request(client, manager, request).1,
            answer is Err ==> final(self)@ == old(self)@,
            manager.client != client ==> answer == Err::<Action, RequestError>(
                RequestError::ForeignManager,
            ),
            answer matches Ok(Action::Capture { token, overlay_cursor, output }) ==> {
                &&& request == (ManagerRequest::CaptureOutput { overlay_cursor, output })
                &&& !old(self)@.live(token)
                &&& final(self)@.frames == old(self)@.frames.insert(
                    token.serial,
                    FrameView::created(token, client, output, overlay_cursor).step(
                        FrameInput::Invoke,
                    ),
                )
            },
    {
        proof {
            use_type_invariant(&*self);
            self.lemma_inv_is_wf();
        }
        let at = find_manager(&self.managers, manager.serial);
        let answer = match at {
            None => {
                proof {
                    lemma_absent(self.managers@, manager_key(), manager_owner(), manager.serial);
                }
                if manager.client != client {
                    Err(RequestError::ForeignManager)
                } else {
                    Err(RequestError::UnknownManager)
                }
            },
            Some(i) => {
                proof {
                    lemma_entry(self.managers@, manager_key(), manager_owner(), i as int);
                }
                if manager.client != client {
                    Err(RequestError::ForeignManager)
                } else if self.managers[i].client != manager.client {
                    Err(RequestError::UnknownManager)
                } else {
                    match request {
                        ManagerRequest::CaptureOutput { overlay_cursor, output } => {
                            self.capture(client, overlay_cursor, output)
                        },
                        ManagerRequest::Destroy => {
                            let mut managers: Vec<ManagerHandle> = Vec::new();
                            core::mem::swap(&mut self.managers, &mut managers);
                            proof {
                                lemma_remove(
                                    managers@,
                                    manager_key(),
                                    manager_owner(),
                                    i as int,
                                );
                            }
                            managers.remove(i);
                            self.managers = managers;
                            Ok(Action::Released)
                        },
                        ManagerRequest::Unsupported => Err(
                            RequestError::UnsupportedRequest,
                        ),
                    }
                }
            },
        };
        proof {
            use_type_invariant(&*self);
            self.lemma_inv_is_wf();
        }
        answer
    }
    /// Serves a request that `client` sent on the frame that `token` names.
    ///
    /// The frame must be live and belong to `client`; a frame of another
    /// client is answered like one that does not exist. A supplied buffer is
    /// taken while the frame waits for its outcome; a destroy request removes
    /// the frame, so that whatever the handler reports for it later is
    /// dropped. A request that is turned down changes nothing.
    pub fn frame_request(
        &mut self,
        client: u64,
        token: CompletionToken,
        request: FrameRequest,
    ) -> (answer: Result<(), RequestError>)
        ensures
            old(self)@.wf(),
            final(self)@.wf(),
            final(self)@ == old(self)@.frame_request(client, token, request).0,
            answer == old(self)@.frame_request(client, token, request).1,
            answer is Err ==> final(self)@ == old(self)@,
            answer is Ok && request is Destroy ==> final(self)@.retired(token),
    {
        proof {
            use_type_invariant(&*self);
            self.lemma_inv_is_wf();
        }
        let at = find_frame(&self.frames, token.serial);
        let answer = match at {
            None => {
                proof {
                    lemma_absent(self.frames@, frame_key(), frame_value(), token.serial);
                }
                Err(RequestError::UnknownFrame)
            },
            Some(i) => {
                proof {
                    lemma_entry(self.frames@, frame_key(), frame_value(), i as int);
                }
                let mut frame = self.frames[i];
                if frame.client() != client {
                    Err(RequestError::UnknownFrame)
                } else {
                    match request {
                        FrameRequest::Copy { buffer } => {
                            if buffer == 0 {
                                Err(RequestError::MalformedRequest)
                            } else {
                                match frame.copy(buffer) {
                                    Ok(()) => {
                                        let mut frames: Vec<CaptureFrame> = Vec::new();
                                        core::mem::swap(&mut self.frames, &mut frames);
                                        proof {
                                            lemma_update(
                                                frames@,
                                                frame_key(),
                                                frame_value(),
                                                i as int,
                                                frame,
                                            );
                                            lemma_update_keeps(frames@, i as int, frame);
                                        }
                                        frames.set(i, frame);
                                        self.frames = frames;
                                        Ok(())
                                    },
                                    Err(_) => Err(RequestError::FrameCompleted),
                                }
                            }
                        },
                        FrameRequest::Destroy => {
                            let mut frames: Vec<CaptureFrame> = Vec::new();
                            core::mem::swap(&mut self.frames, &mut frames);
                            proof {
                                lemma_remove(frames@, frame_key(), frame_value(), i as int);
                                lemma_remove_keeps(frames@, i as int);
                            }
                            frames.remove(i);
                            self.frames = frames;
                            Ok(())
                        },
                        FrameRequest::Unsupported => Err(RequestError::UnsupportedRequest),
                    }
                }
            },
        };
        proof {
            use_type_invariant(&*self);
            self.lemma_inv_is_wf();
        }
        answer
    }

    /// Takes an event that the capture handler reports for the frame that
    /// `token` names. The event is to be sent to the client exactly when the
    /// answer is `Ok`.
    ///
    /// Only a pending frame lets an event through, and a terminal event
    /// settles it: after a ready or a failed event every further event for the
    /// frame is refused, and so is every event for a frame that is no longer
    /// live. A refused event changes nothing.
    pub fn emit(&mut self, token: CompletionToken, event: FrameEvent) -> (answer: Result<
        (),
        LifecycleError,
    >)
        ensures
            old(self)@.wf(),
            final(self)@.wf(),
            final(self)@ == old(self)@.emit(token, event).0,
            answer == old(self)@.emit(token, event).1,
            answer is Err ==> final(self)@ == old(self)@,
            answer is Ok <==> old(self)@.live(token) && old(self)@.frames[token.serial].state
                is Pending,
            answer is Ok && event.is_terminal() ==> ({
                let settled = final(self)@.frames[token.serial];
                settled.state.is_terminal()
            }),
    {
        proof {
            use_type_invariant(&*self);
            self.lemma_inv_is_wf();
        }
        let at = find_frame(&self.frames, token.serial);
        let answer = match at {
            None => {
                proof {
                    lemma_absent(self.frames@, frame_key(), frame_value(), token.serial);
                }
                Err(LifecycleError::Destroyed)
            },
            Some(i) => {
                proof {
                    lemma_entry(self.frames@, frame_key(), frame_value(), i as int);
                }
                let mut frame = self.frames[i];
                match frame.emit(event) {
                    Ok(()) => {
                        let mut frames: Vec<CaptureFrame> = Vec::new();
                        core::mem::swap(&mut self.frames, &mut frames);
                        proof {
                            lemma_update(frames@, frame_key(), frame_value(), i as int, frame);
                            lemma_update_keeps(frames@, i as int, frame);
                        }
                        frames.set(i, frame);
                        self.frames = frames;
                        Ok(())
                    },
                    Err(error) => Err(error),
                }
            },
        };
        proof {
            use_type_invariant(&*self);
            self.lemma_inv_is_wf();
        }
        answer
    }

    /// Takes note that the display destroyed the manager object. The handle is
    /// no longer bound afterwards; the frames made through it stay.
    pub fn manager_destroyed(&mut self, manager: ManagerHandle)
        ensures
            old(self)@.wf(),
            final(self)@.wf(),
            final(self)@ == old(self)@.manager_destroyed(manager),
            !final(self)@.registered(manager),
    {
        proof {
            use_type_invariant(&*self);
            self.lemma_inv_is_wf();
        }
        match find_manager(&self.managers, manager.serial) {
            None => {
                proof {
                    lemma_absent(self.managers@, manager_key(), manager_owner(), manager.serial);
                }
            },
            Some(i) => {
                proof {
                    lemma_entry(self.managers@, manager_key(), manager_owner(), i as int);
                }
                if self.managers[i].client == manager.client {
                    let mut managers: Vec<ManagerHandle> = Vec::new();
                    core::mem::swap(&mut self.managers, &mut managers);
                    proof {
                        lemma_remove(managers@, manager_key(), manager_owner(), i as int);
                    }
                    managers.remove(i);
                    self.managers = managers;
                }
            },
        }
        proof {
            use_type_invariant(&*self);
            self.lemma_inv_is_wf();
        }
    }

    /// Takes note that the display destroyed the frame object. The frame is
    /// gone afterwards, and whatever the handler reports for it is dropped.
    pub fn frame_destroyed(&mut self, token: CompletionToken)
        ensures
            old(self)@.wf(),
            final(self)@.wf(),
            final(self)@ == old(self)@.frame_destroyed(token),
            !final(self)@.live(token),
    {
        proof {
            use_type_invariant(&*self);
            self.lemma_inv_is_wf();
        }
        match find_frame(&self.frames, token.serial) {
            None => {
                proof {
                    lemma_absent(self.frames@, frame_key(), frame_value(), token.serial);
                    assert(self@.frames.remove(token.serial) =~= self@.frames);
                }
            },
            Some(i) => {
                let mut frames: Vec<CaptureFrame> = Vec::new();
                core::mem::swap(&mut self.frames, &mut frames);
                proof {
                    lemma_remove(frames@, frame_key(), frame_value(), i as int);
                    lemma_remove_keeps(frames@, i as int);
                }
                frames.remove(i);
                self.frames = frames;
            },
        }
        proof {
            use_type_invariant(&*self);
            self.lemma_inv_is_wf();
        }
    }

    /// Takes note that the connection of `client` ended: its handles and its
    /// frames are gone, and nothing that another client owns is touched.
    pub fn disconnect(&mut self, client: u64)
        ensures
            old(self)@.wf(),
            final(self)@.wf(),
            final(self)@ == old(self)@.disconnect(client),
    {
        proof {
            use_type_invariant(&*self);
            self.lemma_inv_is_wf();
        }
        let ghost before = self@;
        let mut managers: Vec<ManagerHandle> = Vec::new();
        core::mem::swap(&mut self.managers, &mut managers);
        let (others, Ghost(origin)) = managers_of_others(&managers, client);
        proof {
            lemma_selected_map(
                managers@,
                others@,
                origin,
                manager_of_other(client),
                manager_key(),
                manager_owner(),
            );
            assert forall|k: int| 0 <= k < others@.len() implies manager_key()(
                #[trigger] others@[k],
            ) < self.issued by {
                assert(others@[k] == managers@[origin[k]]);
            }
            assert(index(others@, manager_key(), manager_owner()) =~= before.disconnect(
                client,
            ).managers);
        }
        self.managers = others;
        let mut frames: Vec<CaptureFrame> = Vec::new();
        core::mem::swap(&mut self.frames, &mut frames);
        let (rest, Ghost(source)) = frames_of_others(&frames, client);
        proof {
            lemma_selected_map(
                frames@,
                rest@,
                source,
                frame_of_other(client),
                frame_key(),
                frame_value(),
            );
            assert forall|k: int| 0 <= k < rest@.len() implies frame_key()(#[trigger] rest@[k])
                < self.issued by {
                assert(rest@[k] == frames@[source[k]]);
            }
            assert forall|k: int| 0 <= k < rest@.len() implies !((#[trigger] rest@[k])@.state
                is Created) && !(rest@[k]@.state is Destroyed) by {
                assert(rest@[k] == frames@[source[k]]);
            }
            assert(index(rest@, frame_key(), frame_value()) =~= before.disconnect(client).frames);
        }
        self.frames = rest;
        proof {
            use_type_invariant(&*self);
            self.lemma_inv_is_wf();
        }
    }

    /// How many serials have been handed out.
    pub fn issued(&self) -> (issued: u64)
        ensures
            self@.wf(),
            issued == self@.issued,
    {
        proof {
            use_type_invariant(self);
            self.lemma_inv_is_wf();
        }
        self.issued
    }

    /// Whether `manager` is bound.
    pub fn is_bound(&self, manager: ManagerHandle) -> (bound: bool)
        ensures
            self@.wf(),
            bound == self@.registered(manager),
    {
        proof {
            use_type_invariant(self);
            self.lemma_inv_is_wf();
        }
        match find_manager(&self.managers, manager.serial) {
            None => {
                proof {
                    lemma_absent(self.managers@, manager_key(), manager_owner(), manager.serial);
                }
                false
            },
            Some(i) => {
                proof {
                    lemma_entry(self.managers@, manager_key(), manager_owner(), i as int);
                }
                self.managers[i].client == manager.client
            },
        }
    }

    /// The frame that `token` names, if it is live.
    pub fn frame(&self, token: CompletionToken) -> (found: Option<CaptureFrame>)
        ensures
            self@.wf(),
            match found {
                Some(frame) => self@.live(token) && frame@ == self@.frames[token.serial],
                None => !self@.live(token),
            },
    {
        proof {
            use_type_invariant(self);
            self.lemma_inv_is_wf();
        }
        match find_frame(&self.frames, token.serial) {
            None => {
                proof {
                    lemma_absent(self.frames@, frame_key(), frame_value(), token.serial);
                }
                None
            },
            Some(i) => {
                proof {
                    lemma_entry(self.frames@, frame_key(), frame_value(), i as int);
                }
                Some(self.frames[i])
            },
        }
    }
}

} // verus!
