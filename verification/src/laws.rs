//! What holds of every session, whatever clients and the capture handler do.

use crate::clients::law_number_is_kept;
use crate::clients::law_numbers_differ;
use crate::clients::law_seen_is_sound;
use crate::clients::number;
use crate::clients::seen;
use crate::lifecycle::refusal;
use crate::lifecycle::CompletionToken;
use crate::lifecycle::FrameEvent;
use crate::lifecycle::FrameInput;
use crate::lifecycle::LifecycleError;
use crate::model::SessionInput;
use crate::model::SessionView;
use crate::protocol::Action;
use crate::protocol::FrameRequest;
use crate::protocol::ManagerHandle;
use crate::protocol::ManagerRequest;
use crate::protocol::RequestError;
use crate::state::StateView;
use vstd::prelude::*;
use wayland_server::backend::ClientId;

verus! {

/// No operation breaks a session, and none takes a serial back.
pub proof fn law_step_keeps_session_sound(before: SessionView, input: SessionInput)
    requires
        before.wf(),
    ensures
        before.step(input).wf(),
        before.issued <= before.step(input).issued,
{
}

/// Every session that clients and the handler can bring about is sound.
pub proof fn law_every_session_is_sound(first: u64, inputs: Seq<SessionInput>)
    ensures
        SessionView::starting_at(first).run(inputs).wf(),
    decreases inputs.len(),
{
    if inputs.len() > 0 {
        law_every_session_is_sound(first, inputs.drop_last());
        law_step_keeps_session_sound(
            SessionView::starting_at(first).run(inputs.drop_last()),
            inputs.last(),
        );
    }
}

/// A bound handle is scoped to the client that bound it: the handle is new,
/// it names that client, and a request that any other client sends on it is
/// turned down and changes nothing.
pub proof fn law_handle_is_scoped_to_its_client(
    before: SessionView,
    client: u64,
    other: u64,
    request: ManagerRequest,
)
    requires
        before.wf(),
        !before.exhausted(),
        other != client,
    ensures
        before.bind(client).1 matches Ok(handle) && {
            let after = before.bind(client).0;
            &&& handle.client == client
            &&& !before.managers.contains_key(handle.serial)
            &&& after.registered(handle)
            &&& after.handle_request(other, handle, request) == (
                after,
                Err::<Action, RequestError>(RequestError::ForeignManager),
            )
        },
{
}

/// A request on a handle is served for the client that bound the handle and
/// for no other: what another client is answered does not depend on what the
/// session holds, so it learns nothing from the answer.
pub proof fn law_foreign_request_is_refused(
    session: SessionView,
    client: u64,
    manager: ManagerHandle,
    request: ManagerRequest,
)
    requires
        manager.client != client,
    ensures
        session.handle_request(client, manager, request) == (
            session,
            Err::<Action, RequestError>(RequestError::ForeignManager),
        ),
{
}

/// A frame is within reach of its own client only: to every other client it
/// is as if the frame did not exist, whatever the request.
pub proof fn law_foreign_frame_is_out_of_reach(
    session: SessionView,
    client: u64,
    token: CompletionToken,
    request: FrameRequest,
)
    requires
        !session.owns(client, token),
    ensures
        session.frame_request(client, token, request) == (
            session,
            Err::<(), RequestError>(RequestError::UnknownFrame),
        ),
{
}

/// The owner of a handle never changes: as long as a serial is bound, it is
/// bound to the client that it was first bound to, and a serial that was
/// released is not bound again.
pub proof fn law_owner_is_fixed(before: SessionView, inputs: Seq<SessionInput>, serial: u64)
    requires
        before.wf(),
        serial < before.issued,
    ensures
        before.issued <= before.run(inputs).issued,
        before.run(inputs).wf(),
        before.run(inputs).managers.contains_key(serial) ==> before.managers.contains_key(serial)
            && before.run(inputs).managers[serial] == before.managers[serial],
    decreases inputs.len(),
{
    if inputs.len() > 0 {
        law_owner_is_fixed(before, inputs.drop_last(), serial);
        law_step_keeps_session_sound(before.run(inputs.drop_last()), inputs.last());
    }
}

/// A capture request that is accepted asks for exactly one invocation of the
/// handler, with the cursor flag and the output of the request unchanged, and
/// leaves exactly one new frame, pending, that holds the same values and
/// refuses to be handed to the handler again.
pub proof fn law_capture_is_passed_through(
    before: SessionView,
    client: u64,
    manager: ManagerHandle,
    overlay_cursor: i32,
    output: u32,
)
    requires
        before.wf(),
    ensures
        ({
            let request = ManagerRequest::CaptureOutput { overlay_cursor, output };
            let (after, answer) = before.handle_request(client, manager, request);
            let token = CompletionToken { serial: before.issued };
            &&& answer is Ok <==> before.registered(manager) && manager.client == client && output
                != 0 && !before.exhausted()
            &&& answer is Ok ==> {
                &&& answer == Ok::<Action, RequestError>(
                    Action::Capture { token, overlay_cursor, output },
                )
                &&& !before.live(token)
                &&& after.frames == before.frames.insert(token.serial, after.frames[token.serial])
                &&& after.frames[token.serial].overlay_cursor == overlay_cursor
                &&& after.frames[token.serial].output == output
                &&& after.frames[token.serial].client == client
                &&& after.frames[token.serial].state is Pending
                &&& refusal(after.frames[token.serial].state, FrameInput::Invoke) == Some(
                    LifecycleError::AlreadyInvoked,
                )
            }
            &&& answer is Err ==> after == before
        }),
{
    let request = ManagerRequest::CaptureOutput { overlay_cursor, output };
    let (after, answer) = before.handle_request(client, manager, request);
    if answer is Ok {
        assert(after.frames =~= before.frames.insert(before.issued, after.frames[before.issued]));
    }
}

/// What a capture request fixed stays fixed, and an outcome stays: as long as
/// a frame is live it names the same client, output and cursor flag,
/// and once it is ready or failed it never is anything else.
pub proof fn law_frame_is_settled(before: SessionView, inputs: Seq<SessionInput>, serial: u64)
    requires
        before.wf(),
        before.frames.contains_key(serial),
    ensures
        before.run(inputs).wf(),
        before.issued <= before.run(inputs).issued,
        before.run(inputs).frames.contains_key(serial) ==> {
            &&& before.run(inputs).frames[serial].same_request(before.frames[serial])
            &&& before.frames[serial].state.is_terminal() ==> before.run(
                inputs,
            ).frames[serial].state == before.frames[serial].state
        },
    decreases inputs.len(),
{
    if inputs.len() > 0 {
        let earlier = before.run(inputs.drop_last());
        law_frame_is_settled(before, inputs.drop_last(), serial);
        law_step_keeps_session_sound(earlier, inputs.last());
        lemma_step_keeps_frame(earlier, inputs.last(), serial);
    }
}

proof fn lemma_step_keeps_frame(before: SessionView, input: SessionInput, serial: u64)
    requires
        before.wf(),
        serial < before.issued,
    ensures
        before.step(input).frames.contains_key(serial) ==> {
            &&& before.frames.contains_key(serial)
            &&& before.step(input).frames[serial].same_request(before.frames[serial])
            &&& before.frames[serial].state.is_terminal() ==> before.step(
                input,
            ).frames[serial].state == before.frames[serial].state
        },
{
}

/// Once a frame is gone it stays gone: its token never names a live frame
/// again, so every event that the handler reports under it is refused, and the
/// refusal changes nothing.
pub proof fn law_retired_token_is_dead(
    before: SessionView,
    inputs: Seq<SessionInput>,
    token: CompletionToken,
    event: FrameEvent,
)
    requires
        before.wf(),
        before.retired(token),
    ensures
        before.run(inputs).wf(),
        before.run(inputs).retired(token),
        before.run(inputs).emit(token, event) == (
            before.run(inputs),
            Err::<(), LifecycleError>(LifecycleError::Destroyed),
        ),
    decreases inputs.len(),
{
    if inputs.len() > 0 {
        let earlier = before.run(inputs.drop_last());
        law_retired_token_is_dead(before, inputs.drop_last(), token, event);
        law_step_keeps_session_sound(earlier, inputs.last());
        lemma_step_keeps_frame(earlier, inputs.last(), token.serial);
    }
}

/// At most one outcome per frame: after a terminal event was accepted for a
/// frame, no event is accepted for it any more.
pub proof fn law_outcome_is_accepted_once(
    before: SessionView,
    token: CompletionToken,
    outcome: FrameEvent,
    inputs: Seq<SessionInput>,
    later: FrameEvent,
)
    requires
        before.wf(),
        outcome.is_terminal(),
        before.emit(token, outcome).1 is Ok,
    ensures
        before.emit(token, outcome).0.run(inputs).emit(token, later).1 is Err,
{
    let settled = before.emit(token, outcome).0;
    law_step_keeps_session_sound(before, SessionInput::Emit { token, event: outcome });
    law_frame_is_settled(settled, inputs, token.serial);
}

/// The end of one connection takes with it what the client owned and nothing
/// else: no handle and no frame of the client is left, and every handle and
/// frame of another client is as it was.
pub proof fn law_disconnect_spares_others(before: SessionView, client: u64)
    requires
        before.wf(),
    ensures
        forall|s: u64| #[trigger]
            before.disconnect(client).managers.contains_key(s) ==> before.disconnect(
                client,
            ).managers[s] != client,
        forall|t: u64| #[trigger]
            before.disconnect(client).frames.contains_key(t) ==> before.disconnect(
                client,
            ).frames[t].client != client,
        forall|s: u64| #[trigger]
            before.managers.contains_key(s) && before.managers[s] != client
                ==> before.disconnect(client).managers.contains_key(s) && before.disconnect(
                client,
            ).managers[s] == before.managers[s],
        forall|t: u64| #[trigger]
            before.frames.contains_key(t) && before.frames[t].client != client
                ==> before.disconnect(client).frames.contains_key(t) && before.disconnect(
                client,
            ).frames[t] == before.frames[t],
{
}

/// A bind gives the client that binds a handle of its own and touches
/// nothing of another client: the other client keeps its number, which is not
/// that of the binder, and the handles and the frames that it owns are the
/// same after the bind as before; the new handle is none of them.
pub proof fn law_bind_spares_other_clients(before: StateView, binder: ClientId, other: ClientId)
    requires
        before.wf(),
        seen(before.clients, binder).len() <= usize::MAX,
        before.clients.contains(other),
        other != binder,
    ensures
        ({
            let clients = seen(before.clients, binder);
            let (session, bound) = before.session.bind(number(clients, binder));
            let theirs = number(clients, other);
            &&& theirs == number(before.clients, other)
            &&& theirs != number(clients, binder)
            &&& session.managers_of(theirs) == before.session.managers_of(theirs)
            &&& session.frames_of(theirs) == before.session.frames_of(theirs)
            &&& bound matches Ok(handle) ==> {
                &&& handle.client == number(clients, binder)
                &&& session.managers_of(number(clients, binder)).contains(handle.serial)
                &&& !session.managers_of(theirs).contains(handle.serial)
            }
        }),
{
    let clients = seen(before.clients, binder);
    let (session, bound) = before.session.bind(number(clients, binder));
    let theirs = number(clients, other);
    law_seen_is_sound(before.clients, binder);
    law_number_is_kept(before.clients, other, binder);
    law_numbers_differ(clients, binder, other);
    assert(session.managers_of(theirs) =~= before.session.managers_of(theirs));
    assert(session.frames_of(theirs) =~= before.session.frames_of(theirs));
}

/// A handle that one client bound is out of reach of every other client:
/// whatever the other client asks on it is refused, and nothing changes.
pub proof fn law_bound_handle_is_out_of_reach(
    before: StateView,
    binder: ClientId,
    other: ClientId,
    request: ManagerRequest,
)
    requires
        before.wf(),
        seen(before.clients, binder).len() <= usize::MAX,
        before.clients.contains(other),
        other != binder,
    ensures
        ({
            let clients = seen(before.clients, binder);
            let (session, bound) = before.session.bind(number(clients, binder));
            bound matches Ok(handle) ==> {
                &&& seen(clients, other) == clients
                &&& session.handle_request(number(seen(clients, other), other), handle, request)
                    == (session, Err::<Action, RequestError>(RequestError::ForeignManager))
            }
        }),
{
    let clients = seen(before.clients, binder);
    law_seen_is_sound(before.clients, binder);
    law_numbers_differ(clients, binder, other);
}

} // verus!
