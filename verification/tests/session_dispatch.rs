//! The session: binding, dispatch, and what clients and the handler can do to
//! each other.

use screencopy::lifecycle::CompletionToken;
use screencopy::lifecycle::FailureReason;
use screencopy::lifecycle::FrameEvent;
use screencopy::lifecycle::FrameState;
use screencopy::lifecycle::LifecycleError;
use screencopy::protocol::Action;
use screencopy::protocol::FrameRequest;
use screencopy::protocol::ManagerHandle;
use screencopy::protocol::ManagerRequest;
use screencopy::protocol::RequestError;
use screencopy::protocol::MANAGER_VERSION;
use screencopy::session::Session;

const ALICE: u64 = 10;
const BOB: u64 = 20;
const OUTPUT: u32 = 7;

fn capture(overlay_cursor: i32) -> ManagerRequest {
    ManagerRequest::CaptureOutput { overlay_cursor, output: OUTPUT }
}

fn buffer() -> FrameEvent {
    FrameEvent::Buffer { format: 0, width: 800, height: 600, stride: 3200 }
}

fn ready() -> FrameEvent {
    FrameEvent::Ready { tv_sec_hi: 0, tv_sec_lo: 12, tv_nsec: 34 }
}

fn failed() -> FrameEvent {
    FrameEvent::Failed { reason: FailureReason::Unspecified }
}

/// Sends a capture request and returns the token of the frame it made.
fn start(
    session: &mut Session,
    client: u64,
    manager: ManagerHandle,
    overlay_cursor: i32,
) -> CompletionToken {
    match session.handle_request(client, manager, capture(overlay_cursor)) {
        Ok(Action::Capture { token, .. }) => token,
        other => panic!("capture was not accepted: {:?}", other),
    }
}

/// What a session lets an observer see of a client's things.
fn snapshot(session: &Session, managers: &[ManagerHandle], tokens: &[CompletionToken]) -> Vec<String> {
    let mut seen = Vec::new();
    for manager in managers {
        seen.push(format!("{:?} bound={}", manager, session.is_bound(*manager)));
    }
    for token in tokens {
        seen.push(format!("{:?}", session.frame(*token)));
    }
    seen
}

#[test]
fn new_session_has_issued_nothing() {
    let session = Session::new();
    assert_eq!(session.issued(), 0);
    assert!(!session.is_bound(ManagerHandle { client: ALICE, serial: 0 }));
    assert!(session.frame(CompletionToken { serial: 0 }).is_none());
}

#[test]
fn advertised_version_is_three() {
    assert_eq!(MANAGER_VERSION, 3);
}

#[test]
fn serials_are_handed_out_in_order() {
    let mut session = Session::new();
    assert_eq!(session.bind(ALICE), Ok(ManagerHandle { client: ALICE, serial: 0 }));
    assert_eq!(session.bind(BOB), Ok(ManagerHandle { client: BOB, serial: 1 }));
    let alice = ManagerHandle { client: ALICE, serial: 0 };
    assert_eq!(
        session.handle_request(ALICE, alice, capture(1)),
        Ok(Action::Capture { token: CompletionToken { serial: 2 }, overlay_cursor: 1, output: OUTPUT })
    );
    assert_eq!(session.bind(ALICE), Ok(ManagerHandle { client: ALICE, serial: 3 }));
    assert_eq!(session.issued(), 4);
}

#[test]
fn session_can_start_at_any_serial() {
    let mut session = Session::starting_at(1000);
    assert_eq!(session.issued(), 1000);
    assert_eq!(session.bind(ALICE), Ok(ManagerHandle { client: ALICE, serial: 1000 }));
    assert_eq!(session.issued(), 1001);
}

#[test]
fn handle_is_scoped_to_the_client_that_bound_it() {
    let mut session = Session::new();
    let mut handles = Vec::new();
    for client in [ALICE, BOB, ALICE, 30, BOB] {
        let handle = session.bind(client).unwrap();
        assert_eq!(handle.client, client);
        assert!(session.is_bound(handle));
        assert!(!handles.contains(&handle));
        handles.push(handle);
    }
    for handle in handles.iter() {
        for client in [ALICE, BOB, 30, 40] {
            let issued = session.issued();
            let answer = session.handle_request(client, *handle, capture(0));
            if client == handle.client {
                assert!(answer.is_ok());
                assert_eq!(session.issued(), issued + 1);
            } else {
                assert_eq!(answer, Err(RequestError::ForeignManager));
                assert_eq!(session.issued(), issued);
            }
            assert!(session.is_bound(*handle));
        }
    }
}

#[test]
fn forged_handle_is_unknown() {
    let mut session = Session::new();
    let alice = session.bind(ALICE).unwrap();
    let forged = ManagerHandle { client: BOB, serial: alice.serial };
    assert!(!session.is_bound(forged));
    assert_eq!(session.handle_request(BOB, forged, capture(0)), Err(RequestError::UnknownManager));
    assert_eq!(
        session.handle_request(ALICE, forged, capture(0)),
        Err(RequestError::ForeignManager),
    );
    let gone = ManagerHandle { client: BOB, serial: 77 };
    assert_eq!(session.handle_request(ALICE, gone, capture(0)), Err(RequestError::ForeignManager));
    let never = ManagerHandle { client: ALICE, serial: 99 };
    assert_eq!(session.handle_request(ALICE, never, capture(0)), Err(RequestError::UnknownManager));
    assert_eq!(session.issued(), 1);
}

#[test]
fn capture_request_passes_flag_and_output_through() {
    let mut session = Session::new();
    let manager = session.bind(ALICE).unwrap();
    for (flag, output) in [(1, 7u32), (0, 7), (-3, 9), (i32::MAX, u32::MAX), (i32::MIN, 1)] {
        let request = ManagerRequest::CaptureOutput { overlay_cursor: flag, output };
        let before = session.issued();
        match session.handle_request(ALICE, manager, request) {
            Ok(Action::Capture { token, overlay_cursor, output: target }) => {
                assert_eq!(token, CompletionToken { serial: before });
                assert_eq!(overlay_cursor, flag);
                assert_eq!(target, output);
                let frame = session.frame(token).unwrap();
                assert_eq!(frame.token(), token);
                assert_eq!(frame.client(), ALICE);
                assert_eq!(frame.overlay_cursor(), flag);
                assert_eq!(frame.output(), output);
                assert_eq!(frame.state(), FrameState::Pending);
                assert_eq!(frame.buffer(), None);
            }
            other => panic!("capture was not accepted: {:?}", other),
        }
        assert_eq!(session.issued(), before + 1);
    }
}

#[test]
fn frame_reaches_at_most_one_outcome() {
    let mut session = Session::new();
    let manager = session.bind(ALICE).unwrap();
    let first = start(&mut session, ALICE, manager, 1);
    let second = start(&mut session, ALICE, manager, 1);
    assert_eq!(session.emit(first, ready()), Ok(()));
    assert_eq!(session.emit(first, failed()), Err(LifecycleError::AlreadyCompleted));
    assert_eq!(session.emit(first, ready()), Err(LifecycleError::AlreadyCompleted));
    assert_eq!(session.frame(first).unwrap().state(), FrameState::Ready);
    assert_eq!(session.emit(second, failed()), Ok(()));
    assert_eq!(session.emit(second, ready()), Err(LifecycleError::AlreadyCompleted));
    assert_eq!(session.emit(second, failed()), Err(LifecycleError::AlreadyCompleted));
    assert_eq!(session.frame(second).unwrap().state(), FrameState::Failed);
    assert_eq!(session.frame(first).unwrap().state(), FrameState::Ready);
}

#[test]
fn destroyed_frame_gets_no_outcome() {
    let mut session = Session::new();
    let manager = session.bind(ALICE).unwrap();
    let token = start(&mut session, ALICE, manager, 0);
    let other = start(&mut session, ALICE, manager, 0);
    assert_eq!(session.frame_request(ALICE, token, FrameRequest::Destroy), Ok(()));
    let before = snapshot(&session, &[manager], &[token, other]);
    for event in [ready(), failed(), buffer(), ready()] {
        assert_eq!(session.emit(token, event), Err(LifecycleError::Destroyed));
        assert_eq!(snapshot(&session, &[manager], &[token, other]), before);
    }
    assert!(session.frame(token).is_none());
    assert_eq!(session.frame(other).unwrap().state(), FrameState::Pending);
}

#[test]
fn capture_completes_with_description_then_ready() {
    let mut session = Session::new();
    let manager = session.bind(ALICE).unwrap();
    let answer = session.handle_request(ALICE, manager, capture(1));
    let token = CompletionToken { serial: 1 };
    assert_eq!(answer, Ok(Action::Capture { token, overlay_cursor: 1, output: OUTPUT }));
    let mut observed = Vec::new();
    for event in [buffer(), ready(), buffer(), failed(), ready()] {
        if session.emit(token, event).is_ok() {
            observed.push(event);
        }
    }
    assert_eq!(observed, vec![buffer(), ready()]);
    assert_eq!(session.frame(token).unwrap().state(), FrameState::Ready);
}

#[test]
fn capture_destroyed_at_once_shows_nothing() {
    let mut session = Session::new();
    let manager = session.bind(ALICE).unwrap();
    let token = start(&mut session, ALICE, manager, 0);
    assert_eq!(session.frame(token).unwrap().overlay_cursor(), 0);
    assert_eq!(session.frame_request(ALICE, token, FrameRequest::Destroy), Ok(()));
    let mut observed = Vec::new();
    for event in [buffer(), FrameEvent::BufferDone, ready(), failed()] {
        if session.emit(token, event).is_ok() {
            observed.push(event);
        }
    }
    assert!(observed.is_empty());
    assert!(session.frame(token).is_none());
}

#[test]
fn unexpected_request_ends_the_client_and_spares_the_others() {
    let mut session = Session::new();
    let alice = session.bind(ALICE).unwrap();
    let bob = session.bind(BOB).unwrap();
    let of_alice = start(&mut session, ALICE, alice, 1);
    let of_bob = start(&mut session, BOB, bob, 0);
    assert_eq!(session.emit(of_bob, buffer()), Ok(()));
    let bobs = snapshot(&session, &[bob], &[of_bob]);
    let all = snapshot(&session, &[alice, bob], &[of_alice, of_bob]);

    let answer = session.handle_request(ALICE, alice, ManagerRequest::Unsupported);
    assert_eq!(answer, Err(RequestError::UnsupportedRequest));
    assert!(RequestError::UnsupportedRequest.terminates_client());
    assert_eq!(snapshot(&session, &[alice, bob], &[of_alice, of_bob]), all);

    session.disconnect(ALICE);
    assert!(!session.is_bound(alice));
    assert!(session.frame(of_alice).is_none());
    assert_eq!(snapshot(&session, &[bob], &[of_bob]), bobs);
    assert_eq!(session.emit(of_alice, ready()), Err(LifecycleError::Destroyed));
    assert_eq!(session.emit(of_bob, ready()), Ok(()));
    assert_eq!(session.handle_request(ALICE, alice, capture(1)), Err(RequestError::UnknownManager));
    assert!(start(&mut session, BOB, bob, 1).serial > of_bob.serial);
}

#[test]
fn unsupported_requests_are_refused() {
    let mut session = Session::new();
    let manager = session.bind(ALICE).unwrap();
    let token = start(&mut session, ALICE, manager, 0);
    assert_eq!(
        session.handle_request(ALICE, manager, ManagerRequest::Unsupported),
        Err(RequestError::UnsupportedRequest),
    );
    assert_eq!(
        session.frame_request(ALICE, token, FrameRequest::Unsupported),
        Err(RequestError::UnsupportedRequest),
    );
    assert_eq!(session.frame(token).unwrap().state(), FrameState::Pending);
    assert!(session.is_bound(manager));
    assert_eq!(session.issued(), 2);
}

#[test]
fn null_objects_are_malformed() {
    let mut session = Session::new();
    let manager = session.bind(ALICE).unwrap();
    let nothing = ManagerRequest::CaptureOutput { overlay_cursor: 1, output: 0 };
    assert_eq!(
        session.handle_request(ALICE, manager, nothing),
        Err(RequestError::MalformedRequest),
    );
    assert_eq!(session.issued(), 1);
    let token = start(&mut session, ALICE, manager, 0);
    assert_eq!(
        session.frame_request(ALICE, token, FrameRequest::Copy { buffer: 0 }),
        Err(RequestError::MalformedRequest),
    );
    assert_eq!(session.frame(token).unwrap().buffer(), None);
}

#[test]
fn frame_requests_reach_only_live_frames_of_the_client() {
    let mut session = Session::new();
    let alice = session.bind(ALICE).unwrap();
    let token = start(&mut session, ALICE, alice, 0);
    let copy = FrameRequest::Copy { buffer: 5 };
    assert_eq!(session.frame_request(BOB, token, copy), Err(RequestError::UnknownFrame));
    assert_eq!(
        session.frame_request(BOB, token, FrameRequest::Destroy),
        Err(RequestError::UnknownFrame),
    );
    assert_eq!(
        session.frame_request(BOB, token, FrameRequest::Unsupported),
        Err(RequestError::UnknownFrame),
    );
    assert_eq!(session.frame(token).unwrap().buffer(), None);
    let never = CompletionToken { serial: 50 };
    assert_eq!(session.frame_request(ALICE, never, copy), Err(RequestError::UnknownFrame));
    assert_eq!(session.frame_request(ALICE, token, copy), Ok(()));
    assert_eq!(session.frame(token).unwrap().buffer(), Some(5));
    assert_eq!(session.frame_request(ALICE, token, FrameRequest::Destroy), Ok(()));
    assert_eq!(
        session.frame_request(ALICE, token, FrameRequest::Destroy),
        Err(RequestError::UnknownFrame),
    );
    assert_eq!(session.frame_request(ALICE, token, copy), Err(RequestError::UnknownFrame));
}

#[test]
fn completed_frame_takes_no_buffer() {
    let mut session = Session::new();
    let manager = session.bind(ALICE).unwrap();
    let token = start(&mut session, ALICE, manager, 0);
    assert_eq!(session.frame_request(ALICE, token, FrameRequest::Copy { buffer: 5 }), Ok(()));
    assert_eq!(session.frame_request(ALICE, token, FrameRequest::Copy { buffer: 6 }), Ok(()));
    assert_eq!(session.emit(token, ready()), Ok(()));
    assert_eq!(
        session.frame_request(ALICE, token, FrameRequest::Copy { buffer: 8 }),
        Err(RequestError::FrameCompleted),
    );
    assert_eq!(session.frame(token).unwrap().buffer(), Some(6));
    assert_eq!(session.frame_request(ALICE, token, FrameRequest::Destroy), Ok(()));
    assert!(session.frame(token).is_none());
}

#[test]
fn exhaustion_fails_the_request_only() {
    let mut full = Session::starting_at(u64::MAX);
    assert_eq!(full.bind(ALICE), Err(RequestError::Exhausted));
    assert_eq!(full.issued(), u64::MAX);
    assert!(!RequestError::Exhausted.terminates_client());

    let mut session = Session::starting_at(u64::MAX - 2);
    let manager = session.bind(ALICE).unwrap();
    assert_eq!(manager.serial, u64::MAX - 2);
    let token = start(&mut session, ALICE, manager, 1);
    assert_eq!(token.serial, u64::MAX - 1);
    assert_eq!(session.handle_request(ALICE, manager, capture(1)), Err(RequestError::Exhausted));
    assert_eq!(session.bind(BOB), Err(RequestError::Exhausted));
    assert_eq!(session.issued(), u64::MAX);
    assert!(session.is_bound(manager));
    assert_eq!(session.emit(token, ready()), Ok(()));
    assert!(session.frame(CompletionToken { serial: u64::MAX }).is_none());
    assert_eq!(
        session.emit(CompletionToken { serial: u64::MAX }, ready()),
        Err(LifecycleError::Destroyed),
    );
}

#[test]
fn errors_have_their_wire_codes() {
    assert_eq!(RequestError::UnknownManager.wire_code(), 0);
    assert_eq!(RequestError::ForeignManager.wire_code(), 0);
    assert_eq!(RequestError::UnknownFrame.wire_code(), 0);
    assert_eq!(RequestError::FrameCompleted.wire_code(), 0);
    assert_eq!(RequestError::UnsupportedRequest.wire_code(), 1);
    assert_eq!(RequestError::MalformedRequest.wire_code(), 1);
    assert_eq!(RequestError::Exhausted.wire_code(), 2);
    for error in [
        RequestError::UnknownManager,
        RequestError::ForeignManager,
        RequestError::UnknownFrame,
        RequestError::FrameCompleted,
        RequestError::UnsupportedRequest,
        RequestError::MalformedRequest,
    ] {
        assert!(error.terminates_client());
    }
}

#[test]
fn released_manager_is_gone_and_its_frames_stay() {
    let mut session = Session::new();
    let manager = session.bind(ALICE).unwrap();
    let other = session.bind(ALICE).unwrap();
    let token = start(&mut session, ALICE, manager, 1);
    assert_eq!(
        session.handle_request(ALICE, manager, ManagerRequest::Destroy),
        Ok(Action::Released),
    );
    assert!(!session.is_bound(manager));
    assert!(session.is_bound(other));
    assert_eq!(
        session.handle_request(ALICE, manager, capture(0)),
        Err(RequestError::UnknownManager),
    );
    assert_eq!(
        session.handle_request(ALICE, manager, ManagerRequest::Destroy),
        Err(RequestError::UnknownManager),
    );
    assert_eq!(session.frame(token).unwrap().state(), FrameState::Pending);
    assert_eq!(session.emit(token, ready()), Ok(()));
    let again = session.bind(ALICE).unwrap();
    assert_ne!(again.serial, manager.serial);
}

#[test]
fn destruction_notices_can_come_twice() {
    let mut session = Session::new();
    let manager = session.bind(ALICE).unwrap();
    let keep = session.bind(BOB).unwrap();
    let token = start(&mut session, ALICE, manager, 1);
    let stay = start(&mut session, BOB, keep, 1);
    session.manager_destroyed(manager);
    session.manager_destroyed(manager);
    session.manager_destroyed(ManagerHandle { client: ALICE, serial: keep.serial });
    assert!(!session.is_bound(manager));
    assert!(session.is_bound(keep));
    session.frame_destroyed(token);
    session.frame_destroyed(token);
    session.frame_destroyed(CompletionToken { serial: 500 });
    assert!(session.frame(token).is_none());
    assert_eq!(session.frame(stay).unwrap().state(), FrameState::Pending);
    assert_eq!(session.emit(token, failed()), Err(LifecycleError::Destroyed));
    assert_eq!(session.issued(), 4);
}

#[test]
fn disconnect_takes_what_the_client_owned() {
    let mut session = Session::new();
    let a1 = session.bind(ALICE).unwrap();
    let b1 = session.bind(BOB).unwrap();
    let a2 = session.bind(ALICE).unwrap();
    let fa1 = start(&mut session, ALICE, a1, 1);
    let fb1 = start(&mut session, BOB, b1, 0);
    let fa2 = start(&mut session, ALICE, a2, 0);
    let fb2 = start(&mut session, BOB, b1, 1);
    assert_eq!(session.emit(fb2, failed()), Ok(()));
    let bobs = snapshot(&session, &[b1], &[fb1, fb2]);
    session.disconnect(ALICE);
    assert!(!session.is_bound(a1));
    assert!(!session.is_bound(a2));
    assert!(session.frame(fa1).is_none());
    assert!(session.frame(fa2).is_none());
    assert_eq!(snapshot(&session, &[b1], &[fb1, fb2]), bobs);
    assert_eq!(session.issued(), 7);
    session.disconnect(ALICE);
    session.disconnect(99);
    assert_eq!(snapshot(&session, &[b1], &[fb1, fb2]), bobs);
    session.disconnect(BOB);
    assert!(!session.is_bound(b1));
    assert!(session.frame(fb1).is_none());
    assert!(session.frame(fb2).is_none());
}

#[test]
fn token_of_a_dead_frame_is_never_issued_again() {
    let mut session = Session::new();
    let manager = session.bind(ALICE).unwrap();
    let old = start(&mut session, ALICE, manager, 0);
    assert_eq!(session.frame_request(ALICE, old, FrameRequest::Destroy), Ok(()));
    let mut fresh = Vec::new();
    for _ in 0..20 {
        let token = start(&mut session, ALICE, manager, 1);
        assert_ne!(token, old);
        assert!(!fresh.contains(&token));
        fresh.push(token);
        assert_eq!(session.emit(old, ready()), Err(LifecycleError::Destroyed));
    }
    for token in fresh {
        assert_eq!(session.frame(token).unwrap().state(), FrameState::Pending);
    }
}

#[test]
fn captures_may_complete_out_of_order() {
    let mut session = Session::new();
    let manager = session.bind(ALICE).unwrap();
    let first = start(&mut session, ALICE, manager, 0);
    let second = start(&mut session, ALICE, manager, 1);
    let third = start(&mut session, ALICE, manager, 0);
    assert_eq!(session.emit(third, ready()), Ok(()));
    assert_eq!(session.emit(first, failed()), Ok(()));
    assert_eq!(session.frame(second).unwrap().state(), FrameState::Pending);
    assert_eq!(session.emit(second, buffer()), Ok(()));
    assert_eq!(session.emit(second, ready()), Ok(()));
    assert_eq!(session.frame(first).unwrap().state(), FrameState::Failed);
    assert_eq!(session.frame(second).unwrap().state(), FrameState::Ready);
    assert_eq!(session.frame(third).unwrap().state(), FrameState::Ready);
}
