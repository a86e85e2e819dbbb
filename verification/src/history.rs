//! Histories of a frame: what holds of every sequence of inputs that a frame
//! can meet, starting from its creation.

use crate::lifecycle::delivers;
use crate::lifecycle::next_state;
use crate::lifecycle::FrameEvent;
use crate::lifecycle::FrameInput;
use crate::lifecycle::FrameState;
use crate::lifecycle::FrameView;
use vstd::prelude::*;

verus! {

/// The state of a frame that started in `state` and met `inputs` in order.
pub open spec fn run(state: FrameState, inputs: Seq<FrameInput>) -> FrameState
    decreases inputs.len(),
{
    if inputs.len() == 0 {
        state
    } else {
        next_state(run(state, inputs.drop_last()), inputs.last())
    }
}

/// The events that reached the client while a frame that started in `state`
/// met `inputs` in order.
pub open spec fn delivered(state: FrameState, inputs: Seq<FrameInput>) -> Seq<FrameEvent>
    decreases inputs.len(),
{
    if inputs.len() == 0 {
        Seq::empty()
    } else {
        let earlier = delivered(state, inputs.drop_last());
        match delivers(run(state, inputs.drop_last()), inputs.last()) {
            Some(event) => earlier.push(event),
            None => earlier,
        }
    }
}

/// The frame `frame` after it met `inputs` in order.
pub open spec fn frame_after(frame: FrameView, inputs: Seq<FrameInput>) -> FrameView
    decreases inputs.len(),
{
    if inputs.len() == 0 {
        frame
    } else {
        frame_after(frame, inputs.drop_last()).step(inputs.last())
    }
}

/// No event of `events` is terminal.
pub open spec fn no_outcome(events: Seq<FrameEvent>) -> bool {
    forall|i: int| 0 <= i < events.len() ==> !(#[trigger] events[i]).is_terminal()
}

/// How far a state is along the life of a frame. No input ever takes a frame
/// back.
pub open spec fn progress(state: FrameState) -> nat {
    match state {
        FrameState::Created => 0,
        FrameState::Pending => 1,
        FrameState::Ready => 2,
        FrameState::Failed => 2,
        FrameState::Destroyed => 3,
    }
}

proof fn lemma_unfold_prefix(state: FrameState, inputs: Seq<FrameInput>, k: int)
    requires
        0 <= k < inputs.len(),
    ensures
        run(state, inputs.take(k + 1)) == next_state(run(state, inputs.take(k)), inputs[k]),
        delivered(state, inputs.take(k + 1)) == match delivers(
            run(state, inputs.take(k)),
            inputs[k],
        ) {
            Some(event) => delivered(state, inputs.take(k)).push(event),
            None => delivered(state, inputs.take(k)),
        },
{
    assert(inputs.take(k + 1).drop_last() =~= inputs.take(k));
    assert(inputs.take(k + 1).last() == inputs[k]);
}

/// What the capture request fixed stays fixed: whatever a frame meets, it
/// keeps its token, its client, its output and its cursor flag, and its state
/// moves as the life of a frame prescribes.
pub proof fn law_request_is_fixed(frame: FrameView, inputs: Seq<FrameInput>)
    ensures
        frame_after(frame, inputs).same_request(frame),
        frame_after(frame, inputs).state == run(frame.state, inputs),
    decreases inputs.len(),
{
    if inputs.len() > 0 {
        law_request_is_fixed(frame, inputs.drop_last());
    }
}

/// A settled frame stays settled: once ready (or failed), a frame is ready (or
/// failed) until it is destroyed, and a destroyed frame stays destroyed.
pub proof fn law_settled_frame_stays(state: FrameState, inputs: Seq<FrameInput>)
    ensures
        progress(state) <= progress(run(state, inputs)),
        state.is_terminal() ==> run(state, inputs) == state || run(state, inputs) is Destroyed,
        state is Destroyed ==> run(state, inputs) is Destroyed,
        state is Destroyed ==> delivered(state, inputs) == Seq::<FrameEvent>::empty(),
        state.is_terminal() ==> delivered(state, inputs) == Seq::<FrameEvent>::empty(),
    decreases inputs.len(),
{
    if inputs.len() > 0 {
        law_settled_frame_stays(state, inputs.drop_last());
    }
}

/// A frame never reaches both terminal states: of the states that a frame
/// passes through from its creation, at most one is terminal.
pub proof fn law_ready_excludes_failed(inputs: Seq<FrameInput>, i: int, j: int)
    requires
        0 <= i <= inputs.len(),
        0 <= j <= inputs.len(),
    ensures
        !(run(FrameState::Created, inputs.take(i)) is Ready && run(
            FrameState::Created,
            inputs.take(j),
        ) is Failed),
{
    let first = if i <= j { i } else { j };
    let second = if i <= j { j } else { i };
    let reached = run(FrameState::Created, inputs.take(first));
    let rest = inputs.subrange(first, second);
    lemma_run_splits(FrameState::Created, inputs.take(first), rest);
    assert(inputs.take(first) + rest =~= inputs.take(second));
    law_settled_frame_stays(reached, rest);
}

/// Running two sequences one after the other is running their concatenation.
pub proof fn lemma_run_splits(state: FrameState, first: Seq<FrameInput>, second: Seq<FrameInput>)
    ensures
        run(state, first + second) == run(run(state, first), second),
        delivered(state, first + second) == delivered(state, first) + delivered(
            run(state, first),
            second,
        ),
    decreases second.len(),
{
    if second.len() == 0 {
        assert(first + second =~= first);
        assert(delivered(state, first) + delivered(run(state, first), second) =~= delivered(
            state,
            first,
        ));
    } else {
        lemma_run_splits(state, first, second.drop_last());
        assert((first + second).drop_last() =~= first + second.drop_last());
        assert((first + second).last() == second.last());
        let mid = run(state, first);
        let before = delivered(state, first) + delivered(mid, second.drop_last());
        match delivers(run(mid, second.drop_last()), second.last()) {
            Some(event) => {
                assert(before.push(event) =~= delivered(state, first) + delivered(
                    mid,
                    second.drop_last(),
                ).push(event));
            },
            None => {},
        }
    }
}

/// A client sees at most one outcome of a frame, and nothing after it: among
/// the events delivered for a frame only the last can be terminal, and while
/// the frame still waits for its outcome none is.
pub proof fn law_single_outcome(inputs: Seq<FrameInput>)
    ensures
        forall|i: int|
            0 <= i < delivered(FrameState::Created, inputs).len() - 1 ==> !(#[trigger] delivered(
                FrameState::Created,
                inputs,
            )[i]).is_terminal(),
        run(FrameState::Created, inputs).is_open() ==> no_outcome(
            delivered(FrameState::Created, inputs),
        ),
    decreases inputs.len(),
{
    if inputs.len() > 0 {
        let earlier = delivered(FrameState::Created, inputs.drop_last());
        let before = run(FrameState::Created, inputs.drop_last());
        law_single_outcome(inputs.drop_last());
        law_settled_frame_stays(FrameState::Created, inputs.drop_last());
        match delivers(before, inputs.last()) {
            Some(event) => {
                let all = earlier.push(event);
                assert(before is Pending);
                assert forall|i: int| 0 <= i < all.len() - 1 implies !(
                #[trigger] all[i]).is_terminal() by {
                    assert(all[i] == earlier[i]);
                }
                if run(FrameState::Created, inputs).is_open() {
                    assert(!event.is_terminal());
                    assert forall|i: int| 0 <= i < all.len() implies !(
                    #[trigger] all[i]).is_terminal() by {
                        if i < earlier.len() {
                            assert(all[i] == earlier[i]);
                        }
                    }
                }
            },
            None => {
                if run(FrameState::Created, inputs).is_open() {
                    assert(before.is_open());
                }
            },
        }
    }
}

/// A frame that is destroyed before its capture completed never shows an
/// outcome: whatever the handler reports afterwards is dropped. More
/// generally, nothing is delivered for a frame once it has been destroyed.
pub proof fn law_destroy_silences(inputs: Seq<FrameInput>, k: int)
    requires
        0 <= k < inputs.len(),
        inputs[k] is Destroy,
    ensures
        run(FrameState::Created, inputs) is Destroyed,
        delivered(FrameState::Created, inputs) == delivered(FrameState::Created, inputs.take(k)),
        run(FrameState::Created, inputs.take(k)).is_open() ==> no_outcome(
            delivered(FrameState::Created, inputs),
        ),
{
    let before = inputs.take(k);
    let after = inputs.subrange(k + 1, inputs.len() as int);
    lemma_unfold_prefix(FrameState::Created, inputs, k);
    assert(inputs.take(k + 1) + after =~= inputs);
    lemma_run_splits(FrameState::Created, inputs.take(k + 1), after);
    law_settled_frame_stays(FrameState::Destroyed, after);
    assert(delivered(FrameState::Created, before) + Seq::<FrameEvent>::empty() =~= delivered(
        FrameState::Created,
        before,
    ));
    law_single_outcome(before);
}

} // verus!
