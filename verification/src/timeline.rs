//! From the driver's calls to the timeline: what a run of calls on the streamer
//! puts into the session's history.
//!
//! Nothing here runs. The functions describe the streamer and the session as
//! their own contracts do, over a whole run of calls, and the lemmas say what
//! holds of every such run.

use vstd::prelude::*;
use crate::event::{times_ordered, EventView, Geometry};
use crate::session::{lemma_append_keeps_wf, SessionView};
use crate::streamer::{lossy_text, StreamerView};

verus! {

/// One call of the terminal driver on the streamer, with the clock reading at
/// which it is made.
pub enum Call {
    Output { now: u64, data: Seq<u8> },
    Input { now: u64, data: Seq<u8> },
    Resize { now: u64, size: Geometry },
}

impl Call {
    /// The clock reading of the call.
    pub open spec fn now(self) -> u64 {
        match self {
            Call::Output { now, .. } => now,
            Call::Input { now, .. } => now,
            Call::Resize { now, .. } => now,
        }
    }

    /// Whether the call is an input chunk.
    pub open spec fn is_input(self) -> bool {
        self is Input
    }

    /// Whether the call is a resize.
    pub open spec fn is_resize(self) -> bool {
        self is Resize
    }
}

/// The streamer after a call: only input moves it.
pub open spec fn streamer_after_call(streamer: StreamerView, call: Call) -> StreamerView {
    match call {
        Call::Input { data, .. } => streamer.after_input(data),
        _ => streamer,
    }
}

/// The event that a call gives, if it gives one.
pub open spec fn event_of_call(streamer: StreamerView, call: Call) -> Option<EventView> {
    match call {
        Call::Output { now, data } => streamer.output_event(now, lossy_text(data)),
        Call::Input { now, data } => streamer.input_event(now, data, lossy_text(data)),
        Call::Resize { now, size } => Some(streamer.resize_event(now, size)),
    }
}

/// The event of an output or a resize on a stream that is not paused. (Of an
/// input: the event that it gives where it is recorded.)
pub open spec fn plain_event(streamer: StreamerView, call: Call) -> EventView {
    match call {
        Call::Output { now, data } => EventView::Output {
            time: streamer.elapsed(now),
            text: lossy_text(data),
        },
        Call::Input { now, data } => EventView::Input {
            time: streamer.elapsed(now),
            text: lossy_text(data),
        },
        Call::Resize { now, size } => EventView::Resize {
            time: streamer.elapsed(now),
            geometry: size,
        },
    }
}

/// The streamer after a run of calls.
pub open spec fn streamer_after_calls(streamer: StreamerView, calls: Seq<Call>) -> StreamerView
    decreases calls.len(),
{
    if calls.len() == 0 {
        streamer
    } else {
        streamer_after_call(streamer_after_calls(streamer, calls.drop_last()), calls.last())
    }
}

/// The events that a run of calls gives, in the order of the calls.
pub open spec fn recorded(streamer: StreamerView, calls: Seq<Call>) -> Seq<EventView>
    decreases calls.len(),
{
    if calls.len() == 0 {
        Seq::empty()
    } else {
        let before = streamer_after_calls(streamer, calls.drop_last());
        let earlier = recorded(streamer, calls.drop_last());
        match event_of_call(before, calls.last()) {
            Some(event) => earlier.push(event),
            None => earlier,
        }
    }
}

/// The session after a run of events was appended, one by one.
pub open spec fn session_after_events(session: SessionView, events: Seq<EventView>) -> SessionView
    decreases events.len(),
{
    if events.len() == 0 {
        session
    } else {
        session_after_events(session, events.drop_last()).append(events.last())
    }
}

/// Whether the clock readings of the calls never go back.
pub open spec fn clock_ordered(calls: Seq<Call>) -> bool {
    forall|i: int, j: int| 0 <= i <= j < calls.len() ==> calls[i].now() <= calls[j].now()
}

/// Whether the stream is paused before each of the calls and after the last.
pub open spec fn always_paused(streamer: StreamerView, calls: Seq<Call>) -> bool {
    forall|k: int|
        0 <= k <= calls.len() ==> (#[trigger] streamer_after_calls(streamer, calls.take(k))).paused
}

/// Whether the stream is not paused before any of the calls nor after the last.
pub open spec fn never_paused(streamer: StreamerView, calls: Seq<Call>) -> bool {
    forall|k: int|
        0 <= k <= calls.len() ==> !(#[trigger] streamer_after_calls(
            streamer,
            calls.take(k),
        )).paused
}

/// The test for an event that is no input.
pub open spec fn not_input_event() -> spec_fn(EventView) -> bool {
    |e: EventView| !(e is Input)
}

/// The test for a call that is no input.
pub open spec fn not_input_call() -> spec_fn(Call) -> bool {
    |c: Call| !c.is_input()
}

/// The test for a call that is a resize.
pub open spec fn resize_call() -> spec_fn(Call) -> bool {
    |c: Call| c.is_resize()
}

/// The events of a run of outputs and resizes on a stream that is not paused.
pub open spec fn plain_events(streamer: StreamerView, calls: Seq<Call>) -> Seq<EventView> {
    calls.map_values(|c: Call| plain_event(streamer, c))
}

/// Filtering a sequence with one more element.
proof fn lemma_filter_push<A>(s: Seq<A>, last: A, keep: spec_fn(A) -> bool)
    ensures
        s.push(last).filter(keep) == if keep(last) {
            s.filter(keep).push(last)
        } else {
            s.filter(keep)
        },
{
    reveal(Seq::filter);
    assert(s.push(last).drop_last() =~= s);
}

/// Calls leave the streamer's settings and its time zero alone.
proof fn lemma_calls_keep_settings(streamer: StreamerView, calls: Seq<Call>)
    ensures
        streamer_after_calls(streamer, calls).start_time == streamer.start_time,
        streamer_after_calls(streamer, calls).record_input == streamer.record_input,
        streamer_after_calls(streamer, calls).keys == streamer.keys,
        streamer_after_calls(streamer, calls).phase == streamer.phase,
    decreases calls.len(),
{
    if calls.len() > 0 {
        lemma_calls_keep_settings(streamer, calls.drop_last());
    }
}

/// No event of a run is later than the latest clock reading allows.
proof fn lemma_recorded_times_bounded(streamer: StreamerView, calls: Seq<Call>, bound: u64)
    requires
        forall|k: int| 0 <= k < calls.len() ==> (#[trigger] calls[k]).now() <= bound,
    ensures
        forall|i: int|
            0 <= i < recorded(streamer, calls).len() ==> (#[trigger] recorded(
                streamer,
                calls,
            )[i]).time() <= streamer.elapsed(bound),
    decreases calls.len(),
{
    if calls.len() > 0 {
        let front = calls.drop_last();
        assert forall|k: int| 0 <= k < front.len() implies (#[trigger] front[k]).now()
            <= bound by {
            assert(front[k] == calls[k]);
        }
        lemma_recorded_times_bounded(streamer, front, bound);
        lemma_calls_keep_settings(streamer, front);
        let last = calls[calls.len() - 1];
        let before = streamer_after_calls(streamer, front);
        let earlier = recorded(streamer, front);
        let all = recorded(streamer, calls);
        assert(last.now() <= bound);
        assert(before.elapsed(last.now()) <= streamer.elapsed(bound));
        assert forall|i: int| 0 <= i < all.len() implies (#[trigger] all[i]).time()
            <= streamer.elapsed(bound) by {
            if i < earlier.len() {
                assert(all[i] == earlier[i]);
            } else {
                assert(event_of_call(before, last) == Some(all[i]));
                assert(all[i].time() == before.elapsed(last.now()));
            }
        }
    }
}

/// Where the clock never goes back, the events of a run come in the order of
/// their times.
pub proof fn lemma_recorded_times_ordered(streamer: StreamerView, calls: Seq<Call>)
    requires
        clock_ordered(calls),
    ensures
        times_ordered(recorded(streamer, calls)),
    decreases calls.len(),
{
    if calls.len() > 0 {
        let front = calls.drop_last();
        let last = calls.last();
        assert(last == calls[calls.len() - 1]);
        assert(clock_ordered(front)) by {
            assert forall|i: int, j: int| 0 <= i <= j < front.len() implies front[i].now()
                <= front[j].now() by {
                assert(front[i] == calls[i]);
                assert(front[j] == calls[j]);
            }
        }
        lemma_recorded_times_ordered(streamer, front);
        assert forall|k: int| 0 <= k < front.len() implies (#[trigger] front[k]).now()
            <= last.now() by {
            assert(front[k] == calls[k]);
        }
        lemma_recorded_times_bounded(streamer, front, last.now());
        lemma_calls_keep_settings(streamer, front);
        let earlier = recorded(streamer, front);
        let all = recorded(streamer, calls);
        assert forall|i: int, j: int| 0 <= i <= j < all.len() implies all[i].time()
            <= all[j].time() by {
            if j < earlier.len() {
                assert(all[i] == earlier[i]);
                assert(all[j] == earlier[j]);
            } else if i < earlier.len() {
                assert(all[i] == earlier[i]);
            }
        }
    }
}

/// Appending a run of events to a session that has not finished keeps its
/// invariant and puts exactly these events, in their order, behind the
/// history.
pub proof fn lemma_events_extend_history(session: SessionView, events: Seq<EventView>)
    requires
        session.wf(),
        !session.finished,
    ensures
        session_after_events(session, events).wf(),
        !session_after_events(session, events).finished,
        session_after_events(session, events).history == session.history + events,
        session_after_events(session, events).initial == session.initial,
    decreases events.len(),
{
    if events.len() == 0 {
        assert(session.history + events =~= session.history);
    } else {
        let front = events.drop_last();
        lemma_events_extend_history(session, front);
        lemma_append_keeps_wf(session_after_events(session, front), events.last());
        assert((session.history + front).push(events.last()) =~= session.history + events);
    }
}

/// The timeline is what was accepted. Whatever calls the driver makes, the
/// history of a session to which the streamer's events are appended is the
/// history before followed by exactly the events that the calls gave, in the
/// order of the calls; and where the clock never goes back, these events come
/// in the order of their times.
pub proof fn lemma_history_is_what_was_accepted(
    streamer: StreamerView,
    session: SessionView,
    calls: Seq<Call>,
)
    requires
        session.wf(),
        !session.finished,
    ensures
        session_after_events(session, recorded(streamer, calls)).wf(),
        session_after_events(session, recorded(streamer, calls)).history == session.history
            + recorded(streamer, calls),
        clock_ordered(calls) ==> times_ordered(recorded(streamer, calls)),
{
    lemma_events_extend_history(session, recorded(streamer, calls));
    if clock_ordered(calls) {
        lemma_recorded_times_ordered(streamer, calls);
    }
}

/// While the stream is not paused, no output and no resize is lost: the events
/// of a run that are no input are the events of the calls that are no input,
/// one for one and in order.
pub proof fn lemma_unpaused_records_every_output_and_resize(
    streamer: StreamerView,
    calls: Seq<Call>,
)
    requires
        never_paused(streamer, calls),
    ensures
        recorded(streamer, calls).filter(not_input_event()) == plain_events(
            streamer,
            calls.filter(not_input_call()),
        ),
    decreases calls.len(),
{
    if calls.len() == 0 {
        reveal(Seq::filter);
        assert(recorded(streamer, calls).filter(not_input_event()) =~= Seq::empty());
        assert(plain_events(streamer, calls.filter(not_input_call())) =~= Seq::empty());
    } else {
        let front = calls.drop_last();
        let last = calls.last();
        assert(front.push(last) =~= calls);
        assert(never_paused(streamer, front)) by {
            assert forall|k: int| 0 <= k <= front.len() implies !(#[trigger] streamer_after_calls(
                streamer,
                front.take(k),
            )).paused by {
                assert(front.take(k) =~= calls.take(k));
            }
        }
        lemma_unpaused_records_every_output_and_resize(streamer, front);
        let before = streamer_after_calls(streamer, front);
        assert(!before.paused) by {
            assert(calls.take(front.len() as int) =~= front);
        }
        lemma_calls_keep_settings(streamer, front);
        let earlier = recorded(streamer, front);
        lemma_filter_push(front, last, not_input_call());
        match event_of_call(before, last) {
            Some(event) => {
                lemma_filter_push(earlier, event, not_input_event());
                if !last.is_input() {
                    assert(event == plain_event(streamer, last));
                    assert(plain_events(streamer, front.filter(not_input_call()).push(last))
                        =~= plain_events(streamer, front.filter(not_input_call())).push(event));
                }
            },
            None => {},
        }
    }
}

/// While the stream is paused, only the resizes are recorded: the events of a
/// run are the events of its resize calls, one for one and in order.
pub proof fn lemma_paused_records_only_resizes(streamer: StreamerView, calls: Seq<Call>)
    requires
        always_paused(streamer, calls),
    ensures
        recorded(streamer, calls) == plain_events(streamer, calls.filter(resize_call())),
    decreases calls.len(),
{
    if calls.len() == 0 {
        reveal(Seq::filter);
        assert(plain_events(streamer, calls.filter(resize_call())) =~= Seq::empty());
    } else {
        let front = calls.drop_last();
        let last = calls.last();
        assert(front.push(last) =~= calls);
        assert(always_paused(streamer, front)) by {
            assert forall|k: int| 0 <= k <= front.len() implies (#[trigger] streamer_after_calls(
                streamer,
                front.take(k),
            )).paused by {
                assert(front.take(k) =~= calls.take(k));
            }
        }
        lemma_paused_records_only_resizes(streamer, front);
        let before = streamer_after_calls(streamer, front);
        assert(before.paused) by {
            assert(calls.take(front.len() as int) =~= front);
        }
        lemma_calls_keep_settings(streamer, front);
        lemma_filter_push(front, last, resize_call());
        if last.is_resize() {
            assert(plain_events(streamer, front.filter(resize_call()).push(last)) =~= plain_events(
                streamer,
                front.filter(resize_call()),
            ).push(plain_event(streamer, last)));
        }
    }
}

/// Whatever is recorded, paused or not, the session's geometry is that of the
/// last resize on the timeline: a viewer that replays its catch-up from the
/// first size arrives at the size that the terminal has.
pub proof fn lemma_geometry_follows_timeline(session: SessionView, events: Seq<EventView>)
    requires
        session.wf(),
        !session.finished,
    ensures
        session_after_events(session, events).geometry == crate::event::replay_geometry(
            session.initial,
            session.history + events,
        ),
{
    lemma_events_extend_history(session, events);
}

} // verus!
