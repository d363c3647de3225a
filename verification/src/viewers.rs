//! What a viewer gets, over a whole run of the session.
//!
//! Nothing here runs. The functions describe the session as its own contracts
//! do, over any interleaving of appended events, admissions, readings and
//! departures, and the lemmas say what holds of every such run.

use vstd::prelude::*;
use crate::event::EventView;
use crate::session::{
    accepting, broadcast, lemma_append_keeps_wf, lemma_broadcast_push, lemma_disconnect_keeps_wf,
    lemma_place_is_unique, lemma_poll_keeps_wf, lemma_subscribe_keeps_wf, PollView, SessionView,
    SubscriberView,
};

verus! {

/// One thing that happens to a session.
pub enum Op {
    /// The event loop appends an event.
    Append(EventView),
    /// The event loop admits one more viewer, if it can number one more.
    Subscribe,
    /// The viewer with this number looks for its next event.
    Poll(u64),
    /// The viewer with this number leaves.
    Disconnect(u64),
    /// The event source closes.
    Finish,
}

/// The session after one thing has happened.
pub open spec fn session_after_op(session: SessionView, op: Op) -> SessionView {
    match op {
        Op::Append(event) => session.append(event),
        Op::Subscribe => if session.admitted < u64::MAX {
            session.subscribe()
        } else {
            session
        },
        Op::Poll(id) => session.after_poll(id),
        Op::Disconnect(id) => session.disconnect(id),
        Op::Finish => session.finish(),
    }
}

/// The session after a run of things has happened.
pub open spec fn session_after_ops(session: SessionView, ops: Seq<Op>) -> SessionView
    decreases ops.len(),
{
    if ops.len() == 0 {
        session
    } else {
        session_after_op(session_after_ops(session, ops.drop_last()), ops.last())
    }
}

/// The events that the viewer `id` has read from its queue in the course of a
/// run, in the order in which it read them.
pub open spec fn received(session: SessionView, ops: Seq<Op>, id: u64) -> Seq<EventView>
    decreases ops.len(),
{
    if ops.len() == 0 {
        Seq::empty()
    } else {
        let before = session_after_ops(session, ops.drop_last());
        let earlier = received(session, ops.drop_last(), id);
        match (ops.last(), before.poll_result(id)) {
            (Op::Poll(reader), PollView::Event(event)) => if reader == id {
                earlier.push(event)
            } else {
                earlier
            },
            _ => earlier,
        }
    }
}

/// Whether every viewer with the number `id` has been handed `count` events.
pub open spec fn delivered_is(subscribers: Seq<SubscriberView>, id: u64, count: nat) -> bool {
    forall|i: int|
        0 <= i < subscribers.len() && (#[trigger] subscribers[i]).id == id ==> subscribers[i].delivered
            == count
}

/// A broadcast changes no viewer's count of events handed over.
proof fn lemma_broadcast_keeps_delivered(
    subscribers: Seq<SubscriberView>,
    event: EventView,
    capacity: nat,
    id: u64,
    count: nat,
)
    requires
        delivered_is(subscribers, id, count),
    ensures
        delivered_is(broadcast(subscribers, event, capacity), id, count),
    decreases subscribers.len(),
{
    if subscribers.len() == 0 {
        reveal(Seq::filter);
        assert(broadcast(subscribers, event, capacity) =~= Seq::empty());
    } else {
        let front = subscribers.drop_last();
        let last = subscribers.last();
        assert(front.push(last) =~= subscribers);
        assert(delivered_is(front, id, count)) by {
            assert forall|i: int| 0 <= i < front.len() && (#[trigger] front[i]).id
                == id implies front[i].delivered == count by {
                assert(front[i] == subscribers[i]);
            }
        }
        lemma_broadcast_keeps_delivered(front, event, capacity, id, count);
        lemma_broadcast_push(front, last, event, capacity);
        assert(last == subscribers[subscribers.len() - 1]);
    }
}

/// One thing that happens keeps the session's invariant.
pub proof fn lemma_op_keeps_wf(session: SessionView, op: Op)
    requires
        session.wf(),
    ensures
        session_after_op(session, op).wf(),
        session_after_op(session, op).admitted >= session.admitted,
        session_after_op(session, op).initial == session.initial,
{
    match op {
        Op::Append(event) => {
            lemma_append_keeps_wf(session, event);
        },
        Op::Subscribe => {
            if session.admitted < u64::MAX {
                lemma_subscribe_keeps_wf(session);
            }
        },
        Op::Poll(id) => {
            lemma_poll_keeps_wf(session, id);
        },
        Op::Disconnect(id) => {
            lemma_disconnect_keeps_wf(session, id);
        },
        Op::Finish => {},
    }
}

/// What a run leaves true of a viewer that was admitted before it: the
/// invariant that carries [`lemma_viewer_sees_history_once`].
spec fn follows(start: SessionView, end: SessionView, got: Seq<EventView>, id: u64, from: nat)
    -> bool {
    &&& end.wf()
    &&& end.admitted > id
    &&& from + got.len() <= end.history.len()
    &&& got == end.history.subrange(from as int, (from + got.len()) as int)
    &&& end.history.subrange(0, start.history.len() as int) == start.history
    &&& start.history.len() <= end.history.len()
    &&& delivered_is(end.subscribers, id, from + got.len())
}

proof fn lemma_step_follows(
    start: SessionView,
    before: SessionView,
    got: Seq<EventView>,
    id: u64,
    from: nat,
    op: Op,
)
    requires
        follows(start, before, got, id, from),
    ensures
        follows(
            start,
            session_after_op(before, op),
            match (op, before.poll_result(id)) {
                (Op::Poll(reader), PollView::Event(event)) => if reader == id {
                    got.push(event)
                } else {
                    got
                },
                _ => got,
            },
            id,
            from,
        ),
{
    let after = session_after_op(before, op);
    lemma_op_keeps_wf(before, op);
    let count = from + got.len();
    match op {
        Op::Append(event) => {
            if !before.finished {
                lemma_broadcast_keeps_delivered(
                    before.subscribers,
                    event,
                    before.capacity,
                    id,
                    count,
                );
                assert(after.history.subrange(from as int, (from + got.len()) as int)
                    =~= before.history.subrange(from as int, (from + got.len()) as int));
                assert(after.history.subrange(0, start.history.len() as int)
                    =~= before.history.subrange(0, start.history.len() as int));
            }
        },
        Op::Subscribe => {
            if before.admitted < u64::MAX {
                assert forall|i: int|
                    0 <= i < after.subscribers.len() && (#[trigger] after.subscribers[i]).id
                        == id implies after.subscribers[i].delivered == count by {
                    if i < before.subscribers.len() {
                        assert(after.subscribers[i] == before.subscribers[i]);
                    }
                }
            }
        },
        Op::Poll(reader) => {
            if before.live(reader) && before.subscriber(reader).queue.len() > 0 {
                let place = before.index_of(reader);
                let viewer = before.subscriber(reader);
                assert(viewer.in_step_with(before.history, before.capacity));
                if reader == id {
                    assert(viewer.delivered == count);
                    let event = viewer.queue[0];
                    assert(event == before.history[count as int]);
                    assert(got.push(event) =~= before.history.subrange(from as int, (count + 1) as int));
                    assert forall|i: int|
                        0 <= i < after.subscribers.len() && (#[trigger] after.subscribers[i]).id
                            == id implies after.subscribers[i].delivered == count + 1 by {
                        if i != place {
                            assert(after.subscribers[i] == before.subscribers[i]);
                            lemma_place_is_unique(before, id, i);
                        }
                    }
                } else {
                    assert forall|i: int|
                        0 <= i < after.subscribers.len() && (#[trigger] after.subscribers[i]).id
                            == id implies after.subscribers[i].delivered == count by {
                        if i != place {
                            assert(after.subscribers[i] == before.subscribers[i]);
                        }
                    }
                }
            }
        },
        Op::Disconnect(leaver) => {
            if before.has(leaver) {
                let place = before.index_of(leaver);
                assert forall|i: int|
                    0 <= i < after.subscribers.len() && (#[trigger] after.subscribers[i]).id
                        == id implies after.subscribers[i].delivered == count by {
                    assert(after.subscribers[i].id == before.subscribers[i].id);
                    assert(after.subscribers[i].delivered == before.subscribers[i].delivered);
                }
            }
        },
        Op::Finish => {},
    }
}

proof fn lemma_run_follows(start: SessionView, ops: Seq<Op>)
    requires
        start.wf(),
        start.admitted < u64::MAX,
    ensures
        follows(
            start,
            session_after_ops(start.subscribe(), ops),
            received(start.subscribe(), ops, start.admitted as u64),
            start.admitted as u64,
            start.history.len(),
        ),
    decreases ops.len(),
{
    let id = start.admitted as u64;
    let joined = start.subscribe();
    let from = start.history.len();
    if ops.len() == 0 {
        lemma_subscribe_keeps_wf(start);
        let got = Seq::<EventView>::empty();
        assert(got =~= joined.history.subrange(from as int, from as int));
        assert(joined.history.subrange(0, from as int) =~= start.history);
        assert forall|i: int|
            0 <= i < joined.subscribers.len() && (#[trigger] joined.subscribers[i]).id
                == id implies joined.subscribers[i].delivered == from by {
            if i < start.subscribers.len() {
                assert(joined.subscribers[i] == start.subscribers[i]);
            }
        }
    } else {
        lemma_run_follows(start, ops.drop_last());
        lemma_step_follows(
            start,
            session_after_ops(joined, ops.drop_last()),
            received(joined, ops.drop_last(), id),
            id,
            from,
            ops.last(),
        );
    }
}

/// A viewer sees the history once. Admit a viewer to a session, and let
/// anything happen afterwards: events are appended, other viewers come, read
/// and go, this one reads. Then the catch-up that it was handed, followed by
/// what it has read from its queue, is a front part of the history as it stands:
/// every event in its place, none left out, none twice. And as long as the
/// viewer has its place, what waits in its queue is the rest of the history
/// exactly.
pub proof fn lemma_viewer_sees_history_once(start: SessionView, ops: Seq<Op>)
    requires
        start.wf(),
        start.admitted < u64::MAX,
    ensures
        ({
            let id = start.admitted as u64;
            let end = session_after_ops(start.subscribe(), ops);
            let seen = start.history + received(start.subscribe(), ops, id);
            &&& end.wf()
            &&& seen.len() <= end.history.len()
            &&& seen == end.history.subrange(0, seen.len() as int)
            &&& end.has(id) ==> seen + end.subscriber(id).queue == end.history
        }),
{
    let id = start.admitted as u64;
    let joined = start.subscribe();
    let end = session_after_ops(joined, ops);
    let got = received(joined, ops, id);
    let seen = start.history + got;
    lemma_run_follows(start, ops);
    assert(seen =~= end.history.subrange(0, seen.len() as int));
    if end.has(id) {
        let viewer = end.subscriber(id);
        assert(viewer.in_step_with(end.history, end.capacity));
        assert(seen + viewer.queue =~= end.history);
    }
}

/// A broadcast treats each viewer by itself: what it does to a group of viewers
/// followed by another is what it does to the one followed by what it does to
/// the other.
pub proof fn lemma_broadcast_is_pointwise(
    first: Seq<SubscriberView>,
    second: Seq<SubscriberView>,
    event: EventView,
    capacity: nat,
)
    ensures
        broadcast(first + second, event, capacity) == broadcast(first, event, capacity) + broadcast(
            second,
            event,
            capacity,
        ),
{
    Seq::filter_distributes_over_add(first, second, accepting(capacity));
    assert(broadcast(first + second, event, capacity) =~= broadcast(first, event, capacity)
        + broadcast(second, event, capacity));
}

/// A viewer that cannot keep up holds nobody up. Whatever the other viewers
/// are like, full, gone or in good order, a viewer that can take the event has
/// it as the last of its queue after the broadcast, and stands between the
/// viewers that came before it and those that came after it as before.
pub proof fn lemma_slow_viewers_hold_nobody_up(
    earlier: Seq<SubscriberView>,
    viewer: SubscriberView,
    later: Seq<SubscriberView>,
    event: EventView,
    capacity: nat,
)
    requires
        viewer.accepts(capacity),
    ensures
        broadcast(earlier.push(viewer) + later, event, capacity) == broadcast(
            earlier,
            event,
            capacity,
        ).push(viewer.enqueue(event)) + broadcast(later, event, capacity),
{
    lemma_broadcast_is_pointwise(earlier.push(viewer), later, event, capacity);
    lemma_broadcast_push(earlier, viewer, event, capacity);
}

/// Appending does not depend on the viewers: whoever follows the session, a
/// session that has not finished has the event as the last of its history.
pub proof fn lemma_append_ignores_viewers(session: SessionView, event: EventView)
    requires
        !session.finished,
    ensures
        session.append(event).history == session.history.push(event),
{
}

} // verus!
