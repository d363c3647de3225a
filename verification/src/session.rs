//! The session: the one timeline of a streaming run, the terminal's geometry
//! and the viewers that follow it.
//!
//! The history only grows. Every viewer has a bounded queue of the events that
//! it has not read yet; an event that finds a queue full or closed costs that
//! viewer its place, and nobody else anything.

use std::collections::VecDeque;
use vstd::prelude::*;
use crate::event::{replay_geometry, views, EventView, Geometry, TimedEvent};

verus! {

/// How many unread events a viewer may have, unless the session is built with
/// another bound.
pub const DEFAULT_QUEUE_CAPACITY: usize = 1024;

/// One connected viewer.
pub struct Subscriber {
    id: u64,
    queue: VecDeque<TimedEvent>,
    delivered: usize,
    closed: bool,
}

/// The mathematical value of a [`Subscriber`].
pub struct SubscriberView {
    /// The viewer's number; no two viewers of a session share one.
    pub id: u64,
    /// The events that wait for the viewer, oldest first.
    pub queue: Seq<EventView>,
    /// How many events of the history the viewer has been handed, the catch-up
    /// counted in.
    pub delivered: nat,
    /// Whether the viewer's side has gone away.
    pub closed: bool,
}

impl SubscriberView {
    /// Whether the viewer's queue can take one more event.
    pub open spec fn accepts(self, capacity: nat) -> bool {
        !self.closed && self.queue.len() < capacity
    }

    /// The viewer with `event` added to its queue.
    pub open spec fn enqueue(self, event: EventView) -> SubscriberView {
        SubscriberView { queue: self.queue.push(event), ..self }
    }

    /// The viewer after it has read the oldest event of its queue.
    pub open spec fn dequeue(self) -> SubscriberView {
        SubscriberView { queue: self.queue.drop_first(), delivered: self.delivered + 1, ..self }
    }

    /// What was handed over and what waits make up the history, with no gap and
    /// nothing twice.
    pub open spec fn in_step_with(self, history: Seq<EventView>, capacity: nat) -> bool {
        &&& self.delivered <= history.len()
        &&& self.queue == history.subrange(self.delivered as int, history.len() as int)
        &&& self.queue.len() <= capacity
    }
}

impl View for Subscriber {
    type V = SubscriberView;

    closed spec fn view(&self) -> SubscriberView {
        SubscriberView {
            id: self.id,
            queue: views(self.queue@),
            delivered: self.delivered as nat,
            closed: self.closed,
        }
    }
}

/// The test by which a broadcast keeps a viewer.
pub open spec fn accepting(capacity: nat) -> spec_fn(SubscriberView) -> bool {
    |s: SubscriberView| s.accepts(capacity)
}

/// The test by which a broadcast drops a viewer.
pub open spec fn rejecting(capacity: nat) -> spec_fn(SubscriberView) -> bool {
    |s: SubscriberView| !s.accepts(capacity)
}

/// The viewers after `event` was offered to each: those that could take it,
/// in their old order, each with the event at the end of its queue.
pub open spec fn broadcast(subscribers: Seq<SubscriberView>, event: EventView, capacity: nat) -> Seq<
    SubscriberView,
> {
    subscribers.filter(accepting(capacity)).map_values(|s: SubscriberView| s.enqueue(event))
}

/// The numbers of the viewers that could not take one more event, in order.
pub open spec fn rejected(subscribers: Seq<SubscriberView>, capacity: nat) -> Seq<u64> {
    subscribers.filter(rejecting(capacity)).map_values(|s: SubscriberView| s.id)
}

/// The values of a run of viewers.
pub open spec fn subscriber_views(subscribers: Seq<Subscriber>) -> Seq<SubscriberView> {
    subscribers.map_values(|s: Subscriber| s@)
}

/// What a newly admitted viewer starts from.
#[derive(Debug, PartialEq, Eq)]
pub struct CatchUp {
    /// The terminal's size at time zero.
    pub geometry: Geometry,
    /// The whole history at the moment of admission, oldest first.
    pub events: Vec<TimedEvent>,
}

/// A viewer's place in the session.
#[derive(Debug, PartialEq, Eq)]
pub struct Subscription {
    /// The number under which the viewer reads on.
    pub id: u64,
    pub catch_up: CatchUp,
}

/// What a viewer finds when it looks for its next live event.
#[derive(Debug, PartialEq, Eq)]
pub enum Poll {
    /// The next event.
    Event(TimedEvent),
    /// Nothing yet.
    Empty,
    /// Nothing any more: the viewer was dropped or has left, or the session
    /// has ended and the queue is read out.
    Closed,
}

/// The mathematical value of a [`Poll`].
pub enum PollView {
    Event(EventView),
    Empty,
    Closed,
}

impl View for Poll {
    type V = PollView;

    open spec fn view(&self) -> PollView {
        match *self {
            Poll::Event(event) => PollView::Event(event@),
            Poll::Empty => PollView::Empty,
            Poll::Closed => PollView::Closed,
        }
    }
}

/// The timeline of a streaming run with its viewers.
pub struct Session {
    initial: Geometry,
    geometry: Geometry,
    history: Vec<TimedEvent>,
    subscribers: Vec<Subscriber>,
    admitted: u64,
    capacity: usize,
    finished: bool,
}

/// The mathematical value of a [`Session`].
pub struct SessionView {
    /// The terminal's size at time zero.
    pub initial: Geometry,
    /// The terminal's size now.
    pub geometry: Geometry,
    /// Every event since time zero, oldest first.
    pub history: Seq<EventView>,
    /// The viewers, in the order of their admission.
    pub subscribers: Seq<SubscriberView>,
    /// How many viewers were ever admitted; the next viewer's number.
    pub admitted: nat,
    /// How many unread events a viewer may have.
    pub capacity: nat,
    /// Whether the event source has closed.
    pub finished: bool,
}

impl SessionView {
    /// The session's invariant: the geometry is that of the last resize, the
    /// viewers' numbers rise and lie below the count of admissions, and every
    /// viewer is in step with the history.
    pub open spec fn wf(self) -> bool {
        &&& self.geometry == replay_geometry(self.initial, self.history)
        &&& ids_below(self.subscribers, self.admitted as int)
        &&& ids_rise(self.subscribers)
        &&& all_in_step(self.subscribers, self.history, self.capacity)
    }

    /// A session without events or viewers.
    pub open spec fn fresh(geometry: Geometry, capacity: nat) -> SessionView {
        SessionView {
            initial: geometry,
            geometry,
            history: Seq::empty(),
            subscribers: Seq::empty(),
            admitted: 0,
            capacity,
            finished: false,
        }
    }

    /// The session after `event` was appended: it is the last of the history,
    /// a resize sets the geometry, and the viewers that can take the event have
    /// it in their queues while the others are gone. A finished session takes
    /// no event.
    pub open spec fn append(self, event: EventView) -> SessionView {
        if self.finished {
            self
        } else {
            SessionView {
                geometry: event.geometry_after(self.geometry),
                history: self.history.push(event),
                subscribers: broadcast(self.subscribers, event, self.capacity),
                ..self
            }
        }
    }

    /// The numbers of the viewers that appending an event costs their place.
    pub open spec fn dropped_by_append(self) -> Seq<u64> {
        if self.finished {
            Seq::empty()
        } else {
            rejected(self.subscribers, self.capacity)
        }
    }

    /// The viewer that the next admission adds: nothing waits for it, and the
    /// whole history counts as handed over.
    pub open spec fn newcomer(self) -> SubscriberView {
        SubscriberView {
            id: self.admitted as u64,
            queue: Seq::empty(),
            delivered: self.history.len(),
            closed: false,
        }
    }

    /// The session after one more viewer was admitted.
    pub open spec fn subscribe(self) -> SessionView {
        SessionView {
            subscribers: self.subscribers.push(self.newcomer()),
            admitted: self.admitted + 1,
            ..self
        }
    }

    /// Whether a viewer with this number has a place.
    pub open spec fn has(self, id: u64) -> bool {
        exists|i: int| 0 <= i < self.subscribers.len() && (#[trigger] self.subscribers[i]).id == id
    }

    /// The place of the viewer with this number.
    pub open spec fn index_of(self, id: u64) -> int {
        choose|i: int| 0 <= i < self.subscribers.len() && (#[trigger] self.subscribers[i]).id == id
    }

    /// The viewer with this number.
    pub open spec fn subscriber(self, id: u64) -> SubscriberView {
        self.subscribers[self.index_of(id)]
    }

    /// Whether the viewer with this number has a place and has not left.
    pub open spec fn live(self, id: u64) -> bool {
        self.has(id) && !self.subscriber(id).closed
    }

    /// What the viewer with this number finds when it looks for its next event.
    pub open spec fn poll_result(self, id: u64) -> PollView {
        if !self.live(id) {
            PollView::Closed
        } else if self.subscriber(id).queue.len() > 0 {
            PollView::Event(self.subscriber(id).queue[0])
        } else if self.finished {
            PollView::Closed
        } else {
            PollView::Empty
        }
    }

    /// The session after the viewer with this number has looked for its next
    /// event: one that it found has left the queue.
    pub open spec fn after_poll(self, id: u64) -> SessionView {
        if self.live(id) && self.subscriber(id).queue.len() > 0 {
            SessionView {
                subscribers: self.subscribers.update(
                    self.index_of(id),
                    self.subscriber(id).dequeue(),
                ),
                ..self
            }
        } else {
            self
        }
    }

    /// The session after the viewer with this number has left.
    pub open spec fn disconnect(self, id: u64) -> SessionView {
        if self.has(id) {
            SessionView {
                subscribers: self.subscribers.update(
                    self.index_of(id),
                    SubscriberView { closed: true, ..self.subscriber(id) },
                ),
                ..self
            }
        } else {
            self
        }
    }

    /// The session after its event source has closed.
    pub open spec fn finish(self) -> SessionView {
        SessionView { finished: true, ..self }
    }

    /// How many viewers have a place and have not left.
    pub open spec fn live_count(self) -> nat {
        self.subscribers.filter(|s: SubscriberView| !s.closed).len()
    }
}

/// Offering an event to one more viewer: it is kept with the event, or dropped.
pub proof fn lemma_broadcast_push(
    subscribers: Seq<SubscriberView>,
    last: SubscriberView,
    event: EventView,
    capacity: nat,
)
    ensures
        broadcast(subscribers.push(last), event, capacity) == if last.accepts(capacity) {
            broadcast(subscribers, event, capacity).push(last.enqueue(event))
        } else {
            broadcast(subscribers, event, capacity)
        },
        rejected(subscribers.push(last), capacity) == if last.accepts(capacity) {
            rejected(subscribers, capacity)
        } else {
            rejected(subscribers, capacity).push(last.id)
        },
{
    reveal(Seq::filter);
    let longer = subscribers.push(last);
    assert(longer.drop_last() =~= subscribers);
    assert(longer.last() == last);
    if last.accepts(capacity) {
        assert(broadcast(longer, event, capacity) =~= broadcast(subscribers, event, capacity).push(
            last.enqueue(event),
        ));
        assert(rejected(longer, capacity) =~= rejected(subscribers, capacity));
    } else {
        assert(broadcast(longer, event, capacity) =~= broadcast(subscribers, event, capacity));
        assert(rejected(longer, capacity) =~= rejected(subscribers, capacity).push(last.id));
    }
}

/// Whether the viewers' numbers rise along the sequence.
pub open spec fn ids_rise(subscribers: Seq<SubscriberView>) -> bool {
    forall|i: int, j: int|
        0 <= i < j < subscribers.len() ==> (#[trigger] subscribers[i]).id < (
        #[trigger] subscribers[j]).id
}

/// Whether the viewers' numbers lie below `bound`.
pub open spec fn ids_below(subscribers: Seq<SubscriberView>, bound: int) -> bool {
    forall|i: int| 0 <= i < subscribers.len() ==> (#[trigger] subscribers[i]).id < bound
}

/// Whether every viewer is in step with the history.
pub open spec fn all_in_step(
    subscribers: Seq<SubscriberView>,
    history: Seq<EventView>,
    capacity: nat,
) -> bool {
    forall|i: int|
        0 <= i < subscribers.len() ==> (#[trigger] subscribers[i]).in_step_with(history, capacity)
}

/// A broadcast invents no viewer: a bound on the numbers before it is one
/// after it.
proof fn lemma_broadcast_ids_below(
    subscribers: Seq<SubscriberView>,
    event: EventView,
    capacity: nat,
    bound: int,
)
    requires
        ids_below(subscribers, bound),
    ensures
        ids_below(broadcast(subscribers, event, capacity), bound),
    decreases subscribers.len(),
{
    if subscribers.len() == 0 {
        reveal(Seq::filter);
        assert(broadcast(subscribers, event, capacity) =~= Seq::empty());
    } else {
        let front = subscribers.drop_last();
        let last = subscribers.last();
        assert(front.push(last) =~= subscribers);
        lemma_broadcast_ids_below(front, event, capacity, bound);
        lemma_broadcast_push(front, last, event, capacity);
    }
}

/// A broadcast reorders no viewer: numbers that rose before it rise after it.
proof fn lemma_broadcast_ids_rise(
    subscribers: Seq<SubscriberView>,
    event: EventView,
    capacity: nat,
)
    requires
        ids_rise(subscribers),
    ensures
        ids_rise(broadcast(subscribers, event, capacity)),
    decreases subscribers.len(),
{
    if subscribers.len() == 0 {
        reveal(Seq::filter);
        assert(broadcast(subscribers, event, capacity) =~= Seq::empty());
    } else {
        let front = subscribers.drop_last();
        let last = subscribers.last();
        assert(front.push(last) =~= subscribers);
        assert(ids_below(front, last.id as int)) by {
            assert forall|i: int| 0 <= i < front.len() implies (#[trigger] front[i]).id
                < last.id by {
                assert(front[i] == subscribers[i]);
                assert(last == subscribers[subscribers.len() - 1]);
            }
        }
        assert(ids_rise(front)) by {
            assert forall|i: int, j: int| 0 <= i < j < front.len() implies (#[trigger] front[i]).id
                < (#[trigger] front[j]).id by {
                assert(front[i] == subscribers[i]);
                assert(front[j] == subscribers[j]);
            }
        }
        lemma_broadcast_ids_rise(front, event, capacity);
        lemma_broadcast_ids_below(front, event, capacity, last.id as int);
        lemma_broadcast_push(front, last, event, capacity);
    }
}

/// A broadcast keeps the viewers in step: each that stays has the new event
/// as the last of its queue, as the history has it as its last.
proof fn lemma_broadcast_in_step(
    subscribers: Seq<SubscriberView>,
    history: Seq<EventView>,
    event: EventView,
    capacity: nat,
)
    requires
        all_in_step(subscribers, history, capacity),
    ensures
        all_in_step(broadcast(subscribers, event, capacity), history.push(event), capacity),
    decreases subscribers.len(),
{
    if subscribers.len() == 0 {
        reveal(Seq::filter);
        assert(broadcast(subscribers, event, capacity) =~= Seq::empty());
    } else {
        let front = subscribers.drop_last();
        let last = subscribers.last();
        assert(front.push(last) =~= subscribers);
        assert(all_in_step(front, history, capacity)) by {
            assert forall|i: int| 0 <= i < front.len() implies (#[trigger] front[i]).in_step_with(
                history,
                capacity,
            ) by {
                assert(front[i] == subscribers[i]);
            }
        }
        lemma_broadcast_in_step(front, history, event, capacity);
        lemma_broadcast_push(front, last, event, capacity);
        if last.accepts(capacity) {
            assert(last == subscribers[subscribers.len() - 1]);
            assert(last.in_step_with(history, capacity));
            let longer = history.push(event);
            assert(last.enqueue(event).queue =~= longer.subrange(
                last.delivered as int,
                longer.len() as int,
            ));
        }
    }
}

/// The geometry after one more event.
pub proof fn lemma_replay_push(start: Geometry, events: Seq<EventView>, event: EventView)
    ensures
        replay_geometry(start, events.push(event)) == event.geometry_after(
            replay_geometry(start, events),
        ),
{
    assert(events.push(event).drop_last() =~= events);
}

/// Appending an event keeps the session's invariant.
pub proof fn lemma_append_keeps_wf(session: SessionView, event: EventView)
    requires
        session.wf(),
    ensures
        session.append(event).wf(),
{
    if !session.finished {
        lemma_replay_push(session.initial, session.history, event);
        lemma_broadcast_ids_below(
            session.subscribers,
            event,
            session.capacity,
            session.admitted as int,
        );
        lemma_broadcast_ids_rise(session.subscribers, event, session.capacity);
        lemma_broadcast_in_step(session.subscribers, session.history, event, session.capacity);
    }
}

/// Numbers that rise are all different: a viewer's number tells its place.
pub proof fn lemma_place_is_unique(session: SessionView, id: u64, place: int)
    requires
        ids_rise(session.subscribers),
        0 <= place < session.subscribers.len(),
        session.subscribers[place].id == id,
    ensures
        session.has(id),
        session.index_of(id) == place,
{
    let found = session.index_of(id);
    if found < place {
        assert(session.subscribers[found].id < session.subscribers[place].id);
    } else if place < found {
        assert(session.subscribers[place].id < session.subscribers[found].id);
    }
}

/// A viewer's reading keeps the session's invariant.
pub proof fn lemma_poll_keeps_wf(session: SessionView, id: u64)
    requires
        session.wf(),
    ensures
        session.after_poll(id).wf(),
{
    let after = session.after_poll(id);
    if session.live(id) && session.subscriber(id).queue.len() > 0 {
        let place = session.index_of(id);
        let viewer = session.subscriber(id);
        assert(viewer.in_step_with(session.history, session.capacity));
        assert(viewer.dequeue().queue =~= session.history.subrange(
            viewer.delivered as int + 1,
            session.history.len() as int,
        ));
        assert forall|k: int| 0 <= k < after.subscribers.len() implies (
        #[trigger] after.subscribers[k]).id < after.admitted && after.subscribers[k].in_step_with(
            after.history,
            after.capacity,
        ) by {
            if k != place {
                assert(after.subscribers[k] == session.subscribers[k]);
            }
        }
        assert forall|k: int, l: int| 0 <= k < l < after.subscribers.len() implies (
        #[trigger] after.subscribers[k]).id < (#[trigger] after.subscribers[l]).id by {
            assert(after.subscribers[k].id == session.subscribers[k].id);
            assert(after.subscribers[l].id == session.subscribers[l].id);
        }
    }
}

/// A viewer's leaving keeps the session's invariant.
pub proof fn lemma_disconnect_keeps_wf(session: SessionView, id: u64)
    requires
        session.wf(),
    ensures
        session.disconnect(id).wf(),
{
    let after = session.disconnect(id);
    if session.has(id) {
        let place = session.index_of(id);
        assert forall|k: int| 0 <= k < after.subscribers.len() implies (
        #[trigger] after.subscribers[k]).id < after.admitted && after.subscribers[k].in_step_with(
            after.history,
            after.capacity,
        ) by {
            assert(session.subscribers[k].in_step_with(session.history, session.capacity));
            if k != place {
                assert(after.subscribers[k] == session.subscribers[k]);
            }
        }
        assert forall|k: int, l: int| 0 <= k < l < after.subscribers.len() implies (
        #[trigger] after.subscribers[k]).id < (#[trigger] after.subscribers[l]).id by {
            assert(after.subscribers[k].id == session.subscribers[k].id);
            assert(after.subscribers[l].id == session.subscribers[l].id);
        }
    }
}

/// An admission keeps the session's invariant.
pub proof fn lemma_subscribe_keeps_wf(session: SessionView)
    requires
        session.wf(),
        session.admitted < u64::MAX,
    ensures
        session.subscribe().wf(),
{
    let after = session.subscribe();
    assert(session.newcomer().queue =~= session.history.subrange(
        session.history.len() as int,
        session.history.len() as int,
    ));
    assert forall|k: int| 0 <= k < after.subscribers.len() implies (
    #[trigger] after.subscribers[k]).id < after.admitted && after.subscribers[k].in_step_with(
        after.history,
        after.capacity,
    ) by {
        if k < session.subscribers.len() {
            assert(after.subscribers[k] == session.subscribers[k]);
        }
    }
    assert forall|k: int, l: int| 0 <= k < l < after.subscribers.len() implies (
    #[trigger] after.subscribers[k]).id < (#[trigger] after.subscribers[l]).id by {
        assert(after.subscribers[k] == session.subscribers[k]);
        if l < session.subscribers.len() {
            assert(after.subscribers[l] == session.subscribers[l]);
        }
    }
}

impl View for Session {
    type V = SessionView;

    closed spec fn view(&self) -> SessionView {
        SessionView {
            initial: self.initial,
            geometry: self.geometry,
            history: views(self.history@),
            subscribers: subscriber_views(self.subscribers@),
            admitted: self.admitted as nat,
            capacity: self.capacity as nat,
            finished: self.finished,
        }
    }
}

impl Session {
    /// A session for a terminal of the given size, without events or viewers,
    /// in which a viewer may have [`DEFAULT_QUEUE_CAPACITY`] unread events.
    pub fn new(geometry: Geometry) -> (session: Session)
        ensures
            session@ == SessionView::fresh(geometry, DEFAULT_QUEUE_CAPACITY as nat),
            session@.wf(),
    {
        Session::with_capacity(geometry, DEFAULT_QUEUE_CAPACITY)
    }

    /// A session for a terminal of the given size, without events or viewers,
    /// in which a viewer may have `capacity` unread events.
    pub fn with_capacity(geometry: Geometry, capacity: usize) -> (session: Session)
        ensures
            session@ == SessionView::fresh(geometry, capacity as nat),
            session@.wf(),
    {
        let session = Session {
            initial: geometry,
            geometry,
            history: Vec::new(),
            subscribers: Vec::new(),
            admitted: 0,
            capacity,
            finished: false,
        };
        assert(session@.history =~= Seq::empty());
        assert(session@.subscribers =~= Seq::empty());
        session
    }

    /// Appends an event to the history, lets a resize set the geometry, and
    /// offers the event to every viewer. A viewer whose queue is full or closed
    /// loses its place; the numbers of those viewers are returned. The others
    /// are not held up by it.
    pub fn append(&mut self, event: TimedEvent) -> (dropped: Vec<u64>)
        requires
            old(self)@.wf(),
        ensures
            final(self)@ == old(self)@.append(event@),
            final(self)@.wf(),
            dropped@ == old(self)@.dropped_by_append(),
    {
        let mut dropped: Vec<u64> = Vec::new();
        if self.finished {
            return dropped;
        }
        proof {
            lemma_append_keeps_wf(self@, event@);
        }
        if let TimedEvent::Resize(_, size) = &event {
            self.geometry = *size;
        }
        let mut waiting: Vec<Subscriber> = Vec::new();
        std::mem::swap(&mut waiting, &mut self.subscribers);
        let ghost before = subscriber_views(waiting@);
        let ghost capacity = self.capacity as nat;
        let mut kept: Vec<Subscriber> = Vec::new();
        proof {
            reveal(Seq::filter);
            assert(before.subrange(0, 0) =~= Seq::empty());
            assert(subscriber_views(kept@) =~= broadcast(before.subrange(0, 0), event@, capacity));
            assert(dropped@ =~= rejected(before.subrange(0, 0), capacity));
        }
        for subscriber in it: waiting
            invariant
                it.seq() == waiting@,
                before == subscriber_views(waiting@),
                capacity == self.capacity as nat,
                subscriber_views(kept@) == broadcast(
                    before.subrange(0, it.index() as int),
                    event@,
                    capacity,
                ),
                dropped@ == rejected(before.subrange(0, it.index() as int), capacity),
        {
            let mut subscriber = subscriber;
            proof {
                let done = it.index() as int;
                assert(before[done] == subscriber@);
                assert(before.subrange(0, done + 1) =~= before.subrange(0, done).push(subscriber@));
                lemma_broadcast_push(before.subrange(0, done), subscriber@, event@, capacity);
            }
            let ghost old_kept = subscriber_views(kept@);
            if !subscriber.closed && subscriber.queue.len() < self.capacity {
                let ghost old_subscriber = subscriber@;
                subscriber.queue.push_back(event.clone());
                assert(subscriber@.queue =~= old_subscriber.queue.push(event@));
                assert(subscriber@ == old_subscriber.enqueue(event@));
                kept.push(subscriber);
                assert(subscriber_views(kept@) =~= old_kept.push(old_subscriber.enqueue(event@)));
            } else {
                dropped.push(subscriber.id);
            }
        }
        assert(before.subrange(0, before.len() as int) =~= before);
        self.subscribers = kept;
        let ghost old_history = views(self.history@);
        self.history.push(event);
        assert(views(self.history@) =~= old_history.push(event@));
        dropped
    }

    /// Admits one more viewer. It gets the terminal's size at time zero and a
    /// copy of the whole history, and from now on every appended event is put
    /// in its queue; so nothing reaches it twice and nothing is left out.
    pub fn subscribe(&mut self) -> (subscription: Subscription)
        requires
            old(self)@.wf(),
            old(self)@.admitted < u64::MAX,
        ensures
            final(self)@ == old(self)@.subscribe(),
            final(self)@.wf(),
            subscription.id == old(self)@.admitted,
            subscription.catch_up.geometry == old(self)@.initial,
            views(subscription.catch_up.events@) == old(self)@.history,
    {
        let mut events: Vec<TimedEvent> = Vec::new();
        let mut i: usize = 0;
        while i < self.history.len()
            invariant
                i <= self.history@.len(),
                events@ == self.history@.subrange(0, i as int),
            decreases self.history@.len() - i,
        {
            events.push(self.history[i].clone());
            assert(events@ =~= self.history@.subrange(0, i + 1));
            i += 1;
        }
        assert(events@ =~= self.history@);
        let id = self.admitted;
        let newcomer = Subscriber {
            id,
            queue: VecDeque::new(),
            delivered: self.history.len(),
            closed: false,
        };
        proof {
            let before = self@;
            assert(newcomer@.queue =~= Seq::<EventView>::empty());
            assert(newcomer@ == before.newcomer());
            assert(subscriber_views(self.subscribers@.push(newcomer)) =~= before.subscribers.push(
                before.newcomer(),
            ));
            lemma_subscribe_keeps_wf(before);
        }
        self.subscribers.push(newcomer);
        self.admitted = id + 1;
        Subscription { id, catch_up: CatchUp { geometry: self.initial, events } }
    }

    /// The place of the viewer with this number among the viewers, if it has one.
    fn position(&self, id: u64) -> (place: Option<usize>)
        requires
            self@.wf(),
        ensures
            match place {
                Some(i) => self@.has(id) && self@.index_of(id) == i && i < self.subscribers@.len()
                    && self.subscribers@[i as int]@ == self@.subscriber(id),
                None => !self@.has(id),
            },
    {
        let mut i: usize = 0;
        while i < self.subscribers.len()
            invariant
                i <= self.subscribers@.len(),
                self@.wf(),
                forall|k: int| 0 <= k < i ==> (#[trigger] self@.subscribers[k]).id != id,
            decreases self.subscribers@.len() - i,
        {
            if self.subscribers[i].id == id {
                proof {
                    assert(self@.subscribers[i as int].id == id);
                    lemma_place_is_unique(self@, id, i as int);
                }
                return Some(i);
            }
            i += 1;
        }
        None
    }

    /// Hands the viewer with this number the oldest event of its queue, if one
    /// waits. A viewer without a place, or one that has left, is told that the
    /// stream is closed; so is one that has read everything when the session
    /// has finished.
    pub fn poll(&mut self, id: u64) -> (found: Poll)
        requires
            old(self)@.wf(),
        ensures
            found@ == old(self)@.poll_result(id),
            final(self)@ == old(self)@.after_poll(id),
            final(self)@.wf(),
    {
        let place = self.position(id);
        match place {
            None => Poll::Closed,
            Some(i) => {
                if self.subscribers[i].closed {
                    return Poll::Closed;
                }
                let ghost before = self@;
                let ghost viewer = before.subscriber(id);
                assert(viewer == before.subscribers[i as int]);
                assert(viewer.in_step_with(before.history, before.capacity));
                let delivered = self.subscribers[i].delivered;
                let recorded = self.history.len();
                match self.subscribers[i].queue.pop_front() {
                    Some(event) => {
                        assert(viewer.queue.len() > 0);
                        assert(delivered < recorded);
                        self.subscribers[i].delivered = delivered + 1;
                        proof {
                            assert(self.subscribers@[i as int]@.queue =~= viewer.queue.drop_first());
                            assert(self.subscribers@[i as int]@ == viewer.dequeue());
                            assert(self@.subscribers =~= before.subscribers.update(
                                i as int,
                                viewer.dequeue(),
                            ));
                            lemma_poll_keeps_wf(before, id);
                        }
                        Poll::Event(event)
                    },
                    None => {
                        assert(self@.subscribers =~= before.subscribers);
                        if self.finished {
                            Poll::Closed
                        } else {
                            Poll::Empty
                        }
                    },
                }
            },
        }
    }

    /// Takes note that the viewer with this number has left. It keeps its place
    /// until the next event is appended, but counts no longer.
    pub fn disconnect(&mut self, id: u64)
        requires
            old(self)@.wf(),
        ensures
            final(self)@ == old(self)@.disconnect(id),
            final(self)@.wf(),
    {
        let place = self.position(id);
        if let Some(i) = place {
            let ghost before = self@;
            self.subscribers[i].closed = true;
            proof {
                assert(self@.subscribers =~= before.subscribers.update(
                    i as int,
                    SubscriberView { closed: true, ..before.subscriber(id) },
                ));
                lemma_disconnect_keeps_wf(before, id);
            }
        }
    }

    /// Takes note that the event source has closed: no event is appended any
    /// more, and a viewer that has read its queue out is told so.
    pub fn finish(&mut self)
        ensures
            final(self)@ == old(self)@.finish(),
            old(self)@.wf() ==> final(self)@.wf(),
    {
        self.finished = true;
    }

    /// How many viewers have a place and have not left.
    pub fn subscriber_count(&self) -> (count: usize)
        ensures
            count == self@.live_count(),
    {
        let ghost staying = |s: SubscriberView| !s.closed;
        let ghost all = self@.subscribers;
        let mut count: usize = 0;
        let mut i: usize = 0;
        proof {
            reveal(Seq::filter);
            assert(all.subrange(0, 0) =~= Seq::empty());
        }
        while i < self.subscribers.len()
            invariant
                i <= self.subscribers@.len(),
                all == self@.subscribers,
                all.len() == self.subscribers@.len(),
                staying == |s: SubscriberView| !s.closed,
                count == all.subrange(0, i as int).filter(staying).len(),
                count <= i,
            decreases self.subscribers@.len() - i,
        {
            proof {
                reveal(Seq::filter);
                let longer = all.subrange(0, i + 1);
                assert(longer.drop_last() =~= all.subrange(0, i as int));
                assert(longer.last() == self.subscribers@[i as int]@);
            }
            if !self.subscribers[i].closed {
                count += 1;
            }
            i += 1;
        }
        assert(all.subrange(0, all.len() as int) =~= all);
        count
    }

    /// The terminal's size now.
    pub fn geometry(&self) -> (geometry: Geometry)
        ensures
            geometry == self@.geometry,
    {
        self.geometry
    }

    /// The terminal's size at time zero.
    pub fn initial_geometry(&self) -> (geometry: Geometry)
        ensures
            geometry == self@.initial,
    {
        self.initial
    }

    /// Every event since time zero, oldest first.
    pub fn history(&self) -> (history: &Vec<TimedEvent>)
        ensures
            views(history@) == self@.history,
    {
        &self.history
    }

    /// How many viewers were ever admitted.
    pub fn admitted(&self) -> (admitted: u64)
        ensures
            admitted == self@.admitted,
    {
        self.admitted
    }

    /// Whether the event source has closed.
    pub fn is_finished(&self) -> (finished: bool)
        ensures
            finished == self@.finished,
    {
        self.finished
    }
}

} // verus!
