//! Timeline events and terminal geometry.

use vstd::prelude::*;

verus! {

/// Terminal size in character cells.
#[derive(Clone, Copy, Debug, PartialEq, Eq, Structural)]
pub struct Geometry {
    pub columns: u16,
    pub rows: u16,
}

impl Geometry {
    /// A geometry of `columns` by `rows` cells.
    pub fn new(columns: u16, rows: u16) -> (g: Geometry)
        ensures
            g.columns == columns,
            g.rows == rows,
    {
        Geometry { columns, rows }
    }
}

/// What an event records.
#[derive(Clone, Copy, Debug, PartialEq, Eq, Structural)]
pub enum EventKind {
    Output,
    Input,
    Resize,
}

/// One entry of the session timeline. The time is in microseconds since the
/// session started.
#[derive(Debug, PartialEq, Eq)]
pub enum TimedEvent {
    Output(u64, String),
    Input(u64, String),
    Resize(u64, Geometry),
}

/// The mathematical value of a [`TimedEvent`]: text is a sequence of characters.
pub enum EventView {
    Output { time: u64, text: Seq<char> },
    Input { time: u64, text: Seq<char> },
    Resize { time: u64, geometry: Geometry },
}

impl EventView {
    /// Microseconds since the session started.
    pub open spec fn time(self) -> u64 {
        match self {
            EventView::Output { time, .. } => time,
            EventView::Input { time, .. } => time,
            EventView::Resize { time, .. } => time,
        }
    }

    pub open spec fn kind(self) -> EventKind {
        match self {
            EventView::Output { .. } => EventKind::Output,
            EventView::Input { .. } => EventKind::Input,
            EventView::Resize { .. } => EventKind::Resize,
        }
    }

    /// The geometry in force after this event, given the one before it.
    pub open spec fn geometry_after(self, before: Geometry) -> Geometry {
        match self {
            EventView::Resize { geometry, .. } => geometry,
            _ => before,
        }
    }
}

impl View for TimedEvent {
    type V = EventView;

    open spec fn view(&self) -> EventView {
        match *self {
            TimedEvent::Output(time, text) => EventView::Output { time, text: text@ },
            TimedEvent::Input(time, text) => EventView::Input { time, text: text@ },
            TimedEvent::Resize(time, geometry) => EventView::Resize { time, geometry },
        }
    }
}

impl Clone for TimedEvent {
    fn clone(&self) -> (copy: Self)
        ensures
            copy == *self,
    {
        match self {
            TimedEvent::Output(time, text) => TimedEvent::Output(*time, text.clone()),
            TimedEvent::Input(time, text) => TimedEvent::Input(*time, text.clone()),
            TimedEvent::Resize(time, geometry) => TimedEvent::Resize(*time, *geometry),
        }
    }
}

impl TimedEvent {
    /// Microseconds since the session started.
    pub fn time(&self) -> (t: u64)
        ensures
            t == self@.time(),
    {
        match self {
            TimedEvent::Output(time, _) => *time,
            TimedEvent::Input(time, _) => *time,
            TimedEvent::Resize(time, _) => *time,
        }
    }

    pub fn kind(&self) -> (k: EventKind)
        ensures
            k == self@.kind(),
    {
        match self {
            TimedEvent::Output(..) => EventKind::Output,
            TimedEvent::Input(..) => EventKind::Input,
            TimedEvent::Resize(..) => EventKind::Resize,
        }
    }
}

/// The values of a run of events, in order.
pub open spec fn views(events: Seq<TimedEvent>) -> Seq<EventView> {
    events.map_values(|e: TimedEvent| e@)
}

/// Whether the times of `events` never decrease from one event to the next.
pub open spec fn times_ordered(events: Seq<EventView>) -> bool {
    forall|i: int, j: int| 0 <= i <= j < events.len() ==> events[i].time() <= events[j].time()
}

/// The geometry in force after replaying `events` on a terminal of size `start`:
/// that of the last resize among them, or `start` if there is none.
pub open spec fn replay_geometry(start: Geometry, events: Seq<EventView>) -> Geometry
    decreases events.len(),
{
    if events.len() == 0 {
        start
    } else {
        events.last().geometry_after(replay_geometry(start, events.drop_last()))
    }
}

} // verus!
