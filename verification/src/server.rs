//! The server's side of a viewer: the admission through which a connection asks for
//! a place, and the records that are written to it.
//!
//! A viewer's stream is a header with the terminal's first size, then one
//! record for every event of the timeline: the catch-up first, then the live
//! events as the viewer's queue yields them. The times are those of the
//! recording, in microseconds; how a record is laid out in bytes is the
//! business of whoever holds the socket.

use vstd::prelude::*;
use crate::event::{views, EventView, Geometry, TimedEvent};
use crate::session::{CatchUp, Poll, PollView, Session, SessionView};

verus! {

/// The hand-over point between the connections and the event loop. It holds at
/// most one connection, so that admissions reach the session one at a time.
pub struct AdmissionGate {
    waiting: Option<u64>,
    open: bool,
}

/// The mathematical value of an [`AdmissionGate`].
pub struct GateView {
    /// The connection that waits for the event loop, if one does.
    pub waiting: Option<u64>,
    /// Whether new connections are still taken.
    pub open: bool,
}

/// What a connection that asks for a place is told.
#[derive(Clone, Copy, Debug, PartialEq, Eq, Structural)]
pub enum Offer {
    /// The connection waits for the event loop.
    Accepted,
    /// Another connection waits there: this one has to ask again.
    Busy,
    /// The server takes no connections any more.
    Closed,
}

impl GateView {
    /// The answer to a connection that asks for a place.
    pub open spec fn answer(self) -> Offer {
        if !self.open {
            Offer::Closed
        } else if self.waiting is Some {
            Offer::Busy
        } else {
            Offer::Accepted
        }
    }

    /// The admission state after the connection `client` has asked for a place.
    pub open spec fn after_offer(self, client: u64) -> GateView {
        if self.answer() == Offer::Accepted {
            GateView { waiting: Some(client), ..self }
        } else {
            self
        }
    }
}

impl View for AdmissionGate {
    type V = GateView;

    closed spec fn view(&self) -> GateView {
        GateView { waiting: self.waiting, open: self.open }
    }
}

impl AdmissionGate {
    /// An open gate in which nobody waits.
    pub fn new() -> (gate: AdmissionGate)
        ensures
            gate@ == (GateView { waiting: None, open: true }),
    {
        AdmissionGate { waiting: None, open: true }
    }

    /// A connection asks for a place. It is taken if admission is open and
    /// nobody waits; it is never turned away for good while admission is open.
    pub fn offer(&mut self, client: u64) -> (answer: Offer)
        ensures
            answer == old(self)@.answer(),
            final(self)@ == old(self)@.after_offer(client),
    {
        if !self.open {
            Offer::Closed
        } else if self.waiting.is_some() {
            Offer::Busy
        } else {
            self.waiting = Some(client);
            Offer::Accepted
        }
    }

    /// The event loop takes the connection that waits, if one does. This works
    /// after a shutdown too, so that a connection that was let in is served.
    pub fn take(&mut self) -> (client: Option<u64>)
        ensures
            client == old(self)@.waiting,
            final(self)@ == (GateView { waiting: None, ..old(self)@ }),
    {
        self.waiting.take()
    }

    /// Stops taking new connections. The one that waits stays.
    pub fn shutdown(&mut self)
        ensures
            final(self)@ == (GateView { open: false, ..old(self)@ }),
    {
        self.open = false;
    }

    /// Whether new connections are still taken.
    pub fn is_open(&self) -> (open: bool)
        ensures
            open == self@.open,
    {
        self.open
    }
}

/// One record of a viewer's stream.
#[derive(Debug, PartialEq, Eq)]
pub enum Record {
    /// The first record: the terminal's size at time zero.
    Header { columns: u16, rows: u16 },
    /// An event: its time in microseconds since time zero, its code, and its
    /// text, or for a resize the new size as `COLSxROWS`.
    Event { time: u64, code: char, data: String },
}

/// The mathematical value of a [`Record`].
pub enum RecordView {
    Header { columns: u16, rows: u16 },
    Event { time: u64, code: char, data: Seq<char> },
}

impl View for Record {
    type V = RecordView;

    open spec fn view(&self) -> RecordView {
        match *self {
            Record::Header { columns, rows } => RecordView::Header { columns, rows },
            Record::Event { time, code, data } => RecordView::Event { time, code, data: data@ },
        }
    }
}

/// The values of a run of records.
pub open spec fn record_views(records: Seq<Record>) -> Seq<RecordView> {
    records.map_values(|r: Record| r@)
}

/// The character for a digit.
pub open spec fn digit_char(digit: nat) -> char {
    if digit == 0 {
        '0'
    } else if digit == 1 {
        '1'
    } else if digit == 2 {
        '2'
    } else if digit == 3 {
        '3'
    } else if digit == 4 {
        '4'
    } else if digit == 5 {
        '5'
    } else if digit == 6 {
        '6'
    } else if digit == 7 {
        '7'
    } else if digit == 8 {
        '8'
    } else {
        '9'
    }
}

/// A number in decimal, without leading zeros.
pub open spec fn decimal(n: nat) -> Seq<char>
    decreases n,
{
    if n < 10 {
        seq![digit_char(n)]
    } else {
        decimal(n / 10).push(digit_char(n % 10))
    }
}

/// A size as a record carries it: columns, an `x`, rows.
pub open spec fn size_text(size: Geometry) -> Seq<char> {
    decimal(size.columns as nat).push('x') + decimal(size.rows as nat)
}

/// The record for an event: `o` with the text for output, `i` with the text
/// for input, `r` with the size for a resize; the time is the event's own.
pub open spec fn frame_spec(event: EventView) -> RecordView {
    match event {
        EventView::Output { time, text } => RecordView::Event { time, code: 'o', data: text },
        EventView::Input { time, text } => RecordView::Event { time, code: 'i', data: text },
        EventView::Resize { time, geometry } => RecordView::Event {
            time,
            code: 'r',
            data: size_text(geometry),
        },
    }
}

/// The records for a run of events, one for one.
pub open spec fn frames(events: Seq<EventView>) -> Seq<RecordView> {
    events.map_values(|e: EventView| frame_spec(e))
}

/// The header for a terminal of the given size.
pub open spec fn header_spec(size: Geometry) -> RecordView {
    RecordView::Header { columns: size.columns, rows: size.rows }
}

/// The digit as text.
fn digit_text(digit: u16) -> (text: &'static str)
    requires
        digit < 10,
    ensures
        text@ == seq![digit_char(digit as nat)],
{
    proof {
        reveal_strlit("0");
        reveal_strlit("1");
        reveal_strlit("2");
        reveal_strlit("3");
        reveal_strlit("4");
        reveal_strlit("5");
        reveal_strlit("6");
        reveal_strlit("7");
        reveal_strlit("8");
        reveal_strlit("9");
    }
    let text = if digit == 0 {
        "0"
    } else if digit == 1 {
        "1"
    } else if digit == 2 {
        "2"
    } else if digit == 3 {
        "3"
    } else if digit == 4 {
        "4"
    } else if digit == 5 {
        "5"
    } else if digit == 6 {
        "6"
    } else if digit == 7 {
        "7"
    } else if digit == 8 {
        "8"
    } else {
        "9"
    };
    assert(text@ =~= seq![digit_char(digit as nat)]);
    text
}

/// Writes a number in decimal at the end of a text.
pub fn push_decimal(text: &mut String, n: u16)
    ensures
        final(text)@ == old(text)@ + decimal(n as nat),
    decreases n,
{
    if n >= 10 {
        push_decimal(text, n / 10);
    }
    let ghost before = text@;
    text.append(digit_text(n % 10));
    proof {
        if n >= 10 {
            assert(text@ =~= old(text)@ + decimal(n as nat));
        } else {
            assert(text@ =~= old(text)@ + decimal(n as nat));
        }
    }
}

/// A size as a record carries it: `COLSxROWS`.
pub fn format_size(size: Geometry) -> (text: String)
    ensures
        text@ == size_text(size),
{
    let mut text = String::new();
    push_decimal(&mut text, size.columns);
    proof {
        reveal_strlit("x");
    }
    text.append("x");
    push_decimal(&mut text, size.rows);
    assert(text@ =~= size_text(size));
    text
}

/// The record for an event.
pub fn frame(event: &TimedEvent) -> (record: Record)
    ensures
        record@ == frame_spec(event@),
{
    match event {
        TimedEvent::Output(time, text) => Record::Event {
            time: *time,
            code: 'o',
            data: text.clone(),
        },
        TimedEvent::Input(time, text) => Record::Event { time: *time, code: 'i', data: text.clone() },
        TimedEvent::Resize(time, size) => Record::Event {
            time: *time,
            code: 'r',
            data: format_size(*size),
        },
    }
}

/// The records that open a viewer's stream: the header, then the history as
/// it stood at the admission, every event at its recorded time.
pub fn frame_catch_up(catch_up: &CatchUp) -> (records: Vec<Record>)
    ensures
        record_views(records@) == seq![header_spec(catch_up.geometry)] + frames(
            views(catch_up.events@),
        ),
{
    let mut records: Vec<Record> = Vec::new();
    records.push(
        Record::Header { columns: catch_up.geometry.columns, rows: catch_up.geometry.rows },
    );
    let ghost events = views(catch_up.events@);
    let mut i: usize = 0;
    assert(record_views(records@) =~= seq![header_spec(catch_up.geometry)] + frames(
        events.subrange(0, 0),
    ));
    while i < catch_up.events.len()
        invariant
            i <= catch_up.events@.len(),
            events == views(catch_up.events@),
            record_views(records@) == seq![header_spec(catch_up.geometry)] + frames(
                events.subrange(0, i as int),
            ),
        decreases catch_up.events@.len() - i,
    {
        let ghost before = record_views(records@);
        let record = frame(&catch_up.events[i]);
        records.push(record);
        assert(record_views(records@) =~= before.push(frame_spec(events[i as int])));
        assert(frames(events.subrange(0, i + 1)) =~= frames(events.subrange(0, i as int)).push(
            frame_spec(events[i as int]),
        ));
        assert(record_views(records@) =~= seq![header_spec(catch_up.geometry)] + frames(
            events.subrange(0, i + 1),
        ));
        i += 1;
    }
    assert(events.subrange(0, events.len() as int) =~= events);
    records
}

/// The whole seconds of a time in microseconds.
pub fn whole_seconds(time: u64) -> (seconds: u64)
    ensures
        seconds == time / 1_000_000,
{
    time / 1_000_000
}

/// The microseconds of a time beyond its whole seconds.
pub fn fraction_micros(time: u64) -> (micros: u32)
    ensures
        micros == time % 1_000_000,
{
    (time % 1_000_000) as u32
}

/// What a viewer's writer does next.
#[derive(Debug, PartialEq, Eq)]
pub enum WriterStep {
    /// Write this record.
    Write(Record),
    /// Nothing to write yet.
    Wait,
    /// The stream has ended: the viewer's socket or its place is gone, or the
    /// session has finished and everything is written.
    Finish,
}

/// The mathematical value of a [`WriterStep`].
pub enum WriterStepView {
    Write(RecordView),
    Wait,
    Finish,
}

impl View for WriterStep {
    type V = WriterStepView;

    open spec fn view(&self) -> WriterStepView {
        match *self {
            WriterStep::Write(record) => WriterStepView::Write(record@),
            WriterStep::Wait => WriterStepView::Wait,
            WriterStep::Finish => WriterStepView::Finish,
        }
    }
}

/// What the writer of the viewer `id` does next, given whether its socket still
/// stands.
pub open spec fn writer_step_spec(session: SessionView, id: u64, socket_open: bool)
    -> WriterStepView {
    if !socket_open {
        WriterStepView::Finish
    } else {
        match session.poll_result(id) {
            PollView::Event(event) => WriterStepView::Write(frame_spec(event)),
            PollView::Empty => WriterStepView::Wait,
            PollView::Closed => WriterStepView::Finish,
        }
    }
}

/// The session after that step: a viewer whose socket is gone has left, one
/// whose socket stands has read its next event.
pub open spec fn session_after_writer(session: SessionView, id: u64, socket_open: bool)
    -> SessionView {
    if !socket_open {
        session.disconnect(id)
    } else {
        session.after_poll(id)
    }
}

/// One step of the writer of the viewer `id` after its catch-up: the next live
/// event as a record, if one waits. A socket that is gone ends the stream and
/// the viewer's part in the session, and touches no other viewer.
pub fn writer_step(session: &mut Session, id: u64, socket_open: bool) -> (step: WriterStep)
    requires
        old(session)@.wf(),
    ensures
        step@ == writer_step_spec(old(session)@, id, socket_open),
        final(session)@ == session_after_writer(old(session)@, id, socket_open),
        final(session)@.wf(),
{
    if !socket_open {
        session.disconnect(id);
        return WriterStep::Finish;
    }
    match session.poll(id) {
        Poll::Event(event) => WriterStep::Write(frame(&event)),
        Poll::Empty => WriterStep::Wait,
        Poll::Closed => WriterStep::Finish,
    }
}

} // verus!
