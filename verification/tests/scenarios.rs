use streamer::event::{Geometry, TimedEvent};
use streamer::event_loop::{step, LoopInput, LoopOutput};
use streamer::keys::KeyBindings;
use streamer::notifier::{Notifier, NotifierRelay, NotifyError};
use streamer::server::{
    fraction_micros, frame_catch_up, whole_seconds, writer_step, Record, WriterStep,
};
use streamer::session::{Poll, Session};
use streamer::streamer::Streamer;

struct Inbox {
    messages: Vec<String>,
}

impl Notifier for Inbox {
    fn notify(&mut self, message: String) -> Result<(), NotifyError> {
        self.messages.push(message);
        Ok(())
    }
}

fn out(time: u64, text: &str) -> TimedEvent {
    TimedEvent::Output(time, text.to_string())
}

fn size(columns: u16, rows: u16) -> Geometry {
    Geometry { columns, rows }
}

fn seconds(record: &Record) -> f64 {
    match record {
        Record::Header { .. } => 0.0,
        Record::Event { time, .. } => {
            whole_seconds(*time) as f64 + fraction_micros(*time) as f64 / 1_000_000.0
        }
    }
}

#[test]
fn the_pause_key_alone_pauses_and_notifies() {
    let keys = KeyBindings { prefix: None, pause: Some(vec![0x1c]) };
    let mut streamer = Streamer::new(false, keys, 0);
    let mut relay = NotifierRelay::new();
    let mut inbox = Inbox { messages: vec![] };
    assert!(!streamer.is_paused());

    let outcome = streamer.input(10, &[0x1c]);
    if let Some(notice) = outcome.notice {
        relay.notify(notice);
    }
    relay.drain(&mut inbox);

    assert!(streamer.is_paused());
    assert_eq!(inbox.messages, vec!["Paused streaming".to_string()]);
    assert!(!outcome.forward);
    assert_eq!(outcome.event, None);
}

#[test]
fn a_viewer_joining_after_two_of_three_outputs() {
    let mut session = Session::new(size(80, 24));
    session.append(out(0, "one"));
    session.append(out(500_000, "two"));

    let subscription = session.subscribe();
    let opening = frame_catch_up(&subscription.catch_up);
    assert_eq!(opening.len(), 3);
    assert_eq!(opening[0], Record::Header { columns: 80, rows: 24 });
    assert_eq!(opening[1], Record::Event { time: 0, code: 'o', data: "one".to_string() });
    assert_eq!(seconds(&opening[1]), 0.0);
    assert_eq!(opening[2], Record::Event { time: 500_000, code: 'o', data: "two".to_string() });
    assert_eq!(seconds(&opening[2]), 0.5);

    assert_eq!(writer_step(&mut session, subscription.id, true), WriterStep::Wait);
    session.append(out(1_200_000, "three"));
    let live = writer_step(&mut session, subscription.id, true);
    assert_eq!(
        live,
        WriterStep::Write(Record::Event { time: 1_200_000, code: 'o', data: "three".to_string() })
    );
    if let WriterStep::Write(record) = &live {
        assert_eq!(seconds(record), 1.2);
    }
    assert_eq!(writer_step(&mut session, subscription.id, true), WriterStep::Wait);
}

#[test]
fn the_history_is_the_accepted_events_in_call_order() {
    let mut streamer = Streamer::new(true, KeyBindings::default(), 1_000);
    let mut session = Session::new(size(80, 24));
    let mut accepted = vec![];

    for event in streamer.output(1_000, b"$ ") {
        accepted.push(event);
    }
    for event in streamer.input(1_100, b"l").event {
        accepted.push(event);
    }
    for event in streamer.output(1_100, b"l") {
        accepted.push(event);
    }
    accepted.push(streamer.resize(1_250, size(100, 30)));
    for event in streamer.input(1_400, b"s\r").event {
        accepted.push(event);
    }
    for event in streamer.output(2_000, b"s\r\nfile\r\n") {
        accepted.push(event);
    }
    for event in &accepted {
        session.append(event.clone());
    }

    assert_eq!(
        session.history(),
        &vec![
            out(0, "$ "),
            TimedEvent::Input(100, "l".to_string()),
            out(100, "l"),
            TimedEvent::Resize(250, size(100, 30)),
            TimedEvent::Input(400, "s\r".to_string()),
            out(1_000, "s\r\nfile\r\n"),
        ]
    );
    assert_eq!(session.history(), &accepted);
    let times: Vec<u64> = session.history().iter().map(|event| event.time()).collect();
    assert!(times.windows(2).all(|pair| pair[0] <= pair[1]));
    assert_eq!(session.geometry(), size(100, 30));
}

#[test]
fn pausing_drops_output_and_input_but_not_resizes() {
    let mut streamer = Streamer::new(true, KeyBindings::default(), 0);
    let mut session = Session::new(size(80, 24));
    let mut feed = |session: &mut Session, event: Option<TimedEvent>| {
        if let Some(event) = event {
            session.append(event);
        }
    };

    feed(&mut session, streamer.output(1, b"shown"));
    feed(&mut session, streamer.input(2, &[0x1c]).event);
    feed(&mut session, streamer.output(3, b"hidden"));
    feed(&mut session, streamer.input(4, b"typed").event);
    feed(&mut session, Some(streamer.resize(5, size(120, 40))));
    feed(&mut session, streamer.output(6, b"hidden too"));
    feed(&mut session, streamer.input(7, &[0x1c]).event);
    feed(&mut session, streamer.output(8, b"shown again"));
    feed(&mut session, streamer.input(9, b"typed").event);

    assert_eq!(
        session.history(),
        &vec![
            out(1, "shown"),
            TimedEvent::Resize(5, size(120, 40)),
            out(8, "shown again"),
            TimedEvent::Input(9, "typed".to_string()),
        ]
    );
    assert_eq!(session.geometry(), size(120, 40));
}

#[test]
fn a_late_viewer_gets_the_history_once_whatever_the_others_do() {
    let mut session = Session::with_capacity(size(80, 24), 4);
    let mut seen: Vec<TimedEvent> = vec![];

    let early = session.subscribe().id;
    session.append(out(1, "a"));
    session.append(out(2, "b"));
    session.append(out(3, "c"));

    let subscription = session.subscribe();
    let late = subscription.id;
    assert_eq!(subscription.catch_up.events, vec![out(1, "a"), out(2, "b"), out(3, "c")]);
    seen.extend(subscription.catch_up.events);

    session.append(out(4, "d"));
    let third = session.subscribe().id;
    session.disconnect(early);
    session.append(out(5, "e"));
    if let Poll::Event(event) = session.poll(late) {
        seen.push(event);
    }
    assert_eq!(session.poll(third), Poll::Event(out(5, "e")));
    session.subscribe();
    session.append(out(6, "f"));
    session.disconnect(third);
    session.append(out(7, "g"));
    loop {
        match session.poll(late) {
            Poll::Event(event) => seen.push(event),
            Poll::Empty => break,
            Poll::Closed => panic!("the viewer has read in time and keeps its place"),
        }
    }

    assert_eq!(&seen, session.history());
    assert_eq!(seen.len(), 7);
}

#[test]
fn the_prefix_and_then_the_pause_key_toggle_and_are_not_forwarded() {
    let keys = KeyBindings { prefix: Some(vec![0x01]), pause: Some(vec![b'p']) };
    let mut streamer = Streamer::new(true, keys, 0);

    let first = streamer.input(1, &[0x01]);
    let second = streamer.input(2, b"p");
    assert!(!first.forward);
    assert!(!second.forward);
    assert_eq!(first.event, None);
    assert_eq!(second.event, None);
    assert!(streamer.is_paused());

    let first = streamer.input(3, &[0x01]);
    let second = streamer.input(4, b"p");
    assert!(!first.forward);
    assert!(!second.forward);
    assert!(!streamer.is_paused());
}

#[test]
fn the_pause_key_without_its_prefix_is_ordinary_input() {
    let keys = KeyBindings { prefix: Some(vec![0x01]), pause: Some(vec![b'p']) };
    let mut streamer = Streamer::new(true, keys, 0);
    let outcome = streamer.input(1, b"p");
    assert!(outcome.forward);
    assert_eq!(outcome.event, Some(TimedEvent::Input(1, "p".to_string())));
    assert_eq!(outcome.notice, None);
    assert!(!streamer.is_paused());
}

#[test]
fn a_frozen_viewer_is_dropped_and_the_others_get_everything() {
    let mut session = Session::with_capacity(size(80, 24), 3);
    let frozen = session.subscribe().id;
    let first = session.subscribe().id;
    let second = session.subscribe().id;
    let mut first_seen = vec![];
    let mut second_seen = vec![];
    let mut dropped = vec![];

    for time in 0..20u64 {
        dropped.extend(session.append(out(time, "x")));
        if let Poll::Event(event) = session.poll(first) {
            first_seen.push(event);
        }
        if time % 2 == 1 {
            while let Poll::Event(event) = session.poll(second) {
                second_seen.push(event);
            }
        }
    }

    assert_eq!(dropped, vec![frozen]);
    assert_eq!(session.poll(frozen), Poll::Closed);
    assert_eq!(session.subscriber_count(), 2);
    assert_eq!(session.history().len(), 20);
    assert_eq!(&first_seen, session.history());
    assert_eq!(&second_seen, session.history());
}

#[test]
fn the_whole_path_from_the_driver_to_a_viewer() {
    let mut streamer = Streamer::new(false, KeyBindings::default(), 50);
    let mut session = Session::new(size(80, 24));
    assert_eq!(streamer.start(100, true).is_ok(), true);

    let mut records = vec![];
    let event = streamer.output(100, b"a").unwrap();
    step(&mut session, LoopInput::Event(Some(event)));
    let admitted = step(&mut session, LoopInput::Admission(Some(1)));
    let viewer = match admitted {
        LoopOutput::Admitted { subscription, viewers, .. } => {
            assert_eq!(viewers, 1);
            records.extend(frame_catch_up(&subscription.catch_up));
            subscription.id
        }
        _ => panic!("the session can number one more viewer"),
    };
    let event = streamer.resize(100_100, size(90, 20));
    step(&mut session, LoopInput::Event(Some(event)));
    let event = streamer.output(2_000_100, "\u{e9}".as_bytes()).unwrap();
    step(&mut session, LoopInput::Event(Some(event)));
    assert_eq!(step(&mut session, LoopInput::Event(None)), LoopOutput::Exit);
    loop {
        match writer_step(&mut session, viewer, true) {
            WriterStep::Write(record) => records.push(record),
            WriterStep::Wait => panic!("a finished session keeps no viewer waiting"),
            WriterStep::Finish => break,
        }
    }

    assert_eq!(
        records,
        vec![
            Record::Header { columns: 80, rows: 24 },
            Record::Event { time: 0, code: 'o', data: "a".to_string() },
            Record::Event { time: 100_000, code: 'r', data: "90x20".to_string() },
            Record::Event { time: 2_000_000, code: 'o', data: "\u{e9}".to_string() },
        ]
    );
}
