use streamer::event::{Geometry, TimedEvent};
use streamer::event_loop::{event_loop, run, step, LoopInput, LoopOutput};
use streamer::session::{CatchUp, Poll, Session, Subscription};

fn out(time: u64, text: &str) -> TimedEvent {
    TimedEvent::Output(time, text.to_string())
}

fn size(columns: u16, rows: u16) -> Geometry {
    Geometry { columns, rows }
}

#[test]
fn an_event_is_applied_to_the_session() {
    let mut session = Session::new(size(80, 24));
    let output = step(&mut session, LoopInput::Event(Some(out(1, "a"))));
    assert_eq!(output, LoopOutput::Applied { dropped: vec![] });
    assert_eq!(session.history(), &vec![out(1, "a")]);
}

#[test]
fn a_resize_event_updates_the_geometry() {
    let mut session = Session::new(size(80, 24));
    step(&mut session, LoopInput::Event(Some(TimedEvent::Resize(1, size(90, 30)))));
    assert_eq!(session.geometry(), size(90, 30));
}

#[test]
fn an_admission_hands_out_the_catch_up_and_the_viewer_count() {
    let mut session = Session::new(size(80, 24));
    step(&mut session, LoopInput::Event(Some(out(1, "a"))));
    let output = step(&mut session, LoopInput::Admission(Some(42)));
    assert_eq!(
        output,
        LoopOutput::Admitted {
            client: 42,
            subscription: Subscription {
                id: 0,
                catch_up: CatchUp { geometry: size(80, 24), events: vec![out(1, "a")] },
            },
            viewers: 1,
        }
    );
    let output = step(&mut session, LoopInput::Admission(Some(43)));
    assert!(matches!(output, LoopOutput::Admitted { client: 43, viewers: 2, .. }));
}

#[test]
fn the_loop_reports_the_viewers_that_an_event_dropped() {
    let mut session = Session::with_capacity(size(80, 24), 1);
    step(&mut session, LoopInput::Admission(Some(1)));
    step(&mut session, LoopInput::Event(Some(out(1, "a"))));
    let output = step(&mut session, LoopInput::Event(Some(out(2, "b"))));
    assert_eq!(output, LoopOutput::Applied { dropped: vec![0] });
}

#[test]
fn a_closed_event_source_ends_the_loop() {
    let mut session = Session::new(size(80, 24));
    assert_eq!(step(&mut session, LoopInput::Event(None)), LoopOutput::Exit);
    assert!(session.is_finished());
}

#[test]
fn a_closed_admission_source_ends_the_loop() {
    let mut session = Session::new(size(80, 24));
    assert_eq!(step(&mut session, LoopInput::Admission(None)), LoopOutput::Exit);
    assert!(session.is_finished());
}

#[test]
fn run_takes_the_inputs_in_order_until_a_source_closes() {
    let mut session = Session::new(size(80, 24));
    let outputs = run(
        &mut session,
        vec![
            LoopInput::Event(Some(out(1, "a"))),
            LoopInput::Admission(Some(9)),
            LoopInput::Event(Some(out(2, "b"))),
            LoopInput::Event(None),
            LoopInput::Event(Some(out(3, "never"))),
            LoopInput::Admission(Some(10)),
        ],
    );
    assert_eq!(outputs.len(), 4);
    assert_eq!(outputs[0], LoopOutput::Applied { dropped: vec![] });
    assert!(matches!(outputs[1], LoopOutput::Admitted { client: 9, viewers: 1, .. }));
    assert_eq!(outputs[2], LoopOutput::Applied { dropped: vec![] });
    assert_eq!(outputs[3], LoopOutput::Exit);
    assert_eq!(session.history(), &vec![out(1, "a"), out(2, "b")]);
    assert_eq!(session.admitted(), 1);
    assert!(session.is_finished());
    assert_eq!(session.poll(0), Poll::Event(out(2, "b")));
    assert_eq!(session.poll(0), Poll::Closed);
}

#[test]
fn run_without_a_close_takes_everything_and_leaves_the_session_open() {
    let mut session = Session::new(size(80, 24));
    let outputs = run(
        &mut session,
        vec![LoopInput::Event(Some(out(1, "a"))), LoopInput::Event(Some(out(2, "b")))],
    );
    assert_eq!(outputs.len(), 2);
    assert!(!session.is_finished());
    assert_eq!(session.history().len(), 2);
}

#[test]
fn run_on_nothing_does_nothing() {
    let mut session = Session::new(size(80, 24));
    assert!(run(&mut session, vec![]).is_empty());
    assert!(session.history().is_empty());
    assert!(!session.is_finished());
}

#[test]
fn the_event_loop_builds_its_session_for_the_terminal() {
    let report = event_loop(
        size(132, 43),
        vec![
            LoopInput::Event(Some(out(1, "a"))),
            LoopInput::Event(Some(TimedEvent::Resize(2, size(80, 24)))),
            LoopInput::Admission(Some(5)),
            LoopInput::Admission(None),
        ],
    );
    assert_eq!(report.outputs.len(), 4);
    assert_eq!(report.session.initial_geometry(), size(132, 43));
    assert_eq!(report.session.geometry(), size(80, 24));
    assert_eq!(
        report.outputs[2],
        LoopOutput::Admitted {
            client: 5,
            subscription: Subscription {
                id: 0,
                catch_up: CatchUp {
                    geometry: size(132, 43),
                    events: vec![out(1, "a"), TimedEvent::Resize(2, size(80, 24))],
                },
            },
            viewers: 1,
        }
    );
    assert_eq!(report.outputs[3], LoopOutput::Exit);
    assert!(report.session.is_finished());
}
