use streamer::event::{EventKind, Geometry, TimedEvent};
use streamer::session::{Poll, Session, DEFAULT_QUEUE_CAPACITY};

fn out(time: u64, text: &str) -> TimedEvent {
    TimedEvent::Output(time, text.to_string())
}

fn size(columns: u16, rows: u16) -> Geometry {
    Geometry { columns, rows }
}

#[test]
fn events_know_their_time_and_kind() {
    assert_eq!(out(5, "a").time(), 5);
    assert_eq!(out(5, "a").kind(), EventKind::Output);
    assert_eq!(TimedEvent::Input(6, "b".to_string()).time(), 6);
    assert_eq!(TimedEvent::Input(6, "b".to_string()).kind(), EventKind::Input);
    assert_eq!(TimedEvent::Resize(7, size(1, 2)).time(), 7);
    assert_eq!(TimedEvent::Resize(7, size(1, 2)).kind(), EventKind::Resize);
}

#[test]
fn a_cloned_event_equals_the_event_it_was_made_from() {
    let events =
        vec![out(5, "a"), TimedEvent::Input(6, "b".to_string()), TimedEvent::Resize(7, size(1, 2))];
    for event in &events {
        assert_eq!(&event.clone(), event);
    }
}

#[test]
fn a_new_session_is_empty() {
    let session = Session::new(size(80, 24));
    assert!(session.history().is_empty());
    assert_eq!(session.geometry(), size(80, 24));
    assert_eq!(session.initial_geometry(), size(80, 24));
    assert_eq!(session.subscriber_count(), 0);
    assert_eq!(session.admitted(), 0);
    assert!(!session.is_finished());
}

#[test]
fn the_default_capacity_is_1024() {
    assert_eq!(DEFAULT_QUEUE_CAPACITY, 1024);
    let mut session = Session::new(size(80, 24));
    let viewer = session.subscribe().id;
    for time in 0..1024 {
        assert!(session.append(out(time, "x")).is_empty());
    }
    assert_eq!(session.subscriber_count(), 1);
    assert_eq!(session.append(out(1024, "x")), vec![viewer]);
    assert_eq!(session.subscriber_count(), 0);
}

#[test]
fn append_keeps_the_order_of_the_events() {
    let mut session = Session::new(size(80, 24));
    session.append(out(0, "a"));
    session.append(TimedEvent::Input(1, "b".to_string()));
    session.append(out(2, "c"));
    assert_eq!(
        session.history(),
        &vec![out(0, "a"), TimedEvent::Input(1, "b".to_string()), out(2, "c")]
    );
}

#[test]
fn a_resize_sets_the_geometry_and_other_events_do_not() {
    let mut session = Session::new(size(80, 24));
    session.append(out(0, "a"));
    assert_eq!(session.geometry(), size(80, 24));
    session.append(TimedEvent::Resize(1, size(100, 30)));
    assert_eq!(session.geometry(), size(100, 30));
    session.append(TimedEvent::Input(2, "b".to_string()));
    assert_eq!(session.geometry(), size(100, 30));
    session.append(TimedEvent::Resize(3, size(120, 40)));
    assert_eq!(session.geometry(), size(120, 40));
    assert_eq!(session.initial_geometry(), size(80, 24));
}

#[test]
fn the_catch_up_is_the_first_size_and_the_whole_history() {
    let mut session = Session::new(size(80, 24));
    session.append(out(0, "a"));
    session.append(TimedEvent::Resize(1, size(100, 30)));
    session.append(out(2, "b"));
    let subscription = session.subscribe();
    assert_eq!(subscription.catch_up.geometry, size(80, 24));
    assert_eq!(
        subscription.catch_up.events,
        vec![out(0, "a"), TimedEvent::Resize(1, size(100, 30)), out(2, "b")]
    );
}

#[test]
fn the_catch_up_of_an_empty_session_is_empty() {
    let mut session = Session::new(size(80, 24));
    let subscription = session.subscribe();
    assert_eq!(subscription.id, 0);
    assert_eq!(subscription.catch_up.geometry, size(80, 24));
    assert!(subscription.catch_up.events.is_empty());
    assert_eq!(session.poll(subscription.id), Poll::Empty);
}

#[test]
fn viewers_are_numbered_in_the_order_of_admission() {
    let mut session = Session::new(size(80, 24));
    assert_eq!(session.subscribe().id, 0);
    assert_eq!(session.subscribe().id, 1);
    assert_eq!(session.subscribe().id, 2);
    assert_eq!(session.admitted(), 3);
    assert_eq!(session.subscriber_count(), 3);
}

#[test]
fn a_viewer_reads_live_events_in_order() {
    let mut session = Session::new(size(80, 24));
    session.append(out(0, "before"));
    let viewer = session.subscribe().id;
    session.append(out(1, "a"));
    session.append(out(2, "b"));
    assert_eq!(session.poll(viewer), Poll::Event(out(1, "a")));
    session.append(out(3, "c"));
    assert_eq!(session.poll(viewer), Poll::Event(out(2, "b")));
    assert_eq!(session.poll(viewer), Poll::Event(out(3, "c")));
    assert_eq!(session.poll(viewer), Poll::Empty);
}

#[test]
fn an_unknown_viewer_is_told_closed() {
    let mut session = Session::new(size(80, 24));
    assert_eq!(session.poll(0), Poll::Closed);
    session.subscribe();
    assert_eq!(session.poll(7), Poll::Closed);
    session.disconnect(7);
    assert_eq!(session.subscriber_count(), 1);
}

#[test]
fn a_full_queue_costs_the_viewer_its_place() {
    let mut session = Session::with_capacity(size(80, 24), 2);
    let viewer = session.subscribe().id;
    assert!(session.append(out(1, "a")).is_empty());
    assert!(session.append(out(2, "b")).is_empty());
    assert_eq!(session.subscriber_count(), 1);
    assert_eq!(session.append(out(3, "c")), vec![viewer]);
    assert_eq!(session.subscriber_count(), 0);
    assert_eq!(session.poll(viewer), Poll::Closed);
    assert_eq!(session.history().len(), 3);
}

#[test]
fn a_viewer_that_reads_keeps_its_place() {
    let mut session = Session::with_capacity(size(80, 24), 1);
    let viewer = session.subscribe().id;
    for time in 0..10 {
        assert!(session.append(out(time, "x")).is_empty());
        assert_eq!(session.poll(viewer), Poll::Event(out(time, "x")));
    }
    assert_eq!(session.subscriber_count(), 1);
}

#[test]
fn with_no_capacity_the_first_event_drops_every_viewer() {
    let mut session = Session::with_capacity(size(80, 24), 0);
    let first = session.subscribe().id;
    let second = session.subscribe().id;
    assert_eq!(session.append(out(1, "a")), vec![first, second]);
    assert_eq!(session.subscriber_count(), 0);
}

#[test]
fn a_viewer_that_left_counts_no_longer_and_goes_with_the_next_event() {
    let mut session = Session::new(size(80, 24));
    let first = session.subscribe().id;
    let second = session.subscribe().id;
    session.disconnect(first);
    assert_eq!(session.subscriber_count(), 1);
    assert_eq!(session.poll(first), Poll::Closed);
    assert_eq!(session.append(out(1, "a")), vec![first]);
    assert_eq!(session.subscriber_count(), 1);
    assert_eq!(session.poll(second), Poll::Event(out(1, "a")));
    assert!(session.append(out(2, "b")).is_empty());
}

#[test]
fn leaving_twice_is_leaving_once() {
    let mut session = Session::new(size(80, 24));
    let viewer = session.subscribe().id;
    session.disconnect(viewer);
    session.disconnect(viewer);
    assert_eq!(session.subscriber_count(), 0);
    assert_eq!(session.append(out(1, "a")), vec![viewer]);
    session.disconnect(viewer);
    assert_eq!(session.subscriber_count(), 0);
}

#[test]
fn a_finished_session_takes_no_event() {
    let mut session = Session::new(size(80, 24));
    let viewer = session.subscribe().id;
    session.append(out(1, "a"));
    session.finish();
    assert!(session.is_finished());
    assert!(session.append(out(2, "b")).is_empty());
    assert!(session.append(TimedEvent::Resize(3, size(1, 1))).is_empty());
    assert_eq!(session.history(), &vec![out(1, "a")]);
    assert_eq!(session.geometry(), size(80, 24));
    assert_eq!(session.poll(viewer), Poll::Event(out(1, "a")));
    assert_eq!(session.poll(viewer), Poll::Closed);
}

#[test]
fn a_viewer_of_a_finished_session_reads_out_and_is_told_closed() {
    let mut session = Session::new(size(80, 24));
    let viewer = session.subscribe().id;
    session.append(out(1, "a"));
    session.append(out(2, "b"));
    session.finish();
    assert_eq!(session.poll(viewer), Poll::Event(out(1, "a")));
    assert_eq!(session.poll(viewer), Poll::Event(out(2, "b")));
    assert_eq!(session.poll(viewer), Poll::Closed);
}

#[test]
fn the_numbers_of_dropped_viewers_come_in_order() {
    let mut session = Session::with_capacity(size(80, 24), 1);
    let a = session.subscribe().id;
    let b = session.subscribe().id;
    let c = session.subscribe().id;
    let d = session.subscribe().id;
    session.append(out(1, "x"));
    assert_eq!(session.poll(b), Poll::Event(out(1, "x")));
    session.disconnect(d);
    assert_eq!(session.append(out(2, "y")), vec![a, c, d]);
    assert_eq!(session.subscriber_count(), 1);
    assert_eq!(session.poll(b), Poll::Event(out(2, "y")));
}
