use streamer::notifier::{
    settle, Notifier, NotifierRelay, NotifyError, NullNotifier, RelayStep,
};
use streamer::streamer::Notice;

struct Recording {
    shown: Vec<String>,
    fail_on: Option<String>,
}

impl Notifier for Recording {
    fn notify(&mut self, message: String) -> Result<(), NotifyError> {
        if self.fail_on.as_ref() == Some(&message) {
            return Err(NotifyError { reason: format!("cannot show {}", message) });
        }
        self.shown.push(message);
        Ok(())
    }
}

#[test]
fn a_new_relay_is_empty_and_open() {
    let relay = NotifierRelay::new();
    assert_eq!(relay.pending(), 0);
    assert!(!relay.is_done());
}

#[test]
fn messages_leave_in_the_order_in_which_they_came() {
    let mut relay = NotifierRelay::new();
    assert!(relay.push("one".to_string()));
    assert!(relay.push("two".to_string()));
    assert!(relay.push("three".to_string()));
    assert_eq!(relay.pending(), 3);
    assert_eq!(relay.next(), Some("one".to_string()));
    assert_eq!(relay.next(), Some("two".to_string()));
    assert_eq!(relay.pending(), 1);
    assert_eq!(relay.next(), Some("three".to_string()));
    assert_eq!(relay.next(), None);
}

#[test]
fn a_closed_relay_takes_nothing_but_gives_what_waits() {
    let mut relay = NotifierRelay::new();
    assert!(relay.push("one".to_string()));
    relay.close();
    assert!(!relay.push("two".to_string()));
    assert!(!relay.is_done());
    assert_eq!(relay.pending(), 1);
    assert_eq!(relay.next(), Some("one".to_string()));
    assert!(relay.is_done());
}

#[test]
fn a_notice_is_queued_in_its_wording() {
    let mut relay = NotifierRelay::new();
    assert!(relay.notify(Notice::Paused));
    assert!(relay.notify(Notice::Resumed));
    assert_eq!(relay.next(), Some("Paused streaming".to_string()));
    assert_eq!(relay.next(), Some("Resumed streaming".to_string()));
}

#[test]
fn settle_keeps_the_failure_for_the_record() {
    assert_eq!(settle(Ok(())), RelayStep::Delivered);
    let error = NotifyError { reason: "no display".to_string() };
    assert_eq!(
        settle(Err(error)),
        RelayStep::Failed(NotifyError { reason: "no display".to_string() })
    );
}

#[test]
fn deliver_hands_over_one_message_at_a_time() {
    let mut relay = NotifierRelay::new();
    let mut notifier = Recording { shown: vec![], fail_on: None };
    relay.push("one".to_string());
    relay.push("two".to_string());
    assert_eq!(relay.deliver(&mut notifier), RelayStep::Delivered);
    assert_eq!(notifier.shown, vec!["one".to_string()]);
    assert_eq!(relay.pending(), 1);
    assert_eq!(relay.deliver(&mut notifier), RelayStep::Delivered);
    assert_eq!(notifier.shown, vec!["one".to_string(), "two".to_string()]);
    assert_eq!(relay.deliver(&mut notifier), RelayStep::Idle);
    relay.close();
    assert_eq!(relay.deliver(&mut notifier), RelayStep::Done);
}

#[test]
fn a_failing_notifier_stops_nothing() {
    let mut relay = NotifierRelay::new();
    let mut notifier = Recording { shown: vec![], fail_on: Some("two".to_string()) };
    relay.push("one".to_string());
    relay.push("two".to_string());
    relay.push("three".to_string());
    assert_eq!(relay.deliver(&mut notifier), RelayStep::Delivered);
    assert_eq!(
        relay.deliver(&mut notifier),
        RelayStep::Failed(NotifyError { reason: "cannot show two".to_string() })
    );
    assert_eq!(relay.pending(), 1);
    assert_eq!(relay.deliver(&mut notifier), RelayStep::Delivered);
    assert_eq!(notifier.shown, vec!["one".to_string(), "three".to_string()]);
}

#[test]
fn drain_empties_the_queue_and_counts_the_failures() {
    let mut relay = NotifierRelay::new();
    let mut notifier = Recording { shown: vec![], fail_on: Some("two".to_string()) };
    relay.push("one".to_string());
    relay.push("two".to_string());
    relay.push("three".to_string());
    relay.push("two".to_string());
    assert_eq!(relay.drain(&mut notifier), 2);
    assert_eq!(relay.pending(), 0);
    assert_eq!(notifier.shown, vec!["one".to_string(), "three".to_string()]);
    assert_eq!(relay.drain(&mut notifier), 0);
}

#[test]
fn the_null_notifier_takes_everything() {
    let mut relay = NotifierRelay::new();
    let mut notifier = NullNotifier;
    assert_eq!(notifier.notify("anything".to_string()), Ok(()));
    relay.push("one".to_string());
    relay.push("two".to_string());
    assert_eq!(relay.drain(&mut notifier), 0);
    assert_eq!(relay.pending(), 0);
}
