//! Notices for the user, and the relay that carries them to a notifier.
//!
//! Delivering a notice may be slow, so the streamer only queues it. The relay
//! takes the queued notices one at a time, oldest first, and hands each to the
//! notifier; a notifier that fails is not tried again and stops nothing.

use std::collections::VecDeque;
use vstd::prelude::*;
use crate::streamer::Notice;

verus! {

/// A notice could not be delivered.
#[derive(Debug, PartialEq, Eq)]
pub struct NotifyError {
    pub reason: String,
}

/// Something that can show a message to the user.
pub trait Notifier {
    fn notify(&mut self, message: String) -> Result<(), NotifyError>;
}

/// The notifier of a run without notifications: takes every message and shows
/// none.
#[derive(Clone, Copy, Debug, PartialEq, Eq, Structural)]
pub struct NullNotifier;

impl Notifier for NullNotifier {
    fn notify(&mut self, message: String) -> (sent: Result<(), NotifyError>)
        ensures
            sent is Ok,
    {
        Ok(())
    }
}

/// The queue between the streamer and the notifier.
pub struct NotifierRelay {
    pending: VecDeque<String>,
    closed: bool,
}

/// The mathematical value of a [`NotifierRelay`].
pub struct RelayView {
    /// The messages that wait, oldest first.
    pub pending: Seq<Seq<char>>,
    /// Whether the queue takes no more messages.
    pub closed: bool,
}

/// The texts of a run of messages.
pub open spec fn texts(messages: Seq<String>) -> Seq<Seq<char>> {
    messages.map_values(|m: String| m@)
}

impl RelayView {
    /// The relay after a message was offered: it waits behind the others,
    /// unless the queue is closed.
    pub open spec fn after_push(self, message: Seq<char>) -> RelayView {
        if self.closed {
            self
        } else {
            RelayView { pending: self.pending.push(message), ..self }
        }
    }

    /// The relay after the oldest message was taken.
    pub open spec fn after_next(self) -> RelayView {
        if self.pending.len() > 0 {
            RelayView { pending: self.pending.drop_first(), ..self }
        } else {
            self
        }
    }

    /// Whether the relay's work is over: the queue is closed and read out.
    pub open spec fn done(self) -> bool {
        self.closed && self.pending.len() == 0
    }
}

impl View for NotifierRelay {
    type V = RelayView;

    closed spec fn view(&self) -> RelayView {
        RelayView { pending: texts(self.pending@), closed: self.closed }
    }
}

/// What the relay did in one turn.
#[derive(Debug, PartialEq, Eq)]
pub enum RelayStep {
    /// The oldest message was handed to the notifier, which took it.
    Delivered,
    /// The oldest message was handed to the notifier, which failed. The
    /// message is gone all the same.
    Failed(NotifyError),
    /// Nothing waits, but more may come.
    Idle,
    /// Nothing waits and nothing will come.
    Done,
}

/// What a turn of the relay comes to, given what the notifier said to the
/// message: a failure is kept for the record and goes no further.
pub fn settle(sent: Result<(), NotifyError>) -> (step: RelayStep)
    ensures
        step == match sent {
            Ok(_) => RelayStep::Delivered,
            Err(error) => RelayStep::Failed(error),
        },
{
    match sent {
        Ok(()) => RelayStep::Delivered,
        Err(error) => RelayStep::Failed(error),
    }
}

impl NotifierRelay {
    /// An open relay in which nothing waits.
    pub fn new() -> (relay: NotifierRelay)
        ensures
            relay@ == (RelayView { pending: Seq::empty(), closed: false }),
    {
        let relay = NotifierRelay { pending: VecDeque::new(), closed: false };
        assert(relay@.pending =~= Seq::empty());
        relay
    }

    /// Queues a message for the notifier. Returns whether it was taken, which
    /// it is unless the queue is closed.
    pub fn push(&mut self, message: String) -> (taken: bool)
        ensures
            taken == !old(self)@.closed,
            final(self)@ == old(self)@.after_push(message@),
    {
        if self.closed {
            return false;
        }
        let ghost before = self@.pending;
        self.pending.push_back(message);
        assert(self@.pending =~= before.push(message@));
        true
    }

    /// Queues a notice of the streamer in its wording.
    pub fn notify(&mut self, notice: Notice) -> (taken: bool)
        ensures
            taken == !old(self)@.closed,
            final(self)@ == old(self)@.after_push(notice.text()),
    {
        self.push(notice.message())
    }

    /// Takes the oldest message that waits.
    pub fn next(&mut self) -> (message: Option<String>)
        ensures
            match message {
                Some(m) => old(self)@.pending.len() > 0 && m@ == old(self)@.pending[0],
                None => old(self)@.pending.len() == 0,
            },
            final(self)@ == old(self)@.after_next(),
    {
        let ghost before = self@.pending;
        let message = self.pending.pop_front();
        proof {
            if message is Some {
                assert(self@.pending =~= before.drop_first());
            } else {
                assert(self@.pending =~= before);
            }
        }
        message
    }

    /// Closes the queue: what waits is still delivered, nothing more is taken.
    pub fn close(&mut self)
        ensures
            final(self)@ == (RelayView { closed: true, ..old(self)@ }),
    {
        self.closed = true;
    }

    /// How many messages wait.
    pub fn pending(&self) -> (count: usize)
        ensures
            count == self@.pending.len(),
    {
        self.pending.len()
    }

    /// Whether the relay's work is over.
    pub fn is_done(&self) -> (done: bool)
        ensures
            done == self@.done(),
    {
        self.closed && self.pending.len() == 0
    }

    /// One turn of the relay: hands the oldest message to the notifier. Whether
    /// the notifier takes it or fails, the message has left the queue and the
    /// others wait as before.
    pub fn deliver<N: Notifier>(&mut self, notifier: &mut N) -> (step: RelayStep)
        ensures
            final(self)@ == old(self)@.after_next(),
            old(self)@.pending.len() > 0 <==> (step is Delivered || step is Failed),
            step is Done <==> old(self)@.done(),
    {
        match self.next() {
            Some(message) => settle(notifier.notify(message)),
            None => if self.closed {
                RelayStep::Done
            } else {
                RelayStep::Idle
            },
        }
    }

    /// Hands every message that waits to the notifier, oldest first, and
    /// returns how many of them it failed on.
    pub fn drain<N: Notifier>(&mut self, notifier: &mut N) -> (failures: usize)
        ensures
            final(self)@ == (RelayView { pending: Seq::empty(), ..old(self)@ }),
            failures <= old(self)@.pending.len(),
    {
        let mut failures: usize = 0;
        let total: usize = self.pending.len();
        while self.pending.len() > 0
            invariant
                self@.closed == old(self)@.closed,
                self@.pending.len() == self.pending@.len(),
                total == old(self)@.pending.len(),
                failures + self@.pending.len() <= total,
            decreases self@.pending.len(),
        {
            if let RelayStep::Failed(_) = self.deliver(notifier) {
                failures += 1;
            }
        }
        assert(self@.pending =~= Seq::empty());
        failures
    }
}

} // verus!
