//! The order in which a streaming run is started and shut down.
//!
//! The run has three execution contexts: the terminal driver, the event loop
//! and the notifier relay. This module decides, from the signals they give, what
//! is to be done next; whoever owns the threads carries the commands out.

use vstd::prelude::*;

verus! {

/// Where a streaming run stands.
#[derive(Clone, Copy, Debug, PartialEq, Eq, Structural)]
pub enum Phase {
    /// Built, not started.
    Idle,
    /// Started: events are produced and distributed.
    Running,
    /// Stop was asked for: the event channel is closed, the event loop drains.
    Draining,
    /// The event loop is done: the notification queue is closed, the relay drains.
    Closing,
    /// Everything has finished.
    Stopped,
    /// The run was aborted.
    Failed,
}

/// What may happen to a run.
#[derive(Clone, Copy, Debug, PartialEq, Eq, Structural)]
pub enum Signal {
    /// The driver starts the run; `bound` says whether the listen address was had.
    Start { bound: bool },
    /// The driver stops the run.
    Stop,
    /// The event loop's context has ended.
    EventLoopFinished,
    /// The notifier relay's context has ended.
    RelayFinished,
}

/// What the owner of the contexts has to do next.
#[derive(Clone, Copy, Debug, PartialEq, Eq, Structural)]
pub enum Command {
    /// Launch the event loop and the notifier relay.
    Launch,
    /// Close the event channel and wait for the event loop.
    CloseEvents,
    /// Close the notification queue and wait for the relay.
    CloseNotifications,
    /// Nothing is left to do.
    Finish,
}

/// Why a signal was not followed.
#[derive(Clone, Copy, Debug, PartialEq, Eq, Structural)]
pub enum StreamError {
    /// The listen address is not available. Fatal.
    Bind,
    /// A context ended although nobody had closed its channel. Fatal.
    ChannelClosed,
    /// The signal has no meaning in this phase. The run goes on as it was.
    OutOfOrder,
}

/// The phase after `signal`, and the command or the error that answers it.
pub open spec fn transition(phase: Phase, signal: Signal) -> (Phase, Result<Command, StreamError>) {
    match (phase, signal) {
        (Phase::Idle, Signal::Start { bound: true }) => (Phase::Running, Ok(Command::Launch)),
        (Phase::Idle, Signal::Start { bound: false }) => (Phase::Failed, Err(StreamError::Bind)),
        (Phase::Running, Signal::Stop) => (Phase::Draining, Ok(Command::CloseEvents)),
        (Phase::Running, Signal::EventLoopFinished) => (
            Phase::Failed,
            Err(StreamError::ChannelClosed),
        ),
        (Phase::Running, Signal::RelayFinished) => (Phase::Failed, Err(StreamError::ChannelClosed)),
        (Phase::Draining, Signal::EventLoopFinished) => (
            Phase::Closing,
            Ok(Command::CloseNotifications),
        ),
        (Phase::Draining, Signal::RelayFinished) => (
            Phase::Failed,
            Err(StreamError::ChannelClosed),
        ),
        (Phase::Closing, Signal::RelayFinished) => (Phase::Stopped, Ok(Command::Finish)),
        _ => (phase, Err(StreamError::OutOfOrder)),
    }
}

/// Follows one signal.
pub fn advance(phase: Phase, signal: Signal) -> (next: (Phase, Result<Command, StreamError>))
    ensures
        next == transition(phase, signal),
{
    match phase {
        Phase::Idle => match signal {
            Signal::Start { bound } => if bound {
                (Phase::Running, Ok(Command::Launch))
            } else {
                (Phase::Failed, Err(StreamError::Bind))
            },
            _ => (phase, Err(StreamError::OutOfOrder)),
        },
        Phase::Running => match signal {
            Signal::Stop => (Phase::Draining, Ok(Command::CloseEvents)),
            Signal::EventLoopFinished => (Phase::Failed, Err(StreamError::ChannelClosed)),
            Signal::RelayFinished => (Phase::Failed, Err(StreamError::ChannelClosed)),
            _ => (phase, Err(StreamError::OutOfOrder)),
        },
        Phase::Draining => match signal {
            Signal::EventLoopFinished => (Phase::Closing, Ok(Command::CloseNotifications)),
            Signal::RelayFinished => (Phase::Failed, Err(StreamError::ChannelClosed)),
            _ => (phase, Err(StreamError::OutOfOrder)),
        },
        Phase::Closing => match signal {
            Signal::RelayFinished => (Phase::Stopped, Ok(Command::Finish)),
            _ => (phase, Err(StreamError::OutOfOrder)),
        },
        _ => (phase, Err(StreamError::OutOfOrder)),
    }
}

/// The phase after a run of signals.
pub open spec fn phase_after(phase: Phase, signals: Seq<Signal>) -> Phase
    decreases signals.len(),
{
    if signals.len() == 0 {
        phase
    } else {
        transition(phase_after(phase, signals.drop_last()), signals.last()).0
    }
}

/// The signals of a run that were followed, in order: those not answered by
/// [`StreamError::OutOfOrder`].
pub open spec fn followed(phase: Phase, signals: Seq<Signal>) -> Seq<Signal>
    decreases signals.len(),
{
    if signals.len() == 0 {
        Seq::empty()
    } else {
        let before = phase_after(phase, signals.drop_last());
        let rest = followed(phase, signals.drop_last());
        if transition(before, signals.last()).1 == Err::<Command, StreamError>(
            StreamError::OutOfOrder,
        ) {
            rest
        } else {
            rest.push(signals.last())
        }
    }
}

/// The one way to a clean end.
pub open spec fn clean_run() -> Seq<Signal> {
    seq![
        Signal::Start { bound: true },
        Signal::Stop,
        Signal::EventLoopFinished,
        Signal::RelayFinished,
    ]
}

/// How far along the clean run a phase is; `Failed` is on no clean run.
pub open spec fn progress(phase: Phase) -> Option<int> {
    match phase {
        Phase::Idle => Some(0),
        Phase::Running => Some(1),
        Phase::Draining => Some(2),
        Phase::Closing => Some(3),
        Phase::Stopped => Some(4),
        Phase::Failed => None,
    }
}

/// A run that has not failed has followed a prefix of the clean run, as long
/// as its phase tells.
proof fn lemma_followed_is_prefix(signals: Seq<Signal>)
    ensures
        match progress(phase_after(Phase::Idle, signals)) {
            Some(n) => followed(Phase::Idle, signals) == clean_run().subrange(0, n),
            None => true,
        },
    decreases signals.len(),
{
    if signals.len() == 0 {
        assert(followed(Phase::Idle, signals) =~= clean_run().subrange(0, 0));
    } else {
        let front = signals.drop_last();
        lemma_followed_is_prefix(front);
        let before = phase_after(Phase::Idle, front);
        let after = phase_after(Phase::Idle, signals);
        match progress(after) {
            Some(n) => {
                // `Failed` is left by no signal, so the run before had not failed either.
                let m = progress(before)->Some_0;
                assert(progress(before) is Some);
                assert(followed(Phase::Idle, front) == clean_run().subrange(0, m));
                if n == m {
                    assert(followed(Phase::Idle, signals) == followed(Phase::Idle, front));
                } else {
                    assert(n == m + 1);
                    assert(signals.last() == clean_run()[m]);
                    assert(clean_run().subrange(0, m).push(clean_run()[m])
                        =~= clean_run().subrange(0, n));
                }
            },
            None => {},
        }
    }
}

/// Shutdown is ordered: whatever signals arrive, a run that ends `Stopped` has
/// followed exactly start, stop, the end of the event loop and the end of the
/// relay, in this order. In particular the notification queue is closed only
/// after the event loop has drained.
pub proof fn lemma_stopped_only_by_clean_run(signals: Seq<Signal>)
    requires
        phase_after(Phase::Idle, signals) == Phase::Stopped,
    ensures
        followed(Phase::Idle, signals) == clean_run(),
{
    lemma_followed_is_prefix(signals);
    assert(clean_run().subrange(0, 4) =~= clean_run());
}

} // verus!
