//! The recorder adapter: what the terminal driver calls on every output chunk,
//! input chunk and resize.
//!
//! The streamer stamps each event with the time elapsed since the run began,
//! runs the key filter over input, honours the pause flag and hands back the
//! event to be put on the timeline, if there is one. It owns no clock and no
//! channel: the caller passes the reading of a monotonic clock in microseconds
//! and forwards what comes back, in call order.

use vstd::prelude::*;
use crate::event::{EventView, Geometry, TimedEvent};
use crate::keys::{classify, classify_spec, Classification, InputGateState, KeyBindings, KeyBindingsView};
use crate::lifecycle::{advance, transition, Command, Phase, Signal, StreamError};

verus! {

/// The text that `String::from_utf8_lossy` makes of a run of bytes: the bytes
/// decoded as UTF-8, each ill-formed part replaced by U+FFFD.
pub uninterp spec fn lossy_text(bytes: Seq<u8>) -> Seq<char>;

/// Calls `String::from_utf8_lossy` and takes ownership of the text. The result
/// depends on the bytes alone; the contract gives it its name and claims no
/// more of it.
#[verifier::external_body]
fn decode_lossy(data: &[u8]) -> (text: String)
    ensures
        text@ == lossy_text(data@),
{
    String::from_utf8_lossy(data).into_owned()
}

/// A message for the user about the stream itself.
#[derive(Clone, Copy, Debug, PartialEq, Eq, Structural)]
pub enum Notice {
    Paused,
    Resumed,
}

impl Notice {
    /// The wording of the notice.
    pub open spec fn text(self) -> Seq<char> {
        match self {
            Notice::Paused => "Paused streaming"@,
            Notice::Resumed => "Resumed streaming"@,
        }
    }

    /// The wording of the notice, as the notifier gets it.
    pub fn message(&self) -> (message: String)
        ensures
            message@ == self.text(),
    {
        match self {
            Notice::Paused => String::from_str("Paused streaming"),
            Notice::Resumed => String::from_str("Resumed streaming"),
        }
    }
}

/// What the key filter and the pause flag decide about an input chunk.
#[derive(Clone, Copy, Debug, PartialEq, Eq, Structural)]
pub struct InputVerdict {
    /// Whether the chunk reaches the program under control.
    pub forward: bool,
    /// Whether the chunk goes on the timeline.
    pub record: bool,
    /// What the user is to be told.
    pub notice: Option<Notice>,
}

/// What became of an input chunk.
#[derive(Debug, PartialEq, Eq)]
pub struct InputOutcome {
    /// Whether the chunk reaches the program under control.
    pub forward: bool,
    /// The event for the timeline, if the chunk is recorded.
    pub event: Option<TimedEvent>,
    /// What the user is to be told.
    pub notice: Option<Notice>,
}

/// Whether the stream is paused: while it is, neither output nor input is
/// recorded.
#[derive(Clone, Copy, Debug, PartialEq, Eq, Structural)]
pub struct PauseState {
    pub paused: bool,
}

/// The recorder adapter of one streaming run.
pub struct Streamer {
    record_input: bool,
    keys: KeyBindings,
    start_time: u64,
    pause: PauseState,
    gate: InputGateState,
    phase: Phase,
}

/// The mathematical value of a [`Streamer`].
pub struct StreamerView {
    pub record_input: bool,
    pub keys: KeyBindingsView,
    /// The clock reading that counts as time zero.
    pub start_time: u64,
    pub paused: bool,
    pub armed: bool,
    pub phase: Phase,
}

impl StreamerView {
    /// Microseconds from time zero to the clock reading `now`; zero if the
    /// reading lies before it.
    pub open spec fn elapsed(self, now: u64) -> u64 {
        if now >= self.start_time {
            (now - self.start_time) as u64
        } else {
            0
        }
    }

    pub open spec fn classify(self, chunk: Seq<u8>) -> Classification {
        classify_spec(self.armed, chunk, self.keys)
    }

    /// The verdict on an input chunk. Both escape keys are kept from the
    /// program; ordinary input reaches it, and is recorded where input is
    /// recorded at all and the stream is not paused.
    pub open spec fn verdict(self, chunk: Seq<u8>) -> InputVerdict {
        match self.classify(chunk) {
            Classification::PrefixArmed => InputVerdict {
                forward: false,
                record: false,
                notice: None,
            },
            Classification::PauseToggled => InputVerdict {
                forward: false,
                record: false,
                notice: Some(
                    if self.paused {
                        Notice::Resumed
                    } else {
                        Notice::Paused
                    },
                ),
            },
            Classification::PassThrough => InputVerdict {
                forward: true,
                record: self.record_input && !self.paused,
                notice: None,
            },
        }
    }

    /// The streamer after an input chunk: the input state moves, and the pause key
    /// flips the pause flag.
    pub open spec fn after_input(self, chunk: Seq<u8>) -> StreamerView {
        let class = self.classify(chunk);
        StreamerView {
            armed: class == Classification::PrefixArmed,
            paused: if class == Classification::PauseToggled {
                !self.paused
            } else {
                self.paused
            },
            ..self
        }
    }

    /// The event that an output chunk with the text `text` gives: none while
    /// paused.
    pub open spec fn output_event(self, now: u64, text: Seq<char>) -> Option<EventView> {
        if self.paused {
            None
        } else {
            Some(EventView::Output { time: self.elapsed(now), text })
        }
    }

    /// The event that an input chunk gives, `text` being its text.
    pub open spec fn input_event(self, now: u64, chunk: Seq<u8>, text: Seq<char>) -> Option<
        EventView,
    > {
        if self.verdict(chunk).record {
            Some(EventView::Input { time: self.elapsed(now), text })
        } else {
            None
        }
    }

    /// The event that a resize gives, paused or not.
    pub open spec fn resize_event(self, now: u64, size: Geometry) -> EventView {
        EventView::Resize { time: self.elapsed(now), geometry: size }
    }

    /// The streamer after a lifecycle signal other than a start.
    pub open spec fn after_signal(self, signal: Signal) -> StreamerView {
        StreamerView { phase: transition(self.phase, signal).0, ..self }
    }

    /// The streamer after a start at the clock reading `now`: where the start is
    /// followed, `now` becomes time zero.
    pub open spec fn after_start(self, now: u64, bound: bool) -> StreamerView {
        let next = transition(self.phase, Signal::Start { bound });
        StreamerView {
            phase: next.0,
            start_time: if next.1 is Ok {
                now
            } else {
                self.start_time
            },
            ..self
        }
    }
}

/// The value of an optional event.
pub open spec fn event_view(event: Option<TimedEvent>) -> Option<EventView> {
    match event {
        Some(e) => Some(e@),
        None => None,
    }
}

impl View for Streamer {
    type V = StreamerView;

    closed spec fn view(&self) -> StreamerView {
        StreamerView {
            record_input: self.record_input,
            keys: self.keys@,
            start_time: self.start_time,
            paused: self.pause.paused,
            armed: self.gate.armed,
            phase: self.phase,
        }
    }
}

impl Streamer {
    /// A streamer that is idle, not paused and not armed, with time zero at the
    /// clock reading `now`.
    pub fn new(record_input: bool, keys: KeyBindings, now: u64) -> (streamer: Streamer)
        ensures
            streamer@ == (StreamerView {
                record_input,
                keys: keys@,
                start_time: now,
                paused: false,
                armed: false,
                phase: Phase::Idle,
            }),
    {
        Streamer {
            record_input,
            keys,
            start_time: now,
            pause: PauseState { paused: false },
            gate: InputGateState { armed: false },
            phase: Phase::Idle,
        }
    }

    /// Microseconds from time zero to the clock reading `now`.
    pub fn elapsed_time(&self, now: u64) -> (micros: u64)
        ensures
            micros == self@.elapsed(now),
    {
        if now >= self.start_time {
            now - self.start_time
        } else {
            0
        }
    }

    pub fn is_paused(&self) -> (paused: bool)
        ensures
            paused == self@.paused,
    {
        self.pause.paused
    }

    pub fn phase(&self) -> (phase: Phase)
        ensures
            phase == self@.phase,
    {
        self.phase
    }

    /// Starts the run at the clock reading `now`, once the caller has tried to
    /// bind the listen address. On success time zero is reset to `now` and the
    /// event loop and the relay are to be launched; without the address the run
    /// is aborted; a run that was started before stays as it is.
    pub fn start(&mut self, now: u64, bound: bool) -> (answer: Result<Command, StreamError>)
        ensures
            final(self)@ == old(self)@.after_start(now, bound),
            answer == transition(old(self)@.phase, Signal::Start { bound }).1,
    {
        let (phase, answer) = advance(self.phase, Signal::Start { bound });
        self.phase = phase;
        if answer.is_ok() {
            self.start_time = now;
        }
        answer
    }

    /// Asks for the run to stop: the event channel is to be closed and the event
    /// loop waited for.
    pub fn stop(&mut self) -> (answer: Result<Command, StreamError>)
        ensures
            final(self)@ == old(self)@.after_signal(Signal::Stop),
            answer == transition(old(self)@.phase, Signal::Stop).1,
    {
        let (phase, answer) = advance(self.phase, Signal::Stop);
        self.phase = phase;
        answer
    }

    /// Takes note that the event loop's context has ended. After a stop the
    /// notification queue is to be closed next and the relay waited for; without
    /// one the run has failed.
    pub fn event_loop_finished(&mut self) -> (answer: Result<Command, StreamError>)
        ensures
            final(self)@ == old(self)@.after_signal(Signal::EventLoopFinished),
            answer == transition(old(self)@.phase, Signal::EventLoopFinished).1,
    {
        let (phase, answer) = advance(self.phase, Signal::EventLoopFinished);
        self.phase = phase;
        answer
    }

    /// Takes note that the notifier relay's context has ended, which is the end
    /// of a run whose event loop has ended before.
    pub fn relay_finished(&mut self) -> (answer: Result<Command, StreamError>)
        ensures
            final(self)@ == old(self)@.after_signal(Signal::RelayFinished),
            answer == transition(old(self)@.phase, Signal::RelayFinished).1,
    {
        let (phase, answer) = advance(self.phase, Signal::RelayFinished);
        self.phase = phase;
        answer
    }

    /// The event for an output chunk whose text is `text`.
    pub fn stamp_output(&self, now: u64, text: String) -> (event: Option<TimedEvent>)
        ensures
            event_view(event) == self@.output_event(now, text@),
    {
        if self.pause.paused {
            return None;
        }
        Some(TimedEvent::Output(self.elapsed_time(now), text))
    }

    /// An output chunk of the terminal, seen at the clock reading `now`. While
    /// paused it is dropped; otherwise its lossily decoded text goes on the
    /// timeline.
    pub fn output(&self, now: u64, data: &[u8]) -> (event: Option<TimedEvent>)
        ensures
            event_view(event) == self@.output_event(now, lossy_text(data@)),
    {
        if self.pause.paused {
            return None;
        }
        self.stamp_output(now, decode_lossy(data))
    }

    /// Runs the key filter over an input chunk and moves the input state and the pause
    /// flag accordingly.
    pub fn filter_input(&mut self, data: &[u8]) -> (verdict: InputVerdict)
        ensures
            verdict == old(self)@.verdict(data@),
            final(self)@ == old(self)@.after_input(data@),
    {
        match classify(&mut self.gate, data, &self.keys) {
            Classification::PrefixArmed => InputVerdict {
                forward: false,
                record: false,
                notice: None,
            },
            Classification::PauseToggled => {
                if self.pause.paused {
                    self.pause.paused = false;
                    InputVerdict { forward: false, record: false, notice: Some(Notice::Resumed) }
                } else {
                    self.pause.paused = true;
                    InputVerdict { forward: false, record: false, notice: Some(Notice::Paused) }
                }
            },
            Classification::PassThrough => InputVerdict {
                forward: true,
                record: self.record_input && !self.pause.paused,
                notice: None,
            },
        }
    }

    /// An input chunk of the user, seen at the clock reading `now`. The escape
    /// keys are consumed; ordinary input is forwarded to the program and, where
    /// input is recorded and the stream is not paused, put on the timeline as
    /// lossily decoded text.
    pub fn input(&mut self, now: u64, data: &[u8]) -> (outcome: InputOutcome)
        ensures
            final(self)@ == old(self)@.after_input(data@),
            outcome.forward == old(self)@.verdict(data@).forward,
            outcome.notice == old(self)@.verdict(data@).notice,
            event_view(outcome.event) == old(self)@.input_event(now, data@, lossy_text(data@)),
    {
        let verdict = self.filter_input(data);
        let event = if verdict.record {
            Some(TimedEvent::Input(self.elapsed_time(now), decode_lossy(data)))
        } else {
            None
        };
        InputOutcome { forward: verdict.forward, event, notice: verdict.notice }
    }

    /// A change of the terminal's size, seen at the clock reading `now`. It is
    /// recorded even while paused, so that the geometry stays right.
    pub fn resize(&self, now: u64, size: Geometry) -> (event: TimedEvent)
        ensures
            event@ == self@.resize_event(now, size),
    {
        TimedEvent::Resize(self.elapsed_time(now), size)
    }
}

/// The prefix key and then the pause key toggle the pause, and the program
/// under control sees neither: for a streamer whose input state is idle and whose two
/// keys are bound, the prefix chunk arms the input state without any other
/// effect, and the pause chunk that follows flips the pause flag and disarms it.
pub proof fn lemma_prefix_then_pause_toggles(
    streamer: StreamerView,
    prefix: Seq<u8>,
    pause: Seq<u8>,
)
    requires
        !streamer.armed,
        streamer.keys.prefix == Some(prefix),
        streamer.keys.pause == Some(pause),
    ensures
        !streamer.verdict(prefix).forward,
        !streamer.verdict(prefix).record,
        streamer.verdict(prefix).notice is None,
        streamer.after_input(prefix) == (StreamerView { armed: true, ..streamer }),
        !streamer.after_input(prefix).verdict(pause).forward,
        !streamer.after_input(prefix).verdict(pause).record,
        streamer.after_input(prefix).verdict(pause).notice == Some(
            if streamer.paused {
                Notice::Resumed
            } else {
                Notice::Paused
            },
        ),
        streamer.after_input(prefix).after_input(pause) == (StreamerView {
            paused: !streamer.paused,
            armed: false,
            ..streamer
        }),
{
}

/// Without its prefix the pause key is ordinary input: where a prefix key is
/// bound and the input state is idle, a chunk that is the pause key and not the prefix
/// key reaches the program, is recorded like any input, and leaves the pause
/// flag alone.
pub proof fn lemma_pause_without_prefix_passes(
    streamer: StreamerView,
    prefix: Seq<u8>,
    pause: Seq<u8>,
)
    requires
        !streamer.armed,
        streamer.keys.prefix == Some(prefix),
        streamer.keys.pause == Some(pause),
        pause != prefix,
    ensures
        streamer.classify(pause) == Classification::PassThrough,
        streamer.verdict(pause).forward,
        streamer.verdict(pause).record == (streamer.record_input && !streamer.paused),
        streamer.verdict(pause).notice is None,
        streamer.after_input(pause) == streamer,
{
}

/// Without a prefix key the pause key counts at once: it flips the pause flag,
/// gives the matching notice and does not reach the program.
pub proof fn lemma_pause_alone_toggles(streamer: StreamerView, pause: Seq<u8>)
    requires
        streamer.keys.prefix is None,
        streamer.keys.pause == Some(pause),
    ensures
        streamer.classify(pause) == Classification::PauseToggled,
        !streamer.verdict(pause).forward,
        !streamer.verdict(pause).record,
        streamer.verdict(pause).notice == Some(
            if streamer.paused {
                Notice::Resumed
            } else {
                Notice::Paused
            },
        ),
        streamer.after_input(pause).paused == !streamer.paused,
{
}

/// While the stream is paused no output and no input is recorded, whatever the
/// chunk is, and every resize is.
pub proof fn lemma_paused_drops_all_but_resize(
    streamer: StreamerView,
    now: u64,
    chunk: Seq<u8>,
    text: Seq<char>,
    size: Geometry,
)
    requires
        streamer.paused,
    ensures
        streamer.output_event(now, text) is None,
        streamer.input_event(now, chunk, text) is None,
        streamer.resize_event(now, size) == (EventView::Resize {
            time: streamer.elapsed(now),
            geometry: size,
        }),
{
}

} // verus!
