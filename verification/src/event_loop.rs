//! The event loop: the one owner of the session.
//!
//! Two sources feed it, the timeline events of the streamer and the admission
//! requests of the server. Whoever waits on the two sources hands each thing
//! that arrives to [`step`], in the order in which it arrived; [`step`] applies
//! it to the session and says what is to be done with the answer. The loop
//! ends when a source has closed.

use vstd::prelude::*;
use crate::event::{views, EventView, Geometry, TimedEvent};
use crate::session::{Session, SessionView, Subscription};

verus! {

/// What one of the two sources gave.
#[derive(Debug, PartialEq, Eq)]
pub enum LoopInput {
    /// From the event source: the next event, or `None` when it has closed.
    Event(Option<TimedEvent>),
    /// From the admission gate: the number of the connection that asks for a
    /// place, or `None` when admissions have closed.
    Admission(Option<u64>),
}

/// The mathematical value of a [`LoopInput`].
pub enum LoopInputView {
    Event(Option<EventView>),
    Admission(Option<u64>),
}

impl View for LoopInput {
    type V = LoopInputView;

    open spec fn view(&self) -> LoopInputView {
        match *self {
            LoopInput::Event(Some(event)) => LoopInputView::Event(Some(event@)),
            LoopInput::Event(None) => LoopInputView::Event(None),
            LoopInput::Admission(client) => LoopInputView::Admission(client),
        }
    }
}

impl LoopInputView {
    /// Whether the input says that its source has closed.
    pub open spec fn closes(self) -> bool {
        self == LoopInputView::Event(None) || self == LoopInputView::Admission(None)
    }
}

/// What the loop did with an input.
#[derive(Debug, PartialEq, Eq)]
pub enum LoopOutput {
    /// The event is on the timeline; the viewers with these numbers could not
    /// take it and have lost their places.
    Applied { dropped: Vec<u64> },
    /// The connection has a place: the subscription is to be handed to it.
    /// `viewers` is the count of live viewers, the new one counted in.
    Admitted { client: u64, subscription: Subscription, viewers: usize },
    /// The connection has no place, as the session can number no more viewers.
    Refused { client: u64 },
    /// A source has closed and the session is finished: the loop ends.
    Exit,
}

/// The mathematical value of a [`LoopOutput`].
pub enum LoopOutputView {
    Applied { dropped: Seq<u64> },
    Admitted { client: u64, id: u64, geometry: Geometry, events: Seq<EventView>, viewers: nat },
    Refused { client: u64 },
    Exit,
}

impl View for LoopOutput {
    type V = LoopOutputView;

    open spec fn view(&self) -> LoopOutputView {
        match *self {
            LoopOutput::Applied { dropped } => LoopOutputView::Applied { dropped: dropped@ },
            LoopOutput::Admitted { client, subscription, viewers } => LoopOutputView::Admitted {
                client,
                id: subscription.id,
                geometry: subscription.catch_up.geometry,
                events: views(subscription.catch_up.events@),
                viewers: viewers as nat,
            },
            LoopOutput::Refused { client } => LoopOutputView::Refused { client },
            LoopOutput::Exit => LoopOutputView::Exit,
        }
    }
}

/// Whether the session can number one more viewer.
pub open spec fn can_admit(session: SessionView) -> bool {
    session.admitted < u64::MAX
}

/// The session after the loop has taken one input.
pub open spec fn step_session(session: SessionView, input: LoopInputView) -> SessionView {
    match input {
        LoopInputView::Event(Some(event)) => session.append(event),
        LoopInputView::Admission(Some(_)) => if can_admit(session) {
            session.subscribe()
        } else {
            session
        },
        _ => session.finish(),
    }
}

/// What the loop answers to one input. A newly admitted viewer is handed the
/// terminal's first size and the whole history as it stands.
pub open spec fn step_output(session: SessionView, input: LoopInputView) -> LoopOutputView {
    match input {
        LoopInputView::Event(Some(_)) => LoopOutputView::Applied {
            dropped: session.dropped_by_append(),
        },
        LoopInputView::Admission(Some(client)) => if can_admit(session) {
            LoopOutputView::Admitted {
                client,
                id: session.admitted as u64,
                geometry: session.initial,
                events: session.history,
                viewers: session.subscribe().live_count(),
            }
        } else {
            LoopOutputView::Refused { client }
        },
        _ => LoopOutputView::Exit,
    }
}

/// One turn of the loop: applies what a source gave to the session.
pub fn step(session: &mut Session, input: LoopInput) -> (output: LoopOutput)
    requires
        old(session)@.wf(),
    ensures
        final(session)@ == step_session(old(session)@, input@),
        final(session)@.wf(),
        output@ == step_output(old(session)@, input@),
{
    match input {
        LoopInput::Event(Some(event)) => {
            let dropped = session.append(event);
            LoopOutput::Applied { dropped }
        },
        LoopInput::Admission(Some(client)) => {
            if session.admitted() < u64::MAX {
                let subscription = session.subscribe();
                let viewers = session.subscriber_count();
                LoopOutput::Admitted { client, subscription, viewers }
            } else {
                LoopOutput::Refused { client }
            }
        },
        _ => {
            session.finish();
            LoopOutput::Exit
        },
    }
}

/// The values of a run of inputs.
pub open spec fn input_views(inputs: Seq<LoopInput>) -> Seq<LoopInputView> {
    inputs.map_values(|i: LoopInput| i@)
}

/// The session after the loop has taken the first `taken` of `inputs`.
pub open spec fn session_after(session: SessionView, inputs: Seq<LoopInputView>, taken: nat)
    -> SessionView
    decreases taken,
{
    if taken == 0 {
        session
    } else {
        step_session(session_after(session, inputs, (taken - 1) as nat), inputs[taken - 1])
    }
}

/// Whether a loop that is fed `inputs` takes exactly the first `taken` of them:
/// all of them, or those up to the first that closes a source.
pub open spec fn stops_after(inputs: Seq<LoopInputView>, taken: nat) -> bool {
    &&& taken <= inputs.len()
    &&& forall|k: int| 0 <= k < taken - 1 ==> !(#[trigger] inputs[k]).closes()
    &&& taken < inputs.len() ==> taken > 0 && inputs[taken - 1].closes()
}

/// Runs the loop on a session over what the sources gave, in the order in
/// which it arrived, until a source has closed or nothing is left. The outputs
/// are those of the turns taken, one by one.
pub fn run(session: &mut Session, inputs: Vec<LoopInput>) -> (outputs: Vec<LoopOutput>)
    requires
        old(session)@.wf(),
    ensures
        final(session)@.wf(),
        stops_after(input_views(inputs@), outputs@.len()),
        final(session)@ == session_after(old(session)@, input_views(inputs@), outputs@.len()),
        forall|k: int|
            0 <= k < outputs@.len() ==> (#[trigger] outputs@[k])@ == step_output(
                session_after(old(session)@, input_views(inputs@), k as nat),
                input_views(inputs@)[k],
            ),
{
    let ghost start = session@;
    let ghost given = input_views(inputs@);
    let mut outputs: Vec<LoopOutput> = Vec::new();
    for input in it: inputs
        invariant
            it.seq() == inputs@,
            given == input_views(inputs@),
            start == old(session)@,
            session@.wf(),
            outputs@.len() == it.index(),
            forall|k: int| 0 <= k < it.index() ==> !(#[trigger] given[k]).closes(),
            session@ == session_after(start, given, it.index() as nat),
            forall|k: int|
                0 <= k < outputs@.len() ==> (#[trigger] outputs@[k])@ == step_output(
                    session_after(start, given, k as nat),
                    given[k],
                ),
    {
        let ghost taken = it.index() as nat;
        assert(given[taken as int] == input@);
        let output = step(session, input);
        let done = matches!(output, LoopOutput::Exit);
        outputs.push(output);
        if done {
            assert(given[taken as int].closes());
            return outputs;
        }
    }
    outputs
}

/// What a run of the loop leaves.
pub struct LoopReport {
    /// The session as the loop left it.
    pub session: Session,
    /// The answers of the turns taken, one by one.
    pub outputs: Vec<LoopOutput>,
}

/// The event loop of one streaming run: builds the session for a terminal of
/// the given size and runs the loop over what the two sources gave, in the order
/// in which it arrived.
pub fn event_loop(tty_size: Geometry, inputs: Vec<LoopInput>) -> (report: LoopReport)
    ensures
        report.session@.wf(),
        stops_after(input_views(inputs@), report.outputs@.len()),
        report.session@ == session_after(
            SessionView::fresh(tty_size, crate::session::DEFAULT_QUEUE_CAPACITY as nat),
            input_views(inputs@),
            report.outputs@.len(),
        ),
        forall|k: int|
            0 <= k < report.outputs@.len() ==> (#[trigger] report.outputs@[k])@ == step_output(
                session_after(
                    SessionView::fresh(tty_size, crate::session::DEFAULT_QUEUE_CAPACITY as nat),
                    input_views(inputs@),
                    k as nat,
                ),
                input_views(inputs@)[k],
            ),
{
    let mut session = Session::new(tty_size);
    let outputs = run(&mut session, inputs);
    LoopReport { session, outputs }
}

} // verus!
