//! The phases of a run, from binding the listener to returning the output, as
//! a state machine: the caller performs each action and reports each event.
use vstd::prelude::*;

verus! {

/// Where a run stands.
#[derive(Debug, Clone, Copy, PartialEq, Eq, Structural)]
pub enum Phase {
    /// Acquiring the listening address.
    Binding,
    /// The address is known; the ready callback is due.
    Ready,
    /// Accepting and answering requests.
    Serving,
    /// No longer accepting; letting answers in flight complete.
    ShuttingDown,
    /// Done; the collector's output is returned.
    Stopped,
    /// Binding failed; the error is returned.
    Failed,
}

/// What happened since the last step.
#[derive(Debug, Clone, Copy, PartialEq, Eq, Structural)]
pub enum Event {
    Bound,
    BindFailed,
    ReadyReported,
    Completed,
    Drained,
}

/// What the caller is to do next.
#[derive(Debug, Clone, Copy, PartialEq, Eq, Structural)]
pub enum Action {
    /// Call the ready callback, once, with the bound address.
    ReportReady,
    /// Run the accept loop until completion.
    Serve,
    /// Stop accepting and drain the answers in flight.
    StopAccepting,
    /// Hand back the collector's output.
    ReturnOutput,
    /// Hand back the binding error.
    ReturnError,
    /// Nothing: the event does not apply in this phase.
    Wait,
}

pub open spec fn next(phase: Phase, event: Event) -> (Phase, Action) {
    match (phase, event) {
        (Phase::Binding, Event::Bound) => (Phase::Ready, Action::ReportReady),
        (Phase::Binding, Event::BindFailed) => (Phase::Failed, Action::ReturnError),
        (Phase::Ready, Event::ReadyReported) => (Phase::Serving, Action::Serve),
        (Phase::Serving, Event::Completed) => (Phase::ShuttingDown, Action::StopAccepting),
        (Phase::ShuttingDown, Event::Drained) => (Phase::Stopped, Action::ReturnOutput),
        _ => (phase, Action::Wait),
    }
}

/// The next phase and the action to perform, given the current phase and what
/// happened.
pub fn step(phase: Phase, event: Event) -> (r: (Phase, Action))
    ensures
        r == next(phase, event),
{
    match (phase, event) {
        (Phase::Binding, Event::Bound) => (Phase::Ready, Action::ReportReady),
        (Phase::Binding, Event::BindFailed) => (Phase::Failed, Action::ReturnError),
        (Phase::Ready, Event::ReadyReported) => (Phase::Serving, Action::Serve),
        (Phase::Serving, Event::Completed) => (Phase::ShuttingDown, Action::StopAccepting),
        (Phase::ShuttingDown, Event::Drained) => (Phase::Stopped, Action::ReturnOutput),
        _ => (phase, Action::Wait),
    }
}

/// Phase after the events `events`, from `Binding`.
pub open spec fn phase_after(events: Seq<Event>) -> Phase
    decreases events.len(),
{
    if events.len() == 0 {
        Phase::Binding
    } else {
        next(phase_after(events.drop_last()), events.last()).0
    }
}

/// Number of times the action `a` is asked for over the events `events`.
pub open spec fn times(events: Seq<Event>, a: Action) -> nat
    decreases events.len(),
{
    if events.len() == 0 {
        0
    } else {
        times(events.drop_last(), a) + if next(phase_after(events.drop_last()), events.last()).1 == a {
            1nat
        } else {
            0nat
        }
    }
}

/// Over any sequence of events, the ready callback is asked for at most once,
/// and only once the run has left `Binding`; the output is handed back at most
/// once, and only when the run has stopped; after serving begins, the run
/// stops only through a completion.
pub proof fn lemma_lifecycle_once(events: Seq<Event>)
    ensures
        times(events, Action::ReportReady) <= 1,
        times(events, Action::ReportReady) == 1 <==> phase_after(events) != Phase::Binding && phase_after(events) != Phase::Failed,
        times(events, Action::ReturnOutput) <= 1,
        times(events, Action::ReturnOutput) == 1 <==> phase_after(events) == Phase::Stopped,
        times(events, Action::StopAccepting) <= 1,
        times(events, Action::StopAccepting) == 1 <==> (phase_after(events) == Phase::ShuttingDown || phase_after(events) == Phase::Stopped),
    decreases events.len(),
{
    if events.len() > 0 {
        lemma_lifecycle_once(events.drop_last());
    }
}

} // verus!
