//! One probe session as a state machine, and the policy that restarts it.
//!
//! The caller owns the probe process and the clock. It reports what happened
//! as an [`Event`], and carries out the [`Action`] that [`step`] hands back.

use crate::sample::{parse, parse_spec, LatencySample, ParseError, SampleModel};
use vstd::prelude::*;

verus! {

/// How long a session waits for the next line before it counts as stalled.
pub const READ_TIMEOUT_SECS: u64 = 10;

/// Why a session stopped reading.
#[derive(Debug, Clone, Copy, PartialEq, Eq)]
pub enum Outcome {
    /// The probe's output ended.
    EndOfInput,
    /// No line came within the timeout, or the output could not be read.
    Stalled,
    /// A sample could not be written to the log.
    SinkFailed,
}

/// Where a session stands.
#[derive(Debug, Clone, Copy, PartialEq, Eq)]
pub enum Phase {
    /// Lines are read and routed.
    Reading,
    /// Reading is over; the probe process has been told to stop and its exit
    /// is awaited.
    Stopping(Outcome),
    /// The probe process is gone; the session has returned.
    Closed(Outcome),
}

/// What the caller observed.
#[derive(Debug, Clone, PartialEq, Eq)]
pub enum Event {
    /// A line arrived within the timeout.
    Line(String),
    /// The output stream ended.
    EndOfInput,
    /// The timeout passed without a line.
    TimedOut,
    /// Reading the output failed.
    ReadFailed,
    /// Writing the last sample failed.
    AppendFailed,
    /// The probe process has exited.
    ChildExited,
}

/// What the caller is to do next.
#[derive(Debug, Clone, PartialEq, Eq)]
pub enum Action {
    /// Append this sample to the log, then read on.
    Append(LatencySample),
    /// Log a warning for a malformed line, then read on.
    Warn(ParseError),
    /// Terminate the probe process and report its exit.
    Cancel,
    /// Return from the session with this outcome.
    Finish(Outcome),
    /// Nothing to do.
    Wait,
}

/// The mathematical value of an [`Action`].
pub enum ActionModel {
    Append(SampleModel),
    Warn(ParseError),
    Cancel,
    Finish(Outcome),
    Wait,
}

impl View for Action {
    type V = ActionModel;

    open spec fn view(&self) -> ActionModel {
        match *self {
            Action::Append(sample) => ActionModel::Append(sample@),
            Action::Warn(e) => ActionModel::Warn(e),
            Action::Cancel => ActionModel::Cancel,
            Action::Finish(o) => ActionModel::Finish(o),
            Action::Wait => ActionModel::Wait,
        }
    }
}

/// The phase that follows `phase` on `event`.
pub open spec fn next_phase(phase: Phase, event: Event) -> Phase {
    match phase {
        Phase::Reading => match event {
            Event::Line(_) => Phase::Reading,
            Event::EndOfInput => Phase::Stopping(Outcome::EndOfInput),
            Event::TimedOut => Phase::Stopping(Outcome::Stalled),
            Event::ReadFailed => Phase::Stopping(Outcome::Stalled),
            Event::AppendFailed => Phase::Stopping(Outcome::SinkFailed),
            Event::ChildExited => Phase::Reading,
        },
        Phase::Stopping(outcome) => match event {
            Event::ChildExited => Phase::Closed(outcome),
            _ => Phase::Stopping(outcome),
        },
        Phase::Closed(outcome) => Phase::Closed(outcome),
    }
}

/// The action that `event` calls for in `phase`.
pub open spec fn action_for(phase: Phase, event: Event) -> ActionModel {
    match phase {
        Phase::Reading => match event {
            Event::Line(line) => match parse_spec(line@) {
                Ok(sample) => ActionModel::Append(sample),
                Err(e) => ActionModel::Warn(e),
            },
            Event::EndOfInput => ActionModel::Cancel,
            Event::TimedOut => ActionModel::Cancel,
            Event::ReadFailed => ActionModel::Cancel,
            Event::AppendFailed => ActionModel::Cancel,
            Event::ChildExited => ActionModel::Wait,
        },
        Phase::Stopping(outcome) => match event {
            Event::ChildExited => ActionModel::Finish(outcome),
            _ => ActionModel::Wait,
        },
        Phase::Closed(_) => ActionModel::Wait,
    }
}

/// The phase reached from `phase` after the events, in order.
pub open spec fn run(phase: Phase, events: Seq<Event>) -> Phase
    decreases events.len(),
{
    if events.len() == 0 {
        phase
    } else {
        next_phase(run(phase, events.drop_last()), events.last())
    }
}

/// Routes one line: a sample to append, or a warning for a line that is not
/// one. A malformed line never ends the session.
pub fn route_line(line: &str) -> (action: Action)
    ensures
        action@ == match parse_spec(line@) {
            Ok(sample) => ActionModel::Append(sample),
            Err(e) => ActionModel::Warn(e),
        },
{
    match parse(line) {
        Ok(sample) => Action::Append(sample),
        Err(e) => Action::Warn(e),
    }
}

/// Takes one event: the next phase, and what the caller is to do. A failed
/// read ends the reading as a timeout does.
pub fn step(phase: Phase, event: &Event) -> (r: (Phase, Action))
    ensures
        r.0 == next_phase(phase, *event),
        r.1@ == action_for(phase, *event),
{
    match phase {
        Phase::Reading => match event {
            Event::Line(line) => (Phase::Reading, route_line(line.as_str())),
            Event::EndOfInput => (Phase::Stopping(Outcome::EndOfInput), Action::Cancel),
            Event::TimedOut => (Phase::Stopping(Outcome::Stalled), Action::Cancel),
            Event::ReadFailed => (Phase::Stopping(Outcome::Stalled), Action::Cancel),
            Event::AppendFailed => (Phase::Stopping(Outcome::SinkFailed), Action::Cancel),
            Event::ChildExited => (Phase::Reading, Action::Wait),
        },
        Phase::Stopping(outcome) => match event {
            Event::ChildExited => (Phase::Closed(outcome), Action::Finish(outcome)),
            _ => (Phase::Stopping(outcome), Action::Wait),
        },
        Phase::Closed(outcome) => (Phase::Closed(outcome), Action::Wait),
    }
}

/// How a session came to its end, as the restart loop sees it.
#[derive(Debug, Clone, Copy, PartialEq, Eq)]
pub enum SessionEnd {
    /// The probe process could not be started.
    SpawnFailed,
    /// The session ran and closed with this outcome.
    Closed(Outcome),
}

/// What the restart loop does after a session.
#[derive(Debug, Clone, Copy, PartialEq, Eq)]
pub enum Continuation {
    /// Start a new session at once.
    Restart,
    /// Give up: the environment is broken.
    Abort,
}

pub open spec fn continuation_of(end: SessionEnd) -> Continuation {
    match end {
        SessionEnd::Closed(Outcome::EndOfInput) => Continuation::Restart,
        SessionEnd::Closed(Outcome::Stalled) => Continuation::Restart,
        SessionEnd::Closed(Outcome::SinkFailed) => Continuation::Abort,
        SessionEnd::SpawnFailed => Continuation::Abort,
    }
}

/// The restart policy: end of input and stalls start a new session, without
/// delay and without a limit; a failed spawn or a failed write ends the loop.
pub fn after_session(end: SessionEnd) -> (c: Continuation)
    ensures
        c == continuation_of(end),
{
    match end {
        SessionEnd::Closed(Outcome::EndOfInput) => Continuation::Restart,
        SessionEnd::Closed(Outcome::Stalled) => Continuation::Restart,
        SessionEnd::Closed(Outcome::SinkFailed) => Continuation::Abort,
        SessionEnd::SpawnFailed => Continuation::Abort,
    }
}

/// A session that is handed nothing but lines keeps reading: no number of
/// lines, well formed or not, ends it.
pub proof fn law_lines_keep_reading(events: Seq<Event>)
    requires
        forall|x: int| 0 <= x < events.len() ==> events[x] is Line,
    ensures
        run(Phase::Reading, events) == Phase::Reading,
    decreases events.len(),
{
    if events.len() > 0 {
        law_lines_keep_reading(events.drop_last());
    }
}

/// A session in which no timeout passes, no read fails and no write fails
/// stops reading only at the end of input.
pub proof fn law_ends_only_on_end_of_input(events: Seq<Event>)
    requires
        forall|x: int|
            0 <= x < events.len() ==> !(events[x] is TimedOut) && !(events[x] is ReadFailed) && !(
            events[x] is AppendFailed),
    ensures
        ({
            let reached = run(Phase::Reading, events);
            reached == Phase::Reading || reached == Phase::Stopping(Outcome::EndOfInput) || reached
                == Phase::Closed(Outcome::EndOfInput)
        }),
    decreases events.len(),
{
    if events.len() > 0 {
        law_ends_only_on_end_of_input(events.drop_last());
    }
}

/// A timeout while reading ends the reading as a stall and has the probe
/// process cancelled; so does a failed read.
pub proof fn law_timeout_is_a_stall(event: Event)
    requires
        is_stall(event),
    ensures
        next_phase(Phase::Reading, event) == Phase::Stopping(Outcome::Stalled),
        action_for(Phase::Reading, event) == ActionModel::Cancel,
{
}

/// A session closes only from the stopping phase, on the exit of the probe
/// process, and with the outcome for which it stopped.
pub proof fn law_closes_only_after_exit(phase: Phase, event: Event)
    requires
        !(phase is Closed),
        next_phase(phase, event) is Closed,
    ensures
        event is ChildExited,
        phase is Stopping,
        next_phase(phase, event) == Phase::Closed(phase->Stopping_0),
        action_for(phase, event) == ActionModel::Finish(phase->Stopping_0),
{
}

/// The event ends the reading as a stall: a timeout or a failed read.
pub open spec fn is_stall(event: Event) -> bool {
    event is TimedOut || event is ReadFailed
}

/// A session that has closed as stalled saw a timeout or a failed read, and
/// after it the exit of the probe process.
pub proof fn law_stalled_session_saw_exit(events: Seq<Event>)
    requires
        run(Phase::Reading, events) == Phase::Closed(Outcome::Stalled),
    ensures
        exists|x: int, y: int|
            0 <= x < y < events.len() && is_stall(events[x]) && events[y] is ChildExited,
    decreases events.len(),
{
    let before = events.drop_last();
    let reached = run(Phase::Reading, before);
    if reached == Phase::Closed(Outcome::Stalled) {
        law_stalled_session_saw_exit(before);
        let (x, y) = choose|x: int, y: int|
            0 <= x < y < before.len() && is_stall(before[x]) && before[y] is ChildExited;
        assert(is_stall(events[x]) && events[y] is ChildExited);
    } else {
        assert(reached == Phase::Stopping(Outcome::Stalled));
        assert(events.last() is ChildExited);
        lemma_stopping_stalled_saw_timeout(before);
        let x = choose|x: int| 0 <= x < before.len() && is_stall(before[x]);
        assert(is_stall(events[x]) && events[events.len() - 1] is ChildExited);
    }
}

proof fn lemma_stopping_stalled_saw_timeout(events: Seq<Event>)
    requires
        run(Phase::Reading, events) == Phase::Stopping(Outcome::Stalled),
    ensures
        exists|x: int| 0 <= x < events.len() && is_stall(events[x]),
    decreases events.len(),
{
    let before = events.drop_last();
    let reached = run(Phase::Reading, before);
    if reached == Phase::Stopping(Outcome::Stalled) {
        lemma_stopping_stalled_saw_timeout(before);
        let x = choose|x: int| 0 <= x < before.len() && is_stall(before[x]);
        assert(is_stall(events[x]));
    } else {
        assert(reached == Phase::Reading);
        assert(is_stall(events[events.len() - 1]));
    }
}

} // verus!
