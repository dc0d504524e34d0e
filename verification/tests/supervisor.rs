use con_mon::sample::{LatencySample, ParseError};
use con_mon::session::{
    after_session, route_line, step, Action, Continuation, Event, Outcome, Phase, SessionEnd,
    READ_TIMEOUT_SECS,
};
use con_mon::sink::append_sample;

fn feed(lines: &[&str]) -> (Phase, String, usize) {
    let mut phase = Phase::Reading;
    let mut log = String::new();
    let mut warnings = 0;
    for line in lines {
        let (next, action) = step(phase, &Event::Line(line.to_string()));
        phase = next;
        match action {
            Action::Append(sample) => append_sample(&mut log, &sample),
            Action::Warn(_) => warnings += 1,
            other => panic!("unexpected action {:?}", other),
        }
    }
    (phase, log, warnings)
}

#[test]
fn timeout_is_ten_seconds() {
    assert_eq!(READ_TIMEOUT_SECS, 10);
}

#[test]
fn probe_line_reaches_the_log() {
    let (phase, log, warnings) =
        feed(&["[2024-01-01T00:00:00Z] 64 bytes from 1.1.1.1: icmp_seq=1 ttl=55 time=23"]);
    assert_eq!(phase, Phase::Reading);
    assert_eq!(log, "2024-01-01T00:00:00Z 23\n");
    assert_eq!(warnings, 0);
}

#[test]
fn garbage_line_warns_and_appends_nothing() {
    let (phase, log, warnings) = feed(&["garbage output"]);
    assert_eq!(phase, Phase::Reading);
    assert_eq!(log, "");
    assert_eq!(warnings, 1);
}

#[test]
fn malformed_lines_do_not_end_the_session() {
    let (phase, log, warnings) =
        feed(&["[a] time=1", "noise", "[b] time=99999", "[c] time=3", "PING 1.1.1.1"]);
    assert_eq!(phase, Phase::Reading);
    assert_eq!(log, "a 1\nc 3\n");
    assert_eq!(warnings, 3);
}

#[test]
fn route_line_gives_sample_or_warning() {
    assert_eq!(
        route_line("[t] time=5"),
        Action::Append(LatencySample { timestamp: "t".to_string(), latency_ms: 5 })
    );
    assert_eq!(route_line("[t] time=65536"), Action::Warn(ParseError::NumericOverflow));
    assert_eq!(route_line("x"), Action::Warn(ParseError::NoMatch));
}

#[test]
fn end_of_input_stops_and_closes_after_exit() {
    let (phase, action) = step(Phase::Reading, &Event::EndOfInput);
    assert_eq!(phase, Phase::Stopping(Outcome::EndOfInput));
    assert_eq!(action, Action::Cancel);
    let (phase, action) = step(phase, &Event::ChildExited);
    assert_eq!(phase, Phase::Closed(Outcome::EndOfInput));
    assert_eq!(action, Action::Finish(Outcome::EndOfInput));
}

#[test]
fn stall_cancels_the_probe_before_closing() {
    let (phase, action) = step(Phase::Reading, &Event::TimedOut);
    assert_eq!(phase, Phase::Stopping(Outcome::Stalled));
    assert_eq!(action, Action::Cancel);
    let (phase, action) = step(phase, &Event::Line("[a] time=1".to_string()));
    assert_eq!(phase, Phase::Stopping(Outcome::Stalled));
    assert_eq!(action, Action::Wait);
    let (phase, action) = step(phase, &Event::ChildExited);
    assert_eq!(phase, Phase::Closed(Outcome::Stalled));
    assert_eq!(action, Action::Finish(Outcome::Stalled));
}

#[test]
fn failed_read_ends_the_reading_as_a_stall() {
    let (phase, action) = step(Phase::Reading, &Event::ReadFailed);
    assert_eq!(phase, Phase::Stopping(Outcome::Stalled));
    assert_eq!(action, Action::Cancel);
    let (phase, action) = step(phase, &Event::ReadFailed);
    assert_eq!(phase, Phase::Stopping(Outcome::Stalled));
    assert_eq!(action, Action::Wait);
    let (phase, action) = step(phase, &Event::ChildExited);
    assert_eq!(phase, Phase::Closed(Outcome::Stalled));
    assert_eq!(action, Action::Finish(Outcome::Stalled));
}

#[test]
fn failed_write_ends_the_session() {
    let (phase, action) = step(Phase::Reading, &Event::AppendFailed);
    assert_eq!(phase, Phase::Stopping(Outcome::SinkFailed));
    assert_eq!(action, Action::Cancel);
    let (phase, action) = step(phase, &Event::ChildExited);
    assert_eq!(phase, Phase::Closed(Outcome::SinkFailed));
    assert_eq!(action, Action::Finish(Outcome::SinkFailed));
}

#[test]
fn early_exit_is_seen_as_end_of_input_later() {
    let (phase, action) = step(Phase::Reading, &Event::ChildExited);
    assert_eq!(phase, Phase::Reading);
    assert_eq!(action, Action::Wait);
}

#[test]
fn closed_session_stays_closed() {
    let closed = Phase::Closed(Outcome::Stalled);
    for event in [
        Event::Line("[a] time=1".to_string()),
        Event::EndOfInput,
        Event::TimedOut,
        Event::ReadFailed,
        Event::AppendFailed,
        Event::ChildExited,
    ] {
        let (phase, action) = step(closed, &event);
        assert_eq!(phase, closed);
        assert_eq!(action, Action::Wait);
    }
}

#[test]
fn restart_policy() {
    assert_eq!(after_session(SessionEnd::Closed(Outcome::EndOfInput)), Continuation::Restart);
    assert_eq!(after_session(SessionEnd::Closed(Outcome::Stalled)), Continuation::Restart);
    assert_eq!(after_session(SessionEnd::Closed(Outcome::SinkFailed)), Continuation::Abort);
    assert_eq!(after_session(SessionEnd::SpawnFailed), Continuation::Abort);
}
