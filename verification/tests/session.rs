use wasm_test_runner::failure::{Failure, Tool};
use wasm_test_runner::session::{
    outcome_of, replay, step, Action, Event, Limits, Phase, Signal, Verdict,
};

const LIMITS: Limits = Limits { poll_ms: 20, settle_ms: 100, limit_ms: 5000 };

fn at(signal: Signal, elapsed_ms: u64) -> Event {
    Event { signal, elapsed_ms }
}

fn whole_run(passed: bool) -> Vec<Event> {
    vec![
        at(Signal::Begin, 0),
        at(Signal::Started, 10),
        at(Signal::Loaded, 50),
        at(Signal::Polled { finished: None }, 60),
        at(Signal::Polled { finished: None }, 80),
        at(Signal::Polled { finished: Some(passed) }, 100),
        at(Signal::WorkersTerminated, 210),
        at(Signal::ConsoleRead, 220),
        at(Signal::Closed, 230),
    ]
}

#[test]
fn session_runs_from_start_to_verdict() {
    let (phase, actions) = replay(LIMITS, &whole_run(true));
    assert_eq!(phase, Phase::Done { verdict: Verdict::Passed });
    assert_eq!(
        actions,
        vec![
            Action::StartSession,
            Action::Navigate,
            Action::Poll { after_ms: 0 },
            Action::Poll { after_ms: 20 },
            Action::Poll { after_ms: 20 },
            Action::TerminateWorkers { after_ms: 100 },
            Action::ReadConsole,
            Action::CloseSession,
            Action::Finish { verdict: Verdict::Passed },
        ]
    );
}

#[test]
fn failed_module_ends_in_the_verdict_failed() {
    let (phase, actions) = replay(LIMITS, &whole_run(false));
    assert_eq!(phase, Phase::Done { verdict: Verdict::Failed });
    assert_eq!(actions.last(), Some(&Action::Finish { verdict: Verdict::Failed }));
}

#[test]
fn workers_end_before_the_console_is_read_for_the_last_time() {
    for passed in [true, false] {
        let (_, actions) = replay(LIMITS, &whole_run(passed));
        let read = actions.iter().position(|a| *a == Action::ReadConsole).unwrap();
        let ended = actions
            .iter()
            .position(|a| matches!(a, Action::TerminateWorkers { .. }))
            .unwrap();
        assert!(ended < read);
    }
}

#[test]
fn session_that_cannot_start_is_unavailable() {
    let events = vec![at(Signal::Begin, 0), at(Signal::Unavailable, 5)];
    let (phase, actions) = replay(LIMITS, &events);
    assert_eq!(phase, Phase::Done { verdict: Verdict::Unavailable });
    assert_eq!(
        actions,
        vec![Action::StartSession, Action::Finish { verdict: Verdict::Unavailable }]
    );
}

#[test]
fn hung_session_is_closed_and_times_out() {
    let events = vec![
        at(Signal::Begin, 0),
        at(Signal::Started, 10),
        at(Signal::Loaded, 50),
        at(Signal::Polled { finished: None }, 4990),
        at(Signal::Polled { finished: Some(true) }, 5001),
        at(Signal::WorkersTerminated, 5002),
        at(Signal::ConsoleRead, 5003),
        at(Signal::Closed, 5004),
    ];
    let (phase, actions) = replay(LIMITS, &events);
    assert_eq!(phase, Phase::Done { verdict: Verdict::TimedOut });
    assert_eq!(
        &actions[4..],
        &[
            Action::CloseSession,
            Action::Nothing,
            Action::Nothing,
            Action::Finish { verdict: Verdict::TimedOut },
        ]
    );
}

#[test]
fn limit_itself_is_still_in_time() {
    let (phase, action) =
        step(LIMITS, Phase::Running, at(Signal::Polled { finished: Some(true) }, 5000));
    assert_eq!(phase, Phase::Stopping { passed: true });
    assert_eq!(action, Action::TerminateWorkers { after_ms: 100 });
}

#[test]
fn every_active_phase_is_under_the_limit() {
    let active = [
        Phase::Starting,
        Phase::Loading,
        Phase::Running,
        Phase::Stopping { passed: true },
        Phase::Flushing { passed: true },
    ];
    let signals = [
        Signal::Begin,
        Signal::Started,
        Signal::Unavailable,
        Signal::Loaded,
        Signal::Polled { finished: Some(true) },
        Signal::WorkersTerminated,
        Signal::ConsoleRead,
        Signal::Closed,
    ];
    for phase in active {
        for signal in signals {
            assert_eq!(
                step(LIMITS, phase, at(signal, 5001)),
                (Phase::Closing { verdict: Verdict::TimedOut }, Action::CloseSession)
            );
        }
    }
}

#[test]
fn closing_and_finished_sessions_are_not_timed() {
    let closing = Phase::Closing { verdict: Verdict::Passed };
    assert_eq!(
        step(LIMITS, closing, at(Signal::Closed, 999_999)),
        (Phase::Done { verdict: Verdict::Passed }, Action::Finish { verdict: Verdict::Passed })
    );
    let done = Phase::Done { verdict: Verdict::Failed };
    assert_eq!(step(LIMITS, done, at(Signal::Begin, 999_999)), (done, Action::Nothing));
    assert_eq!(step(LIMITS, Phase::Idle, at(Signal::Started, 999_999)), (Phase::Idle, Action::Nothing));
}

#[test]
fn signal_out_of_turn_changes_nothing() {
    assert_eq!(
        step(LIMITS, Phase::Running, at(Signal::ConsoleRead, 10)),
        (Phase::Running, Action::Nothing)
    );
    assert_eq!(
        step(LIMITS, Phase::Stopping { passed: false }, at(Signal::ConsoleRead, 10)),
        (Phase::Stopping { passed: false }, Action::Nothing)
    );
    assert_eq!(
        step(LIMITS, Phase::Loading, at(Signal::Polled { finished: Some(true) }, 10)),
        (Phase::Loading, Action::Nothing)
    );
}

#[test]
fn verdict_decides_between_outcome_and_failure() {
    assert_eq!(outcome_of(Verdict::Passed), Ok(true));
    assert_eq!(outcome_of(Verdict::Failed), Ok(false));
    assert_eq!(outcome_of(Verdict::TimedOut), Err(Failure::Timeout { tool: Tool::WebDriver }));
    assert_eq!(
        outcome_of(Verdict::Unavailable),
        Err(Failure::ToolUnavailable { tool: Tool::WebDriver })
    );
}

#[test]
fn no_events_leave_the_session_idle() {
    assert_eq!(replay(LIMITS, &vec![]), (Phase::Idle, vec![]));
}
