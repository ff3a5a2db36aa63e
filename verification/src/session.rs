//! The decisions of a browser adapter.
//!
//! A browser is driven through an automation session: start it, navigate to
//! the harness page, poll for the result, and read the console that the page
//! relays. The adapter itself only decides what to do next. The caller
//! performs each action, waits where the action says so, and reports back
//! what happened and how much time has passed since the attempt began.

use crate::failure::{Failure, Tool};
use vstd::prelude::*;

verus! {

/// How a browser session ended.
#[derive(Clone, Copy, Debug, PartialEq, Eq, Structural)]
pub enum Verdict {
    Passed,
    Failed,
    /// The bounded wait ran out.
    TimedOut,
    /// The automation session could not be started.
    Unavailable,
}

/// Where a browser session stands.
#[derive(Clone, Copy, Debug, PartialEq, Eq, Structural)]
pub enum Phase {
    /// Nothing was asked for yet.
    Idle,
    /// The session is being started.
    Starting,
    /// The harness page is being loaded.
    Loading,
    /// The module runs; its result is polled.
    Running,
    /// The result is known; the workers are being ended.
    Stopping { passed: bool },
    /// The workers have ended; the console is read for the last time.
    Flushing { passed: bool },
    /// The session is being closed.
    Closing { verdict: Verdict },
    /// The session is over.
    Done { verdict: Verdict },
}

/// What the caller reports back.
#[derive(Clone, Copy, Debug, PartialEq, Eq)]
pub enum Signal {
    /// The attempt begins.
    Begin,
    /// The session was started.
    Started,
    /// The session could not be started.
    Unavailable,
    /// The harness page was loaded.
    Loaded,
    /// The result was polled: whether the module has finished, and if so,
    /// whether it passed.
    Polled { finished: Option<bool> },
    /// The workers have ended.
    WorkersTerminated,
    /// The console was read.
    ConsoleRead,
    /// The session was closed.
    Closed,
}

/// A signal with the time that has passed since the attempt began, in
/// milliseconds.
#[derive(Clone, Copy, Debug, PartialEq, Eq)]
pub struct Event {
    pub signal: Signal,
    pub elapsed_ms: u64,
}

/// What the caller is to do next.
#[derive(Clone, Copy, Debug, PartialEq, Eq, Structural)]
pub enum Action {
    StartSession,
    Navigate,
    /// Wait for `after_ms` milliseconds, then poll console and result.
    Poll { after_ms: u64 },
    /// Wait for `after_ms` milliseconds, so that late messages can arrive,
    /// then end every worker.
    TerminateWorkers { after_ms: u64 },
    /// Read the console for the last time.
    ReadConsole,
    CloseSession,
    /// Report the verdict; nothing is left to do.
    Finish { verdict: Verdict },
    /// The signal means nothing at this point; go on waiting.
    Nothing,
}

/// The waits of a session, in milliseconds.
#[derive(Clone, Copy, Debug, PartialEq, Eq, Structural)]
pub struct Limits {
    /// The pause between two polls.
    pub poll_ms: u64,
    /// The pause between the result and the end of the workers.
    pub settle_ms: u64,
    /// The time after which an attempt is given up.
    pub limit_ms: u64,
}

/// A phase in which the session is under the bounded wait.
pub open spec fn is_active(phase: Phase) -> bool {
    phase is Starting || phase is Loading || phase is Running || phase is Stopping
        || phase is Flushing
}

/// The verdict of a module that ran to its end.
pub open spec fn verdict_of(passed: bool) -> Verdict {
    if passed {
        Verdict::Passed
    } else {
        Verdict::Failed
    }
}

/// The next phase and the next action.
///
/// An active session that has used up its time is closed with the verdict
/// `TimedOut`, whatever was signalled. Otherwise the session goes on by the
/// signal that its phase waits for, and any other signal changes nothing.
pub open spec fn next(limits: Limits, phase: Phase, event: Event) -> (Phase, Action) {
    if is_active(phase) && event.elapsed_ms > limits.limit_ms {
        (Phase::Closing { verdict: Verdict::TimedOut }, Action::CloseSession)
    } else {
        match (phase, event.signal) {
            (Phase::Idle, Signal::Begin) => (Phase::Starting, Action::StartSession),
            (Phase::Starting, Signal::Started) => (Phase::Loading, Action::Navigate),
            (Phase::Starting, Signal::Unavailable) => (
                Phase::Done { verdict: Verdict::Unavailable },
                Action::Finish { verdict: Verdict::Unavailable },
            ),
            (Phase::Loading, Signal::Loaded) => (Phase::Running, Action::Poll { after_ms: 0 }),
            (Phase::Running, Signal::Polled { finished: None }) => (
                Phase::Running,
                Action::Poll { after_ms: limits.poll_ms },
            ),
            (Phase::Running, Signal::Polled { finished: Some(passed) }) => (
                Phase::Stopping { passed },
                Action::TerminateWorkers { after_ms: limits.settle_ms },
            ),
            (Phase::Stopping { passed }, Signal::WorkersTerminated) => (
                Phase::Flushing { passed },
                Action::ReadConsole,
            ),
            (Phase::Flushing { passed }, Signal::ConsoleRead) => (
                Phase::Closing { verdict: verdict_of(passed) },
                Action::CloseSession,
            ),
            (Phase::Closing { verdict }, Signal::Closed) => (
                Phase::Done { verdict },
                Action::Finish { verdict },
            ),
            _ => (phase, Action::Nothing),
        }
    }
}

/// The phase that a session reaches from `start` by `events`, and the
/// actions that it asks for on the way, one for each event.
pub open spec fn run(limits: Limits, start: Phase, events: Seq<Event>) -> (Phase, Seq<Action>)
    decreases events.len(),
{
    if events.len() == 0 {
        (start, Seq::empty())
    } else {
        let (phase, actions) = run(limits, start, events.drop_last());
        let (then, action) = next(limits, phase, events.last());
        (then, actions.push(action))
    }
}

/// The phase in which the event `k` of a run from `Idle` arrives.
pub open spec fn phase_before(limits: Limits, events: Seq<Event>, k: int) -> Phase {
    run(limits, Phase::Idle, events.take(k)).0
}

/// The workers were told to end at some place among `actions`.
pub open spec fn has_terminated_workers(actions: Seq<Action>) -> bool {
    exists|j: int| 0 <= j < actions.len() && (#[trigger] actions[j]) is TerminateWorkers
}

/// The session was told to close at some place among `actions`.
pub open spec fn has_closed_session(actions: Seq<Action>) -> bool {
    exists|j: int| 0 <= j < actions.len() && (#[trigger] actions[j]) is CloseSession
}

/// The action reports the verdict of a session that was started.
pub open spec fn is_report_of_session(action: Action) -> bool {
    match action {
        Action::Finish { verdict } => verdict != Verdict::Unavailable,
        _ => false,
    }
}

/// The phase is the end of a session that was started.
pub open spec fn is_end_of_session(phase: Phase) -> bool {
    match phase {
        Phase::Done { verdict } => verdict != Verdict::Unavailable,
        _ => false,
    }
}

/// What holds of a session that began at `Idle`, at every point.
pub open spec fn is_orderly(phase: Phase, actions: Seq<Action>) -> bool {
    &&& forall|k: int|
        0 <= k < actions.len() && (#[trigger] actions[k]) is ReadConsole ==> has_terminated_workers(
            actions.take(k),
        )
    &&& forall|k: int|
        0 <= k < actions.len() && is_report_of_session(#[trigger] actions[k])
            ==> has_closed_session(actions.take(k))
    &&& phase is Stopping ==> has_terminated_workers(actions)
    &&& (phase is Closing || is_end_of_session(phase)) ==> has_closed_session(actions)
    &&& phase is Idle ==> forall|k: int| 0 <= k < actions.len() ==> (#[trigger] actions[k]) is Nothing
}

/// Every run from `Idle` is orderly.
pub proof fn lemma_run_is_orderly(limits: Limits, events: Seq<Event>)
    ensures
        is_orderly(run(limits, Phase::Idle, events).0, run(limits, Phase::Idle, events).1),
        run(limits, Phase::Idle, events).1.len() == events.len(),
    decreases events.len(),
{
    if events.len() > 0 {
        let front = events.drop_last();
        lemma_run_is_orderly(limits, front);
        let (phase, before) = run(limits, Phase::Idle, front);
        let (then, action) = next(limits, phase, events.last());
        let actions = before.push(action);
        let n = before.len() as int;
        assert(actions.take(n) =~= before);
        assert forall|k: int| 0 <= k < n implies actions.take(k) =~= before.take(k) by {}
        assert forall|k: int|
            0 <= k < actions.len() && (#[trigger] actions[k]) is ReadConsole implies has_terminated_workers(
            actions.take(k),
        ) by {
            if k < n {
                assert(before[k] is ReadConsole);
                assert(actions.take(k) =~= before.take(k));
            }
        }
        assert forall|k: int|
            0 <= k < actions.len() && is_report_of_session(
                #[trigger] actions[k],
            ) implies has_closed_session(actions.take(k)) by {
            if k < n {
                assert(is_report_of_session(before[k]));
                assert(actions.take(k) =~= before.take(k));
            }
        }
        if has_terminated_workers(before) {
            let j = choose|j: int| 0 <= j < before.len() && (#[trigger] before[j]) is TerminateWorkers;
            assert(actions[j] is TerminateWorkers);
        }
        if has_closed_session(before) {
            let j = choose|j: int| 0 <= j < before.len() && (#[trigger] before[j]) is CloseSession;
            assert(actions[j] is CloseSession);
        }
        if action is TerminateWorkers || action is CloseSession {
            assert(actions[n] == action);
        }
        if then is Idle {
            assert forall|k: int| 0 <= k < actions.len() implies (#[trigger] actions[k]) is Nothing by {
                if k < n {
                    assert(before[k] is Nothing);
                }
            }
        }
    }
}

/// In a run from `Idle`, the console is never read for the last time before
/// the workers were told to end.
pub proof fn lemma_flush_follows_termination(limits: Limits, events: Seq<Event>, k: int)
    requires
        0 <= k < events.len(),
        run(limits, Phase::Idle, events).1[k] is ReadConsole,
    ensures
        exists|j: int|
            0 <= j < k && (#[trigger] run(limits, Phase::Idle, events).1[j]) is TerminateWorkers,
{
    lemma_run_is_orderly(limits, events);
    let actions = run(limits, Phase::Idle, events).1;
    assert(has_terminated_workers(actions.take(k)));
    let j = choose|j: int|
        0 <= j < actions.take(k).len() && (#[trigger] actions.take(k)[j]) is TerminateWorkers;
    assert(actions[j] is TerminateWorkers);
}

/// In a run from `Idle`, a verdict other than `Unavailable` is reported only
/// after the session was told to close.
pub proof fn lemma_finish_follows_close(limits: Limits, events: Seq<Event>, k: int)
    requires
        0 <= k < events.len(),
        is_report_of_session(run(limits, Phase::Idle, events).1[k]),
    ensures
        exists|j: int| 0 <= j < k && (#[trigger] run(limits, Phase::Idle, events).1[j]) is CloseSession,
{
    lemma_run_is_orderly(limits, events);
    let actions = run(limits, Phase::Idle, events).1;
    assert(has_closed_session(actions.take(k)));
    let j = choose|j: int|
        0 <= j < actions.take(k).len() && (#[trigger] actions.take(k)[j]) is CloseSession;
    assert(actions[j] is CloseSession);
}

/// A session that is being closed or is over keeps its verdict, whatever
/// follows.
pub proof fn lemma_verdict_is_final(limits: Limits, start: Phase, events: Seq<Event>)
    requires
        start is Closing || start is Done,
    ensures
        ({
            let end = run(limits, start, events).0;
            let verdict = match start {
                Phase::Closing { verdict } => verdict,
                Phase::Done { verdict } => verdict,
                _ => arbitrary(),
            };
            end == (Phase::Closing { verdict }) || end == (Phase::Done { verdict })
        }),
    decreases events.len(),
{
    if events.len() > 0 {
        lemma_verdict_is_final(limits, start, events.drop_last());
    }
}

/// A run splits at any event: what follows starts from the phase that was
/// reached.
pub proof fn lemma_run_splits(limits: Limits, start: Phase, events: Seq<Event>, k: int)
    requires
        0 <= k <= events.len(),
    ensures
        run(limits, start, events).0 == run(
            limits,
            run(limits, start, events.take(k)).0,
            events.skip(k),
        ).0,
    decreases events.len() - k,
{
    if k == events.len() {
        assert(events.take(k) =~= events);
    } else {
        let front = events.drop_last();
        lemma_run_splits(limits, start, front, k);
        assert(front.take(k) =~= events.take(k));
        assert(events.skip(k).drop_last() =~= front.skip(k));
        assert(events.skip(k).last() == events.last());
    }
}

/// A session that has used up its time while it was active never passes: in
/// a run from `Idle`, whatever follows the event that came too late, the
/// session is closed or over with the verdict `TimedOut`.
pub proof fn lemma_timeout_never_passes(limits: Limits, events: Seq<Event>, k: int)
    requires
        0 <= k < events.len(),
        is_active(phase_before(limits, events, k)),
        events[k].elapsed_ms > limits.limit_ms,
    ensures
        ({
            let end = run(limits, Phase::Idle, events).0;
            end == (Phase::Closing { verdict: Verdict::TimedOut }) || end == (Phase::Done {
                verdict: Verdict::TimedOut,
            })
        }),
{
    let upto = events.take(k + 1);
    assert(upto.drop_last() =~= events.take(k));
    assert(upto.last() == events[k]);
    let closing = run(limits, Phase::Idle, upto).0;
    assert(closing == (Phase::Closing { verdict: Verdict::TimedOut }));
    lemma_run_splits(limits, Phase::Idle, events, k + 1);
    lemma_verdict_is_final(limits, closing, events.skip(k + 1));
}

/// Decides what a browser adapter does next.
pub fn step(limits: Limits, phase: Phase, event: Event) -> (decision: (Phase, Action))
    ensures
        decision == next(limits, phase, event),
{
    let active = match phase {
        Phase::Starting | Phase::Loading | Phase::Running => true,
        Phase::Stopping { .. } | Phase::Flushing { .. } => true,
        _ => false,
    };
    if active && event.elapsed_ms > limits.limit_ms {
        return (Phase::Closing { verdict: Verdict::TimedOut }, Action::CloseSession);
    }
    match (phase, event.signal) {
        (Phase::Idle, Signal::Begin) => (Phase::Starting, Action::StartSession),
        (Phase::Starting, Signal::Started) => (Phase::Loading, Action::Navigate),
        (Phase::Starting, Signal::Unavailable) => (
            Phase::Done { verdict: Verdict::Unavailable },
            Action::Finish { verdict: Verdict::Unavailable },
        ),
        (Phase::Loading, Signal::Loaded) => (Phase::Running, Action::Poll { after_ms: 0 }),
        (Phase::Running, Signal::Polled { finished: None }) => (
            Phase::Running,
            Action::Poll { after_ms: limits.poll_ms },
        ),
        (Phase::Running, Signal::Polled { finished: Some(passed) }) => (
            Phase::Stopping { passed },
            Action::TerminateWorkers { after_ms: limits.settle_ms },
        ),
        (Phase::Stopping { passed }, Signal::WorkersTerminated) => (
            Phase::Flushing { passed },
            Action::ReadConsole,
        ),
        (Phase::Flushing { passed }, Signal::ConsoleRead) => (
            Phase::Closing { verdict: if passed { Verdict::Passed } else { Verdict::Failed } },
            Action::CloseSession,
        ),
        (Phase::Closing { verdict }, Signal::Closed) => (
            Phase::Done { verdict },
            Action::Finish { verdict },
        ),
        _ => (phase, Action::Nothing),
    }
}

/// The phase that a session reaches from `Idle` by `events`, and the actions
/// that it asks for on the way.
pub fn replay(limits: Limits, events: &Vec<Event>) -> (end: (Phase, Vec<Action>))
    ensures
        end.0 == run(limits, Phase::Idle, events@).0,
        end.1@ == run(limits, Phase::Idle, events@).1,
{
    let mut phase = Phase::Idle;
    let mut actions: Vec<Action> = Vec::new();
    let mut i: usize = 0;
    while i < events.len()
        invariant
            i <= events.len(),
            phase == run(limits, Phase::Idle, events@.take(i as int)).0,
            actions@ == run(limits, Phase::Idle, events@.take(i as int)).1,
        decreases events.len() - i,
    {
        let (then, action) = step(limits, phase, events[i]);
        proof {
            let grown = events@.take(i + 1);
            assert(grown.drop_last() =~= events@.take(i as int));
            assert(grown.last() == events@[i as int]);
        }
        phase = then;
        actions.push(action);
        i += 1;
    }
    assert(events@.take(i as int) =~= events@);
    (phase, actions)
}

/// What a verdict means for the run: whether the module passed, or why the
/// attempt failed as a whole.
pub fn outcome_of(verdict: Verdict) -> (outcome: Result<bool, Failure>)
    ensures
        match verdict {
            Verdict::Passed => outcome == Ok::<bool, Failure>(true),
            Verdict::Failed => outcome == Ok::<bool, Failure>(false),
            Verdict::TimedOut => outcome == Err::<bool, Failure>(
                Failure::Timeout { tool: Tool::WebDriver },
            ),
            Verdict::Unavailable => outcome == Err::<bool, Failure>(
                Failure::ToolUnavailable { tool: Tool::WebDriver },
            ),
        },
{
    match verdict {
        Verdict::Passed => Ok(true),
        Verdict::Failed => Ok(false),
        Verdict::TimedOut => Err(Failure::Timeout { tool: Tool::WebDriver }),
        Verdict::Unavailable => Err(Failure::ToolUnavailable { tool: Tool::WebDriver }),
    }
}

} // verus!
