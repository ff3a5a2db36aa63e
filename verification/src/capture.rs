//! What becomes of the console buffer of one test, by capture mode, outcome
//! and environment.

use crate::aggregator::{is_deduplicated, same_message};
use crate::model::{
    duplicate_all, transcript_view, CaptureMode, EnvironmentTarget, LogRecord, LogRecordView,
};
use vstd::prelude::*;

verus! {

/// The console output of one test, parted by where it is shown.
#[derive(Clone, Debug, PartialEq, Eq)]
pub struct Delivery {
    /// The messages echoed to the console while the test runs.
    pub live: Vec<LogRecord>,
    /// The messages shown with the failure of the test.
    pub report: Vec<LogRecord>,
}

/// The failure report of this run repeats the buffer as a dump of the page's
/// console element: a captured failure on the browser's main thread.
pub open spec fn is_dumped(target: EnvironmentTarget, capture: CaptureMode, passed: bool) -> bool {
    !passed && capture == CaptureMode::Captured && target == EnvironmentTarget::BrowserMain
}

/// The messages that are echoed while the test runs: all of them without
/// capture, none with it.
pub open spec fn live_part(capture: CaptureMode, buffer: Seq<LogRecordView>) -> Seq<LogRecordView> {
    if capture == CaptureMode::NoCapture {
        buffer
    } else {
        Seq::empty()
    }
}

/// The messages that the failure report shows: none for a test that passed,
/// the buffer for one that failed, and the buffer twice where it is dumped
/// as well.
pub open spec fn report_part(
    target: EnvironmentTarget,
    capture: CaptureMode,
    passed: bool,
    buffer: Seq<LogRecordView>,
) -> Seq<LogRecordView> {
    if passed {
        Seq::empty()
    } else if is_dumped(target, capture, passed) {
        buffer + buffer
    } else {
        buffer
    }
}

/// How often a message of the buffer is shown in all.
pub open spec fn appearances(target: EnvironmentTarget, capture: CaptureMode, passed: bool) -> nat {
    if passed {
        if capture == CaptureMode::NoCapture {
            1
        } else {
            0
        }
    } else if capture == CaptureMode::NoCapture || target == EnvironmentTarget::BrowserMain {
        2
    } else {
        1
    }
}

/// How often `r` occurs in `t`.
pub open spec fn occurrences(t: Seq<LogRecordView>, r: LogRecordView) -> nat
    decreases t.len(),
{
    if t.len() == 0 {
        0
    } else {
        occurrences(t.drop_last(), r) + if t.last() == r {
            1nat
        } else {
            0nat
        }
    }
}

/// Occurrences add up over concatenation.
pub proof fn lemma_occurrences_concat(a: Seq<LogRecordView>, b: Seq<LogRecordView>, r: LogRecordView)
    ensures
        occurrences(a + b, r) == occurrences(a, r) + occurrences(b, r),
    decreases b.len(),
{
    if b.len() == 0 {
        assert(a + b =~= a);
    } else {
        lemma_occurrences_concat(a, b.drop_last(), r);
        assert((a + b).drop_last() =~= a + b.drop_last());
        assert((a + b).last() == b.last());
    }
}

/// Every message of the buffer is shown `appearances` times, counting the
/// live console and the failure report together.
pub proof fn lemma_shown_as_often_as_stated(
    target: EnvironmentTarget,
    capture: CaptureMode,
    passed: bool,
    buffer: Seq<LogRecordView>,
    r: LogRecordView,
)
    ensures
        occurrences(live_part(capture, buffer) + report_part(target, capture, passed, buffer), r)
            == appearances(target, capture, passed) * occurrences(buffer, r),
{
    let live = live_part(capture, buffer);
    let report = report_part(target, capture, passed, buffer);
    lemma_occurrences_concat(live, report, r);
    lemma_occurrences_concat(buffer, buffer, r);
    assert(occurrences(Seq::<LogRecordView>::empty(), r) == 0);
}

/// A record that a sequence does not hold occurs in it no times.
pub proof fn lemma_absent_occurs_never(t: Seq<LogRecordView>, r: LogRecordView)
    requires
        !t.contains(r),
    ensures
        occurrences(t, r) == 0,
    decreases t.len(),
{
    if t.len() > 0 {
        let front = t.drop_last();
        assert(t.last() == t[t.len() - 1]);
        if front.contains(r) {
            let i = choose|i: int| 0 <= i < front.len() && front[i] == r;
            assert(t[i] == r);
        }
        lemma_absent_occurs_never(front, r);
    }
}

/// A transcript without duplicates holds each of its records exactly once.
pub proof fn lemma_deduplicated_holds_once(t: Seq<LogRecordView>, r: LogRecordView)
    requires
        is_deduplicated(t),
        t.contains(r),
    ensures
        occurrences(t, r) == 1,
    decreases t.len(),
{
    let front = t.drop_last();
    let n = t.len() - 1;
    assert forall|i: int, j: int|
        0 <= i < front.len() && 0 <= j < front.len() && i != j implies !same_message(
        front[i],
        front[j],
    ) by {
        assert(!same_message(t[i], t[j]));
    }
    if t.last() == r {
        if front.contains(r) {
            let i = choose|i: int| 0 <= i < front.len() && front[i] == r;
            assert(same_message(t[i], t[n]));
        }
        lemma_absent_occurs_never(front, r);
    } else {
        let i = choose|i: int| 0 <= i < t.len() && t[i] == r;
        assert(front[i] == r);
        lemma_deduplicated_holds_once(front, r);
    }
}

/// A message of an aggregated transcript is shown exactly `appearances`
/// times, counting the live console and the failure report together: never
/// more than twice, and twice only for a failure without capture or on the
/// browser's main thread.
pub proof fn lemma_message_is_shown(
    target: EnvironmentTarget,
    capture: CaptureMode,
    passed: bool,
    buffer: Seq<LogRecordView>,
    r: LogRecordView,
)
    requires
        is_deduplicated(buffer),
        buffer.contains(r),
    ensures
        occurrences(live_part(capture, buffer) + report_part(target, capture, passed, buffer), r)
            == appearances(target, capture, passed),
        appearances(target, capture, passed) <= 2,
{
    lemma_deduplicated_holds_once(buffer, r);
    lemma_shown_as_often_as_stated(target, capture, passed, buffer, r);
}

/// With capture, a test that passed shows nothing: neither on the live
/// console nor in the report.
pub proof fn lemma_captured_pass_is_silent(
    target: EnvironmentTarget,
    buffer: Seq<LogRecordView>,
    r: LogRecordView,
)
    ensures
        live_part(CaptureMode::Captured, buffer).len() == 0,
        report_part(target, CaptureMode::Captured, true, buffer).len() == 0,
        occurrences(
            live_part(CaptureMode::Captured, buffer) + report_part(
                target,
                CaptureMode::Captured,
                true,
                buffer,
            ),
            r,
        ) == 0,
{
    lemma_shown_as_often_as_stated(target, CaptureMode::Captured, true, buffer, r);
}

/// With capture, a test that failed anywhere but on the browser's main
/// thread shows a message that its buffer holds once exactly once, in the
/// report.
pub proof fn lemma_captured_failure_shows_once(
    target: EnvironmentTarget,
    buffer: Seq<LogRecordView>,
    r: LogRecordView,
)
    requires
        target != EnvironmentTarget::BrowserMain,
        occurrences(buffer, r) == 1,
    ensures
        live_part(CaptureMode::Captured, buffer).len() == 0,
        occurrences(report_part(target, CaptureMode::Captured, false, buffer), r) == 1,
{
}

/// With capture, a test that failed on the browser's main thread shows a
/// message that its buffer holds once exactly twice, in the report.
pub proof fn lemma_captured_main_thread_failure_shows_twice(
    buffer: Seq<LogRecordView>,
    r: LogRecordView,
)
    requires
        occurrences(buffer, r) == 1,
    ensures
        live_part(CaptureMode::Captured, buffer).len() == 0,
        occurrences(
            report_part(EnvironmentTarget::BrowserMain, CaptureMode::Captured, false, buffer),
            r,
        ) == 2,
{
    lemma_occurrences_concat(buffer, buffer, r);
}

/// Without capture, a message that the buffer holds once is shown exactly
/// twice for a test that failed, once live and once in the report, and
/// exactly once for a test that passed, live only.
pub proof fn lemma_nocapture_counts(
    target: EnvironmentTarget,
    passed: bool,
    buffer: Seq<LogRecordView>,
    r: LogRecordView,
)
    requires
        occurrences(buffer, r) == 1,
    ensures
        occurrences(live_part(CaptureMode::NoCapture, buffer), r) == 1,
        occurrences(report_part(target, CaptureMode::NoCapture, passed, buffer), r) == if passed {
            0nat
        } else {
            1nat
        },
        occurrences(
            live_part(CaptureMode::NoCapture, buffer) + report_part(
                target,
                CaptureMode::NoCapture,
                passed,
                buffer,
            ),
            r,
        ) == if passed {
            1nat
        } else {
            2nat
        },
{
    lemma_shown_as_often_as_stated(target, CaptureMode::NoCapture, passed, buffer, r);
    assert(occurrences(Seq::<LogRecordView>::empty(), r) == 0);
}

/// Parts the console buffer of one test into what is echoed live and what
/// the failure report shows.
pub fn deliver(
    target: EnvironmentTarget,
    capture: CaptureMode,
    passed: bool,
    buffer: &Vec<LogRecord>,
) -> (delivery: Delivery)
    ensures
        transcript_view(delivery.live@) == live_part(capture, transcript_view(buffer@)),
        transcript_view(delivery.report@) == report_part(
            target,
            capture,
            passed,
            transcript_view(buffer@),
        ),
{
    let live = match capture {
        CaptureMode::NoCapture => duplicate_all(buffer),
        CaptureMode::Captured => Vec::new(),
    };
    let mut report: Vec<LogRecord> = Vec::new();
    if !passed {
        report = duplicate_all(buffer);
        let dumped = match (target, capture) {
            (EnvironmentTarget::BrowserMain, CaptureMode::Captured) => true,
            _ => false,
        };
        if dumped {
            let ghost flushed = report@;
            let mut dump = duplicate_all(buffer);
            report.append(&mut dump);
            assert(transcript_view(report@) =~= transcript_view(flushed) + transcript_view(
                buffer@,
            ));
        }
    }
    assert(transcript_view(Seq::<LogRecord>::empty()) =~= Seq::<LogRecordView>::empty());
    Delivery { live, report }
}

} // verus!
