//! The report assembler: the pass/fail report of a run, in the phrasing that
//! tools reading a test runner's output expect.

use crate::filter::{
    filter, filter_text, is_plain, lemma_filter_by_parts, lemma_filter_keeps_clean,
    lemma_filter_keeps_plain_line,
};
use crate::inspector::ClassificationFailure;
use crate::model::{transcript_view, ExecutionKind, LogRecord, LogRecordView};
use crate::text::{begins_with, decimal, lemma_decimal_holds_digits, push_char, push_decimal};
use vstd::prelude::*;
use vstd::string::*;

verus! {

/// How one test ended.
#[derive(Clone, Debug, PartialEq, Eq)]
pub struct TestOutcome {
    name: String,
    passed: bool,
    transcript: Vec<LogRecord>,
    duration_ms: u64,
}

/// The outcome of a test as a mathematical value.
pub ghost struct TestOutcomeView {
    pub name: Seq<char>,
    pub passed: bool,
    pub transcript: Seq<LogRecordView>,
    pub duration_ms: u64,
}

impl View for TestOutcome {
    type V = TestOutcomeView;

    closed spec fn view(&self) -> TestOutcomeView {
        TestOutcomeView {
            name: self.name@,
            passed: self.passed,
            transcript: transcript_view(self.transcript@),
            duration_ms: self.duration_ms,
        }
    }
}

/// The outcomes as mathematical values.
pub open spec fn outcomes_view(outcomes: Seq<TestOutcome>) -> Seq<TestOutcomeView> {
    outcomes.map_values(|o: TestOutcome| o@)
}

impl TestOutcome {
    /// The outcome of the test `name`, which took `duration_ms` milliseconds
    /// and whose failure report shows `transcript`.
    pub fn new(name: String, passed: bool, transcript: Vec<LogRecord>, duration_ms: u64) -> (outcome:
        TestOutcome)
        ensures
            outcome@ == (TestOutcomeView {
                name: name@,
                passed,
                transcript: transcript_view(transcript@),
                duration_ms,
            }),
    {
        TestOutcome { name, passed, transcript, duration_ms }
    }

    /// The name of the test.
    pub fn name(&self) -> (name: &str)
        ensures
            name@ == self@.name,
    {
        self.name.as_str()
    }

    /// Whether the test passed.
    pub fn passed(&self) -> (passed: bool)
        ensures
            passed == self@.passed,
    {
        self.passed
    }

    /// The messages that the failure report of the test shows.
    pub fn transcript(&self) -> (transcript: &Vec<LogRecord>)
        ensures
            transcript_view(transcript@) == self@.transcript,
    {
        &self.transcript
    }

    /// The wall-clock time that the test took, in milliseconds.
    pub fn duration_ms(&self) -> (duration_ms: u64)
        ensures
            duration_ms == self@.duration_ms,
    {
        self.duration_ms
    }
}

/// The report of a run.
#[derive(Clone, Debug, PartialEq, Eq)]
pub struct Report {
    pub text: String,
    pub exit_code: i32,
}

/// The line that opens the report of `n` tests.
pub open spec fn header(kind: ExecutionKind, n: nat) -> Seq<char> {
    "running "@ + decimal(n) + if kind.spec_is_doctest() {
        " doctest"@
    } else {
        " test"@
    }
}

/// The line that says how one test ended.
pub open spec fn verdict_line(outcome: TestOutcomeView) -> Seq<char> {
    "test "@ + outcome.name + if outcome.passed {
        " ... ok"@
    } else {
        " ... FAILED"@
    }
}

/// The texts of `records`, each ended by a line feed.
pub open spec fn record_lines(records: Seq<LogRecordView>) -> Seq<char>
    decreases records.len(),
{
    if records.len() == 0 {
        Seq::empty()
    } else {
        record_lines(records.drop_last()) + records.last().text.push('\n')
    }
}

/// The log section of one test: its transcript under a heading, for a test
/// that failed and has a transcript; nothing otherwise.
pub open spec fn log_section(outcome: TestOutcomeView) -> Seq<char> {
    if outcome.passed || outcome.transcript.len() == 0 {
        Seq::empty()
    } else {
        "log output:\n"@ + record_lines(outcome.transcript)
    }
}

/// The verdict line of every test, each followed by the log section of its
/// test.
pub open spec fn outcome_lines(outcomes: Seq<TestOutcomeView>) -> Seq<char>
    decreases outcomes.len(),
{
    if outcomes.len() == 0 {
        Seq::empty()
    } else {
        outcome_lines(outcomes.drop_last()) + verdict_line(outcomes.last()).push('\n')
            + log_section(outcomes.last())
    }
}

/// The number of tests that failed.
pub open spec fn failed_count(outcomes: Seq<TestOutcomeView>) -> nat
    decreases outcomes.len(),
{
    if outcomes.len() == 0 {
        0
    } else {
        failed_count(outcomes.drop_last()) + if outcomes.last().passed {
            0nat
        } else {
            1nat
        }
    }
}

/// The number of tests that passed.
pub open spec fn passed_count(outcomes: Seq<TestOutcomeView>) -> nat {
    (outcomes.len() - failed_count(outcomes)) as nat
}

/// The line that sums up a run with `passed` tests passed and `failed` tests
/// failed.
pub open spec fn summary(passed: nat, failed: nat) -> Seq<char> {
    (if failed == 0 {
        "test result: ok. "@
    } else {
        "test result: FAILED. "@
    }) + decimal(passed) + " passed; "@ + decimal(failed) + " failed"@
}

/// The report before its redraws are filtered out: header, outcomes, an empty
/// line and the summary.
pub open spec fn raw_report(kind: ExecutionKind, outcomes: Seq<TestOutcomeView>) -> Seq<char> {
    header(kind, outcomes.len()).push('\n') + outcome_lines(outcomes) + seq!['\n'] + summary(
        passed_count(outcomes),
        failed_count(outcomes),
    ).push('\n')
}

/// The text of the report.
pub open spec fn report_text(kind: ExecutionKind, outcomes: Seq<TestOutcomeView>) -> Seq<char> {
    filter_text(raw_report(kind, outcomes))
}

/// The exit code of a run: zero where every test passed, one otherwise.
pub open spec fn exit_code_of(outcomes: Seq<TestOutcomeView>) -> int {
    if failed_count(outcomes) == 0 {
        0
    } else {
        1
    }
}

/// No more tests fail than there are.
pub proof fn lemma_failed_count_bound(outcomes: Seq<TestOutcomeView>)
    ensures
        failed_count(outcomes) <= outcomes.len(),
        failed_count(outcomes) == 0 <==> forall|i: int|
            0 <= i < outcomes.len() ==> (#[trigger] outcomes[i]).passed,
    decreases outcomes.len(),
{
    if outcomes.len() > 0 {
        let front = outcomes.drop_last();
        lemma_failed_count_bound(front);
        if failed_count(outcomes) == 0 {
            assert forall|i: int| 0 <= i < outcomes.len() implies (#[trigger] outcomes[i]).passed by {
                if i < front.len() {
                    assert(front[i].passed);
                }
            }
        } else if outcomes.last().passed {
            let i = choose|i: int| 0 <= i < front.len() && !(#[trigger] front[i]).passed;
            assert(!outcomes[i].passed);
        }
    }
}

/// Appends the lines of `records` to `out`.
fn push_record_lines(out: &mut String, records: &Vec<LogRecord>)
    ensures
        final(out)@ == old(out)@ + record_lines(transcript_view(records@)),
{
    let ghost all = transcript_view(records@);
    let mut i: usize = 0;
    assert(all.take(0) =~= Seq::<LogRecordView>::empty());
    assert(out@ =~= old(out)@ + record_lines(all.take(0)));
    while i < records.len()
        invariant
            i <= records.len(),
            all == transcript_view(records@),
            out@ == old(out)@ + record_lines(all.take(i as int)),
        decreases records.len() - i,
    {
        let ghost before = out@;
        out.append(records[i].text.as_str());
        push_char(out, '\n');
        proof {
            let grown = all.take(i + 1);
            assert(grown.drop_last() =~= all.take(i as int));
            assert(grown.last() == records@[i as int]@);
            assert(out@ =~= old(out)@ + record_lines(grown));
        }
        i += 1;
    }
    assert(all.take(i as int) =~= all);
}

/// Appends the verdict line of `outcome` and its log section to `out`.
fn push_outcome(out: &mut String, outcome: &TestOutcome)
    ensures
        final(out)@ == old(out)@ + verdict_line(outcome@).push('\n') + log_section(outcome@),
{
    out.append("test ");
    out.append(outcome.name.as_str());
    if outcome.passed {
        out.append(" ... ok");
    } else {
        out.append(" ... FAILED");
    }
    push_char(out, '\n');
    assert(out@ =~= old(out)@ + verdict_line(outcome@).push('\n'));
    if !outcome.passed && outcome.transcript.len() > 0 {
        out.append("log output:\n");
        push_record_lines(out, &outcome.transcript);
    }
    assert(out@ =~= old(out)@ + verdict_line(outcome@).push('\n') + log_section(outcome@));
}

/// A text that is made of texts without the character `c` does not hold it.
proof fn lemma_concat_lacks(a: Seq<char>, b: Seq<char>, c: char)
    requires
        !a.contains(c),
        !b.contains(c),
    ensures
        !(a + b).contains(c),
{
    if (a + b).contains(c) {
        let i = choose|i: int| 0 <= i < (a + b).len() && (a + b)[i] == c;
        if i < a.len() {
            assert(a[i] == c);
        } else {
            assert(b[i - a.len()] == c);
        }
    }
}

/// The header is a plain line.
pub proof fn lemma_header_is_plain(kind: ExecutionKind, n: nat)
    ensures
        is_plain(header(kind, n)),
{
    reveal_strlit("running ");
    reveal_strlit(" doctest");
    reveal_strlit(" test");
    let tail = if kind.spec_is_doctest() {
        " doctest"@
    } else {
        " test"@
    };
    lemma_decimal_holds_digits(n, '\r');
    lemma_decimal_holds_digits(n, '\n');
    assert(!"running "@.contains('\r') && !"running "@.contains('\n'));
    assert(!tail.contains('\r') && !tail.contains('\n'));
    lemma_concat_lacks("running "@, decimal(n), '\r');
    lemma_concat_lacks("running "@, decimal(n), '\n');
    lemma_concat_lacks("running "@ + decimal(n), tail, '\r');
    lemma_concat_lacks("running "@ + decimal(n), tail, '\n');
}

/// The summary is a plain line.
pub proof fn lemma_summary_is_plain(passed: nat, failed: nat)
    ensures
        is_plain(summary(passed, failed)),
{
    reveal_strlit("test result: ok. ");
    reveal_strlit("test result: FAILED. ");
    reveal_strlit(" passed; ");
    reveal_strlit(" failed");
    let head = if failed == 0 {
        "test result: ok. "@
    } else {
        "test result: FAILED. "@
    };
    lemma_decimal_holds_digits(passed, '\r');
    lemma_decimal_holds_digits(passed, '\n');
    lemma_decimal_holds_digits(failed, '\r');
    lemma_decimal_holds_digits(failed, '\n');
    assert(!head.contains('\r') && !head.contains('\n'));
    assert(!" passed; "@.contains('\r') && !" passed; "@.contains('\n'));
    assert(!" failed"@.contains('\r') && !" failed"@.contains('\n'));
    let a = head + decimal(passed);
    let b = a + " passed; "@;
    let c = b + decimal(failed);
    lemma_concat_lacks(head, decimal(passed), '\r');
    lemma_concat_lacks(head, decimal(passed), '\n');
    lemma_concat_lacks(a, " passed; "@, '\r');
    lemma_concat_lacks(a, " passed; "@, '\n');
    lemma_concat_lacks(b, decimal(failed), '\r');
    lemma_concat_lacks(b, decimal(failed), '\n');
    lemma_concat_lacks(c, " failed"@, '\r');
    lemma_concat_lacks(c, " failed"@, '\n');
}

/// The lines of the outcomes are empty or end in a line feed.
pub proof fn lemma_outcome_lines_end(outcomes: Seq<TestOutcomeView>)
    ensures
        outcome_lines(outcomes).len() == 0 || outcome_lines(outcomes).last() == '\n',
{
    if outcomes.len() > 0 {
        let o = outcomes.last();
        let verdict = verdict_line(o).push('\n');
        let front = outcome_lines(outcomes.drop_last()) + verdict;
        assert(front.last() == '\n');
        if !(o.passed || o.transcript.len() == 0) {
            let lines = record_lines(o.transcript);
            assert(lines.last() == '\n');
            assert(log_section(o).last() == '\n');
        }
    }
}

/// The header and the summary of a report stand in it as they are; the
/// filter bears on the lines of the outcomes only.
pub proof fn lemma_report_shape(kind: ExecutionKind, outcomes: Seq<TestOutcomeView>)
    ensures
        report_text(kind, outcomes) == header(kind, outcomes.len()).push('\n') + filter_text(
            outcome_lines(outcomes),
        ) + seq!['\n'] + summary(passed_count(outcomes), failed_count(outcomes)).push('\n'),
        begins_with(report_text(kind, outcomes), header(kind, outcomes.len()).push('\n')),
{
    let head = header(kind, outcomes.len());
    let lines = outcome_lines(outcomes);
    let sum = summary(passed_count(outcomes), failed_count(outcomes));
    let close = seq!['\n'] + sum.push('\n');
    lemma_header_is_plain(kind, outcomes.len());
    lemma_summary_is_plain(passed_count(outcomes), failed_count(outcomes));
    lemma_outcome_lines_end(outcomes);
    assert(raw_report(kind, outcomes) =~= head.push('\n') + (lines + close));
    lemma_filter_keeps_plain_line(head, lines + close);
    lemma_filter_by_parts(lines, close);
    assert(close =~= Seq::<char>::empty().push('\n') + sum.push('\n'));
    assert(is_plain(Seq::<char>::empty()));
    lemma_filter_keeps_plain_line(Seq::<char>::empty(), sum.push('\n'));
    lemma_filter_keeps_plain_line(sum, Seq::<char>::empty());
    assert(sum.push('\n') + Seq::<char>::empty() =~= sum.push('\n'));
    assert(filter_text(Seq::<char>::empty()) =~= Seq::<char>::empty()) by {
        lemma_filter_keeps_clean(Seq::<char>::empty());
    }
    assert(filter_text(close) =~= close);
    let text = report_text(kind, outcomes);
    assert(text =~= head.push('\n') + filter_text(lines) + seq!['\n'] + sum.push('\n'));
    assert(text.subrange(0, head.len() as int + 1) =~= head.push('\n'));
}

/// The header of a documentation test names one doctest.
pub proof fn lemma_doctest_header(kind: ExecutionKind)
    requires
        kind.spec_is_doctest(),
    ensures
        header(kind, 1) == "running 1 doctest"@,
{
    reveal_strlit("running ");
    reveal_strlit(" doctest");
    reveal_strlit("running 1 doctest");
    assert(decimal(1) =~= seq!['1']);
    assert(header(kind, 1) =~= "running 1 doctest"@);
}

/// The report on documentation tests opens with the line
/// `running 1 doctest`, and so not with `running 1 test`.
pub proof fn lemma_doctest_report_header(kind: ExecutionKind, outcomes: Seq<TestOutcomeView>)
    requires
        kind.spec_is_doctest(),
        outcomes.len() == 1,
    ensures
        begins_with(report_text(kind, outcomes), "running 1 doctest"@.push('\n')),
        !begins_with(report_text(kind, outcomes), "running 1 test"@),
{
    lemma_doctest_header(kind);
    lemma_report_shape(kind, outcomes);
    reveal_strlit("running 1 doctest");
    reveal_strlit("running 1 test");
    let line = "running 1 doctest"@;
    let text = report_text(kind, outcomes);
    let other = "running 1 test"@;
    if begins_with(text, other) {
        assert(text.subrange(0, other.len() as int)[10] == other[10]);
        assert(text.subrange(0, line.len() as int + 1)[10] == line.push('\n')[10]);
    }
}

/// Assembles the report of one run.
///
/// The report opens with `running {n} test`, or `running {n} doctest` for
/// documentation tests, where `n` is the number of outcomes. A line
/// `test {name} ... ok` or `test {name} ... FAILED` follows for every
/// outcome, with the transcript behind it for a test that failed. The report
/// closes with `test result: ok. {p} passed; {f} failed`, or with
/// `test result: FAILED.` in place of `test result: ok.` where a test
/// failed. No carriage return is left in the text. The exit code is zero
/// where every test passed, and one otherwise.
pub fn assemble(kind: ExecutionKind, outcomes: &Vec<TestOutcome>) -> (report: Report)
    requires
        kind.spec_is_doctest() ==> outcomes.len() == 1,
    ensures
        report.text@ == report_text(kind, outcomes_view(outcomes@)),
        !report.text@.contains('\r'),
        report.exit_code == exit_code_of(outcomes_view(outcomes@)),
        report.exit_code == 0 <==> forall|i: int|
            0 <= i < outcomes.len() ==> (#[trigger] outcomes@[i])@.passed,
        report.text@ == header(kind, outcomes.len() as nat).push('\n') + filter_text(
            outcome_lines(outcomes_view(outcomes@)),
        ) + seq!['\n'] + summary(
            passed_count(outcomes_view(outcomes@)),
            failed_count(outcomes_view(outcomes@)),
        ).push('\n'),
        begins_with(report.text@, header(kind, outcomes.len() as nat).push('\n')),
        kind.spec_is_doctest() ==> begins_with(report.text@, "running 1 doctest"@.push('\n')),
{
    let ghost all = outcomes_view(outcomes@);
    let mut raw = String::new();
    raw.append("running ");
    push_decimal(&mut raw, outcomes.len() as u64);
    if kind.is_doctest() {
        raw.append(" doctest");
    } else {
        raw.append(" test");
    }
    push_char(&mut raw, '\n');
    let ghost head = header(kind, all.len()).push('\n');
    assert(raw@ =~= head);
    let mut failed: usize = 0;
    let mut i: usize = 0;
    assert(all.take(0) =~= Seq::<TestOutcomeView>::empty());
    assert(raw@ =~= head + outcome_lines(all.take(0)));
    while i < outcomes.len()
        invariant
            i <= outcomes.len(),
            all == outcomes_view(outcomes@),
            raw@ == head + outcome_lines(all.take(i as int)),
            failed == failed_count(all.take(i as int)),
            failed <= i,
        decreases outcomes.len() - i,
    {
        push_outcome(&mut raw, &outcomes[i]);
        proof {
            let grown = all.take(i + 1);
            assert(grown.drop_last() =~= all.take(i as int));
            assert(grown.last() == outcomes@[i as int]@);
            assert(raw@ =~= head + outcome_lines(grown));
        }
        if !outcomes[i].passed {
            failed += 1;
        }
        i += 1;
    }
    assert(all.take(i as int) =~= all);
    let passed: usize = outcomes.len() - failed;
    push_char(&mut raw, '\n');
    if failed == 0 {
        raw.append("test result: ok. ");
    } else {
        raw.append("test result: FAILED. ");
    }
    push_decimal(&mut raw, passed as u64);
    raw.append(" passed; ");
    push_decimal(&mut raw, failed as u64);
    raw.append(" failed");
    push_char(&mut raw, '\n');
    assert(raw@ =~= raw_report(kind, all));
    let text = filter(raw.as_str());
    proof {
        lemma_failed_count_bound(all);
        assert forall|i: int| 0 <= i < outcomes.len() implies (#[trigger] outcomes@[i])@.passed
            == all[i].passed by {}
        lemma_report_shape(kind, all);
        if kind.spec_is_doctest() {
            lemma_doctest_report_header(kind, all);
        }
    }
    let exit_code: i32 = if failed == 0 {
        0
    } else {
        1
    };
    Report { text, exit_code }
}

/// One part of a run: the tests of one kind and how they ended.
#[derive(Clone, Debug, PartialEq, Eq)]
pub struct Section {
    pub kind: ExecutionKind,
    pub outcomes: Vec<TestOutcome>,
}

/// A section as a mathematical value.
pub ghost struct SectionView {
    pub kind: ExecutionKind,
    pub outcomes: Seq<TestOutcomeView>,
}

impl View for Section {
    type V = SectionView;

    open spec fn view(&self) -> SectionView {
        SectionView { kind: self.kind, outcomes: outcomes_view(self.outcomes@) }
    }
}

/// The sections as mathematical values.
pub open spec fn sections_view(sections: Seq<Section>) -> Seq<SectionView> {
    sections.map_values(|s: Section| s@)
}

/// The text of the report on a run of several sections: the reports of the
/// sections, one after the other.
pub open spec fn run_text(sections: Seq<SectionView>) -> Seq<char>
    decreases sections.len(),
{
    if sections.len() == 0 {
        Seq::empty()
    } else {
        run_text(sections.drop_last()) + report_text(
            sections.last().kind,
            sections.last().outcomes,
        )
    }
}

/// No test of any section failed.
pub open spec fn all_passed(sections: Seq<SectionView>) -> bool {
    forall|i: int| 0 <= i < sections.len() ==> failed_count((#[trigger] sections[i]).outcomes) == 0
}

/// Assembles the report of a run that consists of several sections: the
/// report of each section, in order. The exit code is zero where no test of
/// any section failed, and one otherwise.
pub fn assemble_run(sections: &Vec<Section>) -> (report: Report)
    requires
        forall|i: int|
            0 <= i < sections.len() ==> ((#[trigger] sections@[i]).kind.spec_is_doctest()
                ==> sections@[i].outcomes.len() == 1),
    ensures
        report.text@ == run_text(sections_view(sections@)),
        !report.text@.contains('\r'),
        report.exit_code == if all_passed(sections_view(sections@)) {
            0i32
        } else {
            1i32
        },
{
    let ghost all = sections_view(sections@);
    let mut text = String::new();
    let mut exit_code: i32 = 0;
    let mut i: usize = 0;
    assert(all.take(0) =~= Seq::<SectionView>::empty());
    while i < sections.len()
        invariant
            i <= sections.len(),
            all == sections_view(sections@),
            forall|k: int|
                0 <= k < sections.len() ==> ((#[trigger] sections@[k]).kind.spec_is_doctest()
                    ==> sections@[k].outcomes.len() == 1),
            text@ == run_text(all.take(i as int)),
            !text@.contains('\r'),
            exit_code == if all_passed(all.take(i as int)) {
                0i32
            } else {
                1i32
            },
        decreases sections.len() - i,
    {
        let part = assemble(sections[i].kind, &sections[i].outcomes);
        let ghost before = text@;
        text.append(part.text.as_str());
        proof {
            let shorter = all.take(i as int);
            let grown = all.take(i + 1);
            assert(grown.drop_last() =~= shorter);
            assert(grown.last() == sections@[i as int]@);
            lemma_concat_lacks(before, part.text@, '\r');
            assert forall|k: int| 0 <= k < shorter.len() implies shorter[k] == grown[k] by {}
            if all_passed(grown) {
                assert forall|k: int| 0 <= k < shorter.len() implies failed_count(
                    (#[trigger] shorter[k]).outcomes,
                ) == 0 by {
                    assert(failed_count(grown[k].outcomes) == 0);
                }
                assert(failed_count(grown[i as int].outcomes) == 0);
            }
            if all_passed(shorter) && part.exit_code == 0 {
                assert forall|k: int| 0 <= k < grown.len() implies failed_count(
                    (#[trigger] grown[k]).outcomes,
                ) == 0 by {
                    if k < i {
                        assert(failed_count(shorter[k].outcomes) == 0);
                    }
                }
            }
        }
        if part.exit_code != 0 {
            exit_code = 1;
        }
        i += 1;
    }
    assert(all.take(i as int) =~= all);
    Report { text, exit_code }
}

/// The report on a module in which no test was found: the one line
/// `no tests to run!`, and exit code zero.
pub fn no_tests_report() -> (report: Report)
    ensures
        report.text@ == "no tests to run!"@.push('\n'),
        report.exit_code == 0,
{
    let mut text = String::new();
    text.append("no tests to run!");
    push_char(&mut text, '\n');
    assert(text@ =~= "no tests to run!"@.push('\n'));
    Report { text, exit_code: 0 }
}

/// The report on a module by its classification: the assembled report where
/// the module was classified, and the report that no test was found where it
/// was not, which is no failure of the run.
pub fn report_on(
    classified: Result<ExecutionKind, ClassificationFailure>,
    outcomes: &Vec<TestOutcome>,
) -> (report: Report)
    requires
        classified matches Ok(kind) ==> (kind.spec_is_doctest() ==> outcomes.len() == 1),
    ensures
        match classified {
            Ok(kind) => {
                &&& report.text@ == report_text(kind, outcomes_view(outcomes@))
                &&& report.exit_code == exit_code_of(outcomes_view(outcomes@))
            },
            Err(_) => {
                &&& report.text@ == "no tests to run!"@.push('\n')
                &&& report.exit_code == 0
            },
        },
{
    match classified {
        Ok(kind) => assemble(kind, outcomes),
        Err(_) => no_tests_report(),
    }
}

} // verus!
