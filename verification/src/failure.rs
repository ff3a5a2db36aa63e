//! How an execution attempt ended, and how its failure is reported.

use crate::assembler::Report;
use crate::model::EnvironmentTarget;
use crate::text::{
    chars_of, find_from, first_occurrence, occurs_at, push_range, push_signed_decimal,
    signed_decimal,
};
use vstd::prelude::*;
use vstd::string::*;

verus! {

/// The program that an adapter depends on.
#[derive(Clone, Copy, Debug, PartialEq, Eq, Structural)]
pub enum Tool {
    Node,
    Deno,
    WebDriver,
}

/// What the supervisor saw of one execution attempt.
#[derive(Clone, Copy, Debug, PartialEq, Eq)]
pub enum Completion {
    /// The program could not be found or started.
    NotStarted,
    /// The bounded wait ran out, and the attempt was terminated.
    TimedOut,
    /// The program ended, with this exit code if it ended by itself.
    Exited { code: Option<i32> },
}

/// Why an execution attempt failed.
#[derive(Clone, Debug, PartialEq, Eq)]
pub enum Failure {
    /// The program could not be found or started.
    ToolUnavailable { tool: Tool },
    /// The entry point of the module threw or panicked.
    ExecutionFailure { tool: Tool, code: i32 },
    /// The module, run without its bindings, called the import `call`.
    BindingUnsupported { call: String },
    /// The attempt did not end within the bounded wait.
    Timeout { tool: Tool },
}

/// A failure as a mathematical value.
pub ghost enum FailureView {
    ToolUnavailable { tool: Tool },
    ExecutionFailure { tool: Tool, code: i32 },
    BindingUnsupported { call: Seq<char> },
    Timeout { tool: Tool },
}

impl View for Failure {
    type V = FailureView;

    open spec fn view(&self) -> FailureView {
        match self {
            Failure::ToolUnavailable { tool } => FailureView::ToolUnavailable { tool: *tool },
            Failure::ExecutionFailure { tool, code } => FailureView::ExecutionFailure {
                tool: *tool,
                code: *code,
            },
            Failure::BindingUnsupported { call } => FailureView::BindingUnsupported { call: call@ },
            Failure::Timeout { tool } => FailureView::Timeout { tool: *tool },
        }
    }
}

/// The program that the adapter of `target` depends on.
pub open spec fn spec_tool_of(target: EnvironmentTarget) -> Tool {
    match target {
        EnvironmentTarget::NodeCommonJS | EnvironmentTarget::NodeESModule => Tool::Node,
        EnvironmentTarget::AlternateRuntime => Tool::Deno,
        _ => Tool::WebDriver,
    }
}

/// The name of `tool` at the head of a sentence.
pub open spec fn title(tool: Tool) -> Seq<char> {
    match tool {
        Tool::Node => "Node"@,
        Tool::Deno => "Deno"@,
        Tool::WebDriver => "WebDriver"@,
    }
}

/// The name of `tool` as a product.
pub open spec fn product(tool: Tool) -> Seq<char> {
    match tool {
        Tool::Node => "Node.js"@,
        Tool::Deno => "Deno"@,
        Tool::WebDriver => "WebDriver"@,
    }
}

/// The exit code that stands for an attempt: its own where the program
/// ended by itself, and one where it was ended from outside.
pub open spec fn reported_code(code: Option<i32>) -> i32 {
    match code {
        Some(c) => c,
        None => 1,
    }
}

/// How an attempt with `tool` is judged. It succeeded where the program
/// ended by itself with exit code zero, and only then.
pub open spec fn conclusion(tool: Tool, completion: Completion) -> Result<(), FailureView> {
    match completion {
        Completion::NotStarted => Err(FailureView::ToolUnavailable { tool }),
        Completion::TimedOut => Err(FailureView::Timeout { tool }),
        Completion::Exited { code } => if code == Some(0i32) {
            Ok(())
        } else {
            Err(FailureView::ExecutionFailure { tool, code: reported_code(code) })
        },
    }
}

/// The words by which the fallback loader introduces the import that was
/// called.
pub open spec fn stub_marker() -> Seq<char> {
    " stub called: "@
}

/// The words with which the fallback loader closes its report of a stub
/// that was called.
pub open spec fn stub_advice() -> Seq<char> {
    ". This doctest requires wasm-bindgen-test support."@
}

/// The import that the fallback loader reports in `stderr` as called: what
/// stands between the first marker and the first advice behind it.
pub open spec fn stub_call(stderr: Seq<char>) -> Option<Seq<char>> {
    match first_occurrence(stderr, stub_marker(), 0) {
        Some(at) => {
            let from = at + stub_marker().len();
            match first_occurrence(stderr, stub_advice(), from) {
                Some(end) => Some(stderr.subrange(from, end)),
                None => None,
            }
        },
        None => None,
    }
}

/// How an attempt of the fallback loader is judged: as any attempt with
/// Node, but that a failure in which `stderr` reports a called stub is a
/// call that is not supported.
pub open spec fn fallback_conclusion(completion: Completion, stderr: Seq<char>) -> Result<
    (),
    FailureView,
> {
    match conclusion(Tool::Node, completion) {
        Err(FailureView::ExecutionFailure { tool, code }) => match stub_call(stderr) {
            Some(call) => Err(FailureView::BindingUnsupported { call }),
            None => Err(FailureView::ExecutionFailure { tool, code }),
        },
        other => other,
    }
}

/// The message of a failure.
pub open spec fn message_text(failure: FailureView) -> Seq<char> {
    match failure {
        FailureView::ToolUnavailable { tool } => "failed to find or execute "@ + product(tool),
        FailureView::ExecutionFailure { tool, code } => title(tool) + " failed with exit_code "@
            + signed_decimal(code as int),
        FailureView::BindingUnsupported { call } => "stub called: "@ + call + stub_advice(),
        FailureView::Timeout { tool } => title(tool) + " timed out"@,
    }
}

/// The program that the adapter of `target` depends on.
#[verifier::when_used_as_spec(spec_tool_of)]
pub fn tool_of(target: EnvironmentTarget) -> (tool: Tool)
    ensures
        tool == spec_tool_of(target),
{
    match target {
        EnvironmentTarget::NodeCommonJS | EnvironmentTarget::NodeESModule => Tool::Node,
        EnvironmentTarget::AlternateRuntime => Tool::Deno,
        _ => Tool::WebDriver,
    }
}

/// Judges an execution attempt with `tool`.
///
/// The attempt succeeded where the program ended by itself with exit code
/// zero, and only then. A program that could not be started, a wait that ran
/// out and any other ending are each a failure of their own kind; a crash
/// without an exit code counts as exit code one.
pub fn conclude(tool: Tool, completion: Completion) -> (result: Result<(), Failure>)
    ensures
        match result {
            Ok(_) => conclusion(tool, completion) is Ok,
            Err(failure) => conclusion(tool, completion) == Err::<(), FailureView>(failure@),
        },
{
    match completion {
        Completion::NotStarted => Err(Failure::ToolUnavailable { tool }),
        Completion::TimedOut => Err(Failure::Timeout { tool }),
        Completion::Exited { code } => match code {
            Some(c) => if c == 0 {
                Ok(())
            } else {
                Err(Failure::ExecutionFailure { tool, code: c })
            },
            None => Err(Failure::ExecutionFailure { tool, code: 1 }),
        },
    }
}

/// The import that the fallback loader reports in `stderr` as called, if it
/// reports one.
pub fn unsupported_call(stderr: &str) -> (call: Option<String>)
    ensures
        match call {
            Some(name) => stub_call(stderr@) == Some(name@),
            None => stub_call(stderr@) is None,
        },
{
    let text = chars_of(stderr);
    let marker = chars_of(" stub called: ");
    let advice = chars_of(". This doctest requires wasm-bindgen-test support.");
    match find_from(&text, &marker, 0) {
        Some(at) => {
            assert(occurs_at(text@, marker@, at as int) && at + marker.len() <= text.len());
            let from = at + marker.len();
            match find_from(&text, &advice, from) {
                Some(end) => {
                    let mut name = String::new();
                    push_range(&mut name, &text, from, end);
                    assert(name@ =~= stderr@.subrange(from as int, end as int));
                    Some(name)
                },
                None => None,
            }
        },
        None => None,
    }
}

/// Judges an execution attempt of the fallback loader, of which `stderr` is
/// what it wrote to its error stream.
pub fn conclude_fallback(completion: Completion, stderr: &str) -> (result: Result<(), Failure>)
    ensures
        match result {
            Ok(_) => fallback_conclusion(completion, stderr@) is Ok,
            Err(failure) => fallback_conclusion(completion, stderr@) == Err::<(), FailureView>(
                failure@,
            ),
        },
{
    match conclude(Tool::Node, completion) {
        Err(Failure::ExecutionFailure { tool, code }) => match unsupported_call(stderr) {
            Some(call) => Err(Failure::BindingUnsupported { call }),
            None => Err(Failure::ExecutionFailure { tool, code }),
        },
        other => other,
    }
}

/// Appends the name of `tool` at the head of a sentence.
fn push_title(out: &mut String, tool: Tool)
    ensures
        final(out)@ == old(out)@ + title(tool),
{
    match tool {
        Tool::Node => out.append("Node"),
        Tool::Deno => out.append("Deno"),
        Tool::WebDriver => out.append("WebDriver"),
    }
}

impl Failure {
    /// The message of the failure, which names the tool or the call that it
    /// is about.
    pub fn message(&self) -> (message: String)
        ensures
            message@ == message_text(self@),
    {
        let mut out = String::new();
        match self {
            Failure::ToolUnavailable { tool } => {
                out.append("failed to find or execute ");
                match tool {
                    Tool::Node => out.append("Node.js"),
                    Tool::Deno => out.append("Deno"),
                    Tool::WebDriver => out.append("WebDriver"),
                }
            },
            Failure::ExecutionFailure { tool, code } => {
                push_title(&mut out, *tool);
                out.append(" failed with exit_code ");
                push_signed_decimal(&mut out, *code);
            },
            Failure::BindingUnsupported { call } => {
                out.append("stub called: ");
                out.append(call.as_str());
                out.append(". This doctest requires wasm-bindgen-test support.");
            },
            Failure::Timeout { tool } => {
                push_title(&mut out, *tool);
                out.append(" timed out");
            },
        }
        assert(out@ =~= message_text(self@));
        out
    }

    /// The exit code of a run that ended in this failure: always one.
    pub fn exit_code(&self) -> (code: i32)
        ensures
            code == 1,
    {
        1
    }
}

/// The exit code of the process: that of the report where the run came to
/// one, which is zero where all tests passed or none was found, and one
/// where the run failed as a whole.
pub fn process_exit_code(run: &Result<Report, Failure>) -> (code: i32)
    ensures
        code == match run {
            Ok(report) => report.exit_code,
            Err(_) => 1i32,
        },
{
    match run {
        Ok(report) => report.exit_code,
        Err(failure) => failure.exit_code(),
    }
}

} // verus!
