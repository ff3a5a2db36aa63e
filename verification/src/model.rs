//! The data that passes between the components of the runner.

use crate::text::{chars_of, same_text};
use vstd::prelude::*;

verus! {

/// The test-export convention that a compiled module follows.
#[derive(Clone, Copy, Debug, PartialEq, Eq, Structural)]
pub enum ExecutionKind {
    /// Tests registered with the test framework.
    Ordinary,
    /// A documentation test compiled on its own, with `main` as entry point.
    SingleDoctest,
    /// Documentation tests bundled into one module under namespaced names.
    MergedDoctest,
}

/// The host environment in which a module is executed.
#[derive(Clone, Copy, Debug, PartialEq, Eq, Structural)]
pub enum EnvironmentTarget {
    NodeCommonJS,
    NodeESModule,
    AlternateRuntime,
    BrowserMain,
    BrowserDedicatedWorker,
    BrowserSharedWorker,
    BrowserServiceWorker,
}

/// Whether console output is held back until a failure, or echoed as it
/// arrives.
#[derive(Clone, Copy, Debug, PartialEq, Eq, Structural)]
pub enum CaptureMode {
    Captured,
    NoCapture,
}

/// The console method by which a message was logged.
#[derive(Clone, Copy, Debug, PartialEq, Eq, Structural)]
pub enum Severity {
    Debug,
    Log,
    Info,
    Warn,
    Error,
}

/// One console message.
#[derive(Clone, Debug, PartialEq, Eq)]
pub struct LogRecord {
    pub severity: Severity,
    pub text: String,
    /// The page or worker that logged the message.
    pub context: u64,
    /// The position of the message in the order of emission.
    pub sequence: u64,
}

/// A console message as a mathematical value.
pub ghost struct LogRecordView {
    pub severity: Severity,
    pub text: Seq<char>,
    pub context: u64,
    pub sequence: u64,
}

impl View for LogRecord {
    type V = LogRecordView;

    open spec fn view(&self) -> LogRecordView {
        LogRecordView {
            severity: self.severity,
            text: self.text@,
            context: self.context,
            sequence: self.sequence,
        }
    }
}

/// The messages of `records` as mathematical values.
pub open spec fn transcript_view(records: Seq<LogRecord>) -> Seq<LogRecordView> {
    records.map_values(|r: LogRecord| r@)
}

impl ExecutionKind {
    /// Whether the module holds documentation tests.
    pub open spec fn spec_is_doctest(self) -> bool {
        self != ExecutionKind::Ordinary
    }

    /// Whether the module holds documentation tests.
    #[verifier::when_used_as_spec(spec_is_doctest)]
    pub fn is_doctest(self) -> (b: bool)
        ensures
            b == self.spec_is_doctest(),
    {
        match self {
            ExecutionKind::Ordinary => false,
            ExecutionKind::SingleDoctest => true,
            ExecutionKind::MergedDoctest => true,
        }
    }
}

impl EnvironmentTarget {
    /// Whether the module runs inside a browser.
    pub open spec fn spec_is_browser(self) -> bool {
        self == EnvironmentTarget::BrowserMain || self == EnvironmentTarget::BrowserDedicatedWorker
            || self == EnvironmentTarget::BrowserSharedWorker || self
            == EnvironmentTarget::BrowserServiceWorker
    }

    /// Whether the module runs inside a browser.
    #[verifier::when_used_as_spec(spec_is_browser)]
    pub fn is_browser(self) -> (b: bool)
        ensures
            b == self.spec_is_browser(),
    {
        match self {
            EnvironmentTarget::BrowserMain => true,
            EnvironmentTarget::BrowserDedicatedWorker => true,
            EnvironmentTarget::BrowserSharedWorker => true,
            EnvironmentTarget::BrowserServiceWorker => true,
            _ => false,
        }
    }
}

impl ExecutionKind {
    /// The export that the adapter calls to run the module: `main` for
    /// documentation tests; none for ordinary tests, which the harness runs
    /// by their registrations.
    pub open spec fn spec_entry_point(self) -> Option<Seq<char>> {
        if self.spec_is_doctest() {
            Some("main"@)
        } else {
            None
        }
    }

    /// The export that the adapter calls to run the module, if there is one.
    pub fn entry_point(self) -> (name: Option<&'static str>)
        ensures
            match name {
                Some(n) => self.spec_entry_point() == Some(n@),
                None => self.spec_entry_point() is None,
            },
    {
        match self {
            ExecutionKind::Ordinary => None,
            _ => Some("main"),
        }
    }
}

impl EnvironmentTarget {
    /// The directive that tells the harness where to instantiate the module;
    /// none for the two targets that need none.
    pub open spec fn spec_directive(self) -> Option<Seq<char>> {
        match self {
            EnvironmentTarget::NodeCommonJS => None,
            EnvironmentTarget::NodeESModule => Some("run_in_node_experimental"@),
            EnvironmentTarget::AlternateRuntime => None,
            EnvironmentTarget::BrowserMain => Some("run_in_browser"@),
            EnvironmentTarget::BrowserDedicatedWorker => Some("run_in_dedicated_worker"@),
            EnvironmentTarget::BrowserSharedWorker => Some("run_in_shared_worker"@),
            EnvironmentTarget::BrowserServiceWorker => Some("run_in_service_worker"@),
        }
    }

    /// The directive that tells the harness where to instantiate the module,
    /// if the target needs one.
    pub fn directive(self) -> (name: Option<&'static str>)
        ensures
            match name {
                Some(n) => self.spec_directive() == Some(n@),
                None => self.spec_directive() is None,
            },
    {
        match self {
            EnvironmentTarget::NodeCommonJS => None,
            EnvironmentTarget::NodeESModule => Some("run_in_node_experimental"),
            EnvironmentTarget::AlternateRuntime => None,
            EnvironmentTarget::BrowserMain => Some("run_in_browser"),
            EnvironmentTarget::BrowserDedicatedWorker => Some("run_in_dedicated_worker"),
            EnvironmentTarget::BrowserSharedWorker => Some("run_in_shared_worker"),
            EnvironmentTarget::BrowserServiceWorker => Some("run_in_service_worker"),
        }
    }
}

impl Severity {
    /// The name of the console method.
    pub open spec fn spec_label(self) -> Seq<char> {
        match self {
            Severity::Debug => "debug"@,
            Severity::Log => "log"@,
            Severity::Info => "info"@,
            Severity::Warn => "warn"@,
            Severity::Error => "error"@,
        }
    }

    /// The name of the console method.
    pub fn label(self) -> (name: &'static str)
        ensures
            name@ == self.spec_label(),
    {
        match self {
            Severity::Debug => "debug",
            Severity::Log => "log",
            Severity::Info => "info",
            Severity::Warn => "warn",
            Severity::Error => "error",
        }
    }

    /// The severity that the console method `name` logs with; `None` where
    /// `name` is none of the five.
    pub fn from_label(name: &str) -> (severity: Option<Severity>)
        ensures
            match severity {
                Some(s) => s.spec_label() == name@,
                None => forall|s: Severity| s.spec_label() != name@,
            },
    {
        let text = chars_of(name);
        if same_text(&text, &chars_of("debug")) {
            Some(Severity::Debug)
        } else if same_text(&text, &chars_of("log")) {
            Some(Severity::Log)
        } else if same_text(&text, &chars_of("info")) {
            Some(Severity::Info)
        } else if same_text(&text, &chars_of("warn")) {
            Some(Severity::Warn)
        } else if same_text(&text, &chars_of("error")) {
            Some(Severity::Error)
        } else {
            None
        }
    }
}

/// No two severities share a name, so a severity that is written out by its
/// name is read back as itself.
pub proof fn lemma_labels_differ(a: Severity, b: Severity)
    requires
        a.spec_label() == b.spec_label(),
    ensures
        a == b,
{
    reveal_strlit("debug");
    reveal_strlit("log");
    reveal_strlit("info");
    reveal_strlit("warn");
    reveal_strlit("error");
    assert("debug"@.len() == 5 && "debug"@[0] == 'd');
    assert("log"@.len() == 3);
    assert("info"@.len() == 4 && "info"@[0] == 'i');
    assert("warn"@.len() == 4 && "warn"@[0] == 'w');
    assert("error"@.len() == 5 && "error"@[0] == 'e');
}

impl LogRecord {
    /// A record with the same severity, text, context and sequence number.
    pub fn duplicate(&self) -> (copy: LogRecord)
        ensures
            copy@ == self@,
    {
        LogRecord {
            severity: self.severity,
            text: self.text.clone(),
            context: self.context,
            sequence: self.sequence,
        }
    }
}

/// A copy of `records`, message for message.
pub fn duplicate_all(records: &Vec<LogRecord>) -> (copy: Vec<LogRecord>)
    ensures
        transcript_view(copy@) == transcript_view(records@),
{
    let mut copy: Vec<LogRecord> = Vec::new();
    let mut i: usize = 0;
    while i < records.len()
        invariant
            i <= records.len(),
            copy.len() == i,
            forall|k: int| 0 <= k < i ==> copy@[k]@ == records@[k]@,
        decreases records.len() - i,
    {
        copy.push(records[i].duplicate());
        i += 1;
    }
    assert(transcript_view(copy@) =~= transcript_view(records@));
    copy
}

} // verus!
