use wasm_test_runner::assembler::{assemble, TestOutcome};
use wasm_test_runner::capture::deliver;
use wasm_test_runner::model::{CaptureMode, EnvironmentTarget, ExecutionKind, LogRecord, Severity};

const TARGETS: [EnvironmentTarget; 7] = [
    EnvironmentTarget::NodeCommonJS,
    EnvironmentTarget::NodeESModule,
    EnvironmentTarget::AlternateRuntime,
    EnvironmentTarget::BrowserMain,
    EnvironmentTarget::BrowserDedicatedWorker,
    EnvironmentTarget::BrowserSharedWorker,
    EnvironmentTarget::BrowserServiceWorker,
];

fn hello() -> Vec<LogRecord> {
    vec![LogRecord { severity: Severity::Log, text: "hello".to_string(), context: 1, sequence: 1 }]
}

/// How often `marker` is seen by someone who reads the live console and the report.
fn seen(target: EnvironmentTarget, capture: CaptureMode, passed: bool, marker: &str) -> usize {
    let delivery = deliver(target, capture, passed, &hello());
    let live: usize = delivery.live.iter().map(|r| r.text.matches(marker).count()).sum();
    let outcome = TestOutcome::new("tests::test".to_string(), passed, delivery.report, 1);
    let report = assemble(ExecutionKind::Ordinary, &vec![outcome]);
    live + report.text.matches(marker).count()
}

#[test]
fn captured_passing_test_shows_nothing() {
    for target in TARGETS {
        let delivery = deliver(target, CaptureMode::Captured, true, &hello());
        assert!(delivery.live.is_empty());
        assert!(delivery.report.is_empty());
        assert_eq!(seen(target, CaptureMode::Captured, true, "hello"), 0);
    }
}

#[test]
fn captured_failing_test_off_the_main_thread_shows_its_message_once() {
    for target in TARGETS {
        if target == EnvironmentTarget::BrowserMain {
            continue;
        }
        let delivery = deliver(target, CaptureMode::Captured, false, &hello());
        assert!(delivery.live.is_empty());
        assert_eq!(delivery.report, hello());
        assert_eq!(seen(target, CaptureMode::Captured, false, "hello"), 1);
    }
}

#[test]
fn captured_failing_test_on_the_main_thread_shows_its_message_twice() {
    let delivery = deliver(EnvironmentTarget::BrowserMain, CaptureMode::Captured, false, &hello());
    assert!(delivery.live.is_empty());
    assert_eq!(delivery.report, vec![hello()[0].clone(), hello()[0].clone()]);
    assert_eq!(seen(EnvironmentTarget::BrowserMain, CaptureMode::Captured, false, "hello"), 2);
}

#[test]
fn uncaptured_failing_test_shows_its_message_twice() {
    for target in TARGETS {
        let delivery = deliver(target, CaptureMode::NoCapture, false, &hello());
        assert_eq!(delivery.live, hello());
        assert_eq!(delivery.report, hello());
        assert_eq!(seen(target, CaptureMode::NoCapture, false, "hello"), 2);
    }
}

#[test]
fn uncaptured_passing_test_shows_its_message_once() {
    for target in TARGETS {
        let delivery = deliver(target, CaptureMode::NoCapture, true, &hello());
        assert_eq!(delivery.live, hello());
        assert!(delivery.report.is_empty());
        assert_eq!(seen(target, CaptureMode::NoCapture, true, "hello"), 1);
    }
}

#[test]
fn order_of_the_buffer_is_kept() {
    let buffer = vec![
        LogRecord { severity: Severity::Log, text: "a".to_string(), context: 0, sequence: 1 },
        LogRecord { severity: Severity::Warn, text: "b".to_string(), context: 2, sequence: 2 },
    ];
    let delivery = deliver(EnvironmentTarget::BrowserMain, CaptureMode::Captured, false, &buffer);
    let texts: Vec<&str> = delivery.report.iter().map(|r| r.text.as_str()).collect();
    assert_eq!(texts, vec!["a", "b", "a", "b"]);
}

#[test]
fn browser_targets_are_the_four_browser_contexts() {
    let browsers: Vec<bool> = TARGETS.iter().map(|t| t.is_browser()).collect();
    assert_eq!(browsers, vec![false, false, false, true, true, true, true]);
}

#[test]
fn directive_tells_the_harness_where_to_run() {
    let directives: Vec<Option<&str>> = TARGETS.iter().map(|t| t.directive()).collect();
    assert_eq!(
        directives,
        vec![
            None,
            Some("run_in_node_experimental"),
            None,
            Some("run_in_browser"),
            Some("run_in_dedicated_worker"),
            Some("run_in_shared_worker"),
            Some("run_in_service_worker"),
        ]
    );
}
