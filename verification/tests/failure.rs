use wasm_test_runner::assembler::{assemble, no_tests_report, TestOutcome};
use wasm_test_runner::failure::{
    conclude, conclude_fallback, process_exit_code, tool_of, unsupported_call, Completion, Failure,
    Tool,
};
use wasm_test_runner::model::{EnvironmentTarget, ExecutionKind};

#[test]
fn exit_code_zero_is_success_and_nothing_else_is() {
    for tool in [Tool::Node, Tool::Deno, Tool::WebDriver] {
        assert_eq!(conclude(tool, Completion::Exited { code: Some(0) }), Ok(()));
        assert_eq!(
            conclude(tool, Completion::Exited { code: Some(1) }),
            Err(Failure::ExecutionFailure { tool, code: 1 })
        );
        assert_eq!(
            conclude(tool, Completion::Exited { code: Some(-7) }),
            Err(Failure::ExecutionFailure { tool, code: -7 })
        );
        assert_eq!(
            conclude(tool, Completion::Exited { code: None }),
            Err(Failure::ExecutionFailure { tool, code: 1 })
        );
        assert_eq!(conclude(tool, Completion::NotStarted), Err(Failure::ToolUnavailable { tool }));
        assert_eq!(conclude(tool, Completion::TimedOut), Err(Failure::Timeout { tool }));
    }
}

#[test]
fn failure_messages_name_the_tool_and_the_code() {
    assert_eq!(
        Failure::ExecutionFailure { tool: Tool::Node, code: 1 }.message(),
        "Node failed with exit_code 1"
    );
    assert_eq!(
        Failure::ExecutionFailure { tool: Tool::Deno, code: 101 }.message(),
        "Deno failed with exit_code 101"
    );
    assert_eq!(
        Failure::ExecutionFailure { tool: Tool::Node, code: -1 }.message(),
        "Node failed with exit_code -1"
    );
    assert_eq!(
        Failure::ExecutionFailure { tool: Tool::Node, code: i32::MIN }.message(),
        "Node failed with exit_code -2147483648"
    );
    assert_eq!(
        Failure::ExecutionFailure { tool: Tool::Node, code: i32::MAX }.message(),
        "Node failed with exit_code 2147483647"
    );
    assert_eq!(
        Failure::ExecutionFailure { tool: Tool::Node, code: 0 }.message(),
        "Node failed with exit_code 0"
    );
}

#[test]
fn missing_tool_is_named() {
    assert_eq!(
        Failure::ToolUnavailable { tool: Tool::Node }.message(),
        "failed to find or execute Node.js"
    );
    assert_eq!(
        Failure::ToolUnavailable { tool: Tool::Deno }.message(),
        "failed to find or execute Deno"
    );
    assert_eq!(
        Failure::ToolUnavailable { tool: Tool::WebDriver }.message(),
        "failed to find or execute WebDriver"
    );
}

#[test]
fn timeout_is_a_failure_of_its_own() {
    let failure = conclude(Tool::Node, Completion::TimedOut).unwrap_err();
    assert_eq!(failure.message(), "Node timed out");
    assert_eq!(failure.exit_code(), 1);
    assert_eq!(Failure::Timeout { tool: Tool::WebDriver }.message(), "WebDriver timed out");
}

#[test]
fn called_stub_is_read_from_the_error_stream() {
    let stderr = "Doctest failed: wasm-bindgen stub called: __wbg_log_1d3ae0273d8f4f8a. \
                  This doctest requires wasm-bindgen-test support.\n";
    assert_eq!(unsupported_call(stderr), Some("__wbg_log_1d3ae0273d8f4f8a".to_string()));
    let stderr = "Doctest failed: externref stub called: __wbindgen_externref_table_grow. \
                  This doctest requires wasm-bindgen-test support.\n";
    assert_eq!(unsupported_call(stderr), Some("__wbindgen_externref_table_grow".to_string()));
}

#[test]
fn first_report_of_a_stub_counts() {
    let stderr = "x stub called: first. This doctest requires wasm-bindgen-test support.\n\
                  y stub called: second. This doctest requires wasm-bindgen-test support.\n";
    assert_eq!(unsupported_call(stderr), Some("first".to_string()));
}

#[test]
fn error_stream_without_a_whole_report_names_no_stub() {
    assert_eq!(unsupported_call(""), None);
    assert_eq!(unsupported_call("Doctest failed: RuntimeError: unreachable"), None);
    assert_eq!(unsupported_call("wasm-bindgen stub called: foo"), None);
    assert_eq!(unsupported_call(". This doctest requires wasm-bindgen-test support."), None);
    assert_eq!(
        unsupported_call(". This doctest requires wasm-bindgen-test support. stub called: foo"),
        None
    );
    assert_eq!(
        unsupported_call(" stub called: . This doctest requires wasm-bindgen-test support."),
        Some(String::new())
    );
}

#[test]
fn fallback_failure_with_a_called_stub_is_an_unsupported_call() {
    let stderr = "Doctest failed: wasm-bindgen stub called: __wbg_foo. \
                  This doctest requires wasm-bindgen-test support.";
    let failure = conclude_fallback(Completion::Exited { code: Some(1) }, stderr).unwrap_err();
    assert_eq!(failure, Failure::BindingUnsupported { call: "__wbg_foo".to_string() });
    assert_eq!(
        failure.message(),
        "stub called: __wbg_foo. This doctest requires wasm-bindgen-test support."
    );
    assert_eq!(failure.exit_code(), 1);
}

#[test]
fn fallback_is_judged_like_node_otherwise() {
    let stub = "a stub called: f. This doctest requires wasm-bindgen-test support.";
    assert_eq!(conclude_fallback(Completion::Exited { code: Some(0) }, stub), Ok(()));
    assert_eq!(
        conclude_fallback(Completion::Exited { code: Some(1) }, "RuntimeError: unreachable"),
        Err(Failure::ExecutionFailure { tool: Tool::Node, code: 1 })
    );
    assert_eq!(
        conclude_fallback(Completion::Exited { code: None }, ""),
        Err(Failure::ExecutionFailure { tool: Tool::Node, code: 1 })
    );
    assert_eq!(
        conclude_fallback(Completion::NotStarted, stub),
        Err(Failure::ToolUnavailable { tool: Tool::Node })
    );
    assert_eq!(
        conclude_fallback(Completion::TimedOut, stub),
        Err(Failure::Timeout { tool: Tool::Node })
    );
}

#[test]
fn each_target_depends_on_its_tool() {
    assert_eq!(tool_of(EnvironmentTarget::NodeCommonJS), Tool::Node);
    assert_eq!(tool_of(EnvironmentTarget::NodeESModule), Tool::Node);
    assert_eq!(tool_of(EnvironmentTarget::AlternateRuntime), Tool::Deno);
    assert_eq!(tool_of(EnvironmentTarget::BrowserMain), Tool::WebDriver);
    assert_eq!(tool_of(EnvironmentTarget::BrowserDedicatedWorker), Tool::WebDriver);
    assert_eq!(tool_of(EnvironmentTarget::BrowserSharedWorker), Tool::WebDriver);
    assert_eq!(tool_of(EnvironmentTarget::BrowserServiceWorker), Tool::WebDriver);
}

#[test]
fn process_exits_with_zero_only_for_passed_or_empty_runs() {
    let passed = assemble(
        ExecutionKind::Ordinary,
        &vec![TestOutcome::new("a".to_string(), true, vec![], 0)],
    );
    let failed = assemble(
        ExecutionKind::Ordinary,
        &vec![TestOutcome::new("a".to_string(), false, vec![], 0)],
    );
    assert_eq!(process_exit_code(&Ok(passed)), 0);
    assert_eq!(process_exit_code(&Ok(no_tests_report())), 0);
    assert_eq!(process_exit_code(&Ok(failed)), 1);
    assert_eq!(process_exit_code(&Err(Failure::ToolUnavailable { tool: Tool::WebDriver })), 1);
    assert_eq!(process_exit_code(&Err(Failure::Timeout { tool: Tool::Node })), 1);
    assert_eq!(
        process_exit_code(&Err(Failure::ExecutionFailure { tool: Tool::Deno, code: 3 })),
        1
    );
    assert_eq!(
        process_exit_code(&Err(Failure::BindingUnsupported { call: "f".to_string() })),
        1
    );
}
