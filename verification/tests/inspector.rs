use wasm_test_runner::assembler::{report_on, TestOutcome};
use wasm_test_runner::inspector::{classify, sections, ClassificationFailure, TestArtifact};
use wasm_test_runner::model::ExecutionKind;

fn artifact(names: &[&str]) -> TestArtifact {
    TestArtifact::new(
        "target/doctest.wasm".to_string(),
        names.iter().map(|n| n.to_string()).collect(),
    )
}

#[test]
fn artifact_keeps_what_it_was_loaded_with() {
    let a = artifact(&["memory", "main"]);
    assert_eq!(a.path(), "target/doctest.wasm");
    assert_eq!(a.exports(), &vec!["memory".to_string(), "main".to_string()]);
}

#[test]
fn main_alone_is_a_single_doctest() {
    assert_eq!(classify(&artifact(&["memory", "main", "__data_end"])), Ok(ExecutionKind::SingleDoctest));
    assert_eq!(classify(&artifact(&["main"])), Ok(ExecutionKind::SingleDoctest));
}

#[test]
fn registration_exports_are_ordinary_tests() {
    assert_eq!(classify(&artifact(&["memory", "__wbgt_test_1_0"])), Ok(ExecutionKind::Ordinary));
    assert_eq!(classify(&artifact(&["__wbgt_"])), Ok(ExecutionKind::Ordinary));
}

#[test]
fn main_beside_registrations_is_ordinary() {
    assert_eq!(classify(&artifact(&["main", "__wbgt_test_1_0"])), Ok(ExecutionKind::Ordinary));
    assert_eq!(classify(&artifact(&["__wbgt_test_1_0", "main"])), Ok(ExecutionKind::Ordinary));
}

#[test]
fn bundle_namespaces_are_merged_doctests() {
    assert_eq!(
        classify(&artifact(&["doctest_bundle_2024::__doctest_0::main"])),
        Ok(ExecutionKind::MergedDoctest)
    );
    assert_eq!(
        classify(&artifact(&["memory", "doctest_runner_2024::__doctest_1"])),
        Ok(ExecutionKind::MergedDoctest)
    );
}

#[test]
fn bundle_namespace_decides_whatever_else_is_exported() {
    assert_eq!(
        classify(&artifact(&["__wbgt_test_lib_0", "main", "doctest_runner_2024::__doctest_0::main"])),
        Ok(ExecutionKind::MergedDoctest)
    );
}

#[test]
fn namespace_without_a_doctest_member_is_no_bundle() {
    assert_eq!(
        classify(&artifact(&["doctest_runner_2024::main"])),
        Err(ClassificationFailure::NoTestsFound)
    );
    assert_eq!(
        classify(&artifact(&["doctest_bundle_"])),
        Err(ClassificationFailure::NoTestsFound)
    );
}

#[test]
fn doctest_member_outside_a_namespace_is_no_bundle() {
    assert_eq!(
        classify(&artifact(&["__doctest_0::main"])),
        Err(ClassificationFailure::NoTestsFound)
    );
    assert_eq!(
        classify(&artifact(&["my_doctest_bundle_2024::__doctest_0"])),
        Err(ClassificationFailure::NoTestsFound)
    );
}

#[test]
fn member_must_follow_the_namespace_prefix() {
    // the marker overlaps the last character of the prefix
    assert_eq!(
        classify(&artifact(&["doctest_bundle__doctest_0"])),
        Err(ClassificationFailure::NoTestsFound)
    );
    assert_eq!(
        classify(&artifact(&["doctest_bundle___doctest_0"])),
        Ok(ExecutionKind::MergedDoctest)
    );
}

#[test]
fn names_that_only_resemble_a_convention_are_not_tests() {
    assert_eq!(classify(&artifact(&[])), Err(ClassificationFailure::NoTestsFound));
    assert_eq!(
        classify(&artifact(&["memory", "Main", "main2", "_main", "__wbg_test", "x__wbgt_a"])),
        Err(ClassificationFailure::NoTestsFound)
    );
}

#[test]
fn module_without_entry_point_reports_no_tests_and_exits_zero() {
    let classified = classify(&artifact(&["memory", "__data_end", "__heap_base"]));
    assert_eq!(classified, Err(ClassificationFailure::NoTestsFound));
    let report = report_on(classified, &Vec::<TestOutcome>::new());
    assert_eq!(report.text, "no tests to run!\n");
    assert_eq!(report.exit_code, 0);
}

#[test]
fn sections_follow_the_classification() {
    assert_eq!(sections(&artifact(&["__wbgt_a_0"]), false), vec![ExecutionKind::Ordinary]);
    assert_eq!(sections(&artifact(&["main"]), false), vec![ExecutionKind::SingleDoctest]);
    assert_eq!(sections(&artifact(&["main"]), true), vec![ExecutionKind::SingleDoctest]);
    assert_eq!(
        sections(&artifact(&["doctest_runner_2024::__doctest_0"]), false),
        vec![ExecutionKind::MergedDoctest]
    );
    assert_eq!(sections(&artifact(&["memory"]), false), Vec::<ExecutionKind>::new());
}

#[test]
fn bundle_beside_lib_tests_gives_two_sections() {
    let a = artifact(&["__wbgt_test_lib_0", "doctest_runner_2024::__doctest_0::main"]);
    assert_eq!(sections(&a, false), vec![ExecutionKind::Ordinary, ExecutionKind::MergedDoctest]);
    assert_eq!(sections(&a, true), vec![ExecutionKind::MergedDoctest]);
}

#[test]
fn only_doctests_leaves_ordinary_tests_out() {
    assert_eq!(sections(&artifact(&["__wbgt_a_0"]), true), Vec::<ExecutionKind>::new());
}

#[test]
fn entry_point_is_main_for_doctests_only() {
    assert_eq!(ExecutionKind::Ordinary.entry_point(), None);
    assert_eq!(ExecutionKind::SingleDoctest.entry_point(), Some("main"));
    assert_eq!(ExecutionKind::MergedDoctest.entry_point(), Some("main"));
    assert!(!ExecutionKind::Ordinary.is_doctest());
    assert!(ExecutionKind::SingleDoctest.is_doctest());
    assert!(ExecutionKind::MergedDoctest.is_doctest());
}
