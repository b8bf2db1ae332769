use argentor_agent::test_oracle::{
    ErrorType, FailureAnalysis, FixStrategy, TddPhase, TestCase, TestFramework, TestOracle, TestRunSummary,
    TestStatus,
};

#[test]
fn test_parse_cargo_test_all_pass() {
    let output = r#"
running 2 tests
test utils::test_trim ... ok
test utils::test_concat ... ok

test result: ok. 2 passed; 0 failed; 0 ignored; 0 measured; 0 filtered out; finished in 0.03s
"#;
    let summary = TestOracle::parse_output(output);
    assert_eq!(summary.framework, TestFramework::CargoTest);
    assert_eq!(summary.total, 2);
    assert_eq!(summary.passed, 2);
    assert_eq!(summary.failed, 0);
    assert_eq!(summary.skipped, 0);
    assert_eq!(summary.duration_ms, Some(30));
}

#[test]
fn test_parse_cargo_test_with_failures() {
    let output = r#"
running 3 tests
test math::test_add ... ok
test math::test_divide ... FAILED
test math::test_mul ... ok

failures:

---- math::test_divide stdout ----
thread 'math::test_divide' panicked at 'assertion failed: `(left == right)`
  left: `0`,
 right: `1`', src/math.rs:42:5
note: run with `RUST_BACKTRACE=1` environment variable to display a backtrace

failures:
    math::test_divide

test result: FAILED. 2 passed; 1 failed; 0 ignored; 0 measured; 0 filtered out; finished in 0.15s
"#;
    let summary = TestOracle::parse_output(output);
    assert_eq!(summary.framework, TestFramework::CargoTest);
    assert_eq!(summary.total, 3);
    assert_eq!(summary.passed, 2);
    assert_eq!(summary.failed, 1);

    let failed = TestOracle::failures(&summary);
    assert_eq!(failed.len(), 1);
    assert_eq!(failed[0].name, "math::test_divide");
    assert!(failed[0].error_message.is_some());
    assert!(failed[0].stdout.is_some());
}

#[test]
fn test_parse_cargo_test_with_ignored() {
    let output = r#"
running 3 tests
test net::test_connect ... ok
test net::test_timeout ... ignored
test net::test_retry ... ok

test result: ok. 2 passed; 0 failed; 1 ignored; 0 measured; 0 filtered out; finished in 0.05s
"#;
    let summary = TestOracle::parse_output(output);
    assert_eq!(summary.framework, TestFramework::CargoTest);
    assert_eq!(summary.total, 3);
    assert_eq!(summary.passed, 2);
    assert_eq!(summary.failed, 0);
    assert_eq!(summary.skipped, 1);
}

#[test]
fn test_parse_pytest_output() {
    let output = r#"
PASSED test_calculator.py::test_add
PASSED test_calculator.py::test_subtract
FAILED test_calculator.py::test_divide - ZeroDivisionError: division by zero
SKIPPED test_calculator.py::test_network - reason: no network
========================= 1 failed, 2 passed, 1 skipped in 0.34s =========================
"#;
    let summary = TestOracle::parse_output(output);
    assert_eq!(summary.framework, TestFramework::Pytest);
    assert_eq!(summary.total, 4);
    assert_eq!(summary.passed, 2);
    assert_eq!(summary.failed, 1);
    assert_eq!(summary.skipped, 1);

    let failed = TestOracle::failures(&summary);
    assert_eq!(failed.len(), 1);
    assert_eq!(failed[0].name, "test_divide");
    assert_eq!(failed[0].file, Some("test_calculator.py".to_string()));
    assert!(failed[0]
        .error_message
        .as_ref()
        .unwrap()
        .contains("ZeroDivisionError"));
}

#[test]
fn test_parse_jest_output() {
    let output = "PASS src/math.spec.ts\n  \u{2713} adds two numbers (3 ms)\nFAIL src/divide.spec.ts\n  \u{2715} handles division by zero (8 ms)\n    Expected: \"error\"\n    Received: undefined\n\nTests: 1 failed, 1 passed, 2 total\nTime: 2.456 s\n";

    let summary = TestOracle::parse_output(output);
    assert_eq!(summary.framework, TestFramework::Jest);
    assert_eq!(summary.total, 2);
    assert_eq!(summary.passed, 1);
    assert_eq!(summary.failed, 1);
    assert_eq!(summary.duration_ms, Some(2456));

    let failed = TestOracle::failures(&summary);
    assert_eq!(failed.len(), 1);
    assert_eq!(failed[0].name, "handles division by zero");
    assert!(failed[0].error_message.is_some());
    let err_msg = failed[0].error_message.as_ref().unwrap();
    assert!(err_msg.contains("Expected:"));
    assert!(err_msg.contains("Received:"));
}

#[test]
fn test_parse_go_test_output() {
    let output = r#"
=== RUN   TestAdd
--- PASS: TestAdd (0.00s)
=== RUN   TestSubtract
--- PASS: TestSubtract (0.00s)
=== RUN   TestDivide
    math_test.go:25: expected 5, got 0
--- FAIL: TestDivide (0.01s)
FAIL
exit status 1
FAIL	example.com/calculator	0.023s
"#;
    let summary = TestOracle::parse_output(output);
    assert_eq!(summary.framework, TestFramework::GoTest);
    assert_eq!(summary.total, 3);
    assert_eq!(summary.passed, 2);
    assert_eq!(summary.failed, 1);
    assert_eq!(summary.duration_ms, Some(23));

    let failed = TestOracle::failures(&summary);
    assert_eq!(failed.len(), 1);
    assert_eq!(failed[0].name, "TestDivide");
}

#[test]
fn test_classify_error_type_mismatch() {
    assert_eq!(
        TestOracle::classify_error("mismatched types: expected `u32`, found `i64`"),
        ErrorType::TypeMismatch
    );
    assert_eq!(
        TestOracle::classify_error("expected String, found &str"),
        ErrorType::TypeMismatch
    );
}

#[test]
fn test_classify_error_missing_import() {
    assert_eq!(
        TestOracle::classify_error("cannot find value `HashMap` in this scope"),
        ErrorType::MissingImport
    );
    assert_eq!(
        TestOracle::classify_error("unresolved import `std::collections::BTreeMap`"),
        ErrorType::MissingImport
    );
}

#[test]
fn test_classify_error_assertion() {
    assert_eq!(
        TestOracle::classify_error("assertion failed: `(left == right)`"),
        ErrorType::AssertionFailure
    );
    assert_eq!(
        TestOracle::classify_error("AssertionError: 2 != 3"),
        ErrorType::AssertionFailure
    );
}

#[test]
fn test_classify_error_panic_unwrap() {
    assert_eq!(
        TestOracle::classify_error("called `Option::unwrap()` on a `None` value"),
        ErrorType::PanicUnwrap
    );
    assert_eq!(
        TestOracle::classify_error("called `Result::unwrap()` on an `Err` value: NotFound"),
        ErrorType::PanicUnwrap
    );
}

#[test]
fn test_classify_error_compilation() {
    assert_eq!(
        TestOracle::classify_error("error[E0433]: failed to resolve: use of undeclared crate"),
        ErrorType::CompilationError
    );
}

#[test]
fn test_analyze_failure() {
    let test_case = TestCase {
        name: "math::test_divide".to_string(),
        status: TestStatus::Failed,
        duration_ms: Some(10),
        error_message: Some(
            "assertion failed: `(left == right)`\n  left: `0`,\n right: `1`".to_string(),
        ),
        file: Some("src/math.rs".to_string()),
        line: Some(42),
        stdout: None,
    };

    let analysis = TestOracle::analyze_failure(&test_case);
    assert_eq!(analysis.test_name, "math::test_divide");
    assert_eq!(analysis.error_type, ErrorType::AssertionFailure);
    assert_eq!(analysis.source_file, Some("src/math.rs".to_string()));
    assert_eq!(analysis.source_line, Some(42));
    assert_eq!(analysis.fix_strategy, FixStrategy::UpdateAssertion);
}

#[test]
fn test_suggest_fix_add_import() {
    let fix = TestOracle::suggest_fix(
        &ErrorType::MissingImport,
        "cannot find `HashMap` in this scope",
    );
    match fix {
        FixStrategy::AddImport { module } => {
            assert!(module.contains("HashMap"));
        }
        other => panic!("expected AddImport, got {other:?}"),
    }
}

#[test]
fn test_suggest_fix_type_mismatch() {
    let fix = TestOracle::suggest_fix(&ErrorType::TypeMismatch, "expected `u32`, found `i64`");
    match fix {
        FixStrategy::FixType { expected, actual } => {
            assert_eq!(expected, "u32");
            assert_eq!(actual, "i64");
        }
        other => panic!("expected FixType, got {other:?}"),
    }
}

#[test]
fn test_tdd_cycle_start() {
    let cycle = TestOracle::start_tdd("test_new_feature", 5);
    assert_eq!(cycle.phase, TddPhase::Red);
    assert_eq!(cycle.target_test, Some("test_new_feature".to_string()));
    assert_eq!(cycle.iterations, 0);
    assert_eq!(cycle.max_iterations, 5);
    assert!(cycle.history.is_empty());
}

#[test]
fn test_tdd_cycle_advance_red_to_green() {
    let mut cycle = TestOracle::start_tdd("test_feature", 10);

    // Simulate the target test failing (Red phase confirmed)
    let summary = TestRunSummary {
        framework: TestFramework::CargoTest,
        total: 1,
        passed: 0,
        failed: 1,
        skipped: 0,
        errors: 0,
        duration_ms: Some(50),
        cases: vec![TestCase {
            name: "test_feature".to_string(),
            status: TestStatus::Failed,
            duration_ms: Some(50),
            error_message: Some("not yet implemented".to_string()),
            file: None,
            line: None,
            stdout: None,
        }],
    };

    let action = TestOracle::advance_tdd(&mut cycle, &summary);
    assert_eq!(cycle.phase, TddPhase::Green);
    assert!(action.contains("failing as expected"));
    assert_eq!(cycle.iterations, 1);
    assert_eq!(cycle.history.len(), 1);
}

#[test]
fn test_tdd_cycle_advance_green_to_refactor() {
    let mut cycle = TestOracle::start_tdd("test_feature", 10);
    cycle.phase = TddPhase::Green;

    // All tests pass — move to Refactor
    let summary = TestRunSummary {
        framework: TestFramework::CargoTest,
        total: 2,
        passed: 2,
        failed: 0,
        skipped: 0,
        errors: 0,
        duration_ms: Some(30),
        cases: vec![
            TestCase {
                name: "test_feature".to_string(),
                status: TestStatus::Passed,
                duration_ms: Some(15),
                error_message: None,
                file: None,
                line: None,
                stdout: None,
            },
            TestCase {
                name: "test_other".to_string(),
                status: TestStatus::Passed,
                duration_ms: Some(15),
                error_message: None,
                file: None,
                line: None,
                stdout: None,
            },
        ],
    };

    let action = TestOracle::advance_tdd(&mut cycle, &summary);
    assert_eq!(cycle.phase, TddPhase::Refactor);
    assert!(action.contains("refactor"));
}

#[test]
fn test_all_passing() {
    let passing = TestRunSummary {
        framework: TestFramework::CargoTest,
        total: 3,
        passed: 3,
        failed: 0,
        skipped: 0,
        errors: 0,
        duration_ms: None,
        cases: vec![],
    };
    assert!(TestOracle::all_passing(&passing));

    let failing = TestRunSummary {
        framework: TestFramework::CargoTest,
        total: 3,
        passed: 2,
        failed: 1,
        skipped: 0,
        errors: 0,
        duration_ms: None,
        cases: vec![],
    };
    assert!(!TestOracle::all_passing(&failing));
}

#[test]
fn test_failures_filter() {
    let summary = TestRunSummary {
        framework: TestFramework::CargoTest,
        total: 4,
        passed: 2,
        failed: 2,
        skipped: 0,
        errors: 0,
        duration_ms: None,
        cases: vec![
            TestCase {
                name: "test_a".to_string(),
                status: TestStatus::Passed,
                duration_ms: None,
                error_message: None,
                file: None,
                line: None,
                stdout: None,
            },
            TestCase {
                name: "test_b".to_string(),
                status: TestStatus::Failed,
                duration_ms: None,
                error_message: Some("assert failed".to_string()),
                file: None,
                line: None,
                stdout: None,
            },
            TestCase {
                name: "test_c".to_string(),
                status: TestStatus::Passed,
                duration_ms: None,
                error_message: None,
                file: None,
                line: None,
                stdout: None,
            },
            TestCase {
                name: "test_d".to_string(),
                status: TestStatus::Failed,
                duration_ms: None,
                error_message: Some("panic".to_string()),
                file: None,
                line: None,
                stdout: None,
            },
        ],
    };

    let failures = TestOracle::failures(&summary);
    assert_eq!(failures.len(), 2);
    assert_eq!(failures[0].name, "test_b");
    assert_eq!(failures[1].name, "test_d");
}

#[test]
fn test_fix_prompt_generation() {
    let analysis = FailureAnalysis {
        test_name: "math::test_divide".to_string(),
        error_type: ErrorType::AssertionFailure,
        error_message: "assertion failed: `(left == right)`: left = 0, right = 1".to_string(),
        source_file: Some("src/math.rs".to_string()),
        source_line: Some(42),
        likely_cause: "Assertion failed".to_string(),
        fix_strategy: FixStrategy::UpdateAssertion,
        related_symbols: vec!["divide".to_string()],
    };

    let prompt = TestOracle::fix_prompt(&analysis);
    assert!(prompt.contains("math::test_divide"));
    assert!(prompt.contains("src/math.rs"));
    assert!(prompt.contains("line 42"));
    assert!(prompt.contains("assertion"));
    assert!(prompt.contains("Instructions"));
    assert!(prompt.contains("divide"));
}

#[test]
fn test_detect_framework_cargo() {
    let output = r#"
running 3 tests
test core::test_add ... ok
test core::test_sub ... ok
test core::test_mul ... FAILED

test result: FAILED. 2 passed; 1 failed; 0 ignored; 0 measured; 0 filtered out; finished in 0.15s
"#;
    assert_eq!(
        TestOracle::detect_framework(output),
        TestFramework::CargoTest
    );
}

#[test]
fn test_detect_framework_pytest() {
    let output = r#"
PASSED test_math.py::test_add
FAILED test_math.py::test_divide - ZeroDivisionError: division by zero
========================= 1 failed, 1 passed in 0.12s =========================
"#;
    assert_eq!(TestOracle::detect_framework(output), TestFramework::Pytest);
}

#[test]
fn test_detect_framework_jest() {
    let output = r#"
PASS src/math.spec.ts
  ✓ adds numbers (5 ms)
FAIL src/divide.spec.ts
  ✕ divides by zero (10 ms)
    Expected: "error"
    Received: undefined

Tests: 1 failed, 1 passed, 2 total
Time: 1.234 s
"#;
    assert_eq!(TestOracle::detect_framework(output), TestFramework::Jest);
}

#[test]
fn test_detect_framework_go() {
    let output = r#"
=== RUN   TestAdd
--- PASS: TestAdd (0.00s)
=== RUN   TestDivide
    math_test.go:15: expected no error, got division by zero
--- FAIL: TestDivide (0.01s)
FAIL
exit status 1
FAIL	example.com/math	0.015s
"#;
    assert_eq!(TestOracle::detect_framework(output), TestFramework::GoTest);
}

#[test]
fn tdd_aborts_past_max_iterations() {
    let mut cycle = TestOracle::start_tdd("t", 0);
    let summary = TestRunSummary {
        framework: TestFramework::Unknown,
        total: 0,
        passed: 0,
        failed: 0,
        skipped: 0,
        errors: 0,
        duration_ms: None,
        cases: vec![],
    };
    let action = TestOracle::advance_tdd(&mut cycle, &summary);
    assert_eq!(action, "TDD cycle aborted: exceeded maximum iterations (0)");
    assert_eq!(cycle.phase, TddPhase::Complete);
    assert_eq!(cycle.history.len(), 1);
}

#[test]
fn suggest_fix_logic_hint_exact() {
    let fix = TestOracle::suggest_fix(&ErrorType::LogicError, "expected 5, got 0");
    assert_eq!(
        fix,
        FixStrategy::FixLogic { hint: "Expected `5` but got `0` \u{2014} check the computation logic".to_string() }
    );
}

#[test]
fn analyze_failure_collects_symbols_once() {
    let case = TestCase {
        name: "t".to_string(),
        status: TestStatus::Failed,
        duration_ms: None,
        error_message: Some("cannot find `Foo` and `Foo` in 'bar' or 'x'".to_string()),
        file: None,
        line: None,
        stdout: None,
    };
    let a: FailureAnalysis = TestOracle::analyze_failure(&case);
    assert_eq!(a.error_type, ErrorType::MissingImport);
    assert_eq!(a.related_symbols, vec!["Foo".to_string(), "bar".to_string()]);
    assert_eq!(a.likely_cause, "Missing import or unresolved symbol: `Foo`");
}

#[test]
fn test_prompt_uses_language_hint() {
    let p = TestOracle::test_prompt("parse dates", "Rust");
    assert!(p.starts_with("## Write a Failing Test (TDD Red Phase)\n\n**Feature:** parse dates\n**Language:** Rust\n"));
    assert!(p.contains("Use `#[test]`"));
}

#[test]
fn unknown_output_has_no_cases() {
    let s = TestOracle::parse_output("nothing to see");
    assert_eq!(s.framework, TestFramework::Unknown);
    assert_eq!(s.total, 0);
}

#[test]
fn classify_error_ignores_ascii_case() {
    let a = TestOracle::classify_error("AssertionError: 2 != 3");
    let b = TestOracle::classify_error("assertionerror: 2 != 3");
    let c = TestOracle::classify_error("ASSERTIONERROR: 2 != 3");
    assert_eq!(a, ErrorType::AssertionFailure);
    assert_eq!(a, b);
    assert_eq!(b, c);
}
