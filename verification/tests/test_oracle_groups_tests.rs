use argentor_agent::test_oracle::{go_detail_from, jest_case_from, TestOracle, TestStatus};

fn groups(v: &[Option<&str>]) -> Vec<Option<String>> {
    v.iter().map(|o| o.map(|s| s.to_string())).collect()
}

fn chars(s: &str) -> Vec<char> {
    s.chars().collect()
}

fn text(v: &[char]) -> String {
    v.iter().collect()
}

#[test]
fn cargo_case_from_groups_reads_status_and_block() {
    let g = groups(&[Some("test a::b ... FAILED"), Some("a::b"), Some(" FAILED ")]);
    let blocks = vec![(chars("a::b"), chars("thread 'a::b' panicked at src/x.rs:7:5:\nboom"))];
    let c = TestOracle::cargo_case_from(&g, &blocks);
    assert_eq!(c.name, "a::b");
    assert_eq!(c.status, TestStatus::Failed);
    assert!(c.stdout.is_some());
    let g2 = groups(&[Some("test z ... ignored"), Some("z"), Some("ignored")]);
    let c2 = TestOracle::cargo_case_from(&g2, &blocks);
    assert_eq!(c2.status, TestStatus::Skipped);
    assert!(c2.stdout.is_none());
    assert!(c2.error_message.is_none());
}

#[test]
fn panic_failure_prefers_the_older_format() {
    let old = Some(groups(&[Some("all"), Some("boom"), Some("src/a.rs"), Some("12")]));
    let (m, f, l) = TestOracle::panic_failure_from(&old, &None, &chars("whatever"));
    assert_eq!(m.as_deref(), Some("boom"));
    assert_eq!(f.as_deref(), Some("src/a.rs"));
    assert_eq!(l, Some(12));
    let new = Some(groups(&[Some("all"), Some("src/b.rs"), Some("3"), Some("  bad  ")]));
    let (m, f, l) = TestOracle::panic_failure_from(&None, &new, &chars("x"));
    assert_eq!(m.as_deref(), Some("bad"));
    assert_eq!(f.as_deref(), Some("src/b.rs"));
    assert_eq!(l, Some(3));
    let (m, f, l) = TestOracle::panic_failure_from(&None, &None, &chars("  plain text \n"));
    assert_eq!(m.as_deref(), Some("plain text"));
    assert!(f.is_none() && l.is_none());
    let (m, _, _) = TestOracle::panic_failure_from(&None, &None, &chars("   "));
    assert!(m.is_none());
}

#[test]
fn pytest_case_from_groups_splits_file_and_name() {
    let g = groups(&[Some("x"), Some("FAILED"), Some("tests/t.py::test_div"), Some("ZeroDivisionError")]);
    let c = TestOracle::pytest_case_from(&g);
    assert_eq!(c.name, "test_div");
    assert_eq!(c.file.as_deref(), Some("tests/t.py"));
    assert_eq!(c.status, TestStatus::Failed);
    assert_eq!(c.error_message.as_deref(), Some("ZeroDivisionError"));
    let g2 = groups(&[Some("x"), Some("PASSED"), Some("plain"), None]);
    let c2 = TestOracle::pytest_case_from(&g2);
    assert_eq!(c2.name, "plain");
    assert!(c2.file.is_none());
}

#[test]
fn go_case_and_detail_from_groups() {
    let d = go_detail_from(&groups(&[Some("x"), Some("math_test.go"), Some("25"), Some("expected 5, got 0")]));
    assert_eq!(text(&d.0), "math_test.go");
    assert_eq!(text(&d.1), "expected 5, got 0");
    assert_eq!(d.2, 25);
    let after = vec![(chars("TestDivide"), d)];
    let g = groups(&[Some("x"), Some("FAIL"), Some("TestDivide"), Some("0.01")]);
    let c = TestOracle::go_case_from(&g, &after, &Vec::new());
    assert_eq!(c.status, TestStatus::Failed);
    assert_eq!(c.duration_ms, Some(10));
    assert_eq!(c.file.as_deref(), Some("math_test.go"));
    assert_eq!(c.line, Some(25));
}

#[test]
fn jest_case_from_groups() {
    let g = groups(&[Some("x"), Some(" adds numbers "), Some("5")]);
    let c = jest_case_from(&g, TestStatus::Passed, &Some(chars("src/math.spec.ts")));
    assert_eq!(c.name, "adds numbers");
    assert_eq!(c.duration_ms, Some(5));
    assert_eq!(c.file.as_deref(), Some("src/math.spec.ts"));
}

#[test]
fn suggestion_parts_from_groups() {
    let found = Some(groups(&[Some("x"), Some(" i32 "), Some(" String ")]));
    let (e, a) = TestOracle::type_mismatch_from(&found, &None);
    assert_eq!((text(&e), text(&a)), ("i32".to_string(), "String".to_string()));
    let got = Some(groups(&[Some("x"), Some("u8"), Some("u16")]));
    let (e, a) = TestOracle::type_mismatch_from(&None, &got);
    assert_eq!((text(&e), text(&a)), ("u8".to_string(), "u16".to_string()));
    let (e, _) = TestOracle::type_mismatch_from(&None, &None);
    assert_eq!(text(&e), "unknown");
    assert_eq!(text(&TestOracle::missing_item_from(&None, &None)), "unknown item");
    assert_eq!(text(&TestOracle::missing_item_from(&None, &Some(groups(&[Some("x"), Some("foo")])))), "foo");
    assert_eq!(
        text(&TestOracle::first_group_from(&None, &None, &Some(groups(&[Some("x"), Some("serde")])), "unknown")),
        "serde"
    );
    assert_eq!(text(&TestOracle::first_group_from(&None, &None, &None, "unknown")), "unknown");
    let hint = TestOracle::logic_hint_from(&Some(groups(&[Some("x"), Some(" 5"), Some("0 ")])));
    assert_eq!(text(&hint), "Expected `5` but got `0` \u{2014} check the computation logic");
}
