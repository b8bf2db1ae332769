use argentor_agent::evaluation::{
    count_results, lead_qualification_suite, support_quality_suite, ticket_routing_suite,
    token_overlap, validate_schema, ContainsEvaluator, EvalCase, EvalFramework, EvalSuite,
    Evaluator, ExactMatchEvaluator, JsonSchemaEvaluator, Ratio,
};
use argentor_agent::structured_output::JsonValue;

/// The score as the original reports it: the mean of the fractions.
fn score(parts: &[Ratio]) -> f32 {
    let sum: f32 = parts.iter().map(|r| r.num as f32 / r.den as f32).sum();
    sum / parts.len() as f32
}

fn s(t: &str) -> JsonValue {
    JsonValue::Str(t.to_string())
}

fn object(members: Vec<(&str, JsonValue)>) -> JsonValue {
    JsonValue::Object(members.into_iter().map(|(k, v)| (k.to_string(), v)).collect())
}

fn person_schema() -> JsonValue {
    object(vec![
        ("properties", object(vec![("age", object(vec![])), ("name", object(vec![]))])),
        ("type", s("object")),
    ])
}

#[test]
fn test_eval_case_new_defaults() {
    let c = EvalCase::new("c1", "prompt", "cat");
    assert_eq!(c.id, "c1");
    assert_eq!(c.input, "prompt");
    assert_eq!(c.category, "cat");
    assert!(c.expected_output.is_none());
    assert!(c.expected_contains.is_empty());
    assert!(c.expected_not_contains.is_empty());
    assert!(c.expected_json_schema.is_none());
    assert!(c.reference_answer.is_none());
    assert!(c.tags.is_empty());
    assert!(c.max_tokens.is_none());
}

#[test]
fn test_eval_suite_builder() {
    let suite = EvalSuite::new("s1", "Suite 1", "desc")
        .with_case(EvalCase::new("c1", "q1", "cat"))
        .with_case(EvalCase::new("c2", "q2", "cat"));
    assert_eq!(suite.cases.len(), 2);
    assert_eq!(suite.id, "s1");
}

#[test]
fn test_exact_match_pass() {
    let e = ExactMatchEvaluator;
    let mut c = EvalCase::new("c1", "q", "cat");
    c.expected_output = Some("hello world".to_string());
    let r = e.evaluate(&c, "hello world");
    assert!(r.passed);
    assert!((score(&r.score) - 1.0).abs() < f32::EPSILON);
}

#[test]
fn test_exact_match_fail() {
    let e = ExactMatchEvaluator;
    let mut c = EvalCase::new("c1", "q", "cat");
    c.expected_output = Some("hello world".to_string());
    let r = e.evaluate(&c, "hello");
    assert!(!r.passed);
    assert!((score(&r.score) - 0.0).abs() < f32::EPSILON);
    assert!(!r.errors.is_empty());
}

#[test]
fn test_exact_match_no_expected() {
    let e = ExactMatchEvaluator;
    let c = EvalCase::new("c1", "q", "cat");
    let r = e.evaluate(&c, "anything");
    assert!(r.passed);
    assert!((score(&r.score) - 1.0).abs() < f32::EPSILON);
}

#[test]
fn test_contains_pass() {
    let e = ContainsEvaluator;
    let mut c = EvalCase::new("c1", "q", "cat");
    c.expected_contains = vec!["hello".to_string(), "world".to_string()];
    c.expected_not_contains = vec!["error".to_string()];
    let r = e.evaluate(&c, "Hello World!");
    assert!(r.passed);
    assert!((score(&r.score) - 1.0).abs() < f32::EPSILON);
}

#[test]
fn test_contains_missing_substring() {
    let e = ContainsEvaluator;
    let mut c = EvalCase::new("c1", "q", "cat");
    c.expected_contains = vec!["hello".to_string(), "missing".to_string()];
    let r = e.evaluate(&c, "hello world");
    assert!(!r.passed);
    assert!(score(&r.score) < 1.0);
    assert!(r.errors.iter().any(|e| e.contains("missing")));
}

#[test]
fn test_contains_forbidden_present() {
    let e = ContainsEvaluator;
    let mut c = EvalCase::new("c1", "q", "cat");
    c.expected_not_contains = vec!["bad".to_string()];
    let r = e.evaluate(&c, "this is bad");
    assert!(!r.passed);
    assert!(r.errors.iter().any(|e| e.contains("forbidden")));
}

#[test]
fn test_contains_empty_constraints() {
    let e = ContainsEvaluator;
    let c = EvalCase::new("c1", "q", "cat");
    let r = e.evaluate(&c, "anything");
    assert!(r.passed);
    assert!((score(&r.score) - 1.0).abs() < f32::EPSILON);
}

#[test]
fn test_json_schema_valid_object() {
    let e = JsonSchemaEvaluator;
    let mut c = EvalCase::new("c1", "q", "cat");
    c.expected_json_schema = Some(person_schema());
    let r = e.evaluate(&c, r#"{"name":"Alice","age":30}"#);
    assert!(r.passed);
    assert!((score(&r.score) - 1.0).abs() < f32::EPSILON);
}

#[test]
fn test_json_schema_missing_property() {
    let e = JsonSchemaEvaluator;
    let mut c = EvalCase::new("c1", "q", "cat");
    c.expected_json_schema = Some(person_schema());
    let r = e.evaluate(&c, r#"{"name":"Alice"}"#);
    assert!(!r.passed);
    assert!(r.errors.iter().any(|e| e.contains("schema")));
}

#[test]
fn test_json_schema_not_json() {
    let e = JsonSchemaEvaluator;
    let c = EvalCase::new("c1", "q", "cat");
    let r = e.evaluate(&c, "not json at all");
    assert!(!r.passed);
    assert!((score(&r.score) - 0.0).abs() < f32::EPSILON);
}

#[test]
fn test_json_schema_array_type() {
    let e = JsonSchemaEvaluator;
    let mut c = EvalCase::new("c1", "q", "cat");
    c.expected_json_schema = Some(object(vec![("type", s("array"))]));
    let r = e.evaluate(&c, "[1,2,3]");
    assert!(r.passed);
}

#[test]
fn test_json_schema_wrong_type() {
    let e = JsonSchemaEvaluator;
    let mut c = EvalCase::new("c1", "q", "cat");
    c.expected_json_schema = Some(object(vec![("type", s("string"))]));
    let r = e.evaluate(&c, "42");
    assert!(!r.passed);
}

// ---------------------------------------------------------------------------
// Further cases
// ---------------------------------------------------------------------------

#[test]
fn exact_match_error_quotes_both_texts() {
    let mut c = EvalCase::new("c9", "q", "cat");
    c.expected_output = Some("yes".to_string());
    let r = ExactMatchEvaluator.evaluate(&c, "no");
    assert_eq!(r.case_id, "c9");
    assert_eq!(r.actual_output, "no");
    assert_eq!(r.errors, vec!["Expected exact output 'yes', got 'no'".to_string()]);
    assert_eq!(r.score, vec![Ratio { num: 0, den: 1 }]);
    assert_eq!(r.details, vec![("exact_match".to_string(), Ratio { num: 0, den: 1 })]);
}

#[test]
fn contains_scores_are_exact_shares() {
    let mut c = EvalCase::new("c1", "q", "cat");
    c.expected_contains = vec!["alpha".to_string(), "BETA".to_string(), "gamma".to_string()];
    c.expected_not_contains = vec!["delta".to_string(), "eps".to_string()];
    let r = ContainsEvaluator.evaluate(&c, "Alpha beta EPSILON");
    assert_eq!(r.score, vec![Ratio { num: 2, den: 3 }, Ratio { num: 1, den: 2 }]);
    assert_eq!(
        r.errors,
        vec![
            "Missing expected substring: 'gamma'".to_string(),
            "Found forbidden substring: 'eps'".to_string(),
        ]
    );
    assert!(!r.passed);
    assert_eq!(r.details[0].0, "contains");
    assert_eq!(r.details[1].0, "not_contains");
}

#[test]
fn json_schema_scores_half_on_shape_mismatch() {
    let mut c = EvalCase::new("c1", "q", "cat");
    c.expected_json_schema = Some(object(vec![("type", s("boolean"))]));
    let r = JsonSchemaEvaluator.evaluate(&c, "\"text\"");
    assert!(!r.passed);
    assert_eq!(r.score, vec![Ratio { num: 1, den: 1 }, Ratio { num: 0, den: 1 }]);
    assert!((score(&r.score) - 0.5).abs() < f32::EPSILON);
    assert_eq!(r.errors, vec!["Output does not match expected JSON schema".to_string()]);
}

#[test]
fn schema_without_known_type_accepts_anything() {
    let schema = object(vec![("type", s("integer"))]);
    assert!(validate_schema(&JsonValue::Null, &schema));
    assert!(validate_schema(&JsonValue::Bool(true), &object(vec![])));
    assert!(!validate_schema(&JsonValue::Null, &object(vec![("type", s("object"))])));
    assert!(validate_schema(&object(vec![]), &object(vec![("type", s("object"))])));
}

#[test]
fn token_overlap_counts_distinct_long_words() {
    // "the" is three bytes long and so a token; "is" and "a" are not.
    let (shared, only_a, in_b) = token_overlap("The fox is a FOX fox", "the lazy fox");
    assert_eq!((shared, only_a, in_b), (2, 0, 3));
    let (shared, only_a, in_b) = token_overlap("alpha beta gamma delta", "one two three four five");
    assert_eq!((shared, only_a, in_b), (0, 4, 5));
    assert_eq!(token_overlap("", "ab cd"), (0, 0, 0));
}

#[test]
fn test_ticket_routing_suite_structure() {
    let suite = ticket_routing_suite();
    assert_eq!(suite.id, "ticket_routing");
    assert_eq!(suite.cases.len(), 5);
    for case in &suite.cases {
        assert!(!case.id.is_empty());
        assert!(!case.input.is_empty());
        assert!(!case.expected_contains.is_empty());
        assert!(case.reference_answer.is_some());
        assert_eq!(case.category, "routing");
    }
}

#[test]
fn test_support_quality_suite_structure() {
    let suite = support_quality_suite();
    assert_eq!(suite.id, "support_quality");
    assert_eq!(suite.cases.len(), 5);
    for case in &suite.cases {
        assert!(!case.id.is_empty());
        assert!(!case.input.is_empty());
        assert!(!case.expected_contains.is_empty());
        assert!(case.reference_answer.is_some());
        assert_eq!(case.category, "quality");
    }
}

#[test]
fn test_lead_qualification_suite_structure() {
    let suite = lead_qualification_suite();
    assert_eq!(suite.id, "lead_qualification");
    assert_eq!(suite.cases.len(), 5);
    for case in &suite.cases {
        assert!(!case.id.is_empty());
        assert!(!case.input.is_empty());
        assert!(!case.expected_contains.is_empty());
        assert!(case.reference_answer.is_some());
        assert_eq!(case.category, "qualification");
    }
}

#[test]
fn suites_carry_domain_metadata_and_case_data() {
    let suite = ticket_routing_suite();
    assert_eq!(suite.metadata, vec![("domain".to_string(), "xcapit_sff".to_string())]);
    assert_eq!(suite.cases[4].expected_contains, vec!["comisión".to_string()]);
    assert_eq!(suite.cases[3].expected_not_contains.len(), 0);
    let suite = support_quality_suite();
    assert_eq!(suite.cases[4].tags, vec!["security", "urgent", "escalation"]);
    let suite = lead_qualification_suite();
    assert_eq!(suite.cases[2].id, "lq-003");
    // A reply that routes to card support passes the first routing case.
    let r = ContainsEvaluator.evaluate(
        &ticket_routing_suite().cases[0],
        "Te derivo a Soporte de TARJETA de inmediato",
    );
    assert!(r.passed);
}

#[test]
fn test_framework_register_and_get() {
    let mut fw = EvalFramework::new();
    assert_eq!(fw.suite_count(), 0);
    fw.register_suite(EvalSuite::new("s1", "Suite", "d"));
    assert_eq!(fw.suite_count(), 1);
    assert!(fw.get_suite("s1").is_some());
    assert!(fw.get_suite("s2").is_none());
}

#[test]
fn registering_the_same_id_replaces_the_suite() {
    let mut fw = EvalFramework::new();
    fw.register_suite(EvalSuite::new("s1", "First", "d"));
    fw.register_suite(EvalSuite::new("s2", "Other", "d"));
    fw.register_suite(EvalSuite::new("s1", "Second", "d"));
    assert_eq!(fw.suite_count(), 2);
    assert_eq!(fw.get_suite("s1").unwrap().name, "Second");
    assert_eq!(fw.get_suite("s2").unwrap().name, "Other");
}

/// Jaccard similarity from the overlap counts, as the original computes it.
fn similarity(a: &str, b: &str) -> f32 {
    let (shared, only_a, in_b) = token_overlap(a, b);
    let union = only_a + in_b;
    if union == 0 {
        1.0
    } else {
        shared as f32 / union as f32
    }
}

#[test]
fn test_token_similarity_identical() {
    let s = similarity("hello world foo", "hello world foo");
    assert!((s - 1.0).abs() < f32::EPSILON);
}

#[test]
fn test_token_similarity_no_overlap() {
    let s = similarity("alpha beta gamma", "delta epsilon zeta");
    assert!((s - 0.0).abs() < f32::EPSILON);
}

#[test]
fn test_token_similarity_both_empty() {
    let s = similarity("", "");
    assert!((s - 1.0).abs() < f32::EPSILON);
}

#[test]
fn test_validate_schema_boolean_type() {
    let schema = object(vec![("type", s("boolean"))]);
    assert!(validate_schema(&JsonValue::Bool(true), &schema));
    assert!(!validate_schema(&JsonValue::Number { text: "42".to_string(), integer: true }, &schema));
}

#[test]
fn test_validate_schema_number_type() {
    let schema = object(vec![("type", s("number"))]);
    assert!(validate_schema(&JsonValue::Number { text: "3.14".to_string(), integer: false }, &schema));
    assert!(!validate_schema(&s("nope"), &schema));
}

#[test]
fn test_validate_schema_unknown_type_passes() {
    let schema = object(vec![("type", s("unknown_type"))]);
    assert!(validate_schema(&s("anything"), &schema));
}

#[test]
fn run_counts_by_category() {
    let mut c1 = EvalCase::new("c1", "q1", "alpha");
    c1.expected_output = Some("a".to_string());
    let mut c2 = EvalCase::new("c2", "q2", "beta");
    c2.expected_output = Some("b".to_string());
    let mut c3 = EvalCase::new("c3", "q3", "alpha");
    c3.expected_output = Some("c".to_string());
    let results = vec![
        ExactMatchEvaluator.evaluate(&c1, "a"),
        ExactMatchEvaluator.evaluate(&c2, "b"),
        ExactMatchEvaluator.evaluate(&c3, "wrong"),
    ];
    let counts = count_results(&[c1, c2, c3], &results);
    assert_eq!((counts.total_cases, counts.passed, counts.failed), (3, 2, 1));
    let cats: Vec<(&str, usize, usize)> =
        counts.by_category.iter().map(|c| (c.category.as_str(), c.total, c.passed)).collect();
    assert_eq!(cats, vec![("alpha", 2, 1), ("beta", 1, 1)]);
}
