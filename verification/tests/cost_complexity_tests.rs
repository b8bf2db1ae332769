use argentor_agent::cost_complexity::{estimate_complexity, TaskComplexity};

#[test]
fn test_complexity_simple_input() {
    assert_eq!(estimate_complexity("hi", 0, 0), TaskComplexity::Simple);
}

#[test]
fn test_complexity_moderate_by_length() {
    let input = "a".repeat(150);
    assert_eq!(estimate_complexity(&input, 0, 0), TaskComplexity::Moderate);
}

#[test]
fn test_complexity_moderate_by_tools() {
    assert_eq!(estimate_complexity("do it", 1, 0), TaskComplexity::Moderate);
}

#[test]
fn test_complexity_complex_by_length() {
    let input = "a".repeat(600);
    assert_eq!(estimate_complexity(&input, 0, 0), TaskComplexity::Complex);
}

#[test]
fn test_complexity_complex_by_multistep() {
    assert_eq!(estimate_complexity("first do X then do Y", 0, 0), TaskComplexity::Complex);
}

#[test]
fn test_complexity_complex_by_many_tools() {
    assert_eq!(estimate_complexity("run it", 5, 0), TaskComplexity::Complex);
}

#[test]
fn test_complexity_complex_by_history() {
    assert_eq!(estimate_complexity("run it", 0, 15), TaskComplexity::Complex);
}

#[test]
fn test_complexity_critical() {
    assert_eq!(estimate_complexity("This is a critical production issue", 0, 0), TaskComplexity::Critical);
}

#[test]
fn test_complexity_critical_security_audit() {
    assert_eq!(estimate_complexity("Run a full security audit", 0, 0), TaskComplexity::Critical);
}

#[test]
fn complexity_counts_bytes_not_characters() {
    let wide = "é".repeat(60);
    assert_eq!(estimate_complexity(&wide, 0, 0), TaskComplexity::Moderate);
    assert_eq!(estimate_complexity("please analyze and compare", 0, 0), TaskComplexity::Complex);
    assert_eq!(estimate_complexity("please design it", 0, 3), TaskComplexity::Moderate);
}
