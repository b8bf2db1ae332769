use argentor_agent::adaptive_memory::{
    contains_factual_indicator, extract_keywords, fact_sentences_of, has_fact_verb_lowered,
    keyword_matches, tool_pattern_text, MemoryKind,
};

#[test]
fn test_memory_kind_equality() {
    assert_eq!(MemoryKind::Fact, MemoryKind::Fact);
    assert_eq!(MemoryKind::Preference, MemoryKind::Preference);
    assert_eq!(MemoryKind::ToolPattern, MemoryKind::ToolPattern);
    assert_eq!(MemoryKind::Summary, MemoryKind::Summary);
    assert_eq!(MemoryKind::ErrorResolution, MemoryKind::ErrorResolution);
    assert_ne!(MemoryKind::Fact, MemoryKind::Preference);
    assert_ne!(MemoryKind::ToolPattern, MemoryKind::Summary);
}

#[test]
fn test_contains_factual_indicator() {
    assert!(contains_factual_indicator("Rust is a systems language"));
    assert!(contains_factual_indicator("The function returns a value"));
    assert!(contains_factual_indicator("This requires admin access"));
    assert!(contains_factual_indicator("The list contains three items"));
    assert!(!contains_factual_indicator("Hello world"));
    assert!(!contains_factual_indicator("Just a random phrase"));
}

#[test]
fn fact_verbs_need_a_following_space() {
    assert!(contains_factual_indicator("It WAS late"));
    assert!(!has_fact_verb_lowered("this"));
    assert!(has_fact_verb_lowered("this is"));
}

#[test]
fn test_memory_entry_extract_keywords() {
    let keywords = extract_keywords("Rust is a fast systems language!");
    assert!(keywords.contains(&"rust".to_string()));
    assert!(keywords.contains(&"fast".to_string()));
    assert!(keywords.contains(&"systems".to_string()));
    assert!(keywords.contains(&"language".to_string()));
    assert!(!keywords.contains(&"is".to_string()));
    assert!(!keywords.contains(&"a".to_string()));
}

#[test]
fn test_memory_entry_extract_keywords_empty() {
    let keywords = extract_keywords("");
    assert!(keywords.is_empty());
}

#[test]
fn test_memory_entry_extract_keywords_deduplicates() {
    let keywords = extract_keywords("rust rust rust language language");
    let rust_count = keywords.iter().filter(|k| *k == "rust").count();
    assert_eq!(rust_count, 1);
}

#[test]
fn keywords_in_order_of_first_appearance() {
    let keywords = extract_keywords("Tokio-based SERVER; server_config, tokio!");
    assert_eq!(keywords, vec!["tokio", "based", "server", "config"]);
}

#[test]
fn fact_sentences_are_trimmed_and_filtered() {
    let response = "The Rust compiler is very fast. It produces optimized binaries. Ok.";
    let facts = fact_sentences_of(response);
    assert_eq!(facts, vec!["The Rust compiler is very fast", "It produces optimized binaries"]);
    assert!(fact_sentences_of("Hi. Ok. Sure.").is_empty());
    // Long enough but without a fact verb.
    assert!(fact_sentences_of("Nothing here to see, move along please").is_empty());
}

#[test]
fn tool_pattern_texts() {
    assert_eq!(tool_pattern_text("list files", "shell", true), "Tool 'shell' worked well for: list files");
    assert_eq!(tool_pattern_text("fetch", "http", false), "Tool 'http' failed for: fetch");
}

#[test]
fn keyword_hits_count_query_keywords_found() {
    let q = extract_keywords("server port configuration details");
    let e = extract_keywords("The server runs on port 8080 normally");
    assert_eq!(keyword_matches(&q, &e), 2);
    assert_eq!(keyword_matches(&Vec::new(), &e), 0);
    assert_eq!(keyword_matches(&e, &e), e.len());
}
