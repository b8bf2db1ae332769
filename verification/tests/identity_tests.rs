use argentor_agent::identity::{
    build_summary_prompt, split_for_compaction, AgentPersonality, SessionCommand, ThinkingLevel,
};

#[test]
fn default_personality_generates_prompt() {
    let p = AgentPersonality::default();
    let prompt = p.to_system_prompt();
    assert!(prompt.contains("Argentor"));
    assert!(prompt.contains("secure AI assistant"));
    assert!(prompt.contains("Never execute destructive"));
}

#[test]
fn personality_with_thinking_level() {
    let mut p = AgentPersonality::default();
    p.thinking_level = ThinkingLevel::High;
    let prompt = p.to_system_prompt();
    assert!(prompt.contains("Think deeply"));
}

#[test]
fn personality_with_language() {
    let mut p = AgentPersonality::default();
    p.style.language = Some("Spanish".into());
    let prompt = p.to_system_prompt();
    assert!(prompt.contains("Respond in Spanish"));
}

#[test]
fn personality_with_expertise() {
    let mut p = AgentPersonality::default();
    p.expertise = vec!["Rust".into(), "security".into()];
    let prompt = p.to_system_prompt();
    assert!(prompt.contains("Rust, security"));
}

#[test]
fn parse_status_command() {
    assert_eq!(SessionCommand::parse("/status"), SessionCommand::Status);
}

#[test]
fn parse_new_command() {
    assert_eq!(SessionCommand::parse("/new"), SessionCommand::New);
}

#[test]
fn parse_compact_command() {
    assert_eq!(SessionCommand::parse("/compact"), SessionCommand::Compact);
}

#[test]
fn parse_think_levels() {
    assert_eq!(
        SessionCommand::parse("/think off"),
        SessionCommand::Think(ThinkingLevel::Off)
    );
    assert_eq!(
        SessionCommand::parse("/think low"),
        SessionCommand::Think(ThinkingLevel::Low)
    );
    assert_eq!(
        SessionCommand::parse("/think medium"),
        SessionCommand::Think(ThinkingLevel::Medium)
    );
    assert_eq!(
        SessionCommand::parse("/think high"),
        SessionCommand::Think(ThinkingLevel::High)
    );
    assert_eq!(
        SessionCommand::parse("/think 2"),
        SessionCommand::Think(ThinkingLevel::Medium)
    );
}

#[test]
fn parse_other_commands() {
    assert_eq!(SessionCommand::parse("/usage"), SessionCommand::Usage);
    assert_eq!(SessionCommand::parse("/skills"), SessionCommand::Skills);
    assert_eq!(SessionCommand::parse("/audit"), SessionCommand::Audit);
    assert_eq!(SessionCommand::parse("/help"), SessionCommand::Help);
    assert_eq!(SessionCommand::parse("/reset"), SessionCommand::Reset);
}

#[test]
fn parse_not_a_command() {
    assert_eq!(SessionCommand::parse("hello"), SessionCommand::NotACommand);
    assert_eq!(
        SessionCommand::parse("what is /status?"),
        SessionCommand::NotACommand
    );
}

#[test]
fn parse_unknown_slash_command() {
    assert_eq!(
        SessionCommand::parse("/foobar"),
        SessionCommand::NotACommand
    );
}

#[test]
fn parse_case_insensitive() {
    assert_eq!(SessionCommand::parse("/STATUS"), SessionCommand::Status);
    assert_eq!(
        SessionCommand::parse("/Think High"),
        SessionCommand::Think(ThinkingLevel::High)
    );
}

#[test]
fn help_text_not_empty() {
    let help = SessionCommand::help_text();
    assert!(help.contains("/status"));
    assert!(help.contains("/compact"));
    assert!(help.contains("/think"));
}

#[test]
fn default_prompt_exact_text() {
    let p = AgentPersonality::default();
    let expected = "You are Argentor, a secure AI assistant.\n\nHelp users accomplish tasks using the available tools. Each tool runs in a sandboxed environment with specific permissions. Always explain what you're doing before using a tool.\n\nCommunication style: professional and concise.\n\nCONSTRAINTS (never violate these):\n\n- Never execute destructive operations without explicit user confirmation\n\n- Never expose API keys, passwords, or sensitive credentials";
    assert_eq!(p.to_system_prompt(), expected);
}

#[test]
fn think_without_argument_and_unknown_level_are_off() {
    assert_eq!(SessionCommand::parse("/think"), SessionCommand::Think(ThinkingLevel::Off));
    assert_eq!(SessionCommand::parse("  /think   extreme  "), SessionCommand::Think(ThinkingLevel::Off));
    assert_eq!(SessionCommand::parse("/think med"), SessionCommand::Think(ThinkingLevel::Medium));
    assert_eq!(SessionCommand::from_words("/think", Some("3")), SessionCommand::Think(ThinkingLevel::High));
}

#[test]
fn compactor_splits_correctly() {
    let messages: Vec<i32> = (1..=10).collect();
    let (to_summarize, to_keep) = split_for_compaction(3, &messages);
    assert_eq!(to_summarize, vec![1, 2, 3, 4, 5, 6, 7]);
    assert_eq!(to_keep, vec![8, 9, 10]);
}

#[test]
fn compactor_keeps_all_when_few_messages() {
    let messages: Vec<i32> = (1..=5).collect();
    let (to_summarize, to_keep) = split_for_compaction(10, &messages);
    assert!(to_summarize.is_empty());
    assert_eq!(to_keep, vec![1, 2, 3, 4, 5]);
}

#[test]
fn summary_prompt_includes_messages() {
    let msgs = vec!["Hello".to_string(), "How are you?".to_string()];
    let prompt = build_summary_prompt(&msgs);
    assert!(prompt.contains("[Message 1]: Hello"));
    assert!(prompt.contains("[Message 2]: How are you?"));
}

#[test]
fn summary_prompt_exact_text() {
    let prompt = build_summary_prompt(&["a".to_string()]);
    assert_eq!(
        prompt,
        "Summarize the following conversation history into a concise summary. Preserve key decisions, important context, and any pending tasks. Be thorough but concise:\n\n[Message 1]: a\n"
    );
    let empty: Vec<String> = Vec::new();
    assert!(build_summary_prompt(&empty).ends_with("concise:\n\n"));
}

#[test]
fn compaction_split_at_exact_size_keeps_everything() {
    let messages = vec!["x".to_string(), "y".to_string()];
    let (a, b) = split_for_compaction(2, &messages);
    assert!(a.is_empty());
    assert_eq!(b, messages);
    let (a, b) = split_for_compaction(0, &messages);
    assert_eq!(a, messages);
    assert!(b.is_empty());
}
