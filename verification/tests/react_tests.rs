use argentor_agent::react::{
    extract_json_block, parse_action, parse_step_parts, reflection_prompt_text, should_continue_with,
    step_line_text, system_prompt_text, trace_summary_text, ReActAction, ReActOutcome,
};
use argentor_agent::structured_output::JsonValue;

fn s(t: &str) -> JsonValue {
    JsonValue::Str(t.to_string())
}

#[test]
fn action_variants_terminality_and_text() {
    let tool = ReActAction::ToolUse { tool_name: "search".to_string(), arguments: JsonValue::Null };
    assert!(!tool.is_terminal());
    assert_eq!(tool.to_string(), "ToolUse(search)");
    assert!(ReActAction::Respond { content: "x".to_string() }.is_terminal());
    assert!(ReActAction::Clarify { question: "?".to_string() }.is_terminal());
    let d = ReActAction::Decompose { subtasks: vec!["step 1".to_string(), "step 2".to_string()] };
    assert!(!d.is_terminal());
    assert_eq!(d.to_string(), "Decompose(2 subtasks)");
    assert!(!ReActAction::Think.is_terminal());
    assert_eq!(ReActAction::Think.to_string(), "Think");
}

#[test]
fn json_block_from_fences_and_braces() {
    assert_eq!(extract_json_block("  {\"a\": 1}  "), "{\"a\": 1}");
    assert_eq!(extract_json_block("text\n```json\n {\"a\": 1} \n```\nmore"), "{\"a\": 1}");
    assert_eq!(extract_json_block("```\n{\"b\": 2}\n```"), "{\"b\": 2}");
    // A plain fence whose content is not an object is skipped.
    assert_eq!(extract_json_block("```\nhello\n``` then {\"c\": 3} end"), "{\"c\": 3}");
    assert_eq!(extract_json_block("no json here"), "no json here");
    assert_eq!(extract_json_block("} before {"), "} before {");
}

#[test]
fn step_from_valid_json() {
    let p = parse_step_parts(
        r#"{"thought": "Let me analyze this", "action": {"type": "think"}, "confidence": 0.9}"#,
    )
    .unwrap();
    assert_eq!(p.thought, "Let me analyze this");
    assert!(matches!(p.action, ReActAction::Think));
    assert_eq!(p.confidence, Some("0.9".to_string()));
    assert_eq!(p.reflection, None);
}

#[test]
fn step_with_tool_use() {
    let p = parse_step_parts(
        r#"{"thought": "search", "action": {"type": "tool_use", "tool_name": "file_search",
            "arguments": {"path": "/src", "pattern": "*.rs"}}, "confidence": 0.85}"#,
    )
    .unwrap();
    match &p.action {
        ReActAction::ToolUse { tool_name, arguments } => {
            assert_eq!(tool_name, "file_search");
            assert_eq!(arguments.get("path"), Some(&s("/src")));
            assert_eq!(arguments.get("pattern"), Some(&s("*.rs")));
        },
        other => panic!("Expected ToolUse, got {other:?}"),
    }
}

#[test]
fn step_that_is_not_json_is_a_thought() {
    let p = parse_step_parts("  I'm not sure what to do.  ").unwrap();
    assert_eq!(p.thought, "I'm not sure what to do.");
    assert!(matches!(p.action, ReActAction::Think));
    assert_eq!(p.confidence, None);
}

#[test]
fn step_inside_code_fence() {
    let p = parse_step_parts(
        "Here is my reasoning:\n```json\n{\"thought\": \"Inside a code fence\", \"action\": {\"type\": \"think\"}}\n```\nThat's my step.",
    )
    .unwrap();
    assert_eq!(p.thought, "Inside a code fence");
}

#[test]
fn step_respond_clarify_decompose() {
    let p = parse_step_parts(r#"{"action": {"type": "respond", "content": "The answer is 42."}}"#).unwrap();
    assert!(p.action.is_terminal());
    assert_eq!(p.thought, "");
    let p = parse_step_parts(r#"{"action": {"type": "clarify", "question": "Which file?"}, "reflection": "hm"}"#)
        .unwrap();
    match &p.action {
        ReActAction::Clarify { question } => assert_eq!(question, "Which file?"),
        other => panic!("Expected Clarify, got {other:?}"),
    }
    assert_eq!(p.reflection, Some("hm".to_string()));
    let p = parse_step_parts(r#"{"action": {"type": "decompose", "subtasks": ["read file", 3, "report"]}}"#)
        .unwrap();
    match &p.action {
        ReActAction::Decompose { subtasks } => {
            assert_eq!(subtasks, &vec!["read file".to_string(), "report".to_string()]);
        },
        other => panic!("Expected Decompose, got {other:?}"),
    }
}

#[test]
fn step_errors() {
    let e = parse_step_parts(r#"{"thought": "hmm", "action": {"type": "fly_to_moon"}}"#).unwrap_err();
    assert_eq!(e, "Unknown action type: 'fly_to_moon'");
    let e = parse_step_parts(r#"{"action": {"type": "tool_use"}}"#).unwrap_err();
    assert!(e.contains("tool_name"));
}

#[test]
fn missing_action_or_type_is_think() {
    let p = parse_step_parts(r#"{"thought": "Just thinking", "confidence": 0.6}"#).unwrap();
    assert!(matches!(p.action, ReActAction::Think));
    let a = parse_action(&JsonValue::Object(vec![("action".to_string(), JsonValue::Object(vec![]))])).unwrap();
    assert!(matches!(a, ReActAction::Think));
}

#[test]
fn tool_use_without_arguments_gets_empty_object() {
    let p = parse_step_parts(r#"{"action": {"type": "tool_use", "tool_name": "ls"}}"#).unwrap();
    match p.action {
        ReActAction::ToolUse { arguments, .. } => assert_eq!(arguments, JsonValue::Object(vec![])),
        other => panic!("Expected ToolUse, got {other:?}"),
    }
}

#[test]
fn system_prompt_includes_tools_and_threshold() {
    let tools = vec!["file_search".to_string(), "shell".to_string()];
    let prompt = system_prompt_text("You are a helpful assistant.", &tools, "0.3", true);
    assert!(prompt.starts_with("You are a helpful assistant.\n\n## ReAct Reasoning Protocol"));
    assert!(prompt.contains("Available tools: file_search, shell"));
    assert!(prompt.contains("If confidence drops below 0.3, stop and report what you have."));
    assert!(prompt.ends_with("Include a \"reflection\" field in your JSON output."));
    let bare = system_prompt_text("Base.", &[], "0.3", false);
    assert!(bare.contains("No tools are currently available."));
    assert!(!bare.contains("reflect"));
}

#[test]
fn reflection_prompt_wording() {
    let action = ReActAction::ToolUse { tool_name: "file_search".to_string(), arguments: JsonValue::Null };
    let p = reflection_prompt_text(3, "Search for config files", &action, "Found 5 TOML files");
    assert_eq!(
        p,
        "Reflect on step 3: You thought 'Search for config files', acted with ToolUse(file_search), and observed 'Found 5 TOML files'. Was this the right approach? Should you adjust your strategy?"
    );
}

#[test]
fn trace_summary_layout() {
    let a1 = ReActAction::ToolUse { tool_name: "file_read".to_string(), arguments: JsonValue::Null };
    let l1 = step_line_text(1, "Need to read the file", &a1, "File contents loaded", Some("Good start"), "0.80", 150);
    assert_eq!(
        l1,
        "Step 1: Thought: 'Need to read the file', Action: ToolUse(file_read), Observation: 'File contents loaded', Reflection: 'Good start' [confidence=0.80, 150ms]"
    );
    let a2 = ReActAction::Respond { content: "line 42".to_string() };
    let l2 = step_line_text(2, "Found it", &a2, "", None, "0.95", 80);
    assert_eq!(l2, "Step 2: Thought: 'Found it', Action: Respond, Observation: '' [confidence=0.95, 80ms]");
    let outcome = ReActOutcome::Success { response: "The bug is on line 42".to_string() };
    let summary = trace_summary_text("Find the bug in main.rs", &[l1.clone(), l2.clone()], &outcome, 230);
    let expected = format!(
        "Task: Find the bug in main.rs\n\n{l1}\n{l2}\n\nOutcome: Success \u{2014} The bug is on line 42\nTotal time: 230ms"
    );
    assert_eq!(summary, expected);
}

#[test]
fn outcome_lines() {
    let o = ReActOutcome::Error { message: "Trace not yet completed".to_string() };
    assert_eq!(o.summary_line(), "Outcome: Error \u{2014} Trace not yet completed");
    let o = ReActOutcome::MaxStepsReached { partial: "p".to_string() };
    assert_eq!(o.summary_line(), "Outcome: Max steps reached \u{2014} p");
}

#[test]
fn continue_decisions() {
    assert!(should_continue_with(0, 10, None, false));
    assert!(!should_continue_with(3, 3, Some(&ReActAction::Think), false));
    assert!(!should_continue_with(1, 10, Some(&ReActAction::Respond { content: String::new() }), false));
    assert!(!should_continue_with(1, 10, Some(&ReActAction::Think), true));
    assert!(should_continue_with(1, 10, Some(&ReActAction::Think), false));
}
