use argentor_agent::debug_recorder::{DebugRecorder, RecorderState, StepType};
use serde_json::Value;

fn text(s: &str) -> Value {
    Value::String(s.to_string())
}

#[test]
fn test_new_recorder() {
    let r = DebugRecorder::new("trace-1");
    assert!(r.is_enabled());
    assert_eq!(r.step_count(), 0);
}

#[test]
fn test_disabled_recorder() {
    let r = DebugRecorder::disabled();
    assert!(!r.is_enabled());
    r.record(StepType::Input, "test", None);
    assert_eq!(r.step_count(), 0);
}

#[test]
fn test_record_steps() {
    let r = DebugRecorder::new("t1");
    r.record(StepType::Input, "user message", None);
    r.record(StepType::Thinking, "analyzing...", None);
    r.record(StepType::Output, "response", None);
    assert_eq!(r.step_count(), 3);
}

#[test]
fn test_step_sequence() {
    let r = DebugRecorder::new("t1");
    r.record(StepType::Input, "a", None);
    r.record(StepType::Output, "b", None);
    let trace = r.finalize();
    assert_eq!(trace.steps[0].seq, 1);
    assert_eq!(trace.steps[1].seq, 2);
}

#[test]
fn test_record_with_metrics() {
    let r = DebugRecorder::new("t1");
    r.record_with_metrics(StepType::LlmCall, "model call", 500, 1000, 200);
    let trace = r.finalize();
    assert_eq!(trace.steps[0].duration_ms, Some(500));
    assert_eq!(trace.steps[0].tokens.as_ref().unwrap().input, 1000);
    assert_eq!(trace.total_tokens.input, 1000);
    assert_eq!(trace.total_tokens.output, 200);
}

#[test]
fn test_token_accumulation() {
    let r = DebugRecorder::new("t1");
    r.record_with_metrics(StepType::LlmCall, "call 1", 100, 500, 100);
    r.record_with_metrics(StepType::LlmCall, "call 2", 200, 300, 50);
    let trace = r.finalize();
    assert_eq!(trace.total_tokens.input, 800);
    assert_eq!(trace.total_tokens.output, 150);
}

#[test]
fn test_finalize() {
    let r = DebugRecorder::new("trace-42");
    r.record(StepType::Input, "hello", None);
    let trace = r.finalize();
    assert_eq!(trace.trace_id, "trace-42");
    assert!(trace.ended_at.is_some());
    assert!(trace.total_duration_ms.is_some());
    assert_eq!(trace.steps.len(), 1);
}

#[test]
fn test_step_with_data() {
    let r = DebugRecorder::new("t1");
    let mut obj = serde_json::Map::new();
    obj.insert("path".to_string(), text("/tmp/test.txt"));
    r.record(StepType::ToolCall, "calling file_write", Some(Value::Object(obj)));
    let trace = r.finalize();
    assert_eq!(trace.steps[0].data.as_ref().unwrap()["path"], "/tmp/test.txt");
}

#[test]
fn test_set_metadata() {
    let r = DebugRecorder::new("t1");
    r.set_metadata("model", text("model-3"));
    r.set_metadata("session", text("abc-123"));
    let trace = r.finalize();
    assert_eq!(trace.metadata["model"], "model-3");
    assert_eq!(trace.metadata["session"], "abc-123");
}

#[test]
fn test_trace_summary() {
    let r = DebugRecorder::new("t1");
    r.record(StepType::Input, "in", None);
    r.record(StepType::Thinking, "think", None);
    r.record(StepType::ToolCall, "tool", None);
    r.record(StepType::Error, "oops", None);
    r.record(StepType::Output, "out", None);
    let trace = r.finalize();
    let summary = trace.summary();
    assert_eq!(summary.total_steps, 5);
    assert!(summary.has_errors);
}

#[test]
fn test_summary_no_errors() {
    let r = DebugRecorder::new("t1");
    r.record(StepType::Input, "in", None);
    r.record(StepType::Output, "out", None);
    let summary = r.finalize().summary();
    assert!(!summary.has_errors);
}

#[test]
fn test_step_types() {
    let r = DebugRecorder::new("t1");
    r.record(StepType::CacheHit, "cache", None);
    r.record(StepType::LlmResponse, "response", None);
    r.record(StepType::Decision, "decided", None);
    r.record(StepType::ToolResult, "result", None);
    r.record(StepType::Custom("custom".to_string()), "custom step", None);
    assert_eq!(r.step_count(), 5);
}

#[test]
fn test_clone_shares_state() {
    let r1 = DebugRecorder::new("t1");
    let r2 = r1.clone();
    r1.record(StepType::Input, "from r1", None);
    assert_eq!(r2.step_count(), 1);
}

#[test]
fn test_disabled_finalize() {
    let r = DebugRecorder::disabled();
    r.record(StepType::Input, "ignored", None);
    let trace = r.finalize();
    assert!(trace.steps.is_empty());
}

#[test]
fn test_disabled_metadata() {
    let r = DebugRecorder::disabled();
    r.set_metadata("key", text("value"));
}

#[test]
fn test_multiple_finalize() {
    let r = DebugRecorder::new("t1");
    r.record(StepType::Input, "x", None);
    let t1 = r.finalize();
    let t2 = r.finalize();
    assert_eq!(t1.steps.len(), t2.steps.len());
}

#[test]
fn ring_buffer_keeps_latest_steps() {
    let r = DebugRecorder::with_capacity("ring", 2);
    r.record(StepType::Input, "a", None);
    r.record(StepType::Thinking, "b", None);
    r.record(StepType::Output, "c", None);
    assert_eq!(r.step_count(), 2);
    assert_eq!(r.total_recorded(), 3);
    assert_eq!(r.evicted_count(), 1);
    let trace = r.finalize();
    assert_eq!(trace.steps[0].seq, 2);
    assert_eq!(trace.steps[1].description, "c");
}

#[test]
fn summary_counts_kinds_in_order() {
    let mut st = RecorderState::new(Value::Null);
    st.record(0, StepType::Input, "a".into(), None);
    st.record(0, StepType::Custom("x\"y".into()), "b".into(), None);
    st.record(0, StepType::Input, "c".into(), None);
    let summary = st.finalize("s").summary();
    assert_eq!(
        summary.step_counts,
        vec![("\"input\"".to_string(), 2), ("{\"custom\":\"x\\\"y\"}".to_string(), 1)]
    );
}

#[test]
fn summary_keys_escape_control_characters() {
    let mut st = RecorderState::new(Value::Null);
    st.record(0, StepType::Custom("a\nb\u{1}\\".into()), "b".into(), None);
    let summary = st.finalize("s").summary();
    assert_eq!(summary.step_counts, vec![("{\"custom\":\"a\\nb\\u0001\\\\\"}".to_string(), 1)]);
}
