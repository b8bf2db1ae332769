use argentor_agent::agent_loop::{
    run_step, stream_step, BreakerNote, LoopAction, LoopEvent, LoopPhase, RunState, StreamEvent,
};
use argentor_agent::gemini::{LlmResponse, ToolCall};
use argentor_agent::structured_output::JsonValue;

fn finish_err(a: &LoopAction) -> Option<String> {
    match a {
        LoopAction::Finish(Err(m)) => Some(m.clone()),
        _ => None,
    }
}

#[test]
fn loop_runs_turns_until_the_limit() {
    let s = RunState::new("anthropic", 2);
    let (s, n, a) = run_step(&s, LoopEvent::Start);
    assert!(matches!(a, LoopAction::CheckBreaker));
    assert_eq!(n, BreakerNote::Nothing);
    assert_eq!(s.turn, 1);
    let (s, _, a) = run_step(&s, LoopEvent::Breaker(true));
    assert!(matches!(a, LoopAction::LookupCache));
    let (s, _, a) = run_step(&s, LoopEvent::Cache(None));
    assert!(matches!(a, LoopAction::CallLlm));
    let (s, n, a) = run_step(&s, LoopEvent::Reply(Ok(LlmResponse::Text("thinking".to_string()))));
    assert_eq!(n, BreakerNote::Success);
    assert!(matches!(a, LoopAction::CheckBreaker));
    assert_eq!(s.turn, 2);
    let (s, _, _) = run_step(&s, LoopEvent::Breaker(true));
    let (s, _, _) = run_step(&s, LoopEvent::Cache(None));
    let call = ToolCall { id: "c1".to_string(), name: "echo".to_string(), arguments: JsonValue::Null };
    let (s, _, a) = run_step(
        &s,
        LoopEvent::Reply(Ok(LlmResponse::ToolUse { content: None, tool_calls: vec![call] })),
    );
    match &a {
        LoopAction::RunTools(v) => {
            assert_eq!(v.len(), 1);
            assert_eq!(v[0].name, "echo");
        },
        _ => panic!("expected tool calls"),
    }
    let (s, _, a) = run_step(&s, LoopEvent::ToolsDone);
    assert_eq!(finish_err(&a), Some("Agentic loop exceeded maximum of 2 turns".to_string()));
    assert_eq!(s.phase, LoopPhase::Finished);
}

#[test]
fn loop_done_reply_finishes_with_its_text() {
    let s = RunState::new("p", 5);
    let (s, _, _) = run_step(&s, LoopEvent::Start);
    let (s, _, _) = run_step(&s, LoopEvent::Breaker(true));
    let (s, _, _) = run_step(&s, LoopEvent::Cache(None));
    let (s, n, a) = run_step(&s, LoopEvent::Reply(Ok(LlmResponse::Done("answer".to_string()))));
    assert_eq!(n, BreakerNote::Success);
    match a {
        LoopAction::Finish(Ok(t)) => assert_eq!(t, "answer"),
        _ => panic!("expected the answer"),
    }
    assert_eq!(s.phase, LoopPhase::Finished);
    let (_, _, a) = run_step(&s, LoopEvent::ToolsDone);
    assert!(matches!(a, LoopAction::Wait));
}

#[test]
fn loop_open_breaker_stops_before_calling() {
    let s = RunState::new("openai", 5);
    let (s, _, _) = run_step(&s, LoopEvent::Start);
    let (_, _, a) = run_step(&s, LoopEvent::Breaker(false));
    assert_eq!(finish_err(&a), Some("Circuit breaker open for provider: openai".to_string()));
}

#[test]
fn loop_cache_hit_and_call_failure() {
    let s = RunState::new("p", 5);
    let (s, _, _) = run_step(&s, LoopEvent::Start);
    let (s1, _, _) = run_step(&s, LoopEvent::Breaker(true));
    let (_, n, a) = run_step(&s1, LoopEvent::Cache(Some("cached".to_string())));
    assert_eq!(n, BreakerNote::Success);
    assert!(matches!(a, LoopAction::Finish(Ok(ref t)) if t == "cached"));
    let (s2, _, _) = run_step(&s1, LoopEvent::Cache(None));
    let (_, n, a) = run_step(&s2, LoopEvent::Reply(Err("HTTP error: 500".to_string())));
    assert_eq!(n, BreakerNote::Failure);
    assert_eq!(finish_err(&a), Some("HTTP error: 500".to_string()));
}

#[test]
fn loop_with_no_turns_fails_at_once() {
    let s = RunState::new("p", 0);
    let (_, _, a) = run_step(&s, LoopEvent::Start);
    assert_eq!(finish_err(&a), Some("Agentic loop exceeded maximum of 0 turns".to_string()));
}

#[test]
fn stream_out_of_turns_sends_the_error_it_returns() {
    let s = RunState::new("p", 1);
    let (s, a, ev) = stream_step(&s, LoopEvent::Start);
    assert!(matches!(a, LoopAction::CallLlm));
    assert!(ev.is_empty());
    let (s, a, ev) = stream_step(&s, LoopEvent::Reply(Ok(LlmResponse::Text("more".to_string()))));
    let msg = finish_err(&a).unwrap();
    assert_eq!(msg, "Agentic loop exceeded maximum of 1 turns");
    match ev.last() {
        Some(StreamEvent::Error { message }) => assert_eq!(message, &msg),
        _ => panic!("expected an error event"),
    }
    assert_eq!(s.phase, LoopPhase::Finished);
}

#[test]
fn stream_done_reply_finishes() {
    let s = RunState::new("p", 3);
    let (s, _, _) = stream_step(&s, LoopEvent::Start);
    let (_, a, ev) = stream_step(&s, LoopEvent::Reply(Ok(LlmResponse::Done("hi".to_string()))));
    assert!(matches!(a, LoopAction::Finish(Ok(ref t)) if t == "hi"));
    assert!(ev.is_empty());
}
