use argentor_agent::agent_loop::StreamEvent;
use argentor_agent::gemini::LlmResponse;
use argentor_agent::gemini_stream::{gemini_stream_finish, gemini_stream_step, GeminiStreamState};

#[test]
fn stream_text_split_across_chunks() {
    let s = GeminiStreamState::new();
    let (s, ev) = gemini_stream_step(&s, "data: {\"candidates\":[{\"content\":{\"parts\":[{\"te");
    assert!(ev.is_empty());
    assert!(!s.buffer.is_empty());
    let (s, ev) = gemini_stream_step(&s, "xt\":\"Hel\"}]}}]}\n\n: keep-alive\ndata: {\"candidates\":[{\"content\":{\"parts\":[{\"text\":\"lo\"}]}}]}\n");
    assert_eq!(ev.len(), 2);
    match (&ev[0], &ev[1]) {
        (StreamEvent::TextDelta { text: a }, StreamEvent::TextDelta { text: b }) => {
            assert_eq!(a, "Hel");
            assert_eq!(b, "lo");
        },
        _ => panic!("expected two text deltas"),
    }
    assert_eq!(s.full_text, "Hello");
    assert!(s.buffer.is_empty());
    let (ev, r) = gemini_stream_finish(s);
    assert!(matches!(ev.as_slice(), [StreamEvent::Done]));
    match r {
        LlmResponse::Done(t) => assert_eq!(t, "Hello"),
        _ => panic!("expected a finished text"),
    }
}

#[test]
fn stream_function_calls_are_numbered() {
    let s = GeminiStreamState::new();
    let body = "data: {\"candidates\":[{\"content\":{\"parts\":[{\"functionCall\":{\"name\":\"search\",\"args\":{\"q\":\"x\"}}},{\"functionCall\":{\"name\":\"read\"}}]}}]}\nnot data\ndata: not json\n";
    let (s, ev) = gemini_stream_step(&s, body);
    assert_eq!(ev.len(), 4);
    match (&ev[0], &ev[1], &ev[2]) {
        (StreamEvent::ToolCallStart { id, name }, StreamEvent::ToolCallEnd { id: id2 }, StreamEvent::ToolCallStart { id: id3, name: n3 }) => {
            assert_eq!(id, "gemini-tc-0");
            assert_eq!(name, "search");
            assert_eq!(id2, "gemini-tc-0");
            assert_eq!(id3, "gemini-tc-1");
            assert_eq!(n3, "read");
        },
        _ => panic!("expected tool call events"),
    }
    let (_, r) = gemini_stream_finish(s);
    match r {
        LlmResponse::ToolUse { content, tool_calls } => {
            assert!(content.is_none());
            assert_eq!(tool_calls.len(), 2);
            assert_eq!(tool_calls[1].id, "gemini-tc-1");
        },
        _ => panic!("expected a tool use"),
    }
}
