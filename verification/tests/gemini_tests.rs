use argentor_agent::gemini::{parse_gemini_response, LlmResponse};
use argentor_agent::structured_output::JsonValue;

fn s(t: &str) -> JsonValue {
    JsonValue::Str(t.to_string())
}

fn object(members: Vec<(&str, JsonValue)>) -> JsonValue {
    JsonValue::Object(members.into_iter().map(|(k, v)| (k.to_string(), v)).collect())
}

fn body(parts: Vec<JsonValue>, finish: Option<&str>) -> JsonValue {
    let mut cand = vec![("content", object(vec![("parts", JsonValue::Array(parts))]))];
    if let Some(f) = finish {
        cand.push(("finishReason", s(f)));
    }
    object(vec![("candidates", JsonValue::Array(vec![object(cand)]))])
}

#[test]
fn text_parts_are_joined_and_stop_is_done() {
    let b = body(vec![object(vec![("text", s("Hello, "))]), object(vec![("text", s("world"))])], Some("STOP"));
    match parse_gemini_response(&b).unwrap() {
        LlmResponse::Done(t) => assert_eq!(t, "Hello, world"),
        other => panic!("expected Done, got {other:?}"),
    }
    let b = body(vec![object(vec![("text", s("partial"))])], None);
    assert!(matches!(parse_gemini_response(&b).unwrap(), LlmResponse::Done(_)));
}

#[test]
fn other_finish_reason_is_text() {
    let b = body(vec![object(vec![("text", s("cut"))])], Some("MAX_TOKENS"));
    match parse_gemini_response(&b).unwrap() {
        LlmResponse::Text(t) => assert_eq!(t, "cut"),
        other => panic!("expected Text, got {other:?}"),
    }
}

#[test]
fn function_calls_become_tool_use() {
    let call = |name: &str| object(vec![("functionCall", object(vec![("name", s(name))]))]);
    let b = body(vec![call("search"), object(vec![("text", s("x"))]), call("read")], Some("STOP"));
    match parse_gemini_response(&b).unwrap() {
        LlmResponse::ToolUse { content, tool_calls } => {
            assert_eq!(content, Some("x".to_string()));
            assert_eq!(tool_calls.len(), 2);
            assert_eq!(tool_calls[0].id, "gemini-tc-0");
            assert_eq!(tool_calls[0].name, "search");
            assert_eq!(tool_calls[0].arguments, JsonValue::Object(vec![]));
            assert_eq!(tool_calls[1].id, "gemini-tc-1");
            assert_eq!(tool_calls[1].name, "read");
        },
        other => panic!("expected ToolUse, got {other:?}"),
    }
    let only_call = body(vec![call("ls")], None);
    match parse_gemini_response(&only_call).unwrap() {
        LlmResponse::ToolUse { content, .. } => assert_eq!(content, None),
        other => panic!("expected ToolUse, got {other:?}"),
    }
}

#[test]
fn malformed_bodies_are_errors() {
    assert_eq!(
        parse_gemini_response(&object(vec![])).unwrap_err(),
        "Missing candidates in Gemini response"
    );
    assert_eq!(
        parse_gemini_response(&object(vec![("candidates", JsonValue::Array(vec![]))])).unwrap_err(),
        "Empty candidates in Gemini response"
    );
    assert_eq!(
        parse_gemini_response(&object(vec![("candidates", JsonValue::Array(vec![object(vec![])]))])).unwrap_err(),
        "Missing parts in Gemini response"
    );
}
