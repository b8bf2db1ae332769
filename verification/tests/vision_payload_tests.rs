use argentor_agent::structured_output::JsonValue;
use argentor_agent::vision_backends::{
    ClaudeVisionBackend, GeminiVisionBackend, MultimodalMessage, OpenAiVisionBackend, VisionBackend,
};

fn at<'a>(v: &'a JsonValue, k: &str) -> &'a JsonValue {
    v.get(k).expect("member")
}

fn text(v: &JsonValue) -> &str {
    match v {
        JsonValue::Str(s) => s.as_str(),
        _ => panic!("not a string"),
    }
}

fn items(v: &JsonValue) -> &Vec<JsonValue> {
    v.as_array().expect("array")
}

fn is_object(v: &JsonValue) -> bool {
    matches!(v, JsonValue::Object(_))
}

#[test]
fn claude_payload_text_only() {
    let m = MultimodalMessage::new("hello");
    let p = ClaudeVisionBackend::build_messages_payload(&m);
    assert_eq!(text(at(&p, "role")), "user");
    assert_eq!(items(at(&p, "content")).len(), 1);
    assert_eq!(text(at(&items(at(&p, "content"))[0], "type")), "text");
    assert_eq!(text(at(&items(at(&p, "content"))[0], "text")), "hello");
}

#[test]
fn claude_payload_with_url_image() {
    let m = MultimodalMessage::new("q").with_image_url("https://x/a.png");
    let p = ClaudeVisionBackend::build_messages_payload(&m);
    let content = items(at(&p, "content"));
    assert_eq!(content.len(), 2);
    assert_eq!(text(at(&content[1], "type")), "image");
    assert_eq!(text(at(at(&content[1], "source"), "type")), "url");
    assert_eq!(text(at(at(&content[1], "source"), "url")), "https://x/a.png");
}

#[test]
fn claude_payload_with_base64_image() {
    let m = MultimodalMessage::new("q").with_image_base64("image/png", "AAAA");
    let p = ClaudeVisionBackend::build_messages_payload(&m);
    let content = items(at(&p, "content"));
    assert_eq!(text(at(&content[1], "type")), "image");
    assert_eq!(text(at(at(&content[1], "source"), "type")), "base64");
    assert_eq!(text(at(at(&content[1], "source"), "media_type")), "image/png");
    assert_eq!(text(at(at(&content[1], "source"), "data")), "AAAA");
}

#[test]
fn claude_payload_multiple_images() {
    let m = MultimodalMessage::new("q")
        .with_image_url("https://a")
        .with_image_base64("image/jpeg", "BBBB")
        .with_image_url("https://c");
    let p = ClaudeVisionBackend::build_messages_payload(&m);
    let content = items(at(&p, "content"));
    assert_eq!(content.len(), 4);
    assert_eq!(text(at(&content[0], "type")), "text");
    assert_eq!(text(at(at(&content[1], "source"), "type")), "url");
    assert_eq!(text(at(at(&content[2], "source"), "type")), "base64");
    assert_eq!(text(at(at(&content[3], "source"), "type")), "url");
}

#[test]
fn claude_payload_text_preserved() {
    let m = MultimodalMessage::new("What is this?").with_image_url("https://x");
    let p = ClaudeVisionBackend::build_messages_payload(&m);
    assert_eq!(text(at(&items(at(&p, "content"))[0], "text")), "What is this?");
}

#[test]
fn openai_payload_text_only() {
    let m = MultimodalMessage::new("hello");
    let p = OpenAiVisionBackend::build_messages_payload(&m);
    assert_eq!(text(at(&p, "role")), "user");
    assert_eq!(items(at(&p, "content")).len(), 1);
    assert_eq!(text(at(&items(at(&p, "content"))[0], "type")), "text");
    assert_eq!(text(at(&items(at(&p, "content"))[0], "text")), "hello");
}

#[test]
fn openai_payload_with_url_image() {
    let m = MultimodalMessage::new("q").with_image_url("https://x/a.png");
    let p = OpenAiVisionBackend::build_messages_payload(&m);
    let content = items(at(&p, "content"));
    assert_eq!(text(at(&content[1], "type")), "image_url");
    assert_eq!(text(at(at(&content[1], "image_url"), "url")), "https://x/a.png");
}

#[test]
fn openai_payload_base64_becomes_data_uri() {
    let m = MultimodalMessage::new("q").with_image_base64("image/png", "ABCDE");
    let p = OpenAiVisionBackend::build_messages_payload(&m);
    let url = text(at(at(&items(at(&p, "content"))[1], "image_url"), "url"));
    assert_eq!(url, "data:image/png;base64,ABCDE");
}

#[test]
fn openai_payload_base64_jpeg_data_uri() {
    let m = MultimodalMessage::new("q").with_image_base64("image/jpeg", "ZZZZ");
    let p = OpenAiVisionBackend::build_messages_payload(&m);
    let url = text(at(at(&items(at(&p, "content"))[1], "image_url"), "url"));
    assert!(url.starts_with("data:image/jpeg;base64,"));
    assert!(url.ends_with("ZZZZ"));
}

#[test]
fn openai_payload_multiple_images() {
    let m = MultimodalMessage::new("q")
        .with_image_url("https://a")
        .with_image_base64("image/png", "XX")
        .with_image_url("https://c");
    let p = OpenAiVisionBackend::build_messages_payload(&m);
    let content = items(at(&p, "content"));
    assert_eq!(content.len(), 4);
    assert_eq!(text(at(at(&content[1], "image_url"), "url")), "https://a");
    assert_eq!(text(at(at(&content[2], "image_url"), "url")), "data:image/png;base64,XX");
    assert_eq!(text(at(at(&content[3], "image_url"), "url")), "https://c");
}

fn gemini_parts(p: &JsonValue) -> &Vec<JsonValue> {
    items(at(&items(at(p, "contents"))[0], "parts"))
}

#[test]
fn gemini_payload_text_only() {
    let m = MultimodalMessage::new("hi");
    let p = GeminiVisionBackend::build_messages_payload(&m);
    let parts = gemini_parts(&p);
    assert_eq!(parts.len(), 1);
    assert_eq!(text(at(&parts[0], "text")), "hi");
}

#[test]
fn gemini_payload_with_base64_image() {
    let m = MultimodalMessage::new("q").with_image_base64("image/png", "AAAA");
    let p = GeminiVisionBackend::build_messages_payload(&m);
    let parts = gemini_parts(&p);
    assert_eq!(parts.len(), 2);
    assert_eq!(text(at(at(&parts[1], "inline_data"), "mime_type")), "image/png");
    assert_eq!(text(at(at(&parts[1], "inline_data"), "data")), "AAAA");
}

#[test]
fn gemini_payload_with_url_uses_file_data() {
    let m = MultimodalMessage::new("q").with_image_url("https://x/y.png");
    let p = GeminiVisionBackend::build_messages_payload(&m);
    let parts = gemini_parts(&p);
    assert_eq!(text(at(at(&parts[1], "file_data"), "file_uri")), "https://x/y.png");
    assert_eq!(text(at(at(&parts[1], "file_data"), "mime_type")), "image/*");
}

#[test]
fn gemini_payload_multiple_images() {
    let m = MultimodalMessage::new("compare")
        .with_image_base64("image/png", "AA")
        .with_image_base64("image/jpeg", "BB");
    let p = GeminiVisionBackend::build_messages_payload(&m);
    let parts = gemini_parts(&p);
    assert_eq!(parts.len(), 3);
    assert_eq!(text(at(&parts[0], "text")), "compare");
    assert_eq!(text(at(at(&parts[1], "inline_data"), "mime_type")), "image/png");
    assert_eq!(text(at(at(&parts[2], "inline_data"), "mime_type")), "image/jpeg");
}

#[test]
fn gemini_payload_mixed_url_and_base64() {
    let m = MultimodalMessage::new("q")
        .with_image_url("https://a")
        .with_image_base64("image/webp", "WW");
    let p = GeminiVisionBackend::build_messages_payload(&m);
    let parts = gemini_parts(&p);
    assert!(is_object(at(&parts[1], "file_data")));
    assert!(is_object(at(&parts[2], "inline_data")));
}

#[test]
fn gemini_payload_root_shape() {
    let m = MultimodalMessage::new("x");
    let p = GeminiVisionBackend::build_messages_payload(&m);
    assert!(matches!(at(&p, "contents"), JsonValue::Array(_)));
    assert_eq!(items(at(&p, "contents")).len(), 1);
}

#[test]
fn message_counts_its_images() {
    let m = MultimodalMessage::new("q").with_image_url("https://a").with_image_base64("image/png", "AA");
    assert_eq!(m.image_count(), 2);
    assert_eq!(m.text, "q");
}

#[test]
fn claude_ask_with_image_stub() {
    let b = ClaudeVisionBackend::new("k", "m");
    let m = MultimodalMessage::new("what?").with_image_url("https://x");
    let out = b.ask_with_image(&m).unwrap();
    assert!(out.contains("anthropic-vision-stub"));
    assert!(out.contains("1 image"));
    assert!(out.contains("what?"));
}

#[test]
fn openai_ask_with_image_stub() {
    let b = OpenAiVisionBackend::new("k", "gpt-4o");
    let m = MultimodalMessage::new("describe")
        .with_image_base64("image/png", "AA")
        .with_image_url("https://x");
    let out = b.ask_with_image(&m).unwrap();
    assert!(out.contains("openai-vision-stub"));
    assert!(out.contains("2 image"));
}

#[test]
fn gemini_ask_with_image_stub() {
    let b = GeminiVisionBackend::new("k", "gemini-2.0-flash");
    let m = MultimodalMessage::new("analyze");
    let out = b.ask_with_image(&m).unwrap();
    assert!(out.contains("gemini-vision-stub"));
    assert!(out.contains("0 image"));
    assert!(out.contains("analyze"));
    assert_eq!(out, "[gemini-vision-stub] would process 0 image(s) with text: analyze");
}

#[test]
fn vision_backend_dispatch_dynamic() {
    let m = MultimodalMessage::new("hi").with_image_url("https://x");
    let a = ClaudeVisionBackend::new("k", "m");
    let o = OpenAiVisionBackend::new("k", "m");
    let g = GeminiVisionBackend::new("k", "m");
    assert!(a.ask_with_image(&m).unwrap().contains(a.provider_name()));
    assert!(o.ask_with_image(&m).unwrap().contains(o.provider_name()));
    assert!(g.ask_with_image(&m).unwrap().contains(g.provider_name()));
}
