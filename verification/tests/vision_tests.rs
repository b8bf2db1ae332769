use argentor_agent::vision_backends::{
    ClaudeVisionBackend, GeminiVisionBackend, OpenAiVisionBackend, VisionBackend, VisionCapability,
};

#[test]
fn claude_backend_accessors() {
    let b = ClaudeVisionBackend::new("key-123", "sonnet-4-20250514");
    assert_eq!(b.api_key(), "key-123");
    assert_eq!(b.model_id(), "sonnet-4-20250514");
    assert_eq!(b.api_base_url(), "https://api.anthropic.com");
}

#[test]
fn claude_backend_with_base_url() {
    let b = ClaudeVisionBackend::new("k", "m").with_base_url("http://localhost:9000");
    assert_eq!(b.api_base_url(), "http://localhost:9000");
}

#[test]
fn openai_backend_accessors() {
    let b = OpenAiVisionBackend::new("sk-xxx", "gpt-4o");
    assert_eq!(b.api_key(), "sk-xxx");
    assert_eq!(b.model_id(), "gpt-4o");
    assert_eq!(b.api_base_url(), "https://api.openai.com");
}

#[test]
fn openai_backend_with_base_url() {
    let b = OpenAiVisionBackend::new("k", "gpt-4o").with_base_url("http://x");
    assert_eq!(b.api_base_url(), "http://x");
}

#[test]
fn gemini_backend_accessors() {
    let b = GeminiVisionBackend::new("AIza", "gemini-2.0-flash");
    assert_eq!(b.api_key(), "AIza");
    assert_eq!(b.model_id(), "gemini-2.0-flash");
    assert_eq!(
        b.api_base_url(),
        "https://generativelanguage.googleapis.com"
    );
}

#[test]
fn gemini_backend_with_base_url() {
    let b = GeminiVisionBackend::new("k", "m").with_base_url("http://g");
    assert_eq!(b.api_base_url(), "http://g");
}

#[test]
fn claude_capability_full() {
    let b = ClaudeVisionBackend::new("k", "m");
    assert_eq!(b.vision_capability(), VisionCapability::Full);
    assert_eq!(b.provider_name(), "anthropic");
}

#[test]
fn openai_capability_full() {
    let b = OpenAiVisionBackend::new("k", "m");
    assert_eq!(b.vision_capability(), VisionCapability::Full);
    assert_eq!(b.provider_name(), "openai");
}

#[test]
fn gemini_capability_full() {
    let b = GeminiVisionBackend::new("k", "m");
    assert_eq!(b.vision_capability(), VisionCapability::Full);
    assert_eq!(b.provider_name(), "gemini");
}

#[test]
fn vision_backend_is_object_safe() {
    let _backends: Vec<Box<dyn VisionBackend>> = vec![
        Box::new(ClaudeVisionBackend::new("k", "m")),
        Box::new(OpenAiVisionBackend::new("k", "m")),
        Box::new(GeminiVisionBackend::new("k", "m")),
    ];
}
