//! Vision-capable backends for Anthropic, OpenAI (GPT-4o) and Gemini: their
//! configuration (key, model, API base URL) and what they report of
//! themselves.
use vstd::prelude::*;
use crate::text::{chars_of, string_of, push_str, decimal, decimal_chars};
use crate::structured_output::{JsonValue, JsonView, json_view, copy_text};

verus! {

/// How much of image understanding a backend offers.
#[derive(Debug, Clone, Copy, PartialEq, Eq, Structural)]
pub enum VisionCapability {
    /// Images of every supported kind are understood.
    Full,
}

/// A backend that answers questions about images.
pub trait VisionBackend {
    /// The backend's image capability.
    fn vision_capability(&self) -> VisionCapability;

    /// The short provider name used for routing.
    fn provider_name(&self) -> &str;
}

/// An owned copy of a string slice.
fn owned(s: &str) -> (r: String)
    ensures
        r@ == s@,
{
    string_of(&chars_of(s))
}

/// Anthropic vision backend — the Anthropic Messages API with multimodal
/// content blocks.
pub struct ClaudeVisionBackend {
    api_key: String,
    model_id: String,
    api_base_url: String,
}

impl ClaudeVisionBackend {
    /// The configured API key.
    pub closed spec fn key_view(&self) -> Seq<char> {
        self.api_key@
    }

    /// The configured model.
    pub closed spec fn model_view(&self) -> Seq<char> {
        self.model_id@
    }

    /// The configured API base URL.
    pub closed spec fn base_view(&self) -> Seq<char> {
        self.api_base_url@
    }

    /// Construct a new Anthropic vision backend, talking to
    /// `https://api.anthropic.com`.
    pub fn new(api_key: &str, model_id: &str) -> (r: Self)
        ensures
            r.key_view() == api_key@,
            r.model_view() == model_id@,
            r.base_view() == "https://api.anthropic.com"@,
    {
        ClaudeVisionBackend {
            api_key: owned(api_key),
            model_id: owned(model_id),
            api_base_url: owned("https://api.anthropic.com"),
        }
    }

    /// Override the API base URL (useful for proxies or testing).
    pub fn with_base_url(self, url: &str) -> (r: Self)
        ensures
            r.key_view() == self.key_view(),
            r.model_view() == self.model_view(),
            r.base_view() == url@,
    {
        ClaudeVisionBackend { api_key: self.api_key, model_id: self.model_id, api_base_url: owned(url) }
    }

    /// Get the model ID that will be used for requests.
    pub fn model_id(&self) -> (r: &str)
        ensures
            r@ == self.model_view(),
    {
        self.model_id.as_str()
    }

    /// Get the configured API base URL.
    pub fn api_base_url(&self) -> (r: &str)
        ensures
            r@ == self.base_view(),
    {
        self.api_base_url.as_str()
    }

    /// Get the configured API key.
    pub fn api_key(&self) -> (r: &str)
        ensures
            r@ == self.key_view(),
    {
        self.api_key.as_str()
    }
}

impl VisionBackend for ClaudeVisionBackend {
    fn vision_capability(&self) -> (r: VisionCapability)
        ensures
            r == VisionCapability::Full,
    {
        VisionCapability::Full
    }

    fn provider_name(&self) -> (r: &str)
        ensures
            r@ == "anthropic"@,
    {
        "anthropic"
    }
}

/// OpenAI vision backend — the chat completions API with multimodal
/// content parts.
pub struct OpenAiVisionBackend {
    api_key: String,
    model_id: String,
    api_base_url: String,
}

impl OpenAiVisionBackend {
    /// The configured API key.
    pub closed spec fn key_view(&self) -> Seq<char> {
        self.api_key@
    }

    /// The configured model.
    pub closed spec fn model_view(&self) -> Seq<char> {
        self.model_id@
    }

    /// The configured API base URL.
    pub closed spec fn base_view(&self) -> Seq<char> {
        self.api_base_url@
    }

    /// Construct a new OpenAI vision backend, talking to
    /// `https://api.openai.com`.
    pub fn new(api_key: &str, model_id: &str) -> (r: Self)
        ensures
            r.key_view() == api_key@,
            r.model_view() == model_id@,
            r.base_view() == "https://api.openai.com"@,
    {
        OpenAiVisionBackend {
            api_key: owned(api_key),
            model_id: owned(model_id),
            api_base_url: owned("https://api.openai.com"),
        }
    }

    /// Override the API base URL (useful for proxies or testing).
    pub fn with_base_url(self, url: &str) -> (r: Self)
        ensures
            r.key_view() == self.key_view(),
            r.model_view() == self.model_view(),
            r.base_view() == url@,
    {
        OpenAiVisionBackend { api_key: self.api_key, model_id: self.model_id, api_base_url: owned(url) }
    }

    /// Get the model ID that will be used for requests.
    pub fn model_id(&self) -> (r: &str)
        ensures
            r@ == self.model_view(),
    {
        self.model_id.as_str()
    }

    /// Get the configured API base URL.
    pub fn api_base_url(&self) -> (r: &str)
        ensures
            r@ == self.base_view(),
    {
        self.api_base_url.as_str()
    }

    /// Get the configured API key.
    pub fn api_key(&self) -> (r: &str)
        ensures
            r@ == self.key_view(),
    {
        self.api_key.as_str()
    }
}

impl VisionBackend for OpenAiVisionBackend {
    fn vision_capability(&self) -> (r: VisionCapability)
        ensures
            r == VisionCapability::Full,
    {
        VisionCapability::Full
    }

    fn provider_name(&self) -> (r: &str)
        ensures
            r@ == "openai"@,
    {
        "openai"
    }
}

/// Gemini vision backend — the generative language API with inline image
/// parts.
pub struct GeminiVisionBackend {
    api_key: String,
    model_id: String,
    api_base_url: String,
}

impl GeminiVisionBackend {
    /// The configured API key.
    pub closed spec fn key_view(&self) -> Seq<char> {
        self.api_key@
    }

    /// The configured model.
    pub closed spec fn model_view(&self) -> Seq<char> {
        self.model_id@
    }

    /// The configured API base URL.
    pub closed spec fn base_view(&self) -> Seq<char> {
        self.api_base_url@
    }

    /// Construct a new Gemini vision backend, talking to
    /// `https://generativelanguage.googleapis.com`.
    pub fn new(api_key: &str, model_id: &str) -> (r: Self)
        ensures
            r.key_view() == api_key@,
            r.model_view() == model_id@,
            r.base_view() == "https://generativelanguage.googleapis.com"@,
    {
        GeminiVisionBackend {
            api_key: owned(api_key),
            model_id: owned(model_id),
            api_base_url: owned("https://generativelanguage.googleapis.com"),
        }
    }

    /// Override the API base URL (useful for proxies or testing).
    pub fn with_base_url(self, url: &str) -> (r: Self)
        ensures
            r.key_view() == self.key_view(),
            r.model_view() == self.model_view(),
            r.base_view() == url@,
    {
        GeminiVisionBackend { api_key: self.api_key, model_id: self.model_id, api_base_url: owned(url) }
    }

    /// Get the model ID that will be used for requests.
    pub fn model_id(&self) -> (r: &str)
        ensures
            r@ == self.model_view(),
    {
        self.model_id.as_str()
    }

    /// Get the configured API base URL.
    pub fn api_base_url(&self) -> (r: &str)
        ensures
            r@ == self.base_view(),
    {
        self.api_base_url.as_str()
    }

    /// Get the configured API key.
    pub fn api_key(&self) -> (r: &str)
        ensures
            r@ == self.key_view(),
    {
        self.api_key.as_str()
    }
}

impl VisionBackend for GeminiVisionBackend {
    fn vision_capability(&self) -> (r: VisionCapability)
        ensures
            r == VisionCapability::Full,
    {
        VisionCapability::Full
    }

    fn provider_name(&self) -> (r: &str)
        ensures
            r@ == "gemini"@,
    {
        "gemini"
    }
}

// ---------------------------------------------------------------------------
// Multimodal messages and their request payloads
// ---------------------------------------------------------------------------

/// An image attached to a message.
#[derive(Debug)]
pub enum ImageInput {
    /// An image at a URL.
    Url(String),
    /// An image given inline, base64-encoded, with its media type.
    Base64 {
        /// The media type, such as `image/png`.
        media_type: String,
        /// The base64 data.
        data: String,
    },
}

/// A user message: text and images.
#[derive(Debug)]
pub struct MultimodalMessage {
    /// The text.
    pub text: String,
    /// The images, in order.
    pub images: Vec<ImageInput>,
}

impl MultimodalMessage {
    /// A message with this text and no image.
    pub fn new(text: &str) -> (r: Self)
        ensures
            r.text@ == text@,
            r.images@.len() == 0,
    {
        MultimodalMessage { text: owned(text), images: Vec::new() }
    }

    /// The message with an image at `url` added.
    pub fn with_image_url(self, url: &str) -> (r: Self)
        ensures
            r.text == self.text,
            r.images@.len() == self.images@.len() + 1,
            forall|k: int| 0 <= k < self.images@.len() ==> r.images@[k] == self.images@[k],
            r.images@.last() matches ImageInput::Url(u) && u@ == url@,
    {
        let mut m = self;
        m.images.push(ImageInput::Url(owned(url)));
        m
    }

    /// The message with an inline image added.
    pub fn with_image_base64(self, media_type: &str, data: &str) -> (r: Self)
        ensures
            r.text == self.text,
            r.images@.len() == self.images@.len() + 1,
            forall|k: int| 0 <= k < self.images@.len() ==> r.images@[k] == self.images@[k],
            r.images@.last() matches ImageInput::Base64 { media_type: t, data: d } && t@ == media_type@ && d@ == data@,
    {
        let mut m = self;
        m.images.push(ImageInput::Base64 { media_type: owned(media_type), data: owned(data) });
        m
    }

    /// The number of images.
    pub fn image_count(&self) -> (r: usize)
        ensures
            r == self.images@.len(),
    {
        self.images.len()
    }
}

/// A JSON string.
pub open spec fn js(s: Seq<char>) -> JsonView {
    JsonView::Str(s)
}

/// A text content block: `{"text": .., "type": "text"}`.
pub open spec fn text_block(t: Seq<char>) -> JsonView {
    JsonView::Object(seq![("text"@, js(t)), ("type"@, js("text"@))])
}

/// An image content block of the Anthropic Messages API: a source of type
/// `url` with the URL, or of type `base64` with media type and data.
pub open spec fn claude_block(i: ImageInput) -> JsonView {
    let source = match i {
        ImageInput::Url(u) => JsonView::Object(seq![("type"@, js("url"@)), ("url"@, js(u@))]),
        ImageInput::Base64 { media_type, data } => JsonView::Object(
            seq![("data"@, js(data@)), ("media_type"@, js(media_type@)), ("type"@, js("base64"@))],
        ),
    };
    JsonView::Object(seq![("source"@, source), ("type"@, js("image"@))])
}

/// The Anthropic user message: the text block, then one block per image.
pub open spec fn claude_payload(m: MultimodalMessage) -> JsonView {
    JsonView::Object(
        seq![
            ("content"@, JsonView::Array(seq![text_block(m.text@)] + m.images@.map_values(|i: ImageInput| claude_block(i)))),
            ("role"@, js("user"@)),
        ],
    )
}

/// The URL an OpenAI image block gives: the URL, or a `data:` URL of the
/// media type and the base64 data.
pub open spec fn image_url(i: ImageInput) -> Seq<char> {
    match i {
        ImageInput::Url(u) => u@,
        ImageInput::Base64 { media_type, data } => "data:"@ + media_type@ + ";base64,"@ + data@,
    }
}

/// An image content block of the OpenAI chat API.
pub open spec fn openai_block(i: ImageInput) -> JsonView {
    JsonView::Object(
        seq![("image_url"@, JsonView::Object(seq![("url"@, js(image_url(i)))])), ("type"@, js("image_url"@))],
    )
}

/// The OpenAI user message: the text block, then one block per image.
pub open spec fn openai_payload(m: MultimodalMessage) -> JsonView {
    JsonView::Object(
        seq![
            ("content"@, JsonView::Array(seq![text_block(m.text@)] + m.images@.map_values(|i: ImageInput| openai_block(i)))),
            ("role"@, js("user"@)),
        ],
    )
}

/// An image part of the Gemini API: inline data for a base64 image, file
/// data of type `image/*` for a URL.
pub open spec fn gemini_part(i: ImageInput) -> JsonView {
    match i {
        ImageInput::Base64 { media_type, data } => JsonView::Object(
            seq![("inline_data"@, JsonView::Object(seq![("data"@, js(data@)), ("mime_type"@, js(media_type@))]))],
        ),
        ImageInput::Url(u) => JsonView::Object(
            seq![("file_data"@, JsonView::Object(seq![("file_uri"@, js(u@)), ("mime_type"@, js("image/*"@))]))],
        ),
    }
}

/// The Gemini request: one content whose parts are the text, then one part
/// per image.
pub open spec fn gemini_payload(m: MultimodalMessage) -> JsonView {
    JsonView::Object(
        seq![
            (
                "contents"@,
                JsonView::Array(
                    seq![
                        JsonView::Object(
                            seq![
                                (
                                    "parts"@,
                                    JsonView::Array(
                                        seq![JsonView::Object(seq![("text"@, js(m.text@))])] + m.images@.map_values(
                                            |i: ImageInput| gemini_part(i),
                                        ),
                                    ),
                                ),
                            ],
                        ),
                    ],
                ),
            ),
        ],
    )
}

/// A JSON string of a text.
fn jstr(s: &str) -> (r: JsonValue)
    ensures
        json_view(r) == js(s@),
{
    JsonValue::Str(owned(s))
}

/// A JSON object with one member.
fn obj1(k1: &str, v1: JsonValue) -> (r: JsonValue)
    ensures
        json_view(r) == JsonView::Object(seq![(k1@, json_view(v1))]),
{
    let mut ms: Vec<(String, JsonValue)> = Vec::new();
    ms.push((owned(k1), v1));
    let r = JsonValue::Object(ms);
    assert(json_view(r)->Object_0 =~= seq![(k1@, json_view(v1))]);
    r
}

/// A JSON object with two members.
fn obj2(k1: &str, v1: JsonValue, k2: &str, v2: JsonValue) -> (r: JsonValue)
    ensures
        json_view(r) == JsonView::Object(seq![(k1@, json_view(v1)), (k2@, json_view(v2))]),
{
    let mut ms: Vec<(String, JsonValue)> = Vec::new();
    ms.push((owned(k1), v1));
    ms.push((owned(k2), v2));
    let r = JsonValue::Object(ms);
    assert(json_view(r)->Object_0 =~= seq![(k1@, json_view(v1)), (k2@, json_view(v2))]);
    r
}

/// A JSON object with three members.
fn obj3(k1: &str, v1: JsonValue, k2: &str, v2: JsonValue, k3: &str, v3: JsonValue) -> (r: JsonValue)
    ensures
        json_view(r) == JsonView::Object(seq![(k1@, json_view(v1)), (k2@, json_view(v2)), (k3@, json_view(v3))]),
{
    let mut ms: Vec<(String, JsonValue)> = Vec::new();
    ms.push((owned(k1), v1));
    ms.push((owned(k2), v2));
    ms.push((owned(k3), v3));
    let r = JsonValue::Object(ms);
    assert(json_view(r)->Object_0 =~= seq![(k1@, json_view(v1)), (k2@, json_view(v2)), (k3@, json_view(v3))]);
    r
}

/// An array of values.
fn arr(vs: Vec<JsonValue>) -> (r: JsonValue)
    ensures
        json_view(r) == JsonView::Array(vs@.map_values(|v: JsonValue| json_view(v))),
{
    let r = JsonValue::Array(vs);
    assert(json_view(r)->Array_0 =~= vs@.map_values(|v: JsonValue| json_view(v)));
    r
}

/// The kind of a payload.
#[derive(Clone, Copy, PartialEq, Eq, Structural)]
enum Provider {
    Anthropic,
    OpenAi,
    Gemini,
}

/// The block or part of an image for a provider.
spec fn image_item(p: Provider, i: ImageInput) -> JsonView {
    match p {
        Provider::Anthropic => claude_block(i),
        Provider::OpenAi => openai_block(i),
        Provider::Gemini => gemini_part(i),
    }
}

/// The block or part of an image for a provider.
fn image_item_exec(p: Provider, i: &ImageInput) -> (r: JsonValue)
    ensures
        json_view(r) == image_item(p, *i),
{
    match p {
        Provider::Anthropic => match i {
            ImageInput::Url(u) => obj2(
                "source",
                obj2("type", jstr("url"), "url", jstr(u.as_str())),
                "type",
                jstr("image"),
            ),
            ImageInput::Base64 { media_type, data } => obj2(
                "source",
                obj3("data", jstr(data.as_str()), "media_type", jstr(media_type.as_str()), "type", jstr("base64")),
                "type",
                jstr("image"),
            ),
        },
        Provider::OpenAi => {
            let url = match i {
                ImageInput::Url(u) => copy_text(u),
                ImageInput::Base64 { media_type, data } => {
                    let mut v = chars_of("data:");
                    crate::text::push_chars(&mut v, &chars_of(media_type.as_str()));
                    push_str(&mut v, ";base64,");
                    crate::text::push_chars(&mut v, &chars_of(data.as_str()));
                    string_of(&v)
                },
            };
            obj2("image_url", obj1("url", jstr(url.as_str())), "type", jstr("image_url"))
        },
        Provider::Gemini => match i {
            ImageInput::Base64 { media_type, data } => obj1(
                "inline_data",
                obj2("data", jstr(data.as_str()), "mime_type", jstr(media_type.as_str())),
            ),
            ImageInput::Url(u) => obj1(
                "file_data",
                obj2("file_uri", jstr(u.as_str()), "mime_type", jstr("image/*")),
            ),
        },
    }
}

/// The first item, then one item per image.
fn items(p: Provider, first: JsonValue, m: &MultimodalMessage) -> (r: Vec<JsonValue>)
    ensures
        r@.map_values(|v: JsonValue| json_view(v)) == seq![json_view(first)] + m.images@.map_values(
            |i: ImageInput| image_item(p, i),
        ),
{
    let mut out: Vec<JsonValue> = Vec::new();
    let ghost f = json_view(first);
    out.push(first);
    let mut k: usize = 0;
    assert(out@.map_values(|v: JsonValue| json_view(v)) =~= seq![f] + m.images@.take(0).map_values(
        |i: ImageInput| image_item(p, i),
    ));
    while k < m.images.len()
        invariant
            k <= m.images@.len(),
            out@.map_values(|v: JsonValue| json_view(v)) == seq![f] + m.images@.take(k as int).map_values(
                |i: ImageInput| image_item(p, i),
            ),
        decreases m.images.len() - k,
    {
        let it = image_item_exec(p, &m.images[k]);
        let ghost before = out@;
        out.push(it);
        assert(out@.map_values(|v: JsonValue| json_view(v)) =~= before.map_values(|v: JsonValue| json_view(v)).push(json_view(it)));
        assert(m.images@.take(k + 1).map_values(|i: ImageInput| image_item(p, i)) =~= m.images@.take(k as int).map_values(
            |i: ImageInput| image_item(p, i),
        ).push(image_item(p, m.images@[k as int])));
        k += 1;
    }
    assert(m.images@.take(m.images.len() as int) =~= m.images@);
    out
}

impl ClaudeVisionBackend {
    /// The Anthropic Messages API user message for `message` (see
    /// [`claude_payload`]).
    pub fn build_messages_payload(message: &MultimodalMessage) -> (r: JsonValue)
        ensures
            json_view(r) == claude_payload(*message),
    {
        let first = obj2("text", jstr(message.text.as_str()), "type", jstr("text"));
        let content = arr(items(Provider::Anthropic, first, message));
        let r = obj2("content", content, "role", jstr("user"));
        assert(message.images@.map_values(|i: ImageInput| image_item(Provider::Anthropic, i)) =~= message.images@.map_values(
            |i: ImageInput| claude_block(i),
        ));
        r
    }
}

impl OpenAiVisionBackend {
    /// The OpenAI chat API user message for `message` (see
    /// [`openai_payload`]).
    pub fn build_messages_payload(message: &MultimodalMessage) -> (r: JsonValue)
        ensures
            json_view(r) == openai_payload(*message),
    {
        let first = obj2("text", jstr(message.text.as_str()), "type", jstr("text"));
        let content = arr(items(Provider::OpenAi, first, message));
        let r = obj2("content", content, "role", jstr("user"));
        assert(message.images@.map_values(|i: ImageInput| image_item(Provider::OpenAi, i)) =~= message.images@.map_values(
            |i: ImageInput| openai_block(i),
        ));
        r
    }
}

impl GeminiVisionBackend {
    /// The Gemini request for `message` (see [`gemini_payload`]).
    pub fn build_messages_payload(message: &MultimodalMessage) -> (r: JsonValue)
        ensures
            json_view(r) == gemini_payload(*message),
    {
        let first = obj1("text", jstr(message.text.as_str()));
        let parts = arr(items(Provider::Gemini, first, message));
        let mut one: Vec<JsonValue> = Vec::new();
        let c = obj1("parts", parts);
        let ghost cv = json_view(c);
        one.push(c);
        assert(one@.map_values(|v: JsonValue| json_view(v)) =~= seq![cv]);
        let contents = arr(one);
        let r = obj1("contents", contents);
        assert(message.images@.map_values(|i: ImageInput| image_item(Provider::Gemini, i)) =~= message.images@.map_values(
            |i: ImageInput| gemini_part(i),
        ));
        r
    }
}

/// The reply of a backend that does not call its service yet: its tag in
/// brackets, then how many images and what text it would process.
pub open spec fn stub_reply(tag: Seq<char>, m: MultimodalMessage) -> Seq<char> {
    "["@ + tag + "] would process "@ + decimal(m.images@.len()) + " image(s) with text: "@ + m.text@
}

/// The stub reply for a message (see [`stub_reply`]).
fn stub_reply_exec(tag: &str, m: &MultimodalMessage) -> (r: String)
    ensures
        r@ == stub_reply(tag@, *m),
{
    let mut v = chars_of("[");
    push_str(&mut v, tag);
    push_str(&mut v, "] would process ");
    crate::text::push_chars(&mut v, &decimal_chars(m.images.len()));
    push_str(&mut v, " image(s) with text: ");
    push_str(&mut v, m.text.as_str());
    string_of(&v)
}

impl ClaudeVisionBackend {
    /// Answer a question about the images of a message; the service is not
    /// called yet, so the answer says what would be sent.
    pub fn ask_with_image(&self, message: &MultimodalMessage) -> (r: Result<String, String>)
        ensures
            r matches Ok(t) && t@ == stub_reply("anthropic-vision-stub"@, *message),
    {
        Ok(stub_reply_exec("anthropic-vision-stub", message))
    }
}

impl OpenAiVisionBackend {
    /// Answer a question about the images of a message; the service is not
    /// called yet, so the answer says what would be sent.
    pub fn ask_with_image(&self, message: &MultimodalMessage) -> (r: Result<String, String>)
        ensures
            r matches Ok(t) && t@ == stub_reply("openai-vision-stub"@, *message),
    {
        Ok(stub_reply_exec("openai-vision-stub", message))
    }
}

impl GeminiVisionBackend {
    /// Answer a question about the images of a message; the service is not
    /// called yet, so the answer says what would be sent.
    pub fn ask_with_image(&self, message: &MultimodalMessage) -> (r: Result<String, String>)
        ensures
            r matches Ok(t) && t@ == stub_reply("gemini-vision-stub"@, *message),
    {
        Ok(stub_reply_exec("gemini-vision-stub", message))
    }
}

} // verus!
