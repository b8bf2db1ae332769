//! Voice support: audio formats, audio inputs and transcription requests.
use vstd::prelude::*;
use crate::text::{chars_of, string_of, eq_str, ascii_lower, ascii_lower_chars};

verus! {

/// Audio container / codec format for voice input and output.
#[derive(Debug, Clone, Copy, PartialEq, Eq, Hash, Structural)]
pub enum AudioFormat {
    /// Waveform audio (`audio/wav`).
    Wav,
    /// MPEG-1 Audio Layer III (`audio/mpeg`).
    Mp3,
    /// Ogg container, typically with Vorbis or Opus (`audio/ogg`).
    Ogg,
    /// Free Lossless Audio Codec (`audio/flac`).
    Flac,
    /// WebM container, typically with Opus (`audio/webm`).
    Webm,
    /// MPEG-4 Audio (`audio/mp4`).
    M4a,
}

/// The IANA media type of a format.
pub open spec fn mime_of(f: AudioFormat) -> Seq<char> {
    match f {
        AudioFormat::Wav => "audio/wav"@,
        AudioFormat::Mp3 => "audio/mpeg"@,
        AudioFormat::Ogg => "audio/ogg"@,
        AudioFormat::Flac => "audio/flac"@,
        AudioFormat::Webm => "audio/webm"@,
        AudioFormat::M4a => "audio/mp4"@,
    }
}

/// The canonical file extension of a format.
pub open spec fn extension_of(f: AudioFormat) -> Seq<char> {
    match f {
        AudioFormat::Wav => "wav"@,
        AudioFormat::Mp3 => "mp3"@,
        AudioFormat::Ogg => "ogg"@,
        AudioFormat::Flac => "flac"@,
        AudioFormat::Webm => "webm"@,
        AudioFormat::M4a => "m4a"@,
    }
}

/// The format a lower-case extension names: the canonical extensions, and
/// `oga` for Ogg and `mp4` for M4A.
pub open spec fn format_for_extension(e: Seq<char>) -> Option<AudioFormat> {
    if e == "wav"@ {
        Some(AudioFormat::Wav)
    } else if e == "mp3"@ {
        Some(AudioFormat::Mp3)
    } else if e == "ogg"@ || e == "oga"@ {
        Some(AudioFormat::Ogg)
    } else if e == "flac"@ {
        Some(AudioFormat::Flac)
    } else if e == "webm"@ {
        Some(AudioFormat::Webm)
    } else if e == "m4a"@ || e == "mp4"@ {
        Some(AudioFormat::M4a)
    } else {
        None
    }
}

/// The name for what `Path::extension` returns for a path, as text.
pub uninterp spec fn path_extension(path: Seq<char>) -> Option<Seq<char>>;

/// `Path::extension` on a path given as a string, converted to a `String`
/// (a `&str` path is valid UTF-8, so the conversion keeps every extension).
///
/// The contract names the result by [`path_extension`]; how the file name
/// and its final `.` are found is left to `std::path`.
#[verifier::external_body]
fn extension_of_path(path: &str) -> (r: Option<String>)
    ensures
        match r {
            Some(e) => path_extension(path@) == Some(e@),
            None => path_extension(path@) is None,
        },
{
    std::path::Path::new(path).extension().and_then(|e| e.to_str()).map(|e| e.to_string())
}

/// The format of a file path, from its extension, lower-cased in ASCII.
pub open spec fn format_of_path(path: Seq<char>) -> Option<AudioFormat> {
    match path_extension(path) {
        Some(e) => format_for_extension(ascii_lower(e)),
        None => None,
    }
}

impl AudioFormat {
    /// IANA media type for this format.
    pub fn mime_type(&self) -> (r: &'static str)
        ensures
            r@ == mime_of(*self),
    {
        match self {
            AudioFormat::Wav => "audio/wav",
            AudioFormat::Mp3 => "audio/mpeg",
            AudioFormat::Ogg => "audio/ogg",
            AudioFormat::Flac => "audio/flac",
            AudioFormat::Webm => "audio/webm",
            AudioFormat::M4a => "audio/mp4",
        }
    }

    /// Canonical file extension (without leading dot).
    pub fn extension(&self) -> (r: &'static str)
        ensures
            r@ == extension_of(*self),
    {
        match self {
            AudioFormat::Wav => "wav",
            AudioFormat::Mp3 => "mp3",
            AudioFormat::Ogg => "ogg",
            AudioFormat::Flac => "flac",
            AudioFormat::Webm => "webm",
            AudioFormat::M4a => "m4a",
        }
    }

    /// The format an extension names, compared in ASCII lower case (see
    /// [`format_for_extension`]).
    pub fn from_extension(ext: &str) -> (r: Option<Self>)
        ensures
            r == format_for_extension(ascii_lower(ext@)),
    {
        let e = ascii_lower_chars(&chars_of(ext));
        if eq_str(&e, "wav") {
            Some(AudioFormat::Wav)
        } else if eq_str(&e, "mp3") {
            Some(AudioFormat::Mp3)
        } else if eq_str(&e, "ogg") || eq_str(&e, "oga") {
            Some(AudioFormat::Ogg)
        } else if eq_str(&e, "flac") {
            Some(AudioFormat::Flac)
        } else if eq_str(&e, "webm") {
            Some(AudioFormat::Webm)
        } else if eq_str(&e, "m4a") || eq_str(&e, "mp4") {
            Some(AudioFormat::M4a)
        } else {
            None
        }
    }

    /// Infer an [`AudioFormat`] from a file path's extension; `None` if the
    /// extension is missing or not recognized.
    pub fn from_path(path: &str) -> (r: Option<Self>)
        ensures
            r == format_of_path(path@),
    {
        match extension_of_path(path) {
            Some(e) => Self::from_extension(e.as_str()),
            None => None,
        }
    }
}

/// An audio input — inline base64, a local file, or a URL the backend can
/// download.
#[derive(Debug, Clone, PartialEq, Eq)]
pub enum AudioInput {
    /// Base64-encoded audio bytes plus the declared [`AudioFormat`].
    Base64 {
        /// Audio container / codec.
        format: AudioFormat,
        /// Base64-encoded payload (no `data:` prefix).
        data: String,
    },
    /// Local filesystem path. Format is inferred from the extension.
    FilePath(String),
    /// Publicly reachable HTTP(S) URL the provider will fetch.
    Url(String),
}

impl AudioInput {
    /// Returns `true` when this input is a [`AudioInput::Base64`] variant.
    pub fn is_base64(&self) -> (r: bool)
        ensures
            r == (*self is Base64),
    {
        matches!(self, AudioInput::Base64 { .. })
    }

    /// Returns `true` when this input is a [`AudioInput::FilePath`] variant.
    pub fn is_file(&self) -> (r: bool)
        ensures
            r == (*self is FilePath),
    {
        matches!(self, AudioInput::FilePath(_))
    }

    /// Returns `true` when this input is a [`AudioInput::Url`] variant.
    pub fn is_url(&self) -> (r: bool)
        ensures
            r == (*self is Url),
    {
        matches!(self, AudioInput::Url(_))
    }

    /// Inline format if known: the declared format of base64 data, the
    /// format of a file path's extension, and never for a URL.
    pub fn format_hint(&self) -> (r: Option<AudioFormat>)
        ensures
            r == match *self {
                AudioInput::Base64 { format, .. } => Some(format),
                AudioInput::FilePath(p) => format_of_path(p@),
                AudioInput::Url(_) => None,
            },
    {
        match self {
            AudioInput::Base64 { format, .. } => Some(*format),
            AudioInput::FilePath(p) => AudioFormat::from_path(p.as_str()),
            AudioInput::Url(_) => None,
        }
    }
}

/// An STT (transcription) request.
#[derive(Debug, Clone, PartialEq, Eq)]
pub struct TranscriptionRequest {
    /// Audio payload to transcribe.
    pub audio: AudioInput,
    /// Optional language hint (ISO code); `None` lets the backend detect it.
    pub language: Option<String>,
    /// Optional domain-specific prompt to bias vocabulary.
    pub prompt: Option<String>,
}

impl TranscriptionRequest {
    /// A request with only the audio input.
    pub fn new(audio: AudioInput) -> (r: Self)
        ensures
            r.audio == audio,
            r.language is None,
            r.prompt is None,
    {
        TranscriptionRequest { audio, language: None, prompt: None }
    }

    /// Builder — set a language hint.
    pub fn with_language(self, lang: &str) -> (r: Self)
        ensures
            r.audio == self.audio,
            r.language is Some && r.language->0@ == lang@,
            r.prompt == self.prompt,
    {
        let mut s = self;
        s.language = Some(string_of(&chars_of(lang)));
        s
    }

    /// Builder — set a biasing prompt.
    pub fn with_prompt(self, prompt: &str) -> (r: Self)
        ensures
            r.audio == self.audio,
            r.language == self.language,
            r.prompt is Some && r.prompt->0@ == prompt@,
    {
        let mut s = self;
        s.prompt = Some(string_of(&chars_of(prompt)));
        s
    }
}

/// The audio format of each known extension: wav, mp3, ogg and oga, flac,
/// webm, m4a and mp4; any other extension has none.
pub proof fn law_extension_table(e: Seq<char>)
    ensures
        e == "wav"@ ==> format_for_extension(e) == Some(AudioFormat::Wav),
        e == "mp3"@ ==> format_for_extension(e) == Some(AudioFormat::Mp3),
        e == "ogg"@ || e == "oga"@ ==> format_for_extension(e) == Some(AudioFormat::Ogg),
        e == "flac"@ ==> format_for_extension(e) == Some(AudioFormat::Flac),
        e == "webm"@ ==> format_for_extension(e) == Some(AudioFormat::Webm),
        e == "m4a"@ || e == "mp4"@ ==> format_for_extension(e) == Some(AudioFormat::M4a),
        e != "wav"@ && e != "mp3"@ && e != "ogg"@ && e != "oga"@ && e != "flac"@ && e != "webm"@ && e != "m4a"@
            && e != "mp4"@ ==> format_for_extension(e) is None,
{
    reveal_strlit("wav");
    assert("wav"@ =~= seq!['w','a','v']);
    reveal_strlit("mp3");
    assert("mp3"@ =~= seq!['m','p','3']);
    reveal_strlit("ogg");
    assert("ogg"@ =~= seq!['o','g','g']);
    reveal_strlit("oga");
    assert("oga"@ =~= seq!['o','g','a']);
    reveal_strlit("flac");
    assert("flac"@ =~= seq!['f','l','a','c']);
    reveal_strlit("webm");
    assert("webm"@ =~= seq!['w','e','b','m']);
    reveal_strlit("m4a");
    assert("m4a"@ =~= seq!['m','4','a']);
    reveal_strlit("mp4");
    assert("mp4"@ =~= seq!['m','p','4']);
}

} // verus!
