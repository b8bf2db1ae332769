use argentor_agent::voice::{AudioFormat, AudioInput, TranscriptionRequest};

#[test]
fn audio_format_mime_wav() {
    assert_eq!(AudioFormat::Wav.mime_type(), "audio/wav");
}

#[test]
fn audio_format_mime_mp3() {
    assert_eq!(AudioFormat::Mp3.mime_type(), "audio/mpeg");
}

#[test]
fn audio_format_mime_ogg() {
    assert_eq!(AudioFormat::Ogg.mime_type(), "audio/ogg");
}

#[test]
fn audio_format_mime_flac() {
    assert_eq!(AudioFormat::Flac.mime_type(), "audio/flac");
}

#[test]
fn audio_format_mime_webm() {
    assert_eq!(AudioFormat::Webm.mime_type(), "audio/webm");
}

#[test]
fn audio_format_mime_m4a() {
    assert_eq!(AudioFormat::M4a.mime_type(), "audio/mp4");
}

#[test]
fn audio_format_extensions() {
    assert_eq!(AudioFormat::Wav.extension(), "wav");
    assert_eq!(AudioFormat::Mp3.extension(), "mp3");
    assert_eq!(AudioFormat::Ogg.extension(), "ogg");
    assert_eq!(AudioFormat::Flac.extension(), "flac");
    assert_eq!(AudioFormat::Webm.extension(), "webm");
    assert_eq!(AudioFormat::M4a.extension(), "m4a");
}

#[test]
fn audio_format_from_path_wav() {
    assert_eq!(AudioFormat::from_path("a.wav"), Some(AudioFormat::Wav));
}

#[test]
fn audio_format_from_path_mp3_uppercase() {
    assert_eq!(AudioFormat::from_path("a.MP3"), Some(AudioFormat::Mp3));
}

#[test]
fn audio_format_from_path_flac() {
    assert_eq!(AudioFormat::from_path("x.flac"), Some(AudioFormat::Flac));
}

#[test]
fn audio_format_from_path_m4a_and_mp4() {
    assert_eq!(AudioFormat::from_path("x.m4a"), Some(AudioFormat::M4a));
    assert_eq!(AudioFormat::from_path("x.mp4"), Some(AudioFormat::M4a));
}

#[test]
fn audio_format_from_path_oga_alias() {
    assert_eq!(AudioFormat::from_path("x.oga"), Some(AudioFormat::Ogg));
}

#[test]
fn audio_format_from_path_unknown_is_none() {
    assert_eq!(AudioFormat::from_path("x.txt"), None);
    assert_eq!(AudioFormat::from_path("noext"), None);
}

#[test]
fn audio_format_equality() {
    assert_eq!(AudioFormat::Mp3, AudioFormat::Mp3);
    assert_ne!(AudioFormat::Mp3, AudioFormat::Wav);
}

#[test]
fn audio_input_base64_is_base64() {
    let a = AudioInput::Base64 {
        format: AudioFormat::Wav,
        data: "AAAA".into(),
    };
    assert!(a.is_base64());
    assert!(!a.is_file());
    assert!(!a.is_url());
}

#[test]
fn audio_input_file_is_file() {
    let a = AudioInput::FilePath("/tmp/x.wav".into());
    assert!(a.is_file());
    assert!(!a.is_base64());
    assert!(!a.is_url());
}

#[test]
fn audio_input_url_is_url() {
    let a = AudioInput::Url("https://x/a.mp3".into());
    assert!(a.is_url());
    assert!(!a.is_base64());
    assert!(!a.is_file());
}

#[test]
fn audio_input_format_hint_base64() {
    let a = AudioInput::Base64 {
        format: AudioFormat::Flac,
        data: "AA".into(),
    };
    assert_eq!(a.format_hint(), Some(AudioFormat::Flac));
}

#[test]
fn audio_input_format_hint_file() {
    let a = AudioInput::FilePath("/tmp/hello.ogg".into());
    assert_eq!(a.format_hint(), Some(AudioFormat::Ogg));
}

#[test]
fn audio_input_format_hint_url_is_none() {
    let a = AudioInput::Url("https://x/a".into());
    assert_eq!(a.format_hint(), None);
}

#[test]
fn transcription_request_new_defaults() {
    let r = TranscriptionRequest::new(AudioInput::FilePath("/tmp/a.wav".into()));
    assert!(r.language.is_none());
    assert!(r.prompt.is_none());
    assert!(r.audio.is_file());
}

#[test]
fn transcription_request_builder() {
    let r = TranscriptionRequest::new(AudioInput::Url("https://x".into()))
        .with_language("en")
        .with_prompt("Medical vocabulary.");
    assert_eq!(r.language.as_deref(), Some("en"));
    assert_eq!(r.prompt.as_deref(), Some("Medical vocabulary."));
}

#[test]
fn from_extension_compares_in_ascii_lower_case() {
    assert_eq!(AudioFormat::from_extension("WeBm"), Some(AudioFormat::Webm));
    assert_eq!(AudioFormat::from_extension("OGA"), Some(AudioFormat::Ogg));
    assert_eq!(AudioFormat::from_extension("aac"), None);
}

#[test]
fn from_path_uses_the_last_extension_of_the_file_name() {
    assert_eq!(AudioFormat::from_path("dir.wav/track.flac"), Some(AudioFormat::Flac));
    assert_eq!(AudioFormat::from_path(".wav"), None);
    assert_eq!(AudioFormat::from_path("a.tar.mp3"), Some(AudioFormat::Mp3));
}
