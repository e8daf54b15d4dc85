//! Payloads of the realtime speech session's JSON events.
//!
//! The client's payloads are written as JSON, the server's are read from
//! JSON; the JSON mapping of these types lives with the application.
use vstd::prelude::*;
use vstd::string::StringExecFns;

verus! {

/// Format of the audio that the server speaks.
#[derive(Debug, Clone)]
pub struct TtsAudioConfig {
    pub channel: u32,
    pub format: String,
    pub sample_rate: u32,
}

impl Default for TtsAudioConfig {
    /// Mono 16-bit little-endian PCM at 24 kHz.
    fn default() -> (c: Self)
        ensures
            c.channel == 1,
            c.format@ == "pcm_s16le"@,
            c.sample_rate == 24000,
    {
        TtsAudioConfig { channel: 1, format: String::from_str("pcm_s16le"), sample_rate: 24000 }
    }
}

/// Speech synthesis settings of a session.
#[derive(Debug, Clone)]
pub struct TtsConfig {
    pub speaker: Option<String>,
    pub audio_config: TtsAudioConfig,
}

impl Default for TtsConfig {
    /// The default voice with the default audio format.
    fn default() -> (c: Self)
        ensures
            c.speaker matches Some(s) && s@ == "zh_female_vv_jupiter_bigtts"@,
            c.audio_config.channel == 1,
            c.audio_config.format@ == "pcm_s16le"@,
            c.audio_config.sample_rate == 24000,
    {
        TtsConfig {
            speaker: Some(String::from_str("zh_female_vv_jupiter_bigtts")),
            audio_config: TtsAudioConfig::default(),
        }
    }
}

/// Format of the audio that the client sends for recognition.
#[derive(Debug, Clone)]
pub struct AsrAudioInfo {
    pub format: String,
    pub sample_rate: u32,
    pub channel: u32,
}

impl Default for AsrAudioInfo {
    /// Mono PCM at 16 kHz.
    fn default() -> (c: Self)
        ensures
            c.format@ == "pcm"@,
            c.sample_rate == 16000,
            c.channel == 1,
    {
        AsrAudioInfo { format: String::from_str("pcm"), sample_rate: 16000, channel: 1 }
    }
}

/// Speech recognition settings of a session.
#[derive(Debug, Clone)]
pub struct AsrPayload {
    pub audio_info: AsrAudioInfo,
}

impl Default for AsrPayload {
    /// The default recognition audio format.
    fn default() -> (c: Self)
        ensures
            c.audio_info.format@ == "pcm"@,
            c.audio_info.sample_rate == 16000,
            c.audio_info.channel == 1,
    {
        AsrPayload { audio_info: AsrAudioInfo::default() }
    }
}

/// One earlier turn given to the dialog as context.
#[derive(Debug, Clone)]
pub struct DialogContextItem {
    pub role: String,
    pub text: String,
    pub timestamp: Option<i64>,
}

/// Extra dialog settings.
#[derive(Debug, Clone)]
pub struct DialogExtra {
    pub strict_audit: Option<bool>,
    pub audit_response: Option<String>,
    pub enable_volc_websearch: Option<bool>,
    pub input_mod: Option<String>,
    pub model: Option<String>,
}

/// Payload of the session-started event.
#[derive(Debug, Clone)]
pub struct SessionStartedPayload {
    pub dialog_id: String,
}

/// Payload of an error event.
#[derive(Debug, Clone)]
pub struct ErrorPayload {
    pub error: String,
}

/// One recognition result.
#[derive(Debug, Clone)]
pub struct AsrResponseResult {
    pub text: String,
    pub is_interim: bool,
}

/// Payload of a recognition event.
#[derive(Debug, Clone)]
pub struct AsrResponsePayload {
    pub results: Vec<AsrResponseResult>,
}

/// Payload of the event that announces a sentence about to be spoken.
#[derive(Debug, Clone)]
pub struct TtsSentenceStartPayload {
    pub tts_type: String,
    pub text: String,
    pub question_id: String,
    pub reply_id: String,
}

/// Payload of a chat answer event.
#[derive(Debug, Clone)]
pub struct ChatResponsePayload {
    pub content: String,
    pub question_id: String,
    pub reply_id: String,
}

/// Payload of the usage event.
#[derive(Debug, Clone)]
pub struct UsagePayload {
    pub usage: UsageInfo,
}

/// Token usage of a session.
#[derive(Debug, Clone, Copy)]
pub struct UsageInfo {
    pub input_text_tokens: u64,
    pub input_audio_tokens: u64,
    pub output_text_tokens: u64,
    pub output_audio_tokens: u64,
}

} // verus!
