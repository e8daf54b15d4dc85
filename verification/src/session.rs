//! Events of a realtime speech session: what the server's frames mean, and
//! the frames of the client's text queries.
use vstd::prelude::*;
use vstd::string::StringExecFns;
use vstd::utf8::encode_utf8;
use vstd::string::StringSliceAdditionalSpecFns;

use crate::binary::{encode_session_event, session_event_frame, FrameView, ServerFrame};
use crate::client_event;
use crate::json::{
    as_boolean, as_nat64, as_text, field, first_element, json_string_literal, quote_json, text_or_empty, JsonValue,
};
use crate::server_event;

verus! {

/// Events received from the server, typed.
#[derive(Debug, Clone)]
pub enum ServerEvent {
    ConnectionStarted,
    ConnectionFinished,
    SessionStarted { dialog_id: String },
    SessionFinished,
    AsrResponse { text: String, is_interim: bool },
    AsrEnded,
    TtsSentenceStart { tts_type: String, text: String, question_id: String, reply_id: String },
    TtsAudio(Vec<u8>),
    TtsEnded,
    ChatResponse { content: String, question_id: String, reply_id: String },
    ChatEnded,
    Usage { input_text: u64, input_audio: u64, output_text: u64, output_audio: u64 },
    Error { code: u32, message: String },
    Unknown { event_id: u32 },
}

/// The content of a server event.
pub enum EventView {
    ConnectionStarted,
    ConnectionFinished,
    SessionStarted { dialog_id: Seq<char> },
    SessionFinished,
    AsrResponse { text: Seq<char>, is_interim: bool },
    AsrEnded,
    TtsSentenceStart { tts_type: Seq<char>, text: Seq<char>, question_id: Seq<char>, reply_id: Seq<char> },
    TtsAudio(Seq<u8>),
    TtsEnded,
    ChatResponse { content: Seq<char>, question_id: Seq<char>, reply_id: Seq<char> },
    ChatEnded,
    Usage { input_text: u64, input_audio: u64, output_text: u64, output_audio: u64 },
    Error { code: u32, message: Seq<char> },
    Unknown { event_id: u32 },
}

impl View for ServerEvent {
    type V = EventView;

    open spec fn view(&self) -> EventView {
        match self {
            ServerEvent::ConnectionStarted => EventView::ConnectionStarted,
            ServerEvent::ConnectionFinished => EventView::ConnectionFinished,
            ServerEvent::SessionStarted { dialog_id } => EventView::SessionStarted { dialog_id: dialog_id@ },
            ServerEvent::SessionFinished => EventView::SessionFinished,
            ServerEvent::AsrResponse { text, is_interim } => EventView::AsrResponse {
                text: text@,
                is_interim: *is_interim,
            },
            ServerEvent::AsrEnded => EventView::AsrEnded,
            ServerEvent::TtsSentenceStart { tts_type, text, question_id, reply_id } => EventView::TtsSentenceStart {
                tts_type: tts_type@,
                text: text@,
                question_id: question_id@,
                reply_id: reply_id@,
            },
            ServerEvent::TtsAudio(data) => EventView::TtsAudio(data@),
            ServerEvent::TtsEnded => EventView::TtsEnded,
            ServerEvent::ChatResponse { content, question_id, reply_id } => EventView::ChatResponse {
                content: content@,
                question_id: question_id@,
                reply_id: reply_id@,
            },
            ServerEvent::ChatEnded => EventView::ChatEnded,
            ServerEvent::Usage { input_text, input_audio, output_text, output_audio } => EventView::Usage {
                input_text: *input_text,
                input_audio: *input_audio,
                output_text: *output_text,
                output_audio: *output_audio,
            },
            ServerEvent::Error { code, message } => EventView::Error { code: *code, message: message@ },
            ServerEvent::Unknown { event_id } => EventView::Unknown { event_id: *event_id },
        }
    }
}

/// `x.unwrap_or(0)` for a token count.
pub open spec fn count_or_zero(x: Option<u64>) -> u64 {
    match x {
        Some(n) => n,
        None => 0,
    }
}

/// The error message of an error payload: `error`, else `message`, else
/// "unknown".
pub open spec fn error_message(payload: JsonValue) -> Seq<char> {
    match as_text(field(payload, "error"@)) {
        Some(m) => m,
        None => match as_text(field(payload, "message"@)) {
            Some(m) => m,
            None => "unknown"@,
        },
    }
}

/// The recognized text of an ASR payload: the `text` of the first result.
pub open spec fn asr_text(payload: JsonValue) -> Seq<char> {
    match first_element(field(payload, "results"@)) {
        Some(r) => text_or_empty(r, "text"@),
        None => Seq::empty(),
    }
}

/// Whether the first result of an ASR payload is interim (false when absent).
pub open spec fn asr_is_interim(payload: JsonValue) -> bool {
    match first_element(field(payload, "results"@)) {
        Some(r) => match as_boolean(field(r, "is_interim"@)) {
            Some(b) => b,
            None => false,
        },
        None => false,
    }
}

/// The event that a JSON payload with the given event id stands for.
pub open spec fn json_event(event_id: u32, p: JsonValue) -> EventView {
    if event_id == server_event::CONNECTION_STARTED {
        EventView::ConnectionStarted
    } else if event_id == server_event::CONNECTION_FINISHED {
        EventView::ConnectionFinished
    } else if event_id == server_event::SESSION_STARTED {
        EventView::SessionStarted { dialog_id: text_or_empty(p, "dialog_id"@) }
    } else if event_id == server_event::SESSION_FINISHED {
        EventView::SessionFinished
    } else if event_id == server_event::TTS_SENTENCE_START {
        EventView::TtsSentenceStart {
            tts_type: text_or_empty(p, "tts_type"@),
            text: text_or_empty(p, "text"@),
            question_id: text_or_empty(p, "question_id"@),
            reply_id: text_or_empty(p, "reply_id"@),
        }
    } else if event_id == server_event::TTS_ENDED {
        EventView::TtsEnded
    } else if event_id == server_event::ASR_RESPONSE {
        EventView::AsrResponse { text: asr_text(p), is_interim: asr_is_interim(p) }
    } else if event_id == server_event::ASR_ENDED {
        EventView::AsrEnded
    } else if event_id == server_event::CHAT_RESPONSE {
        EventView::ChatResponse {
            content: text_or_empty(p, "content"@),
            question_id: text_or_empty(p, "question_id"@),
            reply_id: text_or_empty(p, "reply_id"@),
        }
    } else if event_id == server_event::CHAT_ENDED {
        EventView::ChatEnded
    } else if event_id == server_event::USAGE_RESPONSE {
        let u = field(p, "usage"@);
        EventView::Usage {
            input_text: count_or_zero(as_nat64(field(u, "input_text_tokens"@))),
            input_audio: count_or_zero(as_nat64(field(u, "input_audio_tokens"@))),
            output_text: count_or_zero(as_nat64(field(u, "output_text_tokens"@))),
            output_audio: count_or_zero(as_nat64(field(u, "output_audio_tokens"@))),
        }
    } else if event_id == server_event::SESSION_FAILED || event_id == server_event::DIALOG_COMMON_ERROR {
        EventView::Error {
            code: count_or_zero(as_nat64(field(p, "status_code"@))) as u32,
            message: error_message(p),
        }
    } else {
        EventView::Unknown { event_id }
    }
}

/// The event that a decoded frame stands for.
pub open spec fn event_of_frame(f: FrameView) -> EventView {
    match f {
        FrameView::Json { event_id, payload, .. } => json_event(event_id, payload),
        FrameView::Audio { data, .. } => EventView::TtsAudio(data),
        FrameView::Error { code, message } => EventView::Error { code, message },
    }
}

/// Each frame becomes the event its event id names, filled from the
/// payload members of the same names:
/// - a session start carries the `dialog_id` string;
/// - a sentence start carries the `tts_type`, `text`, `question_id` and
///   `reply_id` strings, and a chat answer the `content`, `question_id`
///   and `reply_id` strings, each from the member of its own name (empty
///   when absent or not a string);
/// - a recognition result carries the `text` of the first result, and is
///   interim exactly when that result's `is_interim` is the boolean `true`;
/// - the usage counts are the non-negative integers of the same names
///   under `usage` (0 when absent);
/// - a session failure or dialog error carries the `error` string, else the
///   `message` string, else "unknown";
/// - audio frames become the audio, error frames the error, unchanged.
pub proof fn law_frames_become_named_events(f: FrameView)
    ensures
        match f {
            FrameView::Json { event_id, payload: p, .. } => {
                let e = event_of_frame(f);
                let first = first_element(field(p, "results"@));
                let u = field(p, "usage"@);
                &&& event_id == server_event::SESSION_STARTED ==> e == EventView::SessionStarted {
                    dialog_id: text_or_empty(p, "dialog_id"@),
                }
                &&& event_id == server_event::TTS_SENTENCE_START ==> e == EventView::TtsSentenceStart {
                    tts_type: text_or_empty(p, "tts_type"@),
                    text: text_or_empty(p, "text"@),
                    question_id: text_or_empty(p, "question_id"@),
                    reply_id: text_or_empty(p, "reply_id"@),
                }
                &&& event_id == server_event::CHAT_RESPONSE ==> e == EventView::ChatResponse {
                    content: text_or_empty(p, "content"@),
                    question_id: text_or_empty(p, "question_id"@),
                    reply_id: text_or_empty(p, "reply_id"@),
                }
                &&& event_id == server_event::ASR_RESPONSE ==> e == EventView::AsrResponse {
                    text: match first {
                        Some(r) => text_or_empty(r, "text"@),
                        None => Seq::empty(),
                    },
                    is_interim: first is Some && as_boolean(field(first->0, "is_interim"@)) == Some(true),
                }
                &&& event_id == server_event::USAGE_RESPONSE ==> e is Usage
                    && (as_nat64(field(u, "input_text_tokens"@)) matches Some(n) ==> e->input_text == n)
                    && (as_nat64(field(u, "input_audio_tokens"@)) matches Some(n) ==> e->input_audio == n)
                    && (as_nat64(field(u, "output_text_tokens"@)) matches Some(n) ==> e->output_text == n)
                    && (as_nat64(field(u, "output_audio_tokens"@)) matches Some(n) ==> e->output_audio == n)
                    && (as_nat64(field(u, "input_text_tokens"@)) is None ==> e->input_text == 0)
                    && (as_nat64(field(u, "input_audio_tokens"@)) is None ==> e->input_audio == 0)
                    && (as_nat64(field(u, "output_text_tokens"@)) is None ==> e->output_text == 0)
                    && (as_nat64(field(u, "output_audio_tokens"@)) is None ==> e->output_audio == 0)
                &&& (event_id == server_event::SESSION_FAILED || event_id == server_event::DIALOG_COMMON_ERROR)
                    ==> e is Error && e->message == match as_text(field(p, "error"@)) {
                    Some(m) => m,
                    None => match as_text(field(p, "message"@)) {
                        Some(m) => m,
                        None => "unknown"@,
                    },
                }
                &&& event_id == server_event::CONNECTION_STARTED ==> e is ConnectionStarted
                &&& event_id == server_event::CONNECTION_FINISHED ==> e is ConnectionFinished
                &&& event_id == server_event::SESSION_FINISHED ==> e is SessionFinished
                &&& event_id == server_event::TTS_ENDED ==> e is TtsEnded
                &&& event_id == server_event::ASR_ENDED ==> e is AsrEnded
                &&& event_id == server_event::CHAT_ENDED ==> e is ChatEnded
            },
            FrameView::Audio { data, .. } => event_of_frame(f) == EventView::TtsAudio(data),
            FrameView::Error { code, message } => event_of_frame(f) == EventView::Error { code, message },
        },
{
}

/// Token count `payload[key].as_u64().unwrap_or(0)`.
fn token_count(payload: &JsonValue, key: &str) -> (n: u64)
    ensures
        n == count_or_zero(as_nat64(field(*payload, key@))),
{
    match payload.u64_field(&String::from_str(key)) {
        Some(n) => n,
        None => 0,
    }
}

/// The text of `payload[key]`, or the empty text.
fn text_of(payload: &JsonValue, key: &str) -> (s: String)
    ensures
        s@ == text_or_empty(*payload, key@),
{
    payload.text_field(&String::from_str(key))
}

/// The event of a JSON payload.
fn json_to_event(event_id: u32, payload: &JsonValue) -> (e: ServerEvent)
    ensures
        e@ == json_event(event_id, *payload),
{
    if event_id == server_event::CONNECTION_STARTED {
        ServerEvent::ConnectionStarted
    } else if event_id == server_event::CONNECTION_FINISHED {
        ServerEvent::ConnectionFinished
    } else if event_id == server_event::SESSION_STARTED {
        ServerEvent::SessionStarted { dialog_id: text_of(payload, "dialog_id") }
    } else if event_id == server_event::SESSION_FINISHED {
        ServerEvent::SessionFinished
    } else if event_id == server_event::TTS_SENTENCE_START {
        ServerEvent::TtsSentenceStart {
            tts_type: text_of(payload, "tts_type"),
            text: text_of(payload, "text"),
            question_id: text_of(payload, "question_id"),
            reply_id: text_of(payload, "reply_id"),
        }
    } else if event_id == server_event::TTS_ENDED {
        ServerEvent::TtsEnded
    } else if event_id == server_event::ASR_RESPONSE {
        let results = payload.get(&String::from_str("results"));
        let first = match results {
            Some(r) => r.first_item(),
            None => None,
        };
        let (text, is_interim) = match first {
            Some(r) => {
                let text = text_of(r, "text");
                let is_interim = match r.bool_field(&String::from_str("is_interim")) {
                    Some(b) => b,
                    None => false,
                };
                (text, is_interim)
            },
            None => (String::new(), false),
        };
        ServerEvent::AsrResponse { text, is_interim }
    } else if event_id == server_event::ASR_ENDED {
        ServerEvent::AsrEnded
    } else if event_id == server_event::CHAT_RESPONSE {
        ServerEvent::ChatResponse {
            content: text_of(payload, "content"),
            question_id: text_of(payload, "question_id"),
            reply_id: text_of(payload, "reply_id"),
        }
    } else if event_id == server_event::CHAT_ENDED {
        ServerEvent::ChatEnded
    } else if event_id == server_event::USAGE_RESPONSE {
        let usage = match payload.get(&String::from_str("usage")) {
            Some(u) => u,
            None => &JsonValue::Null,
        };
        ServerEvent::Usage {
            input_text: token_count(usage, "input_text_tokens"),
            input_audio: token_count(usage, "input_audio_tokens"),
            output_text: token_count(usage, "output_text_tokens"),
            output_audio: token_count(usage, "output_audio_tokens"),
        }
    } else if event_id == server_event::SESSION_FAILED || event_id == server_event::DIALOG_COMMON_ERROR {
        let code = token_count(payload, "status_code") as u32;
        let message = match payload.str_field(&String::from_str("error")) {
            Some(m) => m,
            None => match payload.str_field(&String::from_str("message")) {
                Some(m) => m,
                None => String::from_str("unknown"),
            },
        };
        ServerEvent::Error { code, message }
    } else {
        ServerEvent::Unknown { event_id }
    }
}

/// The event that a decoded frame stands for.
pub fn convert_frame(frame: ServerFrame) -> (e: ServerEvent)
    ensures
        e@ == event_of_frame(frame@),
{
    match frame {
        ServerFrame::Json { event_id, payload, .. } => json_to_event(event_id, &payload),
        ServerFrame::Audio { data, .. } => ServerEvent::TtsAudio(data),
        ServerFrame::Error { code, message } => ServerEvent::Error { code, message },
    }
}

/// The JSON body of a text query: `{"content":<text as a JSON string>}`.
pub open spec fn text_query_json(text: Seq<char>) -> Seq<char> {
    "{\"content\":"@ + json_string_literal(text) + "}"@
}

/// The frame of a text query (event 501) in a session.
pub fn text_query_frame(session_id: &str, text: &str) -> (frame: Vec<u8>)
    ensures
        frame@ == session_event_frame(
            client_event::CHAT_TEXT_QUERY,
            session_id.spec_bytes(),
            encode_utf8(text_query_json(text@)),
        ),
{
    let quoted = quote_json(text);
    let mut json = String::from_str("{\"content\":");
    json.append(quoted.as_str());
    json.append("}");
    encode_session_event(client_event::CHAT_TEXT_QUERY, session_id, json.as_str())
}

} // verus!
