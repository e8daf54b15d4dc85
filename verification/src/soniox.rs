//! Soniox speech service: endpoints and credentials, request models, and
//! the transcript assembly of a real-time recognition stream.
use vstd::prelude::*;
use vstd::string::StringExecFns;

use crate::json::{parse_json, parsed_json, text_or_empty};

verus! {

/// Default REST endpoint (US region).
pub open spec fn default_base_url() -> Seq<char> {
    "https://api.soniox.com"@
}

/// Endpoints of a region: REST base, speech synthesis WebSocket, speech
/// recognition WebSocket. Regions other than "eu" and "jp" use the US
/// endpoints.
pub open spec fn region_urls(region: Seq<char>) -> Option<(Seq<char>, Seq<char>, Seq<char>)> {
    if region == "eu"@ {
        Some(
            (
                "https://api.eu.soniox.com"@,
                "wss://tts-rt.eu.soniox.com/generate-websocket"@,
                "wss://stt-rt.eu.soniox.com/transcribe-websocket"@,
            ),
        )
    } else if region == "jp"@ {
        Some(
            (
                "https://api.jp.soniox.com"@,
                "wss://tts-rt.jp.soniox.com/generate-websocket"@,
                "wss://stt-rt.jp.soniox.com/transcribe-websocket"@,
            ),
        )
    } else {
        None
    }
}

/// Credentials and endpoints of the Soniox API. The HTTP connection pool
/// that uses them belongs to the application.
#[derive(Debug, Clone)]
pub struct SonioxClient {
    pub api_key: String,
    pub base_url: String,
    pub tts_ws_url: String,
    pub stt_ws_url: String,
}

impl SonioxClient {
    /// A client for the US endpoints.
    pub fn new(api_key: String) -> (c: Self)
        ensures
            c.api_key@ == api_key@,
            c.base_url@ == default_base_url(),
            c.tts_ws_url@ == "wss://tts-rt.soniox.com/generate-websocket"@,
            c.stt_ws_url@ == "wss://stt-rt.soniox.com/transcribe-websocket"@,
    {
        SonioxClient {
            api_key,
            base_url: String::from_str("https://api.soniox.com"),
            tts_ws_url: String::from_str("wss://tts-rt.soniox.com/generate-websocket"),
            stt_ws_url: String::from_str("wss://stt-rt.soniox.com/transcribe-websocket"),
        }
    }

    /// Switches to the endpoints of `region` ("eu" or "jp"); any other
    /// region keeps the endpoints unchanged.
    pub fn with_region(self, region: &str) -> (c: Self)
        ensures
            c.api_key == self.api_key,
            match region_urls(region@) {
                Some((base, tts, stt)) => c.base_url@ == base && c.tts_ws_url@ == tts && c.stt_ws_url@ == stt,
                None => c.base_url == self.base_url && c.tts_ws_url == self.tts_ws_url && c.stt_ws_url
                    == self.stt_ws_url,
            },
    {
        let mut c = self;
        let r = String::from_str(region);
        if r == String::from_str("eu") {
            c.base_url = String::from_str("https://api.eu.soniox.com");
            c.tts_ws_url = String::from_str("wss://tts-rt.eu.soniox.com/generate-websocket");
            c.stt_ws_url = String::from_str("wss://stt-rt.eu.soniox.com/transcribe-websocket");
        } else if r == String::from_str("jp") {
            c.base_url = String::from_str("https://api.jp.soniox.com");
            c.tts_ws_url = String::from_str("wss://tts-rt.jp.soniox.com/generate-websocket");
            c.stt_ws_url = String::from_str("wss://stt-rt.jp.soniox.com/transcribe-websocket");
        }
        c
    }

    /// The value of the `Authorization` header: "Bearer " and the key.
    pub fn auth_header(&self) -> (h: String)
        ensures
            h@ == "Bearer "@ + self.api_key@,
    {
        let mut h = String::from_str("Bearer ");
        h.append(self.api_key.as_str());
        h
    }
}

/// The transcript in the JSON body of a finished REST transcription: the
/// `text` member, empty when absent or not a string; `None` when the body
/// is not JSON.
pub fn transcript_text(body: &str) -> (r: Option<String>)
    ensures
        match r {
            Some(t) => parsed_json(body@) matches Some(j) && t@ == text_or_empty(j, "text"@),
            None => parsed_json(body@) is None,
        },
{
    match parse_json(body) {
        Some(json) => Some(json.text_field(&String::from_str("text"))),
        None => None,
    }
}

/// Whether an HTTP status code reports success: 200 to 299, as
/// `http::StatusCode::is_success` reads it.
pub fn status_is_success(code: u16) -> (ok: bool)
    ensures
        ok == (200 <= code && code < 300),
{
    200 <= code && code < 300
}

/// The message of a Soniox REST call that the service refused:
/// "Soniox <service> returned <status>: <body>".
pub fn failure_message(service: &str, status: &str, body: &str) -> (m: String)
    ensures
        m@ == "Soniox "@ + service@ + " returned "@ + status@ + ": "@ + body@,
{
    let mut m = String::from_str("Soniox ");
    m.append(service);
    m.append(" returned ");
    m.append(status);
    m.append(": ");
    m.append(body);
    m
}

/// Request body of the speech synthesis REST call.
#[derive(Debug, Clone)]
pub struct TtsRequest {
    pub text: String,
    pub model: Option<String>,
    pub language: Option<String>,
    pub voice: Option<String>,
    pub audio_format: Option<String>,
    pub sample_rate: Option<u32>,
}

/// The text of an optional string.
pub open spec fn opt_str(s: Option<String>) -> Option<Seq<char>> {
    match s {
        Some(t) => Some(t@),
        None => None,
    }
}

/// The synthesis request for `text` with the given voice, language and
/// model: a WAV file at 16 kHz, with the "tts-rt-v1-preview" model when
/// none is given.
pub fn synthesis_request(text: &str, voice: String, language: Option<String>, model: Option<String>) -> (r: TtsRequest)
    ensures
        r.text@ == text@,
        opt_str(r.model) == match model {
            Some(m) => Some(m@),
            None => Some("tts-rt-v1-preview"@),
        },
        opt_str(r.language) == opt_str(language),
        opt_str(r.voice) == Some(voice@),
        opt_str(r.audio_format) == Some("wav"@),
        r.sample_rate == Some(16000u32),
{
    let model = match model {
        Some(m) => Some(m),
        None => Some(String::from_str("tts-rt-v1-preview")),
    };
    TtsRequest {
        text: String::from_str(text),
        model,
        language,
        voice: Some(voice),
        audio_format: Some(String::from_str("wav")),
        sample_rate: Some(16000),
    }
}

/// Settings of a real-time recognition stream.
#[derive(Debug, Clone)]
pub struct SttRealtimeConfig {
    pub model: String,
    pub audio_format: String,
    pub language_hints: Option<Vec<String>>,
    pub enable_endpoint_detection: Option<bool>,
    pub context: Option<String>,
}

/// Events of a real-time recognition stream.
#[derive(Debug, Clone)]
pub enum SttEvent {
    /// Live partial transcript (may change).
    Partial(String),
    /// Confirmed final transcript.
    Final(String),
    /// The speaker likely finished talking.
    Endpoint,
    /// The stream finished and the connection closed.
    Finished,
    /// An error occurred.
    Error(String),
}

/// The content of a recognition event.
pub enum SttEventView {
    Partial(Seq<char>),
    Final(Seq<char>),
    Endpoint,
    Finished,
    Error(Seq<char>),
}

impl View for SttEvent {
    type V = SttEventView;

    open spec fn view(&self) -> SttEventView {
        match self {
            SttEvent::Partial(t) => SttEventView::Partial(t@),
            SttEvent::Final(t) => SttEventView::Final(t@),
            SttEvent::Endpoint => SttEventView::Endpoint,
            SttEvent::Finished => SttEventView::Finished,
            SttEvent::Error(t) => SttEventView::Error(t@),
        }
    }
}

/// A recognized token.
#[derive(Debug, Clone)]
pub struct SttToken {
    pub text: Option<String>,
    pub is_final: bool,
}

/// A message of the recognition stream.
#[derive(Debug, Clone)]
pub struct SttResponse {
    pub tokens: Vec<SttToken>,
    pub endpoint: bool,
    pub finished: bool,
    pub error_code: Option<String>,
    pub error_message: Option<String>,
}

/// The concatenated texts of the tokens that are final (`want_final`) or
/// not; tokens without text add nothing.
pub open spec fn token_text(tokens: Seq<SttToken>, want_final: bool) -> Seq<char>
    decreases tokens.len(),
{
    if tokens.len() == 0 {
        Seq::empty()
    } else {
        let t = tokens.last();
        token_text(tokens.drop_last(), want_final) + match t.text {
            Some(s) => if t.is_final == want_final {
                s@
            } else {
                Seq::empty()
            },
            None => Seq::empty(),
        }
    }
}

/// Token texts join in token order: the texts of two runs of tokens one
/// after the other are the texts of the first run followed by those of the
/// second; a single token gives its own text when its finality is the one
/// asked for and has text, and nothing otherwise.
pub proof fn law_token_texts_join_in_order(s: Seq<SttToken>, t: Seq<SttToken>, want_final: bool)
    ensures
        token_text(s + t, want_final) == token_text(s, want_final) + token_text(t, want_final),
        forall|tok: SttToken|
            #[trigger] token_text(seq![tok], want_final) == (if tok.is_final == want_final && tok.text is Some {
                tok.text->0@
            } else {
                Seq::<char>::empty()
            }),
    decreases t.len(),
{
    if t.len() == 0 {
        assert(s + t =~= s);
        assert(token_text(s, want_final) + token_text(t, want_final) =~= token_text(s, want_final));
    } else {
        law_token_texts_join_in_order(s, t.drop_last(), want_final);
        assert((s + t).drop_last() =~= s + t.drop_last());
        assert((s + t).last() == t.last());
        assert(token_text(s + t, want_final) =~= token_text(s, want_final) + token_text(t, want_final));
    }
    assert forall|tok: SttToken|
        #[trigger] token_text(seq![tok], want_final) == (if tok.is_final == want_final && tok.text is Some {
            tok.text->0@
        } else {
            Seq::<char>::empty()
        }) by {
        let one = seq![tok];
        assert(one.drop_last() =~= Seq::<SttToken>::empty());
        assert(one.last() == tok);
        assert(token_text(Seq::<SttToken>::empty(), want_final) == Seq::<char>::empty());
        let piece = match tok.text {
            Some(x) => if tok.is_final == want_final {
                x@
            } else {
                Seq::empty()
            },
            None => Seq::empty(),
        };
        assert(token_text(one, want_final) == token_text(one.drop_last(), want_final) + piece);
        assert(Seq::<char>::empty() + piece =~= piece);
        assert(token_text(seq![tok], want_final) =~= (if tok.is_final == want_final && tok.text is Some {
            tok.text->0@
        } else {
            Seq::<char>::empty()
        }));
    }
}

/// A message without an error extends the transcript by the texts of its
/// final tokens, in token order, and nothing else: a message whose tokens
/// are `s` followed by `t` gives the transcript so far, then the final
/// texts of `s`, then those of `t`. A message with an error leaves the
/// transcript as it was.
pub proof fn law_transcript_appends_final_tokens(final_text: Seq<char>, r: SttResponse, s: Seq<SttToken>, t: Seq<SttToken>)
    requires
        r.tokens@ == s + t,
    ensures
        r.error_code is None ==> stt_step(final_text, r).0 == final_text + token_text(s, true) + token_text(t, true),
        r.error_code is Some ==> stt_step(final_text, r).0 == final_text,
        r.error_code is None && r.finished ==> stt_step(final_text, r).1.last() == SttEventView::Finished
            && stt_step(final_text, r).1[stt_step(final_text, r).1.len() - 2] == SttEventView::Final(
            stt_step(final_text, r).0,
        ),
{
    law_token_texts_join_in_order(s, t, true);
    assert(final_text + (token_text(s, true) + token_text(t, true)) =~= final_text + token_text(s, true) + token_text(
        t,
        true,
    ));
}

/// The events of a stream message, given the final transcript so far:
/// an error message ends the stream with `Error("<code>: <message>")`;
/// otherwise final tokens extend the transcript, non-final ones make a
/// `Partial` of transcript plus partial text (when there is partial
/// text), then come `Endpoint` if flagged and `Final` and `Finished` if
/// the stream finished.
pub open spec fn stt_step(final_text: Seq<char>, r: SttResponse) -> (Seq<char>, Seq<SttEventView>, bool) {
    match r.error_code {
        Some(code) => (
            final_text,
            seq![
                SttEventView::Error(
                    code@ + ": "@ + match r.error_message {
                        Some(m) => m@,
                        None => Seq::empty(),
                    },
                ),
            ],
            true,
        ),
        None => {
            let text = final_text + token_text(r.tokens@, true);
            let partial = token_text(r.tokens@, false);
            let e1: Seq<SttEventView> = if partial.len() > 0 {
                seq![SttEventView::Partial(text + partial)]
            } else {
                Seq::empty()
            };
            let e2 = if r.endpoint {
                e1.push(SttEventView::Endpoint)
            } else {
                e1
            };
            let e3 = if r.finished {
                e2.push(SttEventView::Final(text)).push(SttEventView::Finished)
            } else {
                e2
            };
            (text, e3, r.finished)
        },
    }
}

/// The final transcript only grows: a stream message keeps the transcript
/// so far as a prefix of the new one, and the stream is over exactly when
/// the message reports an error or the end of the stream.
pub proof fn law_transcript_only_grows(final_text: Seq<char>, r: SttResponse)
    ensures
        ({
            let (text, _, done) = stt_step(final_text, r);
            &&& final_text.len() <= text.len()
            &&& text.subrange(0, final_text.len() as int) == final_text
            &&& done == (r.error_code is Some || r.finished)
        }),
{
    let (text, _, _) = stt_step(final_text, r);
    assert(text.subrange(0, final_text.len() as int) =~= final_text);
}

/// The views of a sequence of recognition events.
pub open spec fn stt_event_views(events: Seq<SttEvent>) -> Seq<SttEventView> {
    events.map_values(|e: SttEvent| e@)
}

/// The transcript assembled from a real-time recognition stream.
pub struct SttTranscript {
    final_text: String,
}

impl View for SttTranscript {
    type V = Seq<char>;

    /// The final transcript so far.
    closed spec fn view(&self) -> Seq<char> {
        self.final_text@
    }
}

impl SttTranscript {
    /// An empty transcript.
    pub fn new() -> (t: Self)
        ensures
            t@ == Seq::<char>::empty(),
    {
        SttTranscript { final_text: String::new() }
    }

    /// Handles one stream message: returns its events and whether the
    /// stream is over.
    pub fn handle_response(&mut self, r: SttResponse) -> (out: (Vec<SttEvent>, bool))
        ensures
            (final(self)@, stt_event_views(out.0@), out.1) == stt_step(old(self)@, r),
    {
        let ghost r0 = r;
        let mut events: Vec<SttEvent> = Vec::new();
        match r.error_code {
            Some(code) => {
                let mut msg = code;
                msg.append(": ");
                match r.error_message {
                    Some(m) => msg.append(m.as_str()),
                    None => {},
                }
                events.push(SttEvent::Error(msg));
                assert(stt_event_views(events@) =~= stt_step(old(self)@, r0).1);
                return (events, true);
            },
            None => {},
        }
        let mut partial = String::new();
        let mut i: usize = 0;
        while i < r.tokens.len()
            invariant
                i <= r.tokens@.len(),
                self.final_text@ == old(self)@ + token_text(r.tokens@.subrange(0, i as int), true),
                partial@ == token_text(r.tokens@.subrange(0, i as int), false),
            decreases r.tokens@.len() - i,
        {
            let token = &r.tokens[i];
            proof {
                let next = r.tokens@.subrange(0, i + 1);
                assert(next.drop_last() =~= r.tokens@.subrange(0, i as int));
                assert(next.last() == r.tokens@[i as int]);
            }
            match &token.text {
                Some(t) => {
                    if token.is_final {
                        self.final_text.append(t.as_str());
                    } else {
                        partial.append(t.as_str());
                    }
                },
                None => {},
            }
            i = i + 1;
        }
        assert(r.tokens@.subrange(0, r.tokens@.len() as int) =~= r.tokens@);
        if !partial.as_str().is_empty() {
            let mut shown = self.final_text.clone();
            shown.append(partial.as_str());
            events.push(SttEvent::Partial(shown));
        }
        if r.endpoint {
            events.push(SttEvent::Endpoint);
        }
        if r.finished {
            events.push(SttEvent::Final(self.final_text.clone()));
            events.push(SttEvent::Finished);
        }
        assert(stt_event_views(events@) =~= stt_step(old(self)@, r0).1);
        (events, r.finished)
    }
}

} // verus!
