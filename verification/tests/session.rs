use english_partner::binary::{decode_frame, encode_session_event};
use english_partner::session::{convert_frame, text_query_frame, ServerEvent};

fn server_json(event_id: u32, sid: Option<&str>, payload: &str) -> Vec<u8> {
    let mut data = vec![0x11, 0x94, 0x10, 0x00];
    data.extend_from_slice(&event_id.to_be_bytes());
    if let Some(s) = sid {
        data.extend_from_slice(&(s.len() as u32).to_be_bytes());
        data.extend_from_slice(s.as_bytes());
    }
    data.extend_from_slice(&(payload.len() as u32).to_be_bytes());
    data.extend_from_slice(payload.as_bytes());
    data
}

fn event(event_id: u32, payload: &str) -> ServerEvent {
    let sid = if event_id >= 100 { Some("s") } else { None };
    convert_frame(decode_frame(&server_json(event_id, sid, payload)).unwrap())
}

#[test]
fn session_and_connection_events() {
    assert!(matches!(event(50, "{}"), ServerEvent::ConnectionStarted));
    assert!(matches!(event(52, "{}"), ServerEvent::ConnectionFinished));
    assert!(matches!(event(152, "{}"), ServerEvent::SessionFinished));
    match event(150, r#"{"dialog_id":"d-1"}"#) {
        ServerEvent::SessionStarted { dialog_id } => assert_eq!(dialog_id, "d-1"),
        other => panic!("unexpected {:?}", other),
    }
    // A missing or non-string field reads as empty.
    match event(150, r#"{"dialog_id":7}"#) {
        ServerEvent::SessionStarted { dialog_id } => assert_eq!(dialog_id, ""),
        other => panic!("unexpected {:?}", other),
    }
}

#[test]
fn asr_events_take_the_first_result() {
    match event(451, r#"{"results":[{"text":"hello","is_interim":true},{"text":"x","is_interim":false}]}"#) {
        ServerEvent::AsrResponse { text, is_interim } => {
            assert_eq!(text, "hello");
            assert!(is_interim);
        }
        other => panic!("unexpected {:?}", other),
    }
    match event(451, r#"{"results":[]}"#) {
        ServerEvent::AsrResponse { text, is_interim } => {
            assert_eq!(text, "");
            assert!(!is_interim);
        }
        other => panic!("unexpected {:?}", other),
    }
    assert!(matches!(event(459, "{}"), ServerEvent::AsrEnded));
}

#[test]
fn tts_and_chat_events() {
    match event(350, r#"{"tts_type":"default","text":"Hi!","question_id":"q","reply_id":"r"}"#) {
        ServerEvent::TtsSentenceStart { tts_type, text, question_id, reply_id } => {
            assert_eq!((tts_type.as_str(), text.as_str(), question_id.as_str(), reply_id.as_str()), ("default", "Hi!", "q", "r"));
        }
        other => panic!("unexpected {:?}", other),
    }
    assert!(matches!(event(359, "{}"), ServerEvent::TtsEnded));
    match event(550, r#"{"content":"Sure"}"#) {
        ServerEvent::ChatResponse { content, question_id, reply_id } => {
            assert_eq!(content, "Sure");
            assert_eq!(question_id, "");
            assert_eq!(reply_id, "");
        }
        other => panic!("unexpected {:?}", other),
    }
    assert!(matches!(event(559, "{}"), ServerEvent::ChatEnded));
}

#[test]
fn usage_error_and_unknown_events() {
    match event(154, r#"{"usage":{"input_text_tokens":3,"input_audio_tokens":4,"output_text_tokens":-1}}"#) {
        ServerEvent::Usage { input_text, input_audio, output_text, output_audio } => {
            assert_eq!((input_text, input_audio, output_text, output_audio), (3, 4, 0, 0));
        }
        other => panic!("unexpected {:?}", other),
    }
    match event(599, r#"{"status_code":4294967297,"message":"boom"}"#) {
        ServerEvent::Error { code, message } => {
            assert_eq!(code, 1); // truncated to 32 bits
            assert_eq!(message, "boom");
        }
        other => panic!("unexpected {:?}", other),
    }
    match event(153, r#"{"error":"bad","message":"ignored"}"#) {
        ServerEvent::Error { code, message } => {
            assert_eq!(code, 0);
            assert_eq!(message, "bad");
        }
        other => panic!("unexpected {:?}", other),
    }
    match event(153, "{}") {
        ServerEvent::Error { message, .. } => assert_eq!(message, "unknown"),
        other => panic!("unexpected {:?}", other),
    }
    assert!(matches!(event(251, "{}"), ServerEvent::Unknown { event_id: 251 }));
}

#[test]
fn audio_and_error_frames_become_events() {
    let mut data = vec![0x11, 0xB4, 0x00, 0x00];
    data.extend_from_slice(&352u32.to_be_bytes());
    data.extend_from_slice(&1u32.to_be_bytes());
    data.extend_from_slice(b"s");
    data.extend_from_slice(&2u32.to_be_bytes());
    data.extend_from_slice(&[7, 8]);
    match convert_frame(decode_frame(&data).unwrap()) {
        ServerEvent::TtsAudio(a) => assert_eq!(a, vec![7, 8]),
        other => panic!("unexpected {:?}", other),
    }
    let mut err = vec![0x11, 0xF0, 0x10, 0x00];
    err.extend_from_slice(&9u32.to_be_bytes());
    err.extend_from_slice(&5u32.to_be_bytes());
    err.extend_from_slice(b"oops!");
    match convert_frame(decode_frame(&err).unwrap()) {
        ServerEvent::Error { code, message } => {
            assert_eq!(code, 9);
            assert_eq!(message, "oops!");
        }
        other => panic!("unexpected {:?}", other),
    }
    // A short payload made only of letters, digits and '-' after a
    // connection-level header is read as an echoed connect id.
    let mut quirk = vec![0x11, 0xF0, 0x10, 0x00];
    quirk.extend_from_slice(&9u32.to_be_bytes());
    quirk.extend_from_slice(&4u32.to_be_bytes());
    quirk.extend_from_slice(b"oops");
    assert_eq!(decode_frame(&quirk).unwrap_err(), english_partner::binary::FrameError::NoPayload);
}

#[test]
fn text_query_frame_quotes_the_text() {
    let frame = text_query_frame("sid", "say \"hi\"\n");
    let expected = encode_session_event(501, "sid", "{\"content\":\"say \\\"hi\\\"\\n\"}");
    assert_eq!(frame, expected);
}

#[test]
fn text_query_frame_escapes_controls_and_keeps_the_rest() {
    let frame = text_query_frame("sid", "a\\b\u{1}\t\u{8}\u{c}\r\u{1f}/é\u{7f}");
    let expected = encode_session_event(
        501,
        "sid",
        "{\"content\":\"a\\\\b\\u0001\\t\\b\\f\\r\\u001f/é\u{7f}\"}",
    );
    assert_eq!(frame, expected);
}
