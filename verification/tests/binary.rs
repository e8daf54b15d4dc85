use english_partner::binary::{
    decode_frame, encode_audio_event, encode_connect_event, encode_session_event, FrameError, MsgType,
    ServerFrame,
};
use english_partner::json::JsonValue;

#[test]
fn test_encode_connect_event() {
    let frame = encode_connect_event(1, "{}");
    // [17 20 16 0, 0 0 0 1, 0 0 0 2, 123 125]
    assert_eq!(frame, vec![0x11, 0x14, 0x10, 0x00, 0, 0, 0, 1, 0, 0, 0, 2, b'{', b'}']);
}

#[test]
fn test_encode_session_event() {
    let sid = "75a6126e-427f-49a1-a2c1-621143cb9db3";
    let json = r#"{"dialog":{"bot_name":"豆包"}}"#;
    let frame = encode_session_event(100, sid, json);
    assert_eq!(&frame[0..4], &[0x11, 0x14, 0x10, 0x00]);
    assert_eq!(&frame[4..8], &100u32.to_be_bytes());
    assert_eq!(&frame[8..12], &36u32.to_be_bytes());
}

#[test]
fn test_decode_connect_started() {
    // ConnectionStarted: event 50, payload "{}"
    let data = [0x11, 0x94, 0x10, 0x00, 0, 0, 0, 50, 0, 0, 0, 2, b'{', b'}'];
    let frame = decode_frame(&data).unwrap();
    match frame {
        ServerFrame::Json { event_id, session_id, .. } => {
            assert_eq!(event_id, 50);
            assert!(session_id.is_none());
        }
        _ => panic!("expected Json frame"),
    }
}

#[test]
fn test_decode_session_started() {
    // SessionStarted: event 150, sid="abc", payload={"dialog_id":"x"}
    let sid = b"abc";
    let payload = br#"{"dialog_id":"x"}"#;
    let mut data = vec![0x11, 0x94, 0x10, 0x00];
    data.extend_from_slice(&150u32.to_be_bytes());
    data.extend_from_slice(&(sid.len() as u32).to_be_bytes());
    data.extend_from_slice(sid);
    data.extend_from_slice(&(payload.len() as u32).to_be_bytes());
    data.extend_from_slice(payload);

    let frame = decode_frame(&data).unwrap();
    match frame {
        ServerFrame::Json { event_id, session_id, .. } => {
            assert_eq!(event_id, 150);
            assert_eq!(session_id, Some("abc".to_string()));
        }
        _ => panic!("expected Json frame"),
    }
}

#[test]
fn test_decode_audio_response() {
    // TTSResponse: event 352, sid="x", audio data
    let sid = b"x";
    let audio = vec![1u8, 2, 3, 4];
    let mut data = vec![0x11, 0xB4, 0x00, 0x00]; // AudioServerResponse + event flag
    data.extend_from_slice(&352u32.to_be_bytes());
    data.extend_from_slice(&(sid.len() as u32).to_be_bytes());
    data.extend_from_slice(sid);
    data.extend_from_slice(&(audio.len() as u32).to_be_bytes());
    data.extend_from_slice(&audio);

    let frame = decode_frame(&data).unwrap();
    match frame {
        ServerFrame::Audio { event_id, session_id, data: d } => {
            assert_eq!(event_id, 352);
            assert_eq!(session_id, Some("x".to_string()));
            assert_eq!(d, vec![1, 2, 3, 4]);
        }
        _ => panic!("expected Audio frame"),
    }
}

#[test]
fn test_decode_error() {
    // Error frame: msg_type 0xF,encoding: error_code + event + session + payload
    // Simple error with json {"error":"test"}
    let payload = br#"{"error":"test error"}"#;
    let mut data = vec![0x11, 0xF4, 0x10, 0x00]; // ErrorInfo + event flag, JSON
    data.extend_from_slice(&0u32.to_be_bytes()); // error_code
    data.extend_from_slice(&0u32.to_be_bytes()); // event_id (0)
    data.extend_from_slice(&(payload.len() as u32).to_be_bytes());
    data.extend_from_slice(payload);

    let frame = decode_frame(&data).unwrap();
    match frame {
        ServerFrame::Error { code, message } => {
            assert_eq!(code, 0);
            assert!(message.contains("test error"));
        }
        _ => panic!("expected Error frame"),
    }
}

// ── Further cases ─────────────────────────────────────────────────────────

fn frame(header: [u8; 4], fields: &[&[u8]]) -> Vec<u8> {
    let mut data = header.to_vec();
    for f in fields {
        data.extend_from_slice(f);
    }
    data
}

#[test]
fn encode_audio_event_layout() {
    let frame = encode_audio_event("s1", &[9, 8, 7]);
    assert_eq!(
        frame,
        vec![0x11, 0x24, 0x00, 0x00, 0, 0, 0, 200, 0, 0, 0, 2, b's', b'1', 0, 0, 0, 3, 9, 8, 7]
    );
}

#[test]
fn encode_big_event_id_and_utf8_sizes() {
    let frame = encode_session_event(0x0102_0304, "é", "\"ü\"");
    assert_eq!(&frame[4..8], &[1, 2, 3, 4]);
    assert_eq!(&frame[8..12], &2u32.to_be_bytes()); // "é" is 2 bytes
    assert_eq!(&frame[12..14], "é".as_bytes());
    assert_eq!(&frame[14..18], &4u32.to_be_bytes());
}

#[test]
fn decode_rejects_short_and_unknown_frames() {
    assert_eq!(decode_frame(&[0x11, 0x94, 0x10]).unwrap_err(), FrameError::TooShort { len: 3 });
    // Client message types are not server frames.
    assert_eq!(
        decode_frame(&encode_connect_event(1, "{}")).unwrap_err(),
        FrameError::UnknownMsgType(0x1)
    );
}

#[test]
fn decode_reports_missing_and_incomplete_payloads() {
    assert_eq!(decode_frame(&[0x11, 0x94, 0x10, 0x00, 0, 0, 0, 50]).unwrap_err(), FrameError::NoPayload);
    let data = frame([0x11, 0x90, 0x10, 0x00], &[&10u32.to_be_bytes(), b"{}"]);
    assert_eq!(
        decode_frame(&data).unwrap_err(),
        FrameError::IncompletePayload { need: 10, have: 2 }
    );
}

#[test]
fn decode_rejects_bad_session_ids() {
    let zero = frame([0x11, 0x94, 0x10, 0x00], &[&150u32.to_be_bytes(), &0u32.to_be_bytes(), &2u32.to_be_bytes(), b"{}"]);
    assert_eq!(decode_frame(&zero).unwrap_err(), FrameError::InvalidSessionId { event_id: 150 });
    let long = frame([0x11, 0x94, 0x10, 0x00], &[&150u32.to_be_bytes(), &300u32.to_be_bytes(), &[b'a'; 300]]);
    assert_eq!(decode_frame(&long).unwrap_err(), FrameError::InvalidSessionId { event_id: 150 });
}

#[test]
fn decode_reads_non_utf8_session_id_as_absent() {
    let data = frame(
        [0x11, 0xB4, 0x00, 0x00],
        &[&352u32.to_be_bytes(), &1u32.to_be_bytes(), &[0xFF], &1u32.to_be_bytes(), &[5]],
    );
    match decode_frame(&data).unwrap() {
        ServerFrame::Audio { session_id, data, .. } => {
            assert_eq!(session_id, None);
            assert_eq!(data, vec![5]);
        }
        _ => panic!("expected Audio frame"),
    }
}

#[test]
fn decode_skips_echoed_connect_id() {
    let data = frame(
        [0x11, 0x94, 0x10, 0x00],
        &[&50u32.to_be_bytes(), &4u32.to_be_bytes(), b"ab-9", &2u32.to_be_bytes(), b"{}"],
    );
    match decode_frame(&data).unwrap() {
        ServerFrame::Json { msg_type, event_id, session_id, payload } => {
            assert_eq!(msg_type, MsgType::FullServerResponse);
            assert_eq!(event_id, 50);
            assert!(session_id.is_none());
            assert!(matches!(payload, JsonValue::Object(ref m) if m.is_empty()));
        }
        _ => panic!("expected Json frame"),
    }
}

#[test]
fn decode_json_payload_contents_and_errors() {
    let data = frame(
        [0x11, 0x94, 0x10, 0x00],
        &[&150u32.to_be_bytes(), &1u32.to_be_bytes(), b"s", &17u32.to_be_bytes(), br#"{"dialog_id":"x"}"#],
    );
    match decode_frame(&data).unwrap() {
        ServerFrame::Json { payload: JsonValue::Object(members), .. } => {
            assert_eq!(members.len(), 1);
            assert_eq!(members[0].0, "dialog_id");
            assert!(matches!(&members[0].1, JsonValue::Str(s) if s == "x"));
        }
        _ => panic!("expected Json object"),
    }
    let not_json = frame([0x11, 0x90, 0x10, 0x00], &[&3u32.to_be_bytes(), b"{x}"]);
    assert_eq!(decode_frame(&not_json).unwrap_err(), FrameError::InvalidJson);
    let not_utf8 = frame([0x11, 0x90, 0x10, 0x00], &[&1u32.to_be_bytes(), &[0xC0]]);
    assert_eq!(decode_frame(&not_utf8).unwrap_err(), FrameError::InvalidUtf8);
}

#[test]
fn decode_error_frame_with_code_and_bad_text() {
    let data = frame([0x11, 0xF0, 0x10, 0x00], &[&45000001u32.to_be_bytes(), &2u32.to_be_bytes(), &[0xFF, 0xFE]]);
    match decode_frame(&data).unwrap() {
        ServerFrame::Error { code, message } => {
            assert_eq!(code, 45000001);
            assert_eq!(message, "<non-utf8 error payload>");
        }
        _ => panic!("expected Error frame"),
    }
}
