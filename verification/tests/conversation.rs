use english_partner::conversation::{
    pcm_from_le_bytes, scenario_index, Conversation, PcmChunker, TurnAction, TurnState, PCM_CHUNK_BYTES,
};
use english_partner::session::ServerEvent;

#[test]
fn chunker_cuts_fixed_frames_in_order() {
    let mut chunker = PcmChunker::new();
    let samples: Vec<i16> = (0..500).map(|i| (i * 131 - 30000) as i16).collect();
    let frames = chunker.push(&samples[..300]); // 600 bytes: nothing complete
    assert!(frames.is_empty());
    let frames = chunker.push(&samples[300..]); // 1000 bytes in all
    assert_eq!(frames.len(), 1);
    assert_eq!(frames[0].len(), PCM_CHUNK_BYTES);
    let mut expected = Vec::new();
    for s in &samples {
        expected.extend_from_slice(&s.to_le_bytes());
    }
    assert_eq!(frames[0], expected[..640].to_vec());
    let more = chunker.push(&vec![0i16; 140]); // 360 + 280 = 640
    assert_eq!(more.len(), 1);
    assert_eq!(more[0][..360].to_vec(), expected[640..].to_vec());
    assert!(more[0][360..].iter().all(|b| *b == 0));
}

#[test]
fn pcm_bytes_roundtrip_and_odd_byte() {
    let samples = vec![0i16, 1, -1, i16::MAX, i16::MIN, 258];
    let mut chunker = PcmChunker::new();
    let _ = chunker.push(&samples);
    let mut bytes = Vec::new();
    for s in &samples {
        bytes.extend_from_slice(&s.to_le_bytes());
    }
    assert_eq!(pcm_from_le_bytes(&bytes), samples);
    bytes.push(0x55);
    assert_eq!(pcm_from_le_bytes(&bytes), samples);
    assert_eq!(pcm_from_le_bytes(&[0x02, 0x01]), vec![0x0102]);
}

#[test]
fn scenario_choice_is_clamped() {
    assert_eq!(scenario_index(Some(1), 3), 0);
    assert_eq!(scenario_index(Some(3), 3), 2);
    assert_eq!(scenario_index(Some(9), 3), 2);
    assert_eq!(scenario_index(Some(0), 3), 0);
    assert_eq!(scenario_index(None, 3), 0);
}

fn asr(text: &str, is_interim: bool) -> ServerEvent {
    ServerEvent::AsrResponse { text: text.to_string(), is_interim }
}

#[test]
fn turn_follows_recognition_and_speech() {
    let mut c = Conversation::new();
    assert_eq!(c.turn(), TurnState::Listening);
    assert!(c.accepts_audio());

    let a = c.handle_event(asr("hel", true));
    assert!(matches!(&a[..], [TurnAction::ShowHearing { text, pad: 0 }] if text == "hel"));
    // Same partial text: nothing new to show.
    assert!(c.handle_event(asr("hel", true)).is_empty());
    let a = c.handle_event(asr("h", true));
    assert!(matches!(&a[..], [TurnAction::ShowHearing { pad: 2, .. }]));
    let a = c.handle_event(asr("hello", false));
    assert!(matches!(&a[..], [TurnAction::ShowHearing { .. }, TurnAction::ShowTranscript(t)] if t == "hello"));
    assert_eq!(c.turn(), TurnState::WaitingForResponse);
    assert!(!c.accepts_audio());

    let a = c.handle_event(ServerEvent::ChatResponse {
        content: "Hi!".to_string(),
        question_id: String::new(),
        reply_id: String::new(),
    });
    assert!(matches!(&a[..], [TurnAction::ShowReply(t)] if t == "Hi!"));

    let a = c.handle_event(ServerEvent::TtsSentenceStart {
        tts_type: "default".to_string(),
        text: "Hi!".to_string(),
        question_id: String::new(),
        reply_id: String::new(),
    });
    assert!(matches!(&a[..], [TurnAction::ShowSpokenText(t)] if t == "Hi!"));
    assert_eq!(c.turn(), TurnState::Playing);

    // Chat text is only shown while waiting.
    let a = c.handle_event(ServerEvent::ChatResponse {
        content: "late".to_string(),
        question_id: String::new(),
        reply_id: String::new(),
    });
    assert!(a.is_empty());

    let a = c.handle_event(ServerEvent::TtsAudio(vec![1, 0, 0xFF, 0xFF, 9]));
    assert!(matches!(&a[..], [TurnAction::PlayPcm { samples, sample_rate: 24000 }] if *samples == vec![1, -1]));

    let a = c.handle_event(ServerEvent::TtsEnded);
    assert!(matches!(&a[..], [TurnAction::ShowYourTurn]));
    assert_eq!(c.turn(), TurnState::Listening);
    assert!(c.is_running());
}

#[test]
fn other_events_and_stop() {
    let mut c = Conversation::new();
    let a = c.handle_event(ServerEvent::TtsSentenceStart {
        tts_type: "chat_tts_text".to_string(),
        text: "x".to_string(),
        question_id: String::new(),
        reply_id: String::new(),
    });
    assert!(a.is_empty());
    assert_eq!(c.turn(), TurnState::Playing);
    assert!(matches!(&c.handle_event(ServerEvent::AsrEnded)[..], [TurnAction::ShowThinking]));
    assert!(matches!(
        &c.handle_event(ServerEvent::Error { code: 5, message: "m".to_string() })[..],
        [TurnAction::ShowError { code: 5, .. }]
    ));
    assert!(matches!(&c.handle_event(ServerEvent::ChatEnded)[..], [TurnAction::LogEvent(ServerEvent::ChatEnded)]));
    assert!(c.is_running());
    assert!(matches!(&c.handle_event(ServerEvent::SessionFinished)[..], [TurnAction::SessionFinished]));
    assert!(!c.is_running());
    let mut d = Conversation::new();
    d.stop();
    assert!(!d.is_running());
}

#[test]
fn chunker_keeps_every_byte() {
    let samples: Vec<i16> = (0..1000).map(|i| (i * 7919 % 65536 - 32768) as i16).collect();
    let mut expected = Vec::new();
    for s in &samples {
        expected.extend_from_slice(&s.to_le_bytes());
    }
    let mut chunker = PcmChunker::new();
    let mut out: Vec<u8> = Vec::new();
    let mut start = 0;
    for size in [1usize, 319, 2, 400, 278] {
        for frame in chunker.push(&samples[start..start + size]) {
            assert_eq!(frame.len(), PCM_CHUNK_BYTES);
            out.extend_from_slice(&frame);
        }
        start += size;
    }
    // 2000 bytes in all: three complete frames, 80 bytes pending.
    assert_eq!(out.len(), 3 * PCM_CHUNK_BYTES);
    assert_eq!(out, expected[..3 * PCM_CHUNK_BYTES].to_vec());
    // Completing the pending frame hands out the last 80 bytes first.
    let last = chunker.push(&vec![0i16; 280]);
    assert_eq!(last.len(), 1);
    assert_eq!(last[0][..80].to_vec(), expected[3 * PCM_CHUNK_BYTES..].to_vec());
}
