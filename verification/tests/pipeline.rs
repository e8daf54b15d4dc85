use english_partner::audio::{AudioChunk, AudioData};
use english_partner::pipeline::AudioPipeline;
use english_partner::vad::VadEngine;

fn chunk(samples: Vec<i16>, timestamp_ms: u64) -> AudioChunk {
    AudioChunk { samples, timestamp_ms }
}

fn silence(samples: usize) -> Vec<i16> {
    vec![0i16; samples]
}

fn speech(samples: usize, amplitude: i16) -> Vec<i16> {
    (0..samples)
        .map(|i| {
            let angle = 2.0 * std::f64::consts::PI * (i as f64) / (samples as f64 / 4.0);
            (angle.sin() * amplitude as f64) as i16
        })
        .collect()
}

#[test]
fn test_pipeline_silence_produces_nothing() {
    let mut pipeline = AudioPipeline::new(VadEngine::new().with_threshold(100));
    let frame = silence(480);

    for i in 0..20 {
        assert!(pipeline.process(chunk(frame.clone(), i * 30)).is_none());
    }
}

#[test]
fn test_pipeline_detects_utterance() {
    let mut pipeline = AudioPipeline::new(
        VadEngine::new()
            .with_threshold(100)
            .with_speech_frames(1)
            .with_silence_frames(2),
    );

    let silence = silence(480);
    let speech = speech(480, 2000);

    // Silence
    assert!(pipeline.process(chunk(silence.clone(), 0)).is_none());

    // Speech start
    assert!(pipeline.process(chunk(speech.clone(), 30)).is_none());

    // More speech
    assert!(pipeline.process(chunk(speech.clone(), 60)).is_none());

    // Silence frame 1 — still in hysteresis
    assert!(pipeline.process(chunk(silence.clone(), 90)).is_none());

    // Silence frame 2 — SpeechEnd triggers utterance return
    let utterance = pipeline.process(chunk(silence.clone(), 120));
    assert!(utterance.is_some());
    let utterance = utterance.unwrap();
    assert_eq!(utterance.len(), 4); // speech start + 2 speech + speech end
}

#[test]
fn test_pipeline_flush() {
    let mut pipeline = AudioPipeline::new(
        VadEngine::new()
            .with_threshold(100)
            .with_speech_frames(1)
            .with_silence_frames(10),
    );

    let speech = speech(480, 2000);
    pipeline.process(chunk(speech.clone(), 0));
    pipeline.process(chunk(speech.clone(), 30));

    // Not ended yet (silence_frames = 10)
    assert!(pipeline.process(chunk(speech.clone(), 60)).is_none());

    // Force flush
    let flushed = pipeline.flush();
    assert!(flushed.is_some());
    assert_eq!(flushed.unwrap().len(), 3);
}

// ── Further cases ─────────────────────────────────────────────────────────

#[test]
fn utterance_holds_the_speech_segment_in_order() {
    let mut pipeline = AudioPipeline::new(
        VadEngine::new().with_threshold(100).with_speech_frames(2).with_silence_frames(2),
    );
    let loud = vec![1000i16; 8];
    let quiet = vec![0i16; 8];
    assert!(pipeline.process(chunk(quiet.clone(), 0)).is_none());
    // First loud chunk is in the start hysteresis and is not collected.
    assert!(pipeline.process(chunk(loud.clone(), 10)).is_none());
    assert!(pipeline.process(chunk(loud.clone(), 20)).is_none()); // SpeechStart
    assert!(pipeline.process(chunk(loud.clone(), 30)).is_none()); // Speech
    assert!(pipeline.process(chunk(quiet.clone(), 40)).is_none()); // hysteresis
    let u = pipeline.process(chunk(quiet.clone(), 50)).unwrap(); // SpeechEnd
    let stamps: Vec<u64> = u.iter().map(|c| c.timestamp_ms).collect();
    assert_eq!(stamps, vec![20, 30, 40, 50]);
    // The pipeline is idle again.
    assert!(pipeline.flush().is_none());
}

#[test]
fn reset_drops_collected_audio() {
    let mut pipeline = AudioPipeline::new(VadEngine::new().with_threshold(100).with_speech_frames(1));
    assert!(pipeline.process(chunk(vec![1000; 4], 0)).is_none());
    pipeline.reset();
    assert!(pipeline.flush().is_none());
}

#[test]
fn chunk_and_data_durations() {
    assert_eq!(chunk(vec![0; 480], 7).duration_ms(), 30);
    assert_eq!(chunk(vec![0; 15], 7).duration_ms(), 0);
    let empty = AudioChunk::empty(42);
    assert!(empty.samples.is_empty());
    assert_eq!(empty.timestamp_ms, 42);
    let data = AudioData::new(vec![0u8; 32000], 16000);
    assert_eq!(data.channels, 1);
    assert_eq!(data.bits_per_sample, 16);
    assert_eq!(data.duration_ms(), 1000);
    let odd = AudioData::new(vec![0u8; 33], 8000);
    assert_eq!(odd.duration_ms(), 2);
}

#[test]
fn quiet_chunks_after_a_start_stay_in_the_utterance() {
    let mut p = AudioPipeline::new(
        VadEngine::new().with_threshold(100).with_speech_frames(1).with_silence_frames(2),
    );
    let sp = vec![2000i16; 480];
    let sil = vec![0i16; 480];
    assert!(p.process(chunk(sp.clone(), 0)).is_none());
    assert!(p.process(chunk(sil.clone(), 30)).is_none());
    let u = p.process(chunk(sil.clone(), 60)).unwrap();
    let stamps: Vec<u64> = u.iter().map(|c| c.timestamp_ms).collect();
    assert_eq!(stamps, vec![0, 30, 60]);
}

#[test]
fn reset_pipeline_behaves_as_new() {
    let settings = || VadEngine::new().with_threshold(100).with_speech_frames(2).with_silence_frames(2);
    let mut used = AudioPipeline::new(settings());
    let sp = vec![2000i16; 480];
    let sil = vec![0i16; 480];
    used.process(chunk(sp.clone(), 0));
    used.process(chunk(sp.clone(), 30));
    used.process(chunk(sil.clone(), 60));
    used.reset();
    assert!(used.flush().is_none());
    let mut fresh = AudioPipeline::new(settings());
    let script = [&sp, &sp, &sp, &sil, &sil, &sil];
    for (i, s) in script.iter().enumerate() {
        let a = used.process(chunk((*s).clone(), i as u64 * 30));
        let b = fresh.process(chunk((*s).clone(), i as u64 * 30));
        assert_eq!(a, b);
    }
}
