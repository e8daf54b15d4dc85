//! Audio formats and payloads shared across the pipeline.
use vstd::prelude::*;

verus! {

/// Sample rate used throughout the pipeline (16 kHz).
pub const SAMPLE_RATE: u32 = 16000;

/// Mono audio.
pub const CHANNELS: u16 = 1;

/// 16-bit PCM.
pub const BITS_PER_SAMPLE: u16 = 16;

/// A chunk of raw PCM audio (mono, 16-bit, 16 kHz), produced by capture and
/// consumed by voice activity detection and speech recognition.
#[derive(Debug, Clone, PartialEq)]
pub struct AudioChunk {
    pub samples: Vec<i16>,
    pub timestamp_ms: u64,
}

impl AudioChunk {
    /// Duration of the chunk in whole milliseconds at 16 kHz.
    pub fn duration_ms(&self) -> (d: u64)
        requires
            self.samples@.len() * 1000 <= u64::MAX,
        ensures
            d == self.samples@.len() * 1000 / (SAMPLE_RATE as nat),
    {
        (self.samples.len() as u64 * 1000) / SAMPLE_RATE as u64
    }

    /// An empty chunk at the given timestamp.
    pub fn empty(timestamp_ms: u64) -> (c: Self)
        ensures
            c.samples@ == Seq::<i16>::empty(),
            c.timestamp_ms == timestamp_ms,
    {
        AudioChunk { samples: Vec::new(), timestamp_ms }
    }
}

/// A WAV-encoded audio payload with its format.
#[derive(Debug, Clone, PartialEq)]
pub struct AudioData {
    pub wav_bytes: Vec<u8>,
    pub sample_rate: u32,
    pub channels: u16,
    pub bits_per_sample: u16,
}

impl AudioData {
    /// A mono 16-bit payload at the given sample rate.
    pub fn new(wav_bytes: Vec<u8>, sample_rate: u32) -> (d: Self)
        ensures
            d.wav_bytes@ == wav_bytes@,
            d.sample_rate == sample_rate,
            d.channels == CHANNELS,
            d.bits_per_sample == BITS_PER_SAMPLE,
    {
        AudioData { wav_bytes, sample_rate, channels: CHANNELS, bits_per_sample: BITS_PER_SAMPLE }
    }

    /// Approximate duration in milliseconds: the byte count read as samples
    /// of `bits_per_sample / 8` bytes each, at `sample_rate`.
    pub fn duration_ms(&self) -> (d: u64)
        requires
            self.bits_per_sample >= 8,
            self.sample_rate > 0,
            (self.wav_bytes@.len() / ((self.bits_per_sample / 8) as nat)) * 1000 <= u64::MAX,
        ensures
            d == (self.wav_bytes@.len() / ((self.bits_per_sample / 8) as nat)) * 1000 / (self.sample_rate as nat),
    {
        let bytes_per_sample = (self.bits_per_sample / 8) as u64;
        let total_samples = self.wav_bytes.len() as u64 / bytes_per_sample;
        (total_samples * 1000) / self.sample_rate as u64
    }
}

} // verus!
