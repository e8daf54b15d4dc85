//! Turn-taking logic of a spoken practice conversation: microphone PCM is
//! cut into fixed-size frames for the server, server audio is turned back
//! into samples, and server events drive whose turn it is.
use vstd::prelude::*;
use vstd::string::{StringExecFns, StringSliceAdditionalSpecFns};

use crate::session::{EventView, ServerEvent};

verus! {

/// Bytes per audio frame sent to the server: 20 ms at 16 kHz, mono, 16-bit.
pub const PCM_CHUNK_BYTES: usize = 640;

/// Low byte of a sample in little-endian order.
pub open spec fn sample_lo(s: i16) -> u8 {
    ((s as u16) % 256) as u8
}

/// High byte of a sample in little-endian order.
pub open spec fn sample_hi(s: i16) -> u8 {
    ((s as u16) / 256) as u8
}

/// The little-endian bytes of a sequence of 16-bit samples.
pub open spec fn pcm_le_bytes(samples: Seq<i16>) -> Seq<u8>
    decreases samples.len(),
{
    if samples.len() == 0 {
        Seq::empty()
    } else {
        pcm_le_bytes(samples.drop_last()) + seq![sample_lo(samples.last()), sample_hi(samples.last())]
    }
}

/// The sample stored little-endian in `lo`, `hi`.
pub open spec fn le_sample(lo: u8, hi: u8) -> i16 {
    ((hi as int * 256 + lo as int) as u16) as i16
}

/// The samples stored little-endian in `bytes`; a trailing odd byte is
/// dropped.
pub open spec fn pcm_samples(bytes: Seq<u8>) -> Seq<i16> {
    Seq::new((bytes.len() / 2) as nat, |i: int| le_sample(bytes[2 * i], bytes[2 * i + 1]))
}

/// Frame `i` of `bytes` cut into `PCM_CHUNK_BYTES`-byte frames.
pub open spec fn frame_at(bytes: Seq<u8>, i: int) -> Seq<u8> {
    bytes.subrange(i * PCM_CHUNK_BYTES as int, (i + 1) * PCM_CHUNK_BYTES as int)
}

/// The complete frames of `bytes`, in order.
pub open spec fn frames_of(bytes: Seq<u8>) -> Seq<Seq<u8>> {
    Seq::new((bytes.len() / PCM_CHUNK_BYTES as nat) as nat, |i: int| frame_at(bytes, i))
}

/// What follows the complete frames of `bytes`.
pub open spec fn pending_of(bytes: Seq<u8>) -> Seq<u8> {
    bytes.subrange((bytes.len() / PCM_CHUNK_BYTES as nat) * PCM_CHUNK_BYTES as int, bytes.len() as int)
}

/// The frames one after the other.
pub open spec fn concat_frames(frames: Seq<Seq<u8>>) -> Seq<u8>
    decreases frames.len(),
{
    if frames.len() == 0 {
        Seq::empty()
    } else {
        concat_frames(frames.drop_last()) + frames.last()
    }
}

/// The contents of a sequence of byte vectors.
pub open spec fn frame_views(frames: Seq<Vec<u8>>) -> Seq<Seq<u8>> {
    frames.map_values(|f: Vec<u8>| f@)
}

/// Cuts a stream of PCM samples into fixed-size little-endian byte frames.
pub struct PcmChunker {
    buf: Vec<u8>,
}

impl View for PcmChunker {
    type V = Seq<u8>;

    /// The bytes not yet handed out.
    closed spec fn view(&self) -> Seq<u8> {
        self.buf@
    }
}

/// Appends the little-endian bytes of `samples` to `buf`.
fn append_pcm(buf: &mut Vec<u8>, samples: &[i16])
    ensures
        final(buf)@ == old(buf)@ + pcm_le_bytes(samples@),
{
    let mut i: usize = 0;
    while i < samples.len()
        invariant
            i <= samples@.len(),
            buf@ == old(buf)@ + pcm_le_bytes(samples@.subrange(0, i as int)),
        decreases samples@.len() - i,
    {
        let u = samples[i] as u16;
        buf.push((u % 256) as u8);
        buf.push((u / 256) as u8);
        proof {
            let next = samples@.subrange(0, i + 1);
            assert(next.drop_last() =~= samples@.subrange(0, i as int));
            assert(next.last() == samples@[i as int]);
        }
        i = i + 1;
        assert(buf@ =~= old(buf)@ + pcm_le_bytes(samples@.subrange(0, i as int)));
    }
    assert(samples@.subrange(0, samples@.len() as int) =~= samples@);
}

/// Copies `data[start..end]`.
fn copy_bytes(data: &Vec<u8>, start: usize, end: usize) -> (r: Vec<u8>)
    requires
        start <= end <= data@.len(),
    ensures
        r@ == data@.subrange(start as int, end as int),
{
    let mut out: Vec<u8> = Vec::new();
    let mut i = start;
    while i < end
        invariant
            start <= i <= end <= data@.len(),
            out@ == data@.subrange(start as int, i as int),
        decreases end - i,
    {
        out.push(data[i]);
        i = i + 1;
        assert(out@ =~= data@.subrange(start as int, i as int));
    }
    out
}

impl PcmChunker {
    /// A chunker with nothing pending.
    pub fn new() -> (c: Self)
        ensures
            c@ == Seq::<u8>::empty(),
    {
        PcmChunker { buf: Vec::new() }
    }

    /// Adds samples and hands out every complete frame: the pending bytes
    /// followed by the samples' little-endian bytes are cut into
    /// `PCM_CHUNK_BYTES`-byte frames, in order; what is left (fewer than
    /// `PCM_CHUNK_BYTES` bytes) stays pending.
    pub fn push(&mut self, samples: &[i16]) -> (frames: Vec<Vec<u8>>)
        ensures
            frame_views(frames@) == frames_of(old(self)@ + pcm_le_bytes(samples@)),
            final(self)@ == pending_of(old(self)@ + pcm_le_bytes(samples@)),
    {
        let ghost all = self.buf@ + pcm_le_bytes(samples@);
        append_pcm(&mut self.buf, samples);
        let mut out: Vec<Vec<u8>> = Vec::new();
        let mut start: usize = 0;
        let len = self.buf.len();
        while len - start >= PCM_CHUNK_BYTES
            invariant
                self.buf@ == all,
                len == all.len(),
                start <= len,
                start == out@.len() * PCM_CHUNK_BYTES,
                forall|i: int| 0 <= i < out@.len() ==> (#[trigger] out@[i])@ == frame_at(all, i),
            decreases len - start,
        {
            let frame = copy_bytes(&self.buf, start, start + PCM_CHUNK_BYTES);
            proof {
                assert(frame@ == frame_at(all, out@.len() as int));
            }
            out.push(frame);
            start = start + PCM_CHUNK_BYTES;
        }
        assert(out@.len() == all.len() as int / PCM_CHUNK_BYTES as int);
        assert(frame_views(out@) =~= frames_of(all));
        let rest = copy_bytes(&self.buf, start, len);
        self.buf = rest;
        out
    }
}


/// The 16-bit little-endian samples of server audio; a trailing odd byte is
/// dropped.
pub fn pcm_from_le_bytes(bytes: &[u8]) -> (samples: Vec<i16>)
    ensures
        samples@ == pcm_samples(bytes@),
{
    let mut out: Vec<i16> = Vec::new();
    let n = bytes.len() / 2;
    let mut i: usize = 0;
    while i < n
        invariant
            n == bytes@.len() / 2,
            2 * n <= bytes@.len(),
            bytes@.len() == bytes.len(),
            i <= n,
            out@ =~= pcm_samples(bytes@).subrange(0, i as int),
        decreases n - i,
    {
        let lo = bytes[2 * i];
        let hi = bytes[2 * i + 1];
        let u: u16 = (hi as u16) * 256 + (lo as u16);
        out.push(#[verifier::truncate] (u as i16));
        i = i + 1;
    }
    out
}

/// A sample survives its little-endian bytes.
proof fn lemma_sample_bytes(x: i16)
    ensures
        le_sample(sample_lo(x), sample_hi(x)) == x,
{
    assert(((((x as u16) / 256) as u8) as int * 256 + (((x as u16) % 256) as u8) as int) == x as u16 as int) by (nonlinear_arith);
    assert(((x as u16) as i16) == x) by (bit_vector);
}

/// Lengths and positions of the little-endian bytes of samples.
proof fn lemma_pcm_le_bytes(samples: Seq<i16>)
    ensures
        pcm_le_bytes(samples).len() == 2 * samples.len(),
        forall|i: int|
            0 <= i < samples.len() ==> pcm_le_bytes(samples)[2 * i] == sample_lo(samples[i])
                && pcm_le_bytes(samples)[2 * i + 1] == sample_hi(samples[i]),
    decreases samples.len(),
{
    if samples.len() > 0 {
        let pre = samples.drop_last();
        lemma_pcm_le_bytes(pre);
        let b = pcm_le_bytes(samples);
        assert(b == pcm_le_bytes(pre) + seq![sample_lo(samples.last()), sample_hi(samples.last())]);
        assert forall|i: int| 0 <= i < samples.len() implies b[2 * i] == sample_lo(samples[i]) && b[2 * i + 1]
            == sample_hi(samples[i]) by {
            if i < pre.len() {
                assert(pre[i] == samples[i]);
            }
        }
    }
}

/// Decoding the bytes that the chunker writes gives back the samples:
/// for any samples, reading their little-endian bytes as 16-bit
/// little-endian samples yields the same samples.
pub proof fn law_pcm_bytes_roundtrip(samples: Seq<i16>)
    ensures
        pcm_samples(pcm_le_bytes(samples)) == samples,
{
    lemma_pcm_le_bytes(samples);
    assert forall|i: int| 0 <= i < samples.len() implies pcm_samples(pcm_le_bytes(samples))[i] == samples[i] by {
        lemma_sample_bytes(samples[i]);
    }
    assert(pcm_samples(pcm_le_bytes(samples)) =~= samples);
}


/// The first `n` frames of `bytes`, one after the other, are its first
/// `n * PCM_CHUNK_BYTES` bytes.
proof fn lemma_concat_frames(bytes: Seq<u8>, n: int)
    requires
        0 <= n,
        n * PCM_CHUNK_BYTES <= bytes.len(),
    ensures
        concat_frames(Seq::new(n as nat, |i: int| frame_at(bytes, i))) == bytes.subrange(
            0,
            n * PCM_CHUNK_BYTES as int,
        ),
    decreases n,
{
    let frames = Seq::new(n as nat, |i: int| frame_at(bytes, i));
    if n > 0 {
        lemma_concat_frames(bytes, n - 1);
        assert(frames.drop_last() =~= Seq::new((n - 1) as nat, |i: int| frame_at(bytes, i)));
        assert(frames.last() == frame_at(bytes, n - 1));
        assert(bytes.subrange(0, (n - 1) * PCM_CHUNK_BYTES as int) + frame_at(bytes, n - 1) =~= bytes.subrange(
            0,
            n * PCM_CHUNK_BYTES as int,
        ));
    } else {
        assert(bytes.subrange(0, 0) =~= Seq::<u8>::empty());
    }
}

/// The chunker keeps every byte: the pending bytes followed by the bytes of
/// new samples are given back exactly, and in order, by the frames that a
/// push hands out followed by what stays pending; every frame holds
/// `PCM_CHUNK_BYTES` bytes and fewer than that stay pending.
pub proof fn law_chunker_keeps_every_byte(pending: Seq<u8>, samples: Seq<i16>)
    ensures
        ({
            let all = pending + pcm_le_bytes(samples);
            &&& concat_frames(frames_of(all)) + pending_of(all) == all
            &&& forall|i: int|
                0 <= i < frames_of(all).len() ==> (#[trigger] frames_of(all)[i]).len() == PCM_CHUNK_BYTES
            &&& pending_of(all).len() < PCM_CHUNK_BYTES
        }),
{
    let all = pending + pcm_le_bytes(samples);
    let n = (all.len() / PCM_CHUNK_BYTES as nat) as int;
    lemma_concat_frames(all, n);
    assert(frames_of(all) =~= Seq::new(n as nat, |i: int| frame_at(all, i)));
    assert(all.subrange(0, n * PCM_CHUNK_BYTES as int) + pending_of(all) =~= all);
}

/// The index of the scenario that the student's answer picks from a list of
/// `count`: answers count from 1, a missing answer counts as 1, and the
/// index is clamped to the list.
pub fn scenario_index(choice: Option<usize>, count: usize) -> (i: usize)
    requires
        count > 0,
    ensures
        i == ({
            let c = match choice {
                Some(n) => n as int,
                None => 1,
            };
            let zero_based = if c > 0 { c - 1 } else { 0 };
            if zero_based < count - 1 { zero_based } else { count - 1 }
        }),
{
    let c = match choice {
        Some(n) => n,
        None => 1,
    };
    let zero_based = c.saturating_sub(1);
    if zero_based < count - 1 {
        zero_based
    } else {
        count - 1
    }
}

/// Sample rate of the audio that the server speaks (24 kHz).
pub const TTS_SAMPLE_RATE: u32 = 24000;

/// Whose turn it is.
#[derive(Debug, Clone, Copy, PartialEq, Eq, Structural)]
pub enum TurnState {
    /// The student speaks; microphone audio goes to the server.
    Listening,
    /// The student has finished; the answer is awaited.
    WaitingForResponse,
    /// The answer is being spoken.
    Playing,
}

/// What the application does for an event.
#[derive(Debug)]
pub enum TurnAction {
    /// Show the partial transcript, padded with `pad` spaces to cover a
    /// longer previous one.
    ShowHearing { text: String, pad: usize },
    /// Show the final transcript of the student's utterance.
    ShowTranscript(String),
    /// Show that the answer is being prepared.
    ShowThinking,
    /// Show a sentence that is about to be spoken.
    ShowSpokenText(String),
    /// Show the text of the answer.
    ShowReply(String),
    /// Play mono 16-bit samples at the given rate.
    PlayPcm { samples: Vec<i16>, sample_rate: u32 },
    /// Announce that it is the student's turn again.
    ShowYourTurn,
    /// Record token usage.
    LogUsage { input_text: u64, input_audio: u64, output_text: u64, output_audio: u64 },
    /// Report a server error.
    ShowError { code: u32, message: String },
    /// The server finished the session.
    SessionFinished,
    /// The server closed the connection.
    ConnectionFinished,
    /// Record another event.
    LogEvent(ServerEvent),
}

/// The content of an action.
pub enum ActionView {
    ShowHearing { text: Seq<char>, pad: usize },
    ShowTranscript(Seq<char>),
    ShowThinking,
    ShowSpokenText(Seq<char>),
    ShowReply(Seq<char>),
    PlayPcm { samples: Seq<i16>, sample_rate: u32 },
    ShowYourTurn,
    LogUsage { input_text: u64, input_audio: u64, output_text: u64, output_audio: u64 },
    ShowError { code: u32, message: Seq<char> },
    SessionFinished,
    ConnectionFinished,
    LogEvent(EventView),
}

impl View for TurnAction {
    type V = ActionView;

    open spec fn view(&self) -> ActionView {
        match self {
            TurnAction::ShowHearing { text, pad } => ActionView::ShowHearing { text: text@, pad: *pad },
            TurnAction::ShowTranscript(t) => ActionView::ShowTranscript(t@),
            TurnAction::ShowThinking => ActionView::ShowThinking,
            TurnAction::ShowSpokenText(t) => ActionView::ShowSpokenText(t@),
            TurnAction::ShowReply(t) => ActionView::ShowReply(t@),
            TurnAction::PlayPcm { samples, sample_rate } => ActionView::PlayPcm {
                samples: samples@,
                sample_rate: *sample_rate,
            },
            TurnAction::ShowYourTurn => ActionView::ShowYourTurn,
            TurnAction::LogUsage { input_text, input_audio, output_text, output_audio } => ActionView::LogUsage {
                input_text: *input_text,
                input_audio: *input_audio,
                output_text: *output_text,
                output_audio: *output_audio,
            },
            TurnAction::ShowError { code, message } => ActionView::ShowError { code: *code, message: message@ },
            TurnAction::SessionFinished => ActionView::SessionFinished,
            TurnAction::ConnectionFinished => ActionView::ConnectionFinished,
            TurnAction::LogEvent(e) => ActionView::LogEvent(e@),
        }
    }
}

/// The state of a conversation.
pub struct ConversationView {
    pub turn: TurnState,
    /// The partial transcript shown last (empty after a final one).
    pub last_heard: Seq<char>,
    /// Whether the conversation goes on.
    pub running: bool,
}

/// The actions of a sequence of actions.
pub open spec fn action_views(actions: Seq<TurnAction>) -> Seq<ActionView> {
    actions.map_values(|a: TurnAction| a@)
}

/// Byte length of a text in UTF-8.
pub open spec fn utf8_len(t: Seq<char>) -> int {
    vstd::utf8::encode_utf8(t).len() as int
}

/// Spaces needed after `text` to cover `previous` when it is shown in its
/// place: the difference of their UTF-8 byte lengths, or 0.
pub open spec fn pad_width(previous: Seq<char>, text: Seq<char>) -> usize {
    let a = utf8_len(previous) as usize;
    let b = utf8_len(text) as usize;
    if a > b {
        (a - b) as usize
    } else {
        0
    }
}

/// One step of the conversation on a server event: the new state and the
/// actions to perform, in order.
pub open spec fn conversation_step(c: ConversationView, e: EventView) -> (ConversationView, Seq<ActionView>) {
    match e {
        EventView::AsrResponse { text, is_interim } => {
            let changed = text != c.last_heard;
            let shown = if changed {
                seq![
                    ActionView::ShowHearing {
                        text,
                        pad: pad_width(c.last_heard, text),
                    },
                ]
            } else {
                Seq::empty()
            };
            if is_interim {
                (ConversationView { last_heard: text, ..c }, shown)
            } else {
                (
                    ConversationView { turn: TurnState::WaitingForResponse, last_heard: Seq::empty(), ..c },
                    shown.push(ActionView::ShowTranscript(text)),
                )
            }
        },
        EventView::AsrEnded => (
            ConversationView { turn: TurnState::WaitingForResponse, ..c },
            seq![ActionView::ShowThinking],
        ),
        EventView::TtsSentenceStart { tts_type, text, .. } => (
            ConversationView { turn: TurnState::Playing, ..c },
            if tts_type == "default"@ {
                seq![ActionView::ShowSpokenText(text)]
            } else {
                Seq::empty()
            },
        ),
        EventView::TtsAudio(data) => (
            c,
            seq![ActionView::PlayPcm { samples: pcm_samples(data), sample_rate: TTS_SAMPLE_RATE }],
        ),
        EventView::TtsEnded => (ConversationView { turn: TurnState::Listening, ..c }, seq![ActionView::ShowYourTurn]),
        EventView::ChatResponse { content, .. } => (
            c,
            if c.turn == TurnState::WaitingForResponse {
                seq![ActionView::ShowReply(content)]
            } else {
                Seq::empty()
            },
        ),
        EventView::Usage { input_text, input_audio, output_text, output_audio } => (
            c,
            seq![ActionView::LogUsage { input_text, input_audio, output_text, output_audio }],
        ),
        EventView::Error { code, message } => (c, seq![ActionView::ShowError { code, message }]),
        EventView::SessionFinished => (
            ConversationView { running: false, ..c },
            seq![ActionView::SessionFinished],
        ),
        EventView::ConnectionFinished => (
            ConversationView { running: false, ..c },
            seq![ActionView::ConnectionFinished],
        ),
        _ => (c, seq![ActionView::LogEvent(e)]),
    }
}

/// Turns follow the server's events, from any state:
/// - the end of the student's speech (`AsrEnded`) or a final transcript
///   hands the turn to the answer (`WaitingForResponse`), so microphone
///   audio stops being sent; `AsrEnded` shows that the answer is coming;
/// - an interim transcript keeps the turn and remembers the text shown;
/// - a sentence about to be spoken makes it `Playing`, the end of the
///   spoken answer gives the turn back to the student (`Listening`);
/// - every other event leaves the turn as it was;
/// - the end of the session or of the connection stops the conversation,
///   and no other event changes whether it runs;
/// - a chat answer is shown exactly when the answer is awaited.
pub proof fn law_turns_follow_the_server(c: ConversationView, e: EventView)
    ensures
        ({
            let (d, actions) = conversation_step(c, e);
            &&& e is AsrEnded ==> d.turn == TurnState::WaitingForResponse && actions == seq![ActionView::ShowThinking]
            &&& (e matches EventView::AsrResponse { is_interim, .. } && !is_interim) ==> d.turn
                == TurnState::WaitingForResponse && d.last_heard.len() == 0
            &&& match e {
                EventView::AsrResponse { is_interim, text } => is_interim ==> d.turn == c.turn && d.last_heard
                    == text,
                _ => true,
            }
            &&& e is TtsSentenceStart ==> d.turn == TurnState::Playing
            &&& e is TtsEnded ==> d.turn == TurnState::Listening
            &&& !(e is AsrEnded || e is AsrResponse || e is TtsSentenceStart || e is TtsEnded) ==> d.turn
                == c.turn
            &&& (e is SessionFinished || e is ConnectionFinished) ==> !d.running
            &&& !(e is SessionFinished || e is ConnectionFinished) ==> d.running == c.running
            &&& match e {
                EventView::ChatResponse { content, .. } => actions == if c.turn == TurnState::WaitingForResponse {
                    seq![ActionView::ShowReply(content)]
                } else {
                    Seq::<ActionView>::empty()
                },
                _ => true,
            }
        }),
{
}

/// Turn-taking state of a conversation, driven by server events.
pub struct Conversation {
    turn: TurnState,
    last_heard: String,
    running: bool,
}

impl View for Conversation {
    type V = ConversationView;

    closed spec fn view(&self) -> ConversationView {
        ConversationView { turn: self.turn, last_heard: self.last_heard@, running: self.running }
    }
}

impl Conversation {
    /// A running conversation in which the student speaks first.
    pub fn new() -> (c: Self)
        ensures
            c@ == (ConversationView { turn: TurnState::Listening, last_heard: Seq::empty(), running: true }),
    {
        Conversation { turn: TurnState::Listening, last_heard: String::new(), running: true }
    }

    /// Whose turn it is.
    pub fn turn(&self) -> (t: TurnState)
        ensures
            t == self@.turn,
    {
        self.turn
    }

    /// Whether the conversation goes on.
    pub fn is_running(&self) -> (r: bool)
        ensures
            r == self@.running,
    {
        self.running
    }

    /// Whether microphone audio is to be sent now: only while the student
    /// has the turn.
    pub fn accepts_audio(&self) -> (r: bool)
        ensures
            r == (self@.turn == TurnState::Listening),
    {
        self.turn == TurnState::Listening
    }

    /// Stops the conversation (the user quit or the microphone ended).
    pub fn stop(&mut self)
        ensures
            final(self)@ == (ConversationView { running: false, ..old(self)@ }),
    {
        self.running = false;
    }

    /// Handles one server event: updates the turn and returns what to show
    /// or play, in order.
    pub fn handle_event(&mut self, event: ServerEvent) -> (actions: Vec<TurnAction>)
        ensures
            (final(self)@, action_views(actions@)) == conversation_step(old(self)@, event@),
    {
        let ghost e = event@;
        let mut actions: Vec<TurnAction> = Vec::new();
        match event {
            ServerEvent::AsrResponse { text, is_interim } => {
                if !(text == self.last_heard) {
                    let pad = self.last_heard.as_str().len().saturating_sub(text.as_str().len());
                    actions.push(TurnAction::ShowHearing { text: text.clone(), pad });
                    self.last_heard = text.clone();
                }
                if !is_interim {
                    actions.push(TurnAction::ShowTranscript(text));
                    self.last_heard = String::new();
                    self.turn = TurnState::WaitingForResponse;
                } else {
                    self.last_heard = text;
                }
            },
            ServerEvent::AsrEnded => {
                self.turn = TurnState::WaitingForResponse;
                actions.push(TurnAction::ShowThinking);
            },
            ServerEvent::TtsSentenceStart { tts_type, text, .. } => {
                if tts_type == String::from_str("default") {
                    actions.push(TurnAction::ShowSpokenText(text));
                }
                self.turn = TurnState::Playing;
            },
            ServerEvent::TtsAudio(audio) => {
                let samples = pcm_from_le_bytes(audio.as_slice());
                actions.push(TurnAction::PlayPcm { samples, sample_rate: TTS_SAMPLE_RATE });
            },
            ServerEvent::TtsEnded => {
                self.turn = TurnState::Listening;
                actions.push(TurnAction::ShowYourTurn);
            },
            ServerEvent::ChatResponse { content, .. } => {
                if self.turn == TurnState::WaitingForResponse {
                    actions.push(TurnAction::ShowReply(content));
                }
            },
            ServerEvent::Usage { input_text, input_audio, output_text, output_audio } => {
                actions.push(TurnAction::LogUsage { input_text, input_audio, output_text, output_audio });
            },
            ServerEvent::Error { code, message } => {
                actions.push(TurnAction::ShowError { code, message });
            },
            ServerEvent::SessionFinished => {
                self.running = false;
                actions.push(TurnAction::SessionFinished);
            },
            ServerEvent::ConnectionFinished => {
                self.running = false;
                actions.push(TurnAction::ConnectionFinished);
            },
            other => {
                actions.push(TurnAction::LogEvent(other));
            },
        }
        assert(action_views(actions@) =~= conversation_step(old(self)@, e).1);
        actions
    }
}

} // verus!
