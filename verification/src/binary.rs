//! Binary frame format of the realtime speech service.
//!
//! A frame is a 4-byte header, optional fields, a 4-byte big-endian payload
//! size and the payload.
//!
//! Header:
//!   byte 0: protocol version 1 (high nibble), header size 4 bytes (low nibble)
//!   byte 1: message type (high nibble), message-type flags (low nibble)
//!   byte 2: serialization (high nibble), compression (low nibble)
//!   byte 3: reserved, 0
//!
//! The flag 0x4 announces that the next 4 bytes hold the event id.
use vstd::prelude::*;
use vstd::string::StringSliceAdditionalSpecFns;
use vstd::slice::slice_subrange;
use vstd::string::StringExecFns;
use vstd::utf8::{decode_utf8, valid_utf8};

use crate::json::{parse_json, parsed_json, JsonValue};

verus! {

/// Message type carried in the high nibble of header byte 1.
#[derive(Debug, Clone, Copy, PartialEq, Eq, Structural)]
pub enum MsgType {
    FullClientRequest,
    AudioClientRequest,
    FullServerResponse,
    AudioServerResponse,
    ErrorInfo,
}

impl MsgType {
    /// The 4-bit code of the message type on the wire.
    pub open spec fn wire_code(self) -> u8 {
        match self {
            MsgType::FullClientRequest => 0x1,
            MsgType::AudioClientRequest => 0x2,
            MsgType::FullServerResponse => 0x9,
            MsgType::AudioServerResponse => 0xB,
            MsgType::ErrorInfo => 0xF,
        }
    }

    /// The 4-bit code of the message type on the wire.
    pub fn code(&self) -> (c: u8)
        ensures
            c == self.wire_code(),
    {
        match self {
            MsgType::FullClientRequest => 0x1,
            MsgType::AudioClientRequest => 0x2,
            MsgType::FullServerResponse => 0x9,
            MsgType::AudioServerResponse => 0xB,
            MsgType::ErrorInfo => 0xF,
        }
    }
}

/// Serialization method carried in the high nibble of header byte 2.
#[derive(Debug, Clone, Copy, PartialEq, Eq, Structural)]
pub enum Serialization {
    Raw,
    Json,
}

impl Serialization {
    /// The 4-bit code of the serialization method on the wire.
    pub open spec fn wire_code(self) -> u8 {
        match self {
            Serialization::Raw => 0x0,
            Serialization::Json => 0x1,
        }
    }

    /// The 4-bit code of the serialization method on the wire.
    pub fn code(&self) -> (c: u8)
        ensures
            c == self.wire_code(),
    {
        match self {
            Serialization::Raw => 0x0,
            Serialization::Json => 0x1,
        }
    }
}

/// Compression method carried in the low nibble of header byte 2.
#[derive(Debug, Clone, Copy, PartialEq, Eq, Structural)]
pub enum Compression {
    NoCompression,
    Gzip,
}

impl Compression {
    /// The 4-bit code of the compression method on the wire.
    pub open spec fn wire_code(self) -> u8 {
        match self {
            Compression::NoCompression => 0x0,
            Compression::Gzip => 0x1,
        }
    }

    /// The 4-bit code of the compression method on the wire.
    pub fn code(&self) -> (c: u8)
        ensures
            c == self.wire_code(),
    {
        match self {
            Compression::NoCompression => 0x0,
            Compression::Gzip => 0x1,
        }
    }
}

/// Flag (low nibble of header byte 1): an event id follows the header.
pub const EVENT_FLAG: u8 = 0x4;

/// Event id of the audio-only task request.
pub const TASK_REQUEST_EVENT: u32 = 200;

/// The four big-endian bytes of `x`.
pub open spec fn be32(x: u32) -> Seq<u8> {
    seq![
        (x / 0x100_0000) as u8,
        (x / 0x1_0000 % 0x100) as u8,
        (x / 0x100 % 0x100) as u8,
        (x % 0x100) as u8,
    ]
}

/// The 4-byte header for the given message type, serialization,
/// compression and flags.
pub open spec fn header_bytes(msg_type: MsgType, ser: Serialization, comp: Compression, flags: u8) -> Seq<u8> {
    seq![
        0x11u8,
        (msg_type.wire_code() << 4u8) | (flags & 0x0Fu8),
        (ser.wire_code() << 4u8) | comp.wire_code(),
        0x00u8,
    ]
}

/// Header of a JSON event sent by the client.
pub open spec fn json_event_header() -> Seq<u8> {
    header_bytes(MsgType::FullClientRequest, Serialization::Json, Compression::NoCompression, EVENT_FLAG)
}

/// Header of an audio-only event sent by the client.
pub open spec fn audio_event_header() -> Seq<u8> {
    header_bytes(MsgType::AudioClientRequest, Serialization::Raw, Compression::NoCompression, EVENT_FLAG)
}

/// A field prefixed by its 4-byte big-endian length (the length is
/// truncated to 32 bits, as the wire has room for no more).
pub open spec fn sized(bytes: Seq<u8>) -> Seq<u8> {
    be32(bytes.len() as u32) + bytes
}

/// Frame of a connection-level JSON event: header, event id, payload.
pub open spec fn connect_event_frame(event_id: u32, payload: Seq<u8>) -> Seq<u8> {
    json_event_header() + be32(event_id) + sized(payload)
}

/// Frame of a session-level JSON event: header, event id, session id, payload.
pub open spec fn session_event_frame(event_id: u32, session_id: Seq<u8>, payload: Seq<u8>) -> Seq<u8> {
    json_event_header() + be32(event_id) + sized(session_id) + sized(payload)
}

/// Frame of an audio-only task request: header, event id 200, session id, audio.
pub open spec fn audio_event_frame(session_id: Seq<u8>, pcm: Seq<u8>) -> Seq<u8> {
    audio_event_header() + be32(TASK_REQUEST_EVENT) + sized(session_id) + sized(pcm)
}

/// Builds the 4-byte header.
fn header(msg_type: MsgType, ser: Serialization, comp: Compression, flags: u8) -> (h: [u8; 4])
    ensures
        h@ == header_bytes(msg_type, ser, comp, flags),
{
    let b0: u8 = 0x11;
    let b1: u8 = (msg_type.code() << 4u8) | (flags & 0x0F);
    let b2: u8 = (ser.code() << 4u8) | comp.code();
    let h = [b0, b1, b2, 0x00];
    assert(h@ =~= header_bytes(msg_type, ser, comp, flags));
    h
}

/// Appends `src` to `buf`.
fn append_bytes(buf: &mut Vec<u8>, src: &[u8])
    ensures
        final(buf)@ == old(buf)@ + src@,
{
    let mut i: usize = 0;
    while i < src.len()
        invariant
            i <= src@.len(),
            buf@ == old(buf)@ + src@.subrange(0, i as int),
        decreases src@.len() - i,
    {
        buf.push(src[i]);
        i = i + 1;
        assert(buf@ =~= old(buf)@ + src@.subrange(0, i as int));
    }
    assert(src@.subrange(0, src@.len() as int) =~= src@);
}

/// Appends the four big-endian bytes of `x` to `buf`.
fn append_be32(buf: &mut Vec<u8>, x: u32)
    ensures
        final(buf)@ == old(buf)@ + be32(x),
{
    buf.push((x / 0x100_0000) as u8);
    buf.push((x / 0x1_0000 % 0x100) as u8);
    buf.push((x / 0x100 % 0x100) as u8);
    buf.push((x % 0x100) as u8);
    assert(buf@ =~= old(buf)@ + be32(x));
}

/// Appends `bytes` prefixed by its 4-byte big-endian length.
fn append_sized(buf: &mut Vec<u8>, bytes: &[u8])
    ensures
        final(buf)@ == old(buf)@ + sized(bytes@),
{
    append_be32(buf, bytes.len() as u32);
    append_bytes(buf, bytes);
    assert(buf@ =~= old(buf)@ + sized(bytes@));
}

/// Encodes a connection-level JSON event (no session id).
pub fn encode_connect_event(event_id: u32, json: &str) -> (frame: Vec<u8>)
    ensures
        frame@ == connect_event_frame(event_id, json.spec_bytes()),
{
    let hdr = header(MsgType::FullClientRequest, Serialization::Json, Compression::NoCompression, EVENT_FLAG);
    let payload = json.as_bytes();
    let mut buf: Vec<u8> = Vec::new();
    append_bytes(&mut buf, &hdr);
    append_be32(&mut buf, event_id);
    append_sized(&mut buf, payload);
    assert(buf@ =~= connect_event_frame(event_id, json.spec_bytes()));
    buf
}

/// Encodes a session-level JSON event.
pub fn encode_session_event(event_id: u32, session_id: &str, json: &str) -> (frame: Vec<u8>)
    ensures
        frame@ == session_event_frame(event_id, session_id.spec_bytes(), json.spec_bytes()),
{
    let hdr = header(MsgType::FullClientRequest, Serialization::Json, Compression::NoCompression, EVENT_FLAG);
    let sid = session_id.as_bytes();
    let payload = json.as_bytes();
    let mut buf: Vec<u8> = Vec::new();
    append_bytes(&mut buf, &hdr);
    append_be32(&mut buf, event_id);
    append_sized(&mut buf, sid);
    append_sized(&mut buf, payload);
    assert(buf@ =~= session_event_frame(event_id, session_id.spec_bytes(), json.spec_bytes()));
    buf
}

/// Encodes an audio-only task request (event 200) carrying raw PCM.
pub fn encode_audio_event(session_id: &str, pcm_data: &[u8]) -> (frame: Vec<u8>)
    ensures
        frame@ == audio_event_frame(session_id.spec_bytes(), pcm_data@),
{
    let hdr = header(MsgType::AudioClientRequest, Serialization::Raw, Compression::NoCompression, EVENT_FLAG);
    let sid = session_id.as_bytes();
    let event_id: u32 = TASK_REQUEST_EVENT;
    let mut buf: Vec<u8> = Vec::new();
    append_bytes(&mut buf, &hdr);
    append_be32(&mut buf, event_id);
    append_sized(&mut buf, sid);
    append_sized(&mut buf, pcm_data);
    assert(buf@ =~= audio_event_frame(session_id.spec_bytes(), pcm_data@));
    buf
}


// ── Decoding ──────────────────────────────────────────────────────────────

/// Why a frame from the server could not be decoded.
#[derive(Debug, Clone, Copy, PartialEq, Eq, Structural)]
pub enum FrameError {
    /// Fewer than 4 bytes.
    TooShort { len: usize },
    /// The message type is not one the server sends.
    UnknownMsgType(u8),
    /// A session-level event whose session id size is 0, at least 256, or
    /// larger than what follows.
    InvalidSessionId { event_id: u32 },
    /// No room for the payload size field.
    NoPayload,
    /// The payload size exceeds the bytes that follow it.
    IncompletePayload { need: usize, have: usize },
    /// A JSON payload that is not UTF-8.
    InvalidUtf8,
    /// A JSON payload that serde_json rejects.
    InvalidJson,
}

/// A decoded frame from the server.
#[derive(Debug)]
pub enum ServerFrame {
    Json { msg_type: MsgType, event_id: u32, session_id: Option<String>, payload: JsonValue },
    Audio { event_id: u32, session_id: Option<String>, data: Vec<u8> },
    Error { code: u32, message: String },
}

/// The content of a decoded frame.
pub enum FrameView {
    Json { msg_type: MsgType, event_id: u32, session_id: Option<Seq<char>>, payload: JsonValue },
    Audio { event_id: u32, session_id: Option<Seq<char>>, data: Seq<u8> },
    Error { code: u32, message: Seq<char> },
}

/// The text of an optional string.
pub open spec fn opt_text(s: Option<String>) -> Option<Seq<char>> {
    match s {
        Some(t) => Some(t@),
        None => None,
    }
}

impl View for ServerFrame {
    type V = FrameView;

    open spec fn view(&self) -> FrameView {
        match self {
            ServerFrame::Json { msg_type, event_id, session_id, payload } => FrameView::Json {
                msg_type: *msg_type,
                event_id: *event_id,
                session_id: opt_text(*session_id),
                payload: *payload,
            },
            ServerFrame::Audio { event_id, session_id, data } => FrameView::Audio {
                event_id: *event_id,
                session_id: opt_text(*session_id),
                data: data@,
            },
            ServerFrame::Error { code, message } => FrameView::Error { code: *code, message: message@ },
        }
    }
}

/// The big-endian `u32` stored at `data[pos..pos + 4]`.
pub open spec fn u32_at(data: Seq<u8>, pos: int) -> u32 {
    (data[pos] as int * 0x100_0000 + data[pos + 1] as int * 0x1_0000 + data[pos + 2] as int * 0x100
        + data[pos + 3] as int) as u32
}

/// The message type a server frame may carry in the high nibble of
/// header byte 1.
pub open spec fn server_msg_type(code: u8) -> Option<MsgType> {
    if code == 0x9 {
        Some(MsgType::FullServerResponse)
    } else if code == 0xB {
        Some(MsgType::AudioServerResponse)
    } else if code == 0xF {
        Some(MsgType::ErrorInfo)
    } else {
        None
    }
}

/// The text of `bytes` when they are UTF-8.
pub open spec fn utf8_text(bytes: Seq<u8>) -> Option<Seq<char>> {
    if valid_utf8(bytes) {
        Some(decode_utf8(bytes))
    } else {
        None
    }
}

/// A byte that may appear in an echoed connect id: ASCII letter, digit or '-'.
pub open spec fn is_id_byte(b: u8) -> bool {
    (0x30 <= b <= 0x39) || (0x41 <= b <= 0x5A) || (0x61 <= b <= 0x7A) || b == 0x2D
}

/// Whether a 4-byte field starts at `pos`.
pub open spec fn has_u32_at(data: Seq<u8>, pos: int) -> bool {
    data.len() >= pos + 4
}

/// The optional error code (error frames only) and where the next field starts.
pub open spec fn error_code_field(data: Seq<u8>, mt: MsgType) -> (u32, int) {
    if mt == MsgType::ErrorInfo && has_u32_at(data, 4) {
        (u32_at(data, 4), 8)
    } else {
        (0, 4)
    }
}

/// The optional event id (when the event flag is set) and where the next
/// field starts.
pub open spec fn event_id_field(data: Seq<u8>, has_event: bool, pos: int) -> (u32, int) {
    if has_event && has_u32_at(data, pos) {
        (u32_at(data, pos), pos + 4)
    } else {
        (0, pos)
    }
}

/// The session id of a session-level event (event id at least 100) and
/// where the next field starts. A size of 0, of 256 or more, or one larger
/// than what follows is an error; a session id that is not UTF-8 is
/// skipped and read as absent.
pub open spec fn session_id_field(data: Seq<u8>, event_id: u32, pos: int) -> Result<
    (Option<Seq<char>>, int),
    FrameError,
> {
    if event_id >= 100 && has_u32_at(data, pos) {
        let size = u32_at(data, pos) as int;
        if 0 < size < 256 && data.len() >= pos + 4 + size {
            Ok((utf8_text(data.subrange(pos + 4, pos + 4 + size)), pos + 4 + size))
        } else {
            Err(FrameError::InvalidSessionId { event_id })
        }
    } else {
        Ok((None, pos))
    }
}

/// Where the field after an echoed connect id starts. A connection-level
/// event (event id below 100) may carry one: a size below 64 followed by
/// that many id bytes. When what follows does not look so, nothing is skipped.
pub open spec fn connect_id_end(data: Seq<u8>, event_id: u32, pos: int) -> int {
    if event_id < 100 && has_u32_at(data, pos) {
        let size = u32_at(data, pos) as int;
        if 0 < size < 64 && data.len() >= pos + 4 + size && (forall|i: int|
            pos + 4 <= i < pos + 4 + size ==> is_id_byte(#[trigger] data[i])) {
            pos + 4 + size
        } else {
            pos
        }
    } else {
        pos
    }
}

/// The frame that the payload completes, by message type.
pub open spec fn frame_of_payload(
    mt: MsgType,
    code: u32,
    event_id: u32,
    session_id: Option<Seq<char>>,
    payload: Seq<u8>,
) -> Result<FrameView, FrameError> {
    match mt {
        MsgType::ErrorInfo => Ok(
            FrameView::Error {
                code,
                message: match utf8_text(payload) {
                    Some(t) => t,
                    None => "<non-utf8 error payload>"@,
                },
            },
        ),
        MsgType::AudioServerResponse => Ok(FrameView::Audio { event_id, session_id, data: payload }),
        _ => match utf8_text(payload) {
            None => Err(FrameError::InvalidUtf8),
            Some(text) => match parsed_json(text) {
                None => Err(FrameError::InvalidJson),
                Some(json) => Ok(FrameView::Json { msg_type: mt, event_id, session_id, payload: json }),
            },
        },
    }
}

/// What a frame received from the server decodes to.
///
/// Header; error code (error frames); event id (when flagged); session id
/// (session-level events) or echoed connect id (connection-level events);
/// payload size; payload. Bytes after the payload are ignored.
pub open spec fn decoded_frame(data: Seq<u8>) -> Result<FrameView, FrameError> {
    if data.len() < 4 {
        Err(FrameError::TooShort { len: data.len() as usize })
    } else {
        let code_nibble = (data[1] >> 4u8) & 0x0Fu8;
        match server_msg_type(code_nibble) {
            None => Err(FrameError::UnknownMsgType(code_nibble)),
            Some(mt) => {
                let has_event = ((data[1] & 0x0Fu8) & EVENT_FLAG) != 0;
                let (code, p1) = error_code_field(data, mt);
                let (event_id, p2) = event_id_field(data, has_event, p1);
                match session_id_field(data, event_id, p2) {
                    Err(e) => Err(e),
                    Ok((session_id, p3)) => {
                        let p4 = connect_id_end(data, event_id, p3);
                        if !has_u32_at(data, p4) {
                            Err(FrameError::NoPayload)
                        } else {
                            let size = u32_at(data, p4) as int;
                            let p5 = p4 + 4;
                            if data.len() < p5 + size {
                                Err(
                                    FrameError::IncompletePayload {
                                        need: size as usize,
                                        have: (data.len() - p5) as usize,
                                    },
                                )
                            } else {
                                frame_of_payload(mt, code, event_id, session_id, data.subrange(p5, p5 + size))
                            }
                        }
                    },
                }
            },
        }
    }
}

/// The decoded frame, or the error, as a value of the model.
pub open spec fn decode_result_view(r: Result<ServerFrame, FrameError>) -> Result<FrameView, FrameError> {
    match r {
        Ok(f) => Ok(f@),
        Err(e) => Err(e),
    }
}

/// Serialization that the server uses for a message type.
pub open spec fn server_serialization(mt: MsgType) -> Serialization {
    if mt == MsgType::AudioServerResponse {
        Serialization::Raw
    } else {
        Serialization::Json
    }
}

/// A frame as the server writes it: header with the event flag; the error
/// code for error frames; the event id; the session id, if any, with its
/// size; the payload with its size.
pub open spec fn server_frame(mt: MsgType, code: u32, event_id: u32, session_id: Option<Seq<u8>>, payload: Seq<u8>) -> Seq<u8> {
    header_bytes(mt, server_serialization(mt), Compression::NoCompression, EVENT_FLAG) + (if mt
        == MsgType::ErrorInfo {
        be32(code)
    } else {
        Seq::empty()
    }) + be32(event_id) + match session_id {
        Some(sid) => sized(sid),
        None => Seq::empty(),
    } + sized(payload)
}

/// Whether `bytes` could be taken for an echoed connect id when they stand
/// right after their size field.
pub open spec fn looks_like_connect_id(bytes: Seq<u8>) -> bool {
    0 < bytes.len() < 64 && forall|i: int| 0 <= i < bytes.len() ==> is_id_byte(#[trigger] bytes[i])
}

/// Reading back the big-endian bytes of `x` gives `x`.
proof fn lemma_be32_read(data: Seq<u8>, pos: int, x: u32)
    requires
        0 <= pos,
        pos + 4 <= data.len(),
        data.subrange(pos, pos + 4) == be32(x),
    ensures
        u32_at(data, pos) == x,
{
    assert(data[pos] == be32(x)[0]);
    assert(data[pos + 1] == be32(x)[1]);
    assert(data[pos + 2] == be32(x)[2]);
    assert(data[pos + 3] == be32(x)[3]);
    assert((((x / 0x100_0000) as u8) as u32) * 0x100_0000 + (((x / 0x1_0000 % 0x100) as u8) as u32) * 0x1_0000
        + (((x / 0x100 % 0x100) as u8) as u32) * 0x100 + (((x % 0x100) as u8) as u32) == x) by (bit_vector);
}

/// The fields of a header written for a server message type.
proof fn lemma_server_header(mt: MsgType)
    requires
        server_msg_type(mt.wire_code()) == Some(mt),
    ensures
        ({
            let h = header_bytes(mt, server_serialization(mt), Compression::NoCompression, EVENT_FLAG);
            &&& (h[1] >> 4u8) & 0x0Fu8 == mt.wire_code()
            &&& ((h[1] & 0x0Fu8) & EVENT_FLAG) != 0
        }),
{
    let c = mt.wire_code();
    assert(c < 16);
    assert(c < 16 ==> ((((c << 4u8) | (4u8 & 0x0Fu8)) >> 4u8) & 0x0Fu8) == c) by (bit_vector);
    assert(((((c << 4u8) | (4u8 & 0x0Fu8)) & 0x0Fu8) & 4u8) != 0) by (bit_vector);
}

/// What the decoder reads back from a frame written as the server writes
/// it: the message type, error code, event id, session id and payload that
/// went in. It holds for session-level events (event id at least 100) with
/// a session id of 1 to 255 bytes, and for connection-level events (event
/// id below 100) without a session id whose payload cannot be taken for an
/// echoed connect id; the payload fits in a 32-bit size.
#[verifier::rlimit(60)]
pub proof fn law_decode_reads_server_frames(
    mt: MsgType,
    code: u32,
    event_id: u32,
    session_id: Option<Seq<u8>>,
    payload: Seq<u8>,
)
    requires
        server_msg_type(mt.wire_code()) == Some(mt),
        payload.len() <= u32::MAX,
        event_id >= 100 ==> (session_id matches Some(sid) && 0 < sid.len() < 256),
        event_id < 100 ==> session_id is None && !looks_like_connect_id(payload),
    ensures
        decoded_frame(server_frame(mt, code, event_id, session_id, payload)) == frame_of_payload(
            mt,
            if mt == MsgType::ErrorInfo {
                code
            } else {
                0
            },
            event_id,
            match session_id {
                Some(sid) => utf8_text(sid),
                None => None,
            },
            payload,
        ),
{
    let h = header_bytes(mt, server_serialization(mt), Compression::NoCompression, EVENT_FLAG);
    let ec: Seq<u8> = if mt == MsgType::ErrorInfo {
        be32(code)
    } else {
        Seq::empty()
    };
    let sf: Seq<u8> = match session_id {
        Some(sid) => sized(sid),
        None => Seq::empty(),
    };
    let data = server_frame(mt, code, event_id, session_id, payload);
    assert(data =~= h + ec + be32(event_id) + sf + sized(payload));
    lemma_server_header(mt);
    assert(data[1] == h[1]);
    let p1: int = 4 + ec.len() as int;
    if mt == MsgType::ErrorInfo {
        assert(data.subrange(4, 8) =~= be32(code));
        lemma_be32_read(data, 4, code);
    }
    assert(error_code_field(data, mt) == (if mt == MsgType::ErrorInfo { code } else { 0 }, p1));
    assert(data.subrange(p1, p1 + 4) =~= be32(event_id));
    lemma_be32_read(data, p1, event_id);
    let p2: int = p1 + 4;
    assert(event_id_field(data, true, p1) == (event_id, p2));
    let p3: int = p2 + sf.len() as int;
    match session_id {
        Some(sid) => {
            assert(data.subrange(p2, p2 + 4) =~= be32(sid.len() as u32));
            lemma_be32_read(data, p2, sid.len() as u32);
            assert(data.subrange(p2 + 4, p2 + 4 + sid.len() as int) =~= sid);
        },
        None => {},
    }
    if event_id >= 100 {
        assert(session_id_field(data, event_id, p2) == Ok::<(Option<Seq<char>>, int), FrameError>(
            (match session_id {
                Some(sid) => utf8_text(sid),
                None => None,
            }, p3),
        ));
    }
    assert(data.subrange(p3, p3 + 4) =~= be32(payload.len() as u32));
    lemma_be32_read(data, p3, payload.len() as u32);
    if event_id < 100 {
        assert(connect_id_end(data, event_id, p3) == p3) by {
            let size = payload.len() as int;
            if 0 < size < 64 && data.len() >= p3 + 4 + size {
                assert(!looks_like_connect_id(payload));
                let i = choose|i: int| 0 <= i < payload.len() && !is_id_byte(#[trigger] payload[i]);
                assert(data[p3 + 4 + i] == payload[i]);
            }
        }
    }
    assert(data.subrange(p3 + 4, p3 + 4 + payload.len() as int) =~= payload);
}

/// Calls `std::str::from_utf8`: the text of `bytes` when they are valid
/// UTF-8, `None` otherwise (the result's contents copied into a `String`).
#[verifier::external_body]
pub(crate) fn utf8_to_string(bytes: &[u8]) -> (r: Option<String>)
    ensures
        opt_text(r) == utf8_text(bytes@),
{
    match std::str::from_utf8(bytes) {
        Ok(s) => Some(s.to_string()),
        Err(_) => None,
    }
}

/// The big-endian `u32` at `data[pos..pos + 4]`.
fn read_u32(data: &[u8], pos: usize) -> (r: u32)
    requires
        pos + 4 <= data@.len(),
    ensures
        r == u32_at(data@, pos as int),
{
    let b0 = data[pos] as u32;
    let b1 = data[pos + 1] as u32;
    let b2 = data[pos + 2] as u32;
    let b3 = data[pos + 3] as u32;
    b0 * 0x100_0000 + b1 * 0x1_0000 + b2 * 0x100 + b3
}

/// Copies `data[start..end]`.
fn copy_range(data: &[u8], start: usize, end: usize) -> (r: Vec<u8>)
    requires
        start <= end <= data@.len(),
    ensures
        r@ == data@.subrange(start as int, end as int),
{
    let mut out: Vec<u8> = Vec::new();
    let mut i = start;
    while i < end
        invariant
            start <= i <= end <= data@.len(),
            out@ == data@.subrange(start as int, i as int),
        decreases end - i,
    {
        out.push(data[i]);
        i = i + 1;
        assert(out@ =~= data@.subrange(start as int, i as int));
    }
    out
}

/// Whether `data[start..end]` consists of connect-id bytes.
fn all_id_bytes(data: &[u8], start: usize, end: usize) -> (r: bool)
    requires
        start <= end <= data@.len(),
    ensures
        r == (forall|i: int| start <= i < end ==> is_id_byte(#[trigger] data@[i])),
{
    let mut i = start;
    while i < end
        invariant
            start <= i <= end <= data@.len(),
            forall|j: int| start <= j < i ==> is_id_byte(#[trigger] data@[j]),
        decreases end - i,
    {
        let b = data[i];
        if !((0x30 <= b && b <= 0x39) || (0x41 <= b && b <= 0x5A) || (0x61 <= b && b <= 0x7A) || b == 0x2D) {
            assert(!is_id_byte(data@[i as int]));
            return false;
        }
        i = i + 1;
    }
    true
}

/// The error code field: `(code, next position)`.
fn read_error_code(data: &[u8], msg_type: MsgType) -> (r: (u32, usize))
    requires
        data@.len() >= 4,
    ensures
        (r.0, r.1 as int) == error_code_field(data@, msg_type),
        4 <= r.1 <= data@.len(),
{
    if msg_type == MsgType::ErrorInfo && data.len() - 4 >= 4 {
        (read_u32(data, 4), 8)
    } else {
        (0, 4)
    }
}

/// The event id field: `(event id, next position)`.
fn read_event_id(data: &[u8], has_event: bool, pos: usize) -> (r: (u32, usize))
    requires
        pos <= data@.len(),
    ensures
        (r.0, r.1 as int) == event_id_field(data@, has_event, pos as int),
        pos <= r.1 <= data@.len(),
{
    if has_event && data.len() - pos >= 4 {
        (read_u32(data, pos), pos + 4)
    } else {
        (0, pos)
    }
}

/// The session id field: `(session id, next position)`.
fn read_session_id(data: &[u8], event_id: u32, pos: usize) -> (r: Result<(Option<String>, usize), FrameError>)
    requires
        pos <= data@.len(),
    ensures
        match r {
            Ok((sid, next)) => session_id_field(data@, event_id, pos as int) == Ok::<
                (Option<Seq<char>>, int),
                FrameError,
            >((opt_text(sid), next as int)) && pos <= next <= data@.len(),
            Err(e) => session_id_field(data@, event_id, pos as int) == Err::<
                (Option<Seq<char>>, int),
                FrameError,
            >(e),
        },
{
    if event_id >= 100 && data.len() - pos >= 4 {
        let sid_size = read_u32(data, pos) as usize;
        let start = pos + 4;
        if sid_size > 0 && sid_size < 256 && data.len() - start >= sid_size {
            let sid = utf8_to_string(slice_subrange(data, start, start + sid_size));
            Ok((sid, start + sid_size))
        } else {
            Err(FrameError::InvalidSessionId { event_id })
        }
    } else {
        Ok((None, pos))
    }
}

/// The position after an echoed connect id, if there is one.
fn skip_connect_id(data: &[u8], event_id: u32, pos: usize) -> (r: usize)
    requires
        pos <= data@.len(),
    ensures
        r as int == connect_id_end(data@, event_id, pos as int),
        pos <= r <= data@.len(),
{
    if event_id < 100 && data.len() - pos >= 4 {
        let cid_size = read_u32(data, pos) as usize;
        if cid_size > 0 && cid_size < 64 && data.len() - pos - 4 >= cid_size {
            if all_id_bytes(data, pos + 4, pos + 4 + cid_size) {
                return pos + 4 + cid_size;
            }
        }
    }
    pos
}

/// Builds the frame that `payload` completes.
fn finish_frame(
    msg_type: MsgType,
    error_code: u32,
    event_id: u32,
    session_id: Option<String>,
    payload: &[u8],
) -> (r: Result<ServerFrame, FrameError>)
    ensures
        decode_result_view(r) == frame_of_payload(msg_type, error_code, event_id, opt_text(session_id), payload@),
{
    match msg_type {
        MsgType::ErrorInfo => {
            let message = match utf8_to_string(payload) {
                Some(text) => text,
                None => String::from_str("<non-utf8 error payload>"),
            };
            Ok(ServerFrame::Error { code: error_code, message })
        },
        MsgType::AudioServerResponse => {
            let bytes = copy_range(payload, 0, payload.len());
            assert(bytes@ =~= payload@);
            Ok(ServerFrame::Audio { event_id, session_id, data: bytes })
        },
        _ => {
            let text = match utf8_to_string(payload) {
                Some(text) => text,
                None => {
                    return Err(FrameError::InvalidUtf8);
                },
            };
            match parse_json(text.as_str()) {
                Some(json) => Ok(ServerFrame::Json { msg_type, event_id, session_id, payload: json }),
                None => Err(FrameError::InvalidJson),
            }
        },
    }
}

/// Decodes a binary frame received from the server.
pub fn decode_frame(data: &[u8]) -> (r: Result<ServerFrame, FrameError>)
    ensures
        decode_result_view(r) == decoded_frame(data@),
{
    let len = data.len();
    if len < 4 {
        return Err(FrameError::TooShort { len });
    }
    let code_nibble: u8 = (data[1] >> 4u8) & 0x0F;
    let msg_type = if code_nibble == 0x9 {
        MsgType::FullServerResponse
    } else if code_nibble == 0xB {
        MsgType::AudioServerResponse
    } else if code_nibble == 0xF {
        MsgType::ErrorInfo
    } else {
        return Err(FrameError::UnknownMsgType(code_nibble));
    };
    let flags: u8 = data[1] & 0x0F;
    let has_event = (flags & EVENT_FLAG) != 0;

    let (error_code, p1) = read_error_code(data, msg_type);
    let (event_id, p2) = read_event_id(data, has_event, p1);
    let (session_id, p3) = match read_session_id(data, event_id, p2) {
        Ok(field) => field,
        Err(e) => {
            return Err(e);
        },
    };
    let p4 = skip_connect_id(data, event_id, p3);
    if len - p4 < 4 {
        return Err(FrameError::NoPayload);
    }
    let payload_size = read_u32(data, p4) as usize;
    let p5 = p4 + 4;
    if len - p5 < payload_size {
        return Err(FrameError::IncompletePayload { need: payload_size, have: len - p5 });
    }
    let payload = slice_subrange(data, p5, p5 + payload_size);
    finish_frame(msg_type, error_code, event_id, session_id, payload)
}

} // verus!
