//! Ids of the events that the client sends to the realtime speech service.
use vstd::prelude::*;

verus! {

pub const START_CONNECTION: u32 = 1;
pub const FINISH_CONNECTION: u32 = 2;
pub const START_SESSION: u32 = 100;
pub const FINISH_SESSION: u32 = 102;
pub const TASK_REQUEST: u32 = 200;
pub const UPDATE_CONFIG: u32 = 201;
pub const SAY_HELLO: u32 = 300;
pub const END_ASR: u32 = 400;
pub const CHAT_TTS_TEXT: u32 = 500;
pub const CHAT_TEXT_QUERY: u32 = 501;
pub const CHAT_RAG_TEXT: u32 = 502;
pub const CONVERSATION_CREATE: u32 = 510;
pub const CONVERSATION_UPDATE: u32 = 511;
pub const CONVERSATION_RETRIEVE: u32 = 512;
pub const CONVERSATION_TRUNCATE: u32 = 513;
pub const CONVERSATION_DELETE: u32 = 514;
pub const CLIENT_INTERRUPT: u32 = 515;

} // verus!
