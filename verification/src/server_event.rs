//! Ids of the events that the realtime speech service sends.
use vstd::prelude::*;

verus! {

pub const CONNECTION_STARTED: u32 = 50;
pub const CONNECTION_FAILED: u32 = 51;
pub const CONNECTION_FINISHED: u32 = 52;
pub const SESSION_STARTED: u32 = 150;
pub const SESSION_FINISHED: u32 = 152;
pub const SESSION_FAILED: u32 = 153;
pub const USAGE_RESPONSE: u32 = 154;
pub const CONFIG_UPDATED: u32 = 251;
pub const TTS_SENTENCE_START: u32 = 350;
pub const TTS_SENTENCE_END: u32 = 351;
pub const TTS_RESPONSE: u32 = 352;
pub const TTS_ENDED: u32 = 359;
pub const ASR_INFO: u32 = 450;
pub const ASR_RESPONSE: u32 = 451;
pub const ASR_ENDED: u32 = 459;
pub const CHAT_RESPONSE: u32 = 550;
pub const CHAT_TEXT_QUERY_CONFIRMED: u32 = 553;
pub const CHAT_ENDED: u32 = 559;
pub const CONVERSATION_CREATED: u32 = 567;
pub const CONVERSATION_UPDATED: u32 = 568;
pub const CONVERSATION_RETRIEVED: u32 = 569;
pub const CONVERSATION_TRUNCATED: u32 = 570;
pub const CONVERSATION_DELETED: u32 = 571;
pub const DIALOG_COMMON_ERROR: u32 = 599;

} // verus!
