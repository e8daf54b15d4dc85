//! Verified core of a real-time English speaking-practice voice assistant.
//!
//! The crate holds the logic of the assistant: the binary frame format of the
//! realtime speech service, the JSON view of server payloads, the energy-based
//! voice activity detector, the utterance pipeline built on it, the PCM
//! chunking and turn-taking state of a conversation, and the request and
//! event models of the speech services.

pub mod audio;
pub mod binary;
pub mod client_event;
pub mod conversation;
pub mod events;
pub mod ids;
pub mod json;
pub mod pipeline;
pub mod protocol;
pub mod server_event;
pub mod session;
pub mod soniox;
pub mod vad;
