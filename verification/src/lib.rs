//! Verified core of a voice-controlled keyboard: converts streaming
//! speech-to-text transcripts into a minimal sequence of key operations.
//!
//! The crate is split along the data path:
//! - [`input_event`]: key codes and the character-to-keycode table;
//! - [`stt_client`]: the streaming transcription session (message parsing,
//!   session state machine, audio chunking);
//! - [`virtual_keyboard`]: the transcript synchronizer that keeps the
//!   on-screen text in step with the latest transcript.

pub mod input_event;
pub mod stt_client;
pub mod virtual_keyboard;
