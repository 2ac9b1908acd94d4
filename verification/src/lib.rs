//! Core of a dictation daemon: a voice-activity detector with hysteresis, a
//! timing-based speech segmenter, a token-bucket rate limiter for control
//! commands, the daemon lifecycle state machine, transcription post-processing,
//! and the model-asset download/verification logic, all with verified
//! contracts.  Audio capture, keystroke injection and the recognition engine
//! itself are outside collaborators; the functions here take and return plain
//! values that the surrounding process feeds in.

pub mod asset;
pub mod chars;
pub mod client;
pub mod config;
pub mod daemon;
pub mod engine;
pub mod ipc;
pub mod keyboard;
pub mod rate_limit;
pub mod segmenter;
pub mod server;
pub mod textproc;
pub mod vad;
