//! Core of a telephone voice-agent pipeline: audio transcoding between the
//! telephony wire format and linear PCM, inbound media frame assembly for the
//! speech-recognition leg, the dialogue state machine that turns transcript
//! events into conversation turns, the observer broadcast registry with
//! failure-based pruning, and the single-shot handoff of a call's stream
//! identifier between the two per-call tasks.

pub mod assembler;
pub mod b64;
pub mod codec;
pub mod config;
pub mod dialogue;
pub mod handoff;
pub mod llm;
pub mod registry;
pub mod synth;
pub mod wire;
