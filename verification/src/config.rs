//! Process and per-call configuration values. A call reads one consistent
//! snapshot of the mutable prompt configuration at call start, so edits made
//! mid-call never affect a call already in progress.

use vstd::prelude::*;

verus! {

/// Which Dialogue Backend the process was configured with, and its credential
/// where one is needed.
pub enum Llm {
    Deepgram,
    ChatGPT(String),
}

/// Which Voice Synthesis Backend the process was configured with, and its
/// credential where one is needed.
pub enum Tts {
    Deepgram(String),
    Aws,
}

/// Deployment configuration: the call-scope keys observers may subscribe to.
pub struct Config {
    pub game_codes: Vec<String>,
}

/// The body shape of the pre-call instruction and introspection endpoints.
pub struct Prompt {
    pub prompt: String,
}

/// The body shape of the initial-greeting endpoint.
pub struct InitialCallMessage {
    pub message: String,
}

/// The body shape of the post-call prompt list endpoint.
pub struct Prompts {
    pub prompts: Vec<String>,
}

/// The body shape of an observer's subscription request: the call-scope keys
/// it wants to observe.
pub struct Keys {
    pub keys: Vec<String>,
}

/// One call's snapshot of the prompt configuration, taken at call start: the
/// pre-call system instruction, the greeting spoken before any transcript is
/// processed, the optional introspection prompt with the reply that means all
/// is well, and the ordered post-call follow-up prompts.
pub struct PromptConfig {
    pub pre_call_prompt: String,
    pub initial_call_message: String,
    pub introspection_prompt: String,
    pub introspection_carry_on: Option<String>,
    pub post_call_prompts: Vec<String>,
}

} // verus!
