//! Configuration the process is started with. The values are read from the
//! environment by the unverified edge at startup and handed in as plain data.

use vstd::prelude::*;

verus! {

/// Environment-sourced configuration, validated at startup by the caller:
/// the server to operate on, the chat-platform token, the completion
/// provider's endpoint and model, and an optional provider key.
pub struct EnvVars {
    pub guild_id: u64,
    pub discord_token: String,
    pub llm_endpoint: String,
    pub model_name: String,
    pub llm_api_key: Option<String>,
}

} // verus!
