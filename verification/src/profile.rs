use vstd::prelude::*;

verus! {

/// A named model lane.
#[derive(Debug, Clone, Copy, PartialEq, Eq, Structural)]
pub enum Lane {
    Fast,
    Deep,
    Micro,
}

/// One configured model endpoint.
#[derive(Debug, Clone)]
pub struct ModelProfile {
    pub lane: Lane,
    pub base_url: String,
    pub model: String,
    pub context_tokens: u64,
    pub api_key_env: Option<String>,
}

} // verus!
