use vstd::prelude::*;

verus! {

/// One line of a session's event log.
#[derive(Debug)]
pub enum Event {
    SessionStart { task: String, lane: String, model: String },
    TurnStart { turn: u32, max_turns: u32, zone1_hash: u64, zone2_hash: u64 },
    ModelResponse {
        content_chars: usize,
        tool_calls: usize,
        prompt_tokens: u64,
        completion_tokens: u64,
        cached_tokens: Option<u64>,
    },
    Repair { pass: String, detail: String },
    ToolCall { name: String, arguments_chars: usize },
    ToolResult { name: String, is_error: bool, chars: usize },
    StormBreak { name: String },
    GateRun { passed: bool, new_diagnostics: usize, blocking_failures: usize, warnings: Vec<String> },
    GateFeedback { frame: String },
    Escalation { from: String, to: String, reason: String },
    Finished { summary: String, passed: bool, turns: u32 },
    Error { message: String },
}

} // verus!
