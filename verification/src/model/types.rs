use vstd::prelude::*;

use crate::config::str_eq;
use crate::diagnostic::{clone_opt, opt_view};
use crate::json::{json_get, json_get_opt, json_str, json_u64, opt_deref, str_opt, u64_opt, JsonNode, JsonValue};
use crate::text::{push_str, str_owned};

verus! {

/// Who wrote a chat message.
#[derive(Debug, Clone, Copy, PartialEq, Eq, Structural)]
pub enum Role {
    System,
    User,
    Assistant,
    Tool,
}

/// A tool call requested by the model; `arguments` is JSON text.
#[derive(Debug)]
pub struct ToolCall {
    pub id: String,
    pub name: String,
    pub arguments: String,
}

pub struct ToolCallView {
    pub id: Seq<char>,
    pub name: Seq<char>,
    pub arguments: Seq<char>,
}

impl View for ToolCall {
    type V = ToolCallView;

    open spec fn view(&self) -> ToolCallView {
        ToolCallView { id: self.id@, name: self.name@, arguments: self.arguments@ }
    }
}

pub open spec fn calls_view(v: Seq<ToolCall>) -> Seq<ToolCallView> {
    v.map_values(|c: ToolCall| c@)
}

impl ToolCall {
    pub fn duplicate(&self) -> (r: Self)
        ensures
            r@ == self@,
    {
        ToolCall {
            id: str_owned(self.id.as_str()),
            name: str_owned(self.name.as_str()),
            arguments: str_owned(self.arguments.as_str()),
        }
    }
}

pub fn clone_calls(v: &Vec<ToolCall>) -> (r: Vec<ToolCall>)
    ensures
        calls_view(r@) == calls_view(v@),
{
    let mut out: Vec<ToolCall> = Vec::new();
    let mut i: usize = 0;
    while i < v.len()
        invariant
            i <= v.len(),
            calls_view(out@) == calls_view(v@.take(i as int)),
        decreases v.len() - i,
    {
        let c = v[i].duplicate();
        let ghost before = out@;
        out.push(c);
        assert(out@ == before.push(c));
        assert(calls_view(out@) =~= calls_view(before).push(v@[i as int]@));
        assert(v@.take(i + 1) =~= v@.take(i as int).push(v@[i as int]));
        assert(calls_view(out@) =~= calls_view(v@.take(i + 1)));
        i = i + 1;
    }
    assert(v@.take(v.len() as int) =~= v@);
    out
}

/// One message of a chat conversation.
#[derive(Debug)]
pub struct Message {
    pub role: Role,
    pub content: Option<String>,
    pub tool_calls: Vec<ToolCall>,
    pub tool_call_id: Option<String>,
}

pub struct MessageView {
    pub role: Role,
    pub content: Option<Seq<char>>,
    pub tool_calls: Seq<ToolCallView>,
    pub tool_call_id: Option<Seq<char>>,
}

impl View for Message {
    type V = MessageView;

    open spec fn view(&self) -> MessageView {
        MessageView {
            role: self.role,
            content: opt_view(self.content),
            tool_calls: calls_view(self.tool_calls@),
            tool_call_id: opt_view(self.tool_call_id),
        }
    }
}

pub open spec fn messages_view(v: Seq<Message>) -> Seq<MessageView> {
    v.map_values(|m: Message| m@)
}

pub open spec fn text_message(role: Role, content: Seq<char>) -> MessageView {
    MessageView { role, content: Some(content), tool_calls: Seq::empty(), tool_call_id: None }
}

impl Message {
    pub fn system(content: &str) -> (r: Self)
        ensures
            r@ == text_message(Role::System, content@),
    {
        let r = Message { role: Role::System, content: Some(str_owned(content)), tool_calls: Vec::new(), tool_call_id: None };
        assert(calls_view(r.tool_calls@) =~= Seq::empty());
        r
    }

    pub fn user(content: &str) -> (r: Self)
        ensures
            r@ == text_message(Role::User, content@),
    {
        let r = Message { role: Role::User, content: Some(str_owned(content)), tool_calls: Vec::new(), tool_call_id: None };
        assert(calls_view(r.tool_calls@) =~= Seq::empty());
        r
    }

    pub fn assistant(content: &str) -> (r: Self)
        ensures
            r@ == text_message(Role::Assistant, content@),
    {
        let r = Message { role: Role::Assistant, content: Some(str_owned(content)), tool_calls: Vec::new(), tool_call_id: None };
        assert(calls_view(r.tool_calls@) =~= Seq::empty());
        r
    }

    /// The answer to the tool call `id`.
    pub fn tool_call_response(id: &str, content: &str) -> (r: Self)
        ensures
            r@ == (MessageView { tool_call_id: Some(id@), ..text_message(Role::Tool, content@) }),
    {
        let r = Message {
            role: Role::Tool,
            content: Some(str_owned(content)),
            tool_calls: Vec::new(),
            tool_call_id: Some(str_owned(id)),
        };
        assert(calls_view(r.tool_calls@) =~= Seq::empty());
        r
    }

    pub fn duplicate(&self) -> (r: Self)
        ensures
            r@ == self@,
    {
        Message {
            role: self.role,
            content: clone_opt(&self.content),
            tool_calls: clone_calls(&self.tool_calls),
            tool_call_id: clone_opt(&self.tool_call_id),
        }
    }
}

/// Token counts of one response, or of a whole session.
#[derive(Debug, Clone, Copy, PartialEq, Eq, Structural)]
pub struct Usage {
    pub prompt_tokens: u64,
    pub completion_tokens: u64,
    pub total_tokens: u64,
    pub cached_tokens: Option<u64>,
}

impl Default for Usage {
    fn default() -> (r: Self)
        ensures
            r == (Usage { prompt_tokens: 0, completion_tokens: 0, total_tokens: 0, cached_tokens: None }),
    {
        Usage { prompt_tokens: 0, completion_tokens: 0, total_tokens: 0, cached_tokens: None }
    }
}

pub open spec fn u64_or_zero(v: Option<u64>) -> u64 {
    match v {
        Some(n) => n,
        None => 0,
    }
}

/// The usage an OpenAI-style `usage` object reports; a missing count reads as 0.
pub open spec fn usage_of(v: JsonValue) -> Usage {
    Usage {
        prompt_tokens: u64_or_zero(json_u64(json_get(v, "prompt_tokens"@))),
        completion_tokens: u64_or_zero(json_u64(json_get(v, "completion_tokens"@))),
        total_tokens: u64_or_zero(json_u64(json_get(v, "total_tokens"@))),
        cached_tokens: json_u64(json_get_opt(json_get(v, "prompt_tokens_details"@), "cached_tokens"@)),
    }
}

impl Usage {
    pub fn from_openai(value: &JsonValue) -> (r: Self)
        ensures
            r == usage_of(*value),
    {
        let cached = u64_opt(crate::json::get_opt(value.get("prompt_tokens_details"), "cached_tokens"));
        Usage {
            prompt_tokens: match u64_opt(value.get("prompt_tokens")) {
                Some(n) => n,
                None => 0,
            },
            completion_tokens: match u64_opt(value.get("completion_tokens")) {
                Some(n) => n,
                None => 0,
            },
            total_tokens: match u64_opt(value.get("total_tokens")) {
                Some(n) => n,
                None => 0,
            },
            cached_tokens: cached,
        }
    }
}

/// A parsed chat completion.
#[derive(Debug)]
pub struct ChatResponse {
    pub content: Option<String>,
    pub tool_calls: Vec<ToolCall>,
    pub usage: Usage,
    pub model: String,
    pub finish_reason: Option<String>,
    pub raw: JsonValue,
}

impl ChatResponse {
    /// The first tool call with the given name.
    pub fn tool_call_by_name(&self, name: &str) -> (r: Option<&ToolCall>)
        ensures
            match r {
                Some(c) => exists|i: int| 0 <= i < self.tool_calls.len() && self.tool_calls@[i] == *c
                    && c.name@ == name@
                    && forall|k: int| 0 <= k < i ==> self.tool_calls@[k].name@ != name@,
                None => forall|k: int| 0 <= k < self.tool_calls.len() ==> self.tool_calls@[k].name@ != name@,
            },
    {
        let mut i: usize = 0;
        while i < self.tool_calls.len()
            invariant
                i <= self.tool_calls.len(),
                forall|k: int| 0 <= k < i ==> self.tool_calls@[k].name@ != name@,
            decreases self.tool_calls.len() - i,
        {
            if str_eq(self.tool_calls[i].name.as_str(), name) {
                return Some(&self.tool_calls[i]);
            }
            i = i + 1;
        }
        None
    }
}

/// Whether an endpoint answered, what it serves, and how long it took.
#[derive(Debug)]
pub struct ModelHealth {
    pub reachable: bool,
    pub models: Vec<String>,
    pub latency_ms: u64,
    pub error: Option<String>,
}

impl ModelHealth {
    /// The health found by listing an endpoint's models: reachable with the listed models, or
    /// unreachable with the error's text, either way with the time the listing took.
    pub fn from_listing(listing: Result<Vec<String>, String>, latency_ms: u64) -> (r: Self)
        ensures
            r.latency_ms == latency_ms,
            match listing {
                Ok(models) => r.reachable && r.models@ == models@ && r.error is None,
                Err(e) => !r.reachable && r.models@.len() == 0 && r.error == Some(e),
            },
    {
        match listing {
            Ok(models) => ModelHealth { reachable: true, models, latency_ms, error: None },
            Err(e) => ModelHealth { reachable: false, models: Vec::new(), latency_ms, error: Some(e) },
        }
    }

    /// The health of an endpoint whose client could not be made: unreachable, nothing listed,
    /// no time spent, and the error's text.
    pub fn unreachable(error: String) -> (r: Self)
        ensures
            !r.reachable,
            r.models@.len() == 0,
            r.latency_ms == 0,
            r.error == Some(error),
    {
        ModelHealth { reachable: false, models: Vec::new(), latency_ms: 0, error: Some(error) }
    }
}

/// `h` is the health of an endpoint whose probe gave `outcome`: the health itself, or, where
/// its client could not be made, unreachable with that error's text.
pub open spec fn health_from(h: ModelHealth, outcome: Result<ModelHealth, String>) -> bool {
    match outcome {
        Ok(x) => h == x,
        Err(e) => !h.reachable && h.models@.len() == 0 && h.latency_ms == 0 && h.error == Some(e),
    }
}

/// A tool offered to the model; `parameters` is the JSON schema of its arguments, as text.
#[derive(Debug)]
pub struct ToolDefinition {
    pub name: String,
    pub description: String,
    pub parameters: String,
}

} // verus!
