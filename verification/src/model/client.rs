use vstd::prelude::*;

use crate::json::{
    get_opt, json_array, json_document, json_get, json_str, opt_deref, parse_json_document, str_opt, JsonNode,
    JsonValue,
};
use crate::model::error::{retryable, ModelError};
use crate::model::types::{calls_view, usage_of, ChatResponse, ToolCall, ToolCallView, Usage};
use crate::text::{cat, chars_of, starts_with_seq, string_of, str_owned};

verus! {

/// How many times a chat request is sent at most.
pub const MAX_ATTEMPTS: u32 = 3;

/// How much of an error body is kept.
pub const MAX_ERROR_BODY_CHARS: usize = 600;

/// The pause, in milliseconds, before retry number `attempt` (the first retry is attempt 1).
pub open spec fn backoff_ms(attempt: u32) -> u64 {
    if attempt <= 1 {
        300
    } else if attempt == 2 {
        900
    } else {
        2700
    }
}

pub fn retry_delay(attempt: u32) -> (r: u64)
    ensures
        r == backoff_ms(attempt),
{
    let backoff: [u64; 3] = [300, 900, 2700];
    let index: usize = if attempt <= 1 {
        0
    } else if attempt == 2 {
        1
    } else {
        2
    };
    backoff[index]
}

/// After attempt `attempt` (counted from 0) failed with `error`: the pause before the next
/// attempt, or nothing when the error is final.
pub fn retry_after(attempt: u32, error: &ModelError) -> (r: Option<u64>)
    ensures
        r == (if retryable(*error) && attempt + 1 < MAX_ATTEMPTS {
            Some(backoff_ms((attempt + 1) as u32))
        } else {
            None
        }),
{
    if error.is_retryable() && attempt < MAX_ATTEMPTS - 1 {
        Some(retry_delay(attempt + 1))
    } else {
        None
    }
}

/// The text without its trailing slashes.
pub open spec fn without_trailing_slashes(s: Seq<char>) -> Seq<char>
    decreases s.len(),
{
    if s.len() > 0 && s.last() == '/' {
        without_trailing_slashes(s.drop_last())
    } else {
        s
    }
}

/// The endpoint URL of a profile, without trailing slashes.
pub fn base_url_of(url: &str) -> (r: String)
    ensures
        r@ == without_trailing_slashes(url@),
{
    let cs = chars_of(url);
    let mut n: usize = cs.len();
    assert(cs@.take(n as int) =~= cs@);
    while n > 0 && cs[n - 1] == '/'
        invariant
            n <= cs.len(),
            without_trailing_slashes(cs@.take(n as int)) == without_trailing_slashes(url@),
        decreases n,
    {
        assert(cs@.take(n as int).drop_last() =~= cs@.take(n - 1));
        n = n - 1;
    }
    let mut out: Vec<char> = Vec::new();
    let mut i: usize = 0;
    while i < n
        invariant
            i <= n <= cs.len(),
            out@ == cs@.take(i as int),
        decreases n - i,
    {
        out.push(cs[i]);
        assert(out@ =~= cs@.take(i + 1));
        i = i + 1;
    }
    string_of(&out)
}

/// The API key to send: the value of the profile's variable, which must be set and not
/// empty; none when the profile names no variable.
pub fn api_key_from(var: &Option<String>, value: Option<String>) -> (r: Result<Option<String>, ModelError>)
    ensures
        match var {
            None => r == Ok::<Option<String>, ModelError>(None),
            Some(name) => match value {
                Some(v) if v@.len() > 0 => r matches Ok(Some(k)) && k@ == v@,
                _ => r matches Err(ModelError::MissingApiKey(n)) && n@ == name@,
            },
        },
{
    match var {
        None => Ok(None),
        Some(name) => match value {
            Some(v) => {
                if v.as_str().is_empty() {
                    Err(ModelError::MissingApiKey(str_owned(name.as_str())))
                } else {
                    Ok(Some(v))
                }
            },
            None => Err(ModelError::MissingApiKey(str_owned(name.as_str()))),
        },
    }
}

/// At most the first `max` characters.
pub fn take_chars(text: &str, max: usize) -> (r: String)
    ensures
        r@ == (if text@.len() <= max { text@ } else { text@.take(max as int) }),
{
    let cs = chars_of(text);
    if cs.len() <= max {
        return str_owned(text);
    }
    let mut out: Vec<char> = Vec::new();
    let mut i: usize = 0;
    while i < max
        invariant
            i <= max < cs.len(),
            out@ == cs@.take(i as int),
        decreases max - i,
    {
        out.push(cs[i]);
        assert(out@ =~= cs@.take(i + 1));
        i = i + 1;
    }
    string_of(&out)
}

/// Reads the body of an endpoint's answer: an error status keeps the start of the body,
/// and a success must hold a JSON document.
pub fn decode_body(success: bool, status: u16, body: &str) -> (r: Result<JsonValue, ModelError>)
    ensures
        !success ==> (r matches Err(ModelError::Status { status: s, body: b }) && s == status
            && b@ == (if body@.len() <= MAX_ERROR_BODY_CHARS { body@ } else { body@.take(MAX_ERROR_BODY_CHARS as int) })),
        success ==> match r {
            Ok(v) => json_document(body@) == Some(v),
            Err(e) => json_document(body@) is None && (e matches ModelError::Parse(m)
                && starts_with_seq(m@, "invalid JSON from model endpoint: "@)),
        },
{
    if !success {
        return Err(ModelError::Status { status, body: take_chars(body, MAX_ERROR_BODY_CHARS) });
    }
    match parse_json_document(body) {
        Ok(v) => Ok(v),
        Err(message) => {
            let m = cat("invalid JSON from model endpoint: ", message.as_str());
            assert(m@.subrange(0, "invalid JSON from model endpoint: "@.len() as int) =~= "invalid JSON from model endpoint: "@);
            Err(ModelError::Parse(m))
        },
    }
}

/// The text a content part contributes: a string, or the `text` of an object.
pub open spec fn part_text(p: JsonValue) -> Seq<char> {
    match p.node {
        JsonNode::Str(s) => s@,
        JsonNode::Object(_) => match json_str(json_get(p, "text"@)) {
            Some(t) => t,
            None => Seq::empty(),
        },
        _ => Seq::empty(),
    }
}

pub open spec fn parts_text(parts: Seq<JsonValue>) -> Seq<char>
    decreases parts.len(),
{
    if parts.len() == 0 {
        Seq::empty()
    } else {
        parts_text(parts.drop_last()) + part_text(parts.last())
    }
}

/// A message's content: a string, or the joined text of its parts when that is not empty.
pub open spec fn content_of(v: Option<JsonValue>) -> Option<Seq<char>> {
    match v {
        None => None,
        Some(x) => match x.node {
            JsonNode::Str(s) => Some(s@),
            JsonNode::Array(parts) => if parts_text(parts@).len() == 0 {
                None
            } else {
                Some(parts_text(parts@))
            },
            _ => None,
        },
    }
}

pub fn parse_content(value: Option<&JsonValue>) -> (r: Option<String>)
    ensures
        match r {
            Some(s) => content_of(opt_deref(value)) == Some(s@),
            None => content_of(opt_deref(value)) is None,
        },
{
    let v = match value {
        Some(v) => v,
        None => return None,
    };
    match &v.node {
        JsonNode::Str(s) => Some(str_owned(s.as_str())),
        JsonNode::Array(parts) => {
            let mut text = String::new();
            let mut i: usize = 0;
            while i < parts.len()
                invariant
                    i <= parts.len(),
                    text@ == parts_text(parts@.take(i as int)),
                decreases parts.len() - i,
            {
                assert(parts@.take(i + 1).drop_last() =~= parts@.take(i as int));
                let p = &parts[i];
                match &p.node {
                    JsonNode::Str(s) => crate::text::push_str(&mut text, s.as_str()),
                    JsonNode::Object(_) => match str_opt(p.get("text")) {
                        Some(t) => crate::text::push_str(&mut text, t.as_str()),
                        None => {},
                    },
                    _ => {},
                }
                assert(text@ =~= parts_text(parts@.take(i + 1)));
                i = i + 1;
            }
            assert(parts@.take(parts.len() as int) =~= parts@);
            if text.as_str().is_empty() {
                None
            } else {
                Some(text)
            }
        },
        _ => None,
    }
}

/// The text of a call's arguments: a string as it stands, any other value as compact JSON.
pub open spec fn argument_text(v: Option<JsonValue>) -> Seq<char> {
    match v {
        Some(x) => match x.node {
            JsonNode::Str(s) => s@,
            _ => x.text@,
        },
        None => Seq::empty(),
    }
}

/// A tool call entry, when it has a string `id` and a `function` with a string `name`.
pub open spec fn call_of(c: JsonValue) -> Option<ToolCallView> {
    match json_str(json_get(c, "id"@)) {
        None => None,
        Some(id) => match json_get(c, "function"@) {
            None => None,
            Some(f) => match json_str(json_get(f, "name"@)) {
                None => None,
                Some(name) => Some(ToolCallView { id, name, arguments: argument_text(json_get(f, "arguments"@)) }),
            },
        },
    }
}

pub open spec fn calls_of(items: Seq<JsonValue>) -> Seq<ToolCallView>
    decreases items.len(),
{
    if items.len() == 0 {
        Seq::empty()
    } else {
        match call_of(items.last()) {
            Some(c) => calls_of(items.drop_last()).push(c),
            None => calls_of(items.drop_last()),
        }
    }
}

/// The well-formed tool calls of a `tool_calls` array, in order.
pub open spec fn tool_calls_of(v: Option<JsonValue>) -> Seq<ToolCallView> {
    match json_array(v) {
        Some(items) => calls_of(items),
        None => Seq::empty(),
    }
}

fn argument_string(v: Option<&JsonValue>) -> (r: String)
    ensures
        r@ == argument_text(opt_deref(v)),
{
    match v {
        Some(x) => match &x.node {
            JsonNode::Str(s) => str_owned(s.as_str()),
            _ => str_owned(x.text.as_str()),
        },
        None => String::new(),
    }
}

fn call_from(c: &JsonValue) -> (r: Option<ToolCall>)
    ensures
        match r {
            Some(t) => call_of(*c) == Some(t@),
            None => call_of(*c) is None,
        },
{
    let id = match str_opt(c.get("id")) {
        Some(id) => id,
        None => return None,
    };
    let f = match c.get("function") {
        Some(f) => f,
        None => return None,
    };
    let name = match str_opt(f.get("name")) {
        Some(n) => n,
        None => return None,
    };
    Some(ToolCall {
        id: str_owned(id.as_str()),
        name: str_owned(name.as_str()),
        arguments: argument_string(f.get("arguments")),
    })
}

pub fn parse_tool_calls(value: Option<&JsonValue>) -> (r: Vec<ToolCall>)
    ensures
        calls_view(r@) == tool_calls_of(opt_deref(value)),
{
    let mut out: Vec<ToolCall> = Vec::new();
    match crate::json::array_opt(value) {
        Some(items) => {
            let mut i: usize = 0;
            while i < items.len()
                invariant
                    i <= items.len(),
                    calls_view(out@) == calls_of(items@.take(i as int)),
                decreases items.len() - i,
            {
                assert(items@.take(i + 1).drop_last() =~= items@.take(i as int));
                match call_from(&items[i]) {
                    Some(t) => {
                        let ghost before = out@;
                        out.push(t);
                        assert(calls_view(out@) =~= calls_view(before).push(t@));
                    },
                    None => {},
                }
                i = i + 1;
            }
            assert(items@.take(items.len() as int) =~= items@);
        },
        None => {
            assert(calls_view(out@) =~= Seq::<ToolCallView>::empty());
        },
    }
    out
}

/// The first choice of a chat completion, if it has one.
pub open spec fn first_choice(v: JsonValue) -> Option<JsonValue> {
    match json_array(json_get(v, "choices"@)) {
        Some(cs) => if cs.len() > 0 {
            Some(cs[0])
        } else {
            None
        },
        None => None,
    }
}

/// Reads a chat completion. `fallback_model` names the model when the answer does not.
pub fn parse_chat(value: JsonValue, fallback_model: &str) -> (r: Result<ChatResponse, ModelError>)
    ensures
        match first_choice(value) {
            None => r matches Err(ModelError::Parse(m)) && m@ == "response contained no choices"@,
            Some(choice) => match json_get(choice, "message"@) {
                None => r matches Err(ModelError::Parse(m)) && m@ == "response choice had no message"@,
                Some(message) => r matches Ok(resp) && {
                    &&& crate::diagnostic::opt_view(resp.content) == content_of(json_get(message, "content"@))
                    &&& calls_view(resp.tool_calls@) == tool_calls_of(json_get(message, "tool_calls"@))
                    &&& resp.usage == match json_get(value, "usage"@) {
                        Some(u) => usage_of(u),
                        None => Usage { prompt_tokens: 0, completion_tokens: 0, total_tokens: 0, cached_tokens: None },
                    }
                    &&& resp.model@ == match json_str(json_get(value, "model"@)) {
                        Some(m) => m,
                        None => fallback_model@,
                    }
                    &&& crate::diagnostic::opt_view(resp.finish_reason) == json_str(json_get(choice, "finish_reason"@))
                    &&& resp.raw == value
                },
            },
        },
{
    let choices = crate::json::array_opt(value.get("choices"));
    let choice = match choices {
        Some(cs) => if cs.len() > 0 {
            &cs[0]
        } else {
            return Err(ModelError::Parse(str_owned("response contained no choices")));
        },
        None => return Err(ModelError::Parse(str_owned("response contained no choices"))),
    };
    let message = match choice.get("message") {
        Some(m) => m,
        None => return Err(ModelError::Parse(str_owned("response choice had no message"))),
    };
    let content = parse_content(message.get("content"));
    let tool_calls = parse_tool_calls(message.get("tool_calls"));
    let usage = match value.get("usage") {
        Some(u) => Usage::from_openai(u),
        None => Usage::default(),
    };
    let model = match str_opt(value.get("model")) {
        Some(m) => str_owned(m.as_str()),
        None => str_owned(fallback_model),
    };
    let finish_reason = match str_opt(choice.get("finish_reason")) {
        Some(f) => Some(str_owned(f.as_str())),
        None => None,
    };
    Ok(ChatResponse { content, tool_calls, usage, model, finish_reason, raw: value })
}

/// The `id` of each entry of `data` that has a string one, in order.
pub open spec fn ids_of(items: Seq<JsonValue>) -> Seq<Seq<char>>
    decreases items.len(),
{
    if items.len() == 0 {
        Seq::empty()
    } else {
        match json_str(json_get(items.last(), "id"@)) {
            Some(id) => ids_of(items.drop_last()).push(id),
            None => ids_of(items.drop_last()),
        }
    }
}

/// The model names a `/models` answer lists.
pub fn model_ids(value: &JsonValue) -> (r: Vec<String>)
    ensures
        crate::diagnostic::strings_view(r@) == match json_array(json_get(*value, "data"@)) {
            Some(items) => ids_of(items),
            None => Seq::empty(),
        },
{
    let mut out: Vec<String> = Vec::new();
    match crate::json::array_opt(value.get("data")) {
        Some(items) => {
            let mut i: usize = 0;
            while i < items.len()
                invariant
                    i <= items.len(),
                    crate::diagnostic::strings_view(out@) == ids_of(items@.take(i as int)),
                decreases items.len() - i,
            {
                assert(items@.take(i + 1).drop_last() =~= items@.take(i as int));
                match str_opt(items[i].get("id")) {
                    Some(id) => {
                        let ghost before = out@;
                        out.push(str_owned(id.as_str()));
                        assert(crate::diagnostic::strings_view(out@) =~= crate::diagnostic::strings_view(before).push(id@));
                    },
                    None => {},
                }
                i = i + 1;
            }
            assert(items@.take(items.len() as int) =~= items@);
        },
        None => {
            assert(crate::diagnostic::strings_view(out@) =~= Seq::<Seq<char>>::empty());
        },
    }
    out
}

} // verus!
