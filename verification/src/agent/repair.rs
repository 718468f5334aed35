use vstd::prelude::*;

use crate::config::str_eq;
use crate::json::{json_document, json_get, json_get_opt, json_str, parse_json_document, JsonNode, JsonValue};
use crate::model::types::{calls_view, ToolCall, ToolCallView};
use crate::text::{cat, chars_of, decimal, decimal_string, push_str, str_owned, string_of, trim_seq, trim_str};

verus! {

/// Remembers recent tool calls to notice a model that repeats itself.
pub struct ToolCallRepair {
    /// The name and arguments of the latest calls that can change the workspace, oldest first.
    pub recent: Vec<(String, String)>,
}

/// The state of the object scanner after some characters: nesting depth, where the open
/// outermost object began, whether inside a string and after a backslash there, and the
/// spans of the complete outermost objects seen.
pub struct ScanState {
    pub depth: nat,
    pub start: Option<int>,
    pub in_string: bool,
    pub escaped: bool,
    pub spans: Seq<(int, int)>,
}

pub open spec fn scan_step(st: ScanState, i: int, c: char) -> ScanState {
    if st.in_string {
        if st.escaped {
            ScanState { escaped: false, ..st }
        } else if c == '\\' {
            ScanState { escaped: true, ..st }
        } else if c == '"' {
            ScanState { in_string: false, ..st }
        } else {
            st
        }
    } else if c == '"' {
        ScanState { in_string: true, ..st }
    } else if c == '{' {
        ScanState { depth: st.depth + 1, start: if st.depth == 0 { Some(i) } else { st.start }, ..st }
    } else if c == '}' && st.depth > 0 {
        let d = (st.depth - 1) as nat;
        if d == 0 {
            match st.start {
                Some(b) => ScanState { depth: d, start: None, spans: st.spans.push((b, i)), ..st },
                None => ScanState { depth: d, ..st },
            }
        } else {
            ScanState { depth: d, ..st }
        }
    } else {
        st
    }
}

proof fn lemma_scan_step_spans(st: ScanState, i: int, c: char)
    ensures
        scan_step(st, i, c).spans == st.spans || (st.start is Some
            && scan_step(st, i, c).spans == st.spans.push((st.start->0, i))),
{
}

/// The scanner's state after the first `n` characters.
pub open spec fn scan(s: Seq<char>, n: int) -> ScanState
    decreases n,
{
    if n <= 0 {
        ScanState { depth: 0, start: None, in_string: false, escaped: false, spans: Seq::empty() }
    } else {
        scan_step(scan(s, n - 1), n - 1, s[n - 1])
    }
}

/// The texts the spans cover, ends included.
pub open spec fn span_texts(s: Seq<char>, spans: Seq<(int, int)>) -> Seq<Seq<char>> {
    spans.map_values(|sp: (int, int)| s.subrange(sp.0, sp.1 + 1))
}

/// The text of every complete outermost `{...}` object, in order, outside of strings.
pub open spec fn json_candidates_spec(s: Seq<char>) -> Seq<Seq<char>> {
    span_texts(s, scan(s, s.len() as int).spans)
}

fn json_candidates(content: &str) -> (r: Vec<String>)
    ensures
        crate::diagnostic::strings_view(r@) == json_candidates_spec(content@),
{
    let cs = chars_of(content);
    let mut out: Vec<String> = Vec::new();
    let mut depth: usize = 0;
    let mut start: Option<usize> = None;
    let mut in_string = false;
    let mut escaped = false;
    let mut i: usize = 0;
    while i < cs.len()
        invariant
            i <= cs.len(),
            cs@ == content@,
            depth as nat == scan(cs@, i as int).depth,
            depth <= i,
            (match start {
                Some(b) => scan(cs@, i as int).start == Some(b as int) && b < i,
                None => scan(cs@, i as int).start is None,
            }),
            in_string == scan(cs@, i as int).in_string,
            escaped == scan(cs@, i as int).escaped,
            crate::diagnostic::strings_view(out@) == span_texts(cs@, scan(cs@, i as int).spans),
        decreases cs.len() - i,
    {
        let c = cs[i];
        let ghost st = scan(cs@, i as int);
        let ghost before = out@;
        proof {
            assert(st.start is Some ==> st.start->0 < i);
        }
        if in_string {
            if escaped {
                escaped = false;
            } else if c == '\\' {
                escaped = true;
            } else if c == '"' {
                in_string = false;
            }
        } else if c == '"' {
            in_string = true;
        } else if c == '{' {
            if depth == 0 {
                start = Some(i);
            }
            depth = depth + 1;
        } else if c == '}' && depth > 0 {
            depth = depth - 1;
            if depth == 0 {
                match start {
                    Some(b) => {
                        let mut piece: Vec<char> = Vec::new();
                        let mut k: usize = b;
                        while k <= i
                            invariant
                                b <= k <= i + 1,
                                i < cs.len(),
                                piece@ == cs@.subrange(b as int, k as int),
                            decreases i + 1 - k,
                        {
                            piece.push(cs[k]);
                            assert(piece@ =~= cs@.subrange(b as int, k + 1));
                            k = k + 1;
                        }
                        let piece_text = string_of(&piece);
                        out.push(piece_text);
                        assert(crate::diagnostic::strings_view(out@)
                            =~= crate::diagnostic::strings_view(before).push(cs@.subrange(b as int, i + 1)));
                        assert(span_texts(cs@, st.spans.push((b as int, i as int)))
                            =~= span_texts(cs@, st.spans).push(cs@.subrange(b as int, i + 1)));
                        start = None;
                    },
                    None => {},
                }
            }
        }
        proof {
            let nx = scan(cs@, i + 1);
            assert(nx == scan_step(st, i as int, c));
            lemma_scan_step_spans(st, i as int, c);
            if nx.spans.len() == st.spans.len() {
                assert(nx.spans == st.spans);
            }
        }
        i = i + 1;
    }
    out
}

/// The closing brackets still owed after a scan of `s`, innermost last, and whether a string
/// is still open.
pub struct CloseState {
    pub stack: Seq<char>,
    pub in_string: bool,
    pub escaped: bool,
}

pub open spec fn close_step(st: CloseState, c: char) -> CloseState {
    if st.in_string {
        if st.escaped {
            CloseState { escaped: false, ..st }
        } else if c == '\\' {
            CloseState { escaped: true, ..st }
        } else if c == '"' {
            CloseState { in_string: false, ..st }
        } else {
            st
        }
    } else if c == '"' {
        CloseState { in_string: true, ..st }
    } else if c == '{' {
        CloseState { stack: st.stack.push('}'), ..st }
    } else if c == '[' {
        CloseState { stack: st.stack.push(']'), ..st }
    } else if (c == '}' || c == ']') && st.stack.len() > 0 && st.stack.last() == c {
        CloseState { stack: st.stack.drop_last(), ..st }
    } else {
        st
    }
}

pub open spec fn close_scan(s: Seq<char>, n: int) -> CloseState
    decreases n,
{
    if n <= 0 {
        CloseState { stack: Seq::empty(), in_string: false, escaped: false }
    } else {
        close_step(close_scan(s, n - 1), s[n - 1])
    }
}

/// The arguments completed: the open string closed, then the open brackets, innermost first.
pub open spec fn completed(t: Seq<char>) -> Seq<char> {
    let st = close_scan(t, t.len() as int);
    t + (if st.in_string { seq!['"'] } else { Seq::empty() }) + st.stack.reverse()
}

/// The repaired arguments: `{}` for blank ones, else the trimmed text completed, when that
/// reads as a JSON document.
pub open spec fn repaired(arguments: Seq<char>) -> Option<Seq<char>> {
    let t = trim_seq(arguments);
    if t.len() == 0 {
        Some("{}"@)
    } else if json_document(completed(t)) is Some {
        Some(completed(t))
    } else {
        None
    }
}

/// Closes what a cut-off JSON argument text left open.
pub fn repair_truncated(arguments: &str) -> (r: Option<String>)
    ensures
        match r {
            Some(s) => repaired(arguments@) == Some(s@),
            None => repaired(arguments@) is None,
        },
{
    let t = trim_str(arguments);
    if t.len() == 0 {
        return Some(str_owned("{}"));
    }
    let mut stack: Vec<char> = Vec::new();
    let mut in_string = false;
    let mut escaped = false;
    let mut i: usize = 0;
    while i < t.len()
        invariant
            i <= t.len(),
            stack@ == close_scan(t@, i as int).stack,
            in_string == close_scan(t@, i as int).in_string,
            escaped == close_scan(t@, i as int).escaped,
        decreases t.len() - i,
    {
        let c = t[i];
        if in_string {
            if escaped {
                escaped = false;
            } else if c == '\\' {
                escaped = true;
            } else if c == '"' {
                in_string = false;
            }
        } else if c == '"' {
            in_string = true;
        } else if c == '{' {
            stack.push('}');
        } else if c == '[' {
            stack.push(']');
        } else if (c == '}' || c == ']') && stack.len() > 0 && stack[stack.len() - 1] == c {
            stack.pop();
        }
        i = i + 1;
    }
    let mut candidate: Vec<char> = t;
    let ghost base = candidate@;
    if in_string {
        candidate.push('"');
    }
    let ghost with_quote = candidate@;
    let mut k: usize = stack.len();
    while k > 0
        invariant
            k <= stack.len(),
            candidate@ == with_quote + stack@.subrange(k as int, stack.len() as int).reverse(),
        decreases k,
    {
        k = k - 1;
        candidate.push(stack[k]);
        assert(candidate@ =~= with_quote + stack@.subrange(k as int, stack.len() as int).reverse());
    }
    assert(stack@.subrange(0, stack.len() as int) =~= stack@);
    assert(candidate@ =~= completed(base));
    let text = string_of(&candidate);
    match parse_json_document(text.as_str()) {
        Ok(_) => Some(text),
        Err(_) => None,
    }
}

/// The name a scavenged object gives its tool: `name` (else `tool`) when it is a string,
/// else `function.name`.
pub open spec fn scavenged_name(v: JsonValue) -> Option<Seq<char>> {
    let first = match json_get(v, "name"@) {
        Some(n) => Some(n),
        None => json_get(v, "tool"@),
    };
    match json_str(first) {
        Some(n) => Some(n),
        None => json_str(json_get_opt(json_get(v, "function"@), "name"@)),
    }
}

/// The arguments a scavenged object gives: the first of `arguments`, `args`, `parameters`
/// and `function.arguments` that is present.
pub open spec fn scavenged_arguments(v: JsonValue) -> Option<JsonValue> {
    match json_get(v, "arguments"@) {
        Some(a) => Some(a),
        None => match json_get(v, "args"@) {
            Some(a) => Some(a),
            None => match json_get(v, "parameters"@) {
                Some(a) => Some(a),
                None => json_get_opt(json_get(v, "function"@), "arguments"@),
            },
        },
    }
}

/// The tool call an object found in the content stands for, numbered `index`.
pub open spec fn scavenged_call(v: JsonValue, index: nat) -> Option<ToolCallView> {
    match scavenged_name(v) {
        None => None,
        Some(name) => Some(ToolCallView {
            id: "scavenged-"@ + decimal(index),
            name,
            arguments: match scavenged_arguments(v) {
                Some(a) => match a.node {
                    JsonNode::Str(s) => s@,
                    _ => a.text@,
                },
                None => "{}"@,
            },
        }),
    }
}

/// The text of a recovered call's arguments: a string as it is, any other value as its JSON
/// text.
pub open spec fn argument_text(a: JsonValue) -> Seq<char> {
    match a.node {
        JsonNode::Str(s) => s@,
        _ => a.text@,
    }
}

/// A named object found in the content becomes call number `index`, "scavenged-" and the
/// number in decimal, with the object's name. Its arguments come from the first member present
/// of "arguments", "args" and "parameters", else from "arguments" inside "function"; with none
/// of these the call has the empty object "{}".
pub proof fn law_scavenged_call_members(v: JsonValue, index: nat)
    requires
        scavenged_name(v) is Some,
    ensures
        scavenged_call(v, index) is Some,
        scavenged_call(v, index)->0.id == "scavenged-"@ + decimal(index),
        scavenged_call(v, index)->0.name == scavenged_name(v)->0,
        json_get(v, "arguments"@) matches Some(a) ==> scavenged_call(v, index)->0.arguments == argument_text(a),
        json_get(v, "arguments"@) is None ==> (json_get(v, "args"@) matches Some(a)
            ==> scavenged_call(v, index)->0.arguments == argument_text(a)),
        json_get(v, "arguments"@) is None && json_get(v, "args"@) is None ==> (json_get(v, "parameters"@) matches Some(a)
            ==> scavenged_call(v, index)->0.arguments == argument_text(a)),
        json_get(v, "arguments"@) is None && json_get(v, "args"@) is None && json_get(v, "parameters"@) is None ==> (
            json_get_opt(json_get(v, "function"@), "arguments"@) matches Some(a)
            ==> scavenged_call(v, index)->0.arguments == argument_text(a)),
        json_get(v, "arguments"@) is None && json_get(v, "args"@) is None && json_get(v, "parameters"@) is None
            && json_get_opt(json_get(v, "function"@), "arguments"@) is None ==> scavenged_call(v, index)->0.arguments
            == "{}"@,
{
}

/// A recovered call is named by the object's "name" member when it is a string, else by its
/// "tool" member when "name" is absent and "tool" is a string, else by the string "name" inside
/// "function"; an object with none of these gives no call.
pub proof fn law_scavenged_call_name(v: JsonValue, index: nat)
    ensures
        json_str(json_get(v, "name"@)) matches Some(n) ==> scavenged_name(v) == Some(n),
        json_get(v, "name"@) is None ==> (json_str(json_get(v, "tool"@)) matches Some(n) ==> scavenged_name(v) == Some(n)),
        json_str(json_get(v, "name"@)) is None && !(json_get(v, "name"@) is None && json_str(json_get(v, "tool"@)) is Some)
            ==> scavenged_name(v) == json_str(json_get_opt(json_get(v, "function"@), "name"@)),
        scavenged_name(v) is None <==> scavenged_call(v, index) is None,
{
}

fn call_from_value(value: &JsonValue, index: usize) -> (r: Option<ToolCall>)
    ensures
        match r {
            Some(c) => scavenged_call(*value, index as nat) == Some(c@),
            None => scavenged_call(*value, index as nat) is None,
        },
{
    let first = match value.get("name") {
        Some(n) => Some(n),
        None => value.get("tool"),
    };
    let name: &String = match crate::json::str_opt(first) {
        Some(n) => n,
        None => match crate::json::str_opt(crate::json::get_opt(value.get("function"), "name")) {
            Some(n) => n,
            None => return None,
        },
    };
    let arguments = match value.get("arguments") {
        Some(a) => Some(a),
        None => match value.get("args") {
            Some(a) => Some(a),
            None => match value.get("parameters") {
                Some(a) => Some(a),
                None => crate::json::get_opt(value.get("function"), "arguments"),
            },
        },
    };
    let text = match arguments {
        Some(a) => match &a.node {
            JsonNode::Str(s) => str_owned(s.as_str()),
            _ => str_owned(a.text.as_str()),
        },
        None => str_owned("{}"),
    };
    let id = cat("scavenged-", decimal_string(index as u64).as_str());
    Some(ToolCall { id, name: str_owned(name.as_str()), arguments: text })
}

/// The calls recovered from the objects of the content, numbered by their place among the
/// recovered ones.
pub open spec fn scavenged_from(candidates: Seq<Seq<char>>) -> Seq<ToolCallView>
    decreases candidates.len(),
{
    if candidates.len() == 0 {
        Seq::empty()
    } else {
        let prior = scavenged_from(candidates.drop_last());
        match json_document(candidates.last()) {
            Some(v) => match scavenged_call(v, prior.len()) {
                Some(c) => prior.push(c),
                None => prior,
            },
            None => prior,
        }
    }
}

/// Tool calls a model wrote into its text instead of the tool call field.
pub fn scavenge(content: &str) -> (r: Vec<ToolCall>)
    ensures
        calls_view(r@) == scavenged_from(json_candidates_spec(content@)),
{
    let candidates = json_candidates(content);
    let ghost cands = crate::diagnostic::strings_view(candidates@);
    let mut calls: Vec<ToolCall> = Vec::new();
    let mut i: usize = 0;
    while i < candidates.len()
        invariant
            i <= candidates.len(),
            cands == crate::diagnostic::strings_view(candidates@),
            calls_view(calls@) == scavenged_from(cands.take(i as int)),
        decreases candidates.len() - i,
    {
        assert(cands.take(i + 1).drop_last() =~= cands.take(i as int));
        match parse_json_document(candidates[i].as_str()) {
            Ok(value) => {
                match call_from_value(&value, calls.len()) {
                    Some(call) => {
                        let ghost before = calls@;
                        calls.push(call);
                        assert(calls_view(calls@) =~= calls_view(before).push(call@));
                    },
                    None => {},
                }
            },
            Err(_) => {},
        }
        i = i + 1;
    }
    assert(cands.take(candidates.len() as int) =~= cands);
    calls
}

/// Tools whose repetition is harmless.
pub open spec fn storm_exempt(name: Seq<char>) -> bool {
    name == "read_file"@ || name == "list_dir"@ || name == "search"@
}

/// The calls remembered after `(name, arguments)` was seen: reading tools leave the memory
/// as it is; any other call is added and only the latest ten are kept.
pub open spec fn remembered_after(recent: Seq<(Seq<char>, Seq<char>)>, name: Seq<char>, arguments: Seq<char>) -> Seq<(Seq<char>, Seq<char>)> {
    if storm_exempt(name) {
        recent
    } else {
        last_n(recent.push((name, arguments)), 10)
    }
}

/// Whether `(name, arguments)` is a storm: a mutating call that the memory, with it added,
/// holds at least three times.
pub open spec fn storms(recent: Seq<(Seq<char>, Seq<char>)>, name: Seq<char>, arguments: Seq<char>) -> bool {
    !storm_exempt(name) && count_of(remembered_after(recent, name, arguments), (name, arguments)) >= 3
}

pub open spec fn signatures_view(v: Seq<(String, String)>) -> Seq<(Seq<char>, Seq<char>)> {
    v.map_values(|e: (String, String)| (e.0@, e.1@))
}

/// At most the last `n` elements.
pub open spec fn last_n<T>(s: Seq<T>, n: nat) -> Seq<T> {
    if s.len() <= n {
        s
    } else {
        s.skip(s.len() - n)
    }
}

pub open spec fn count_of(s: Seq<(Seq<char>, Seq<char>)>, x: (Seq<char>, Seq<char>)) -> nat
    decreases s.len(),
{
    if s.len() == 0 {
        0
    } else {
        count_of(s.drop_last(), x) + if s.last() == x { 1nat } else { 0nat }
    }
}

/// A call whose arguments do not parse, completed when that repairs them.
pub open spec fn fixed_call(t: ToolCallView) -> ToolCallView {
    if json_document(t.arguments) is None && repaired(t.arguments) is Some {
        ToolCallView { arguments: repaired(t.arguments)->0, ..t }
    } else {
        t
    }
}

/// Whether calls are recovered from the content: the response called no tool and the
/// content holds at least one call.
pub open spec fn scavenges(content: Option<Seq<char>>, calls: Seq<ToolCallView>) -> bool {
    match content {
        Some(c) => calls.len() == 0 && scavenged_from(json_candidates_spec(c)).len() > 0,
        None => false,
    }
}

/// The calls of one response before their arguments are completed: those recovered from the
/// content when it scavenges, else the response's own.
pub open spec fn repair_start(content: Option<Seq<char>>, calls: Seq<ToolCallView>) -> Seq<ToolCallView> {
    if scavenges(content, calls) {
        scavenged_from(json_candidates_spec(content->0))
    } else {
        calls
    }
}

/// The calls of one response after repair.
pub open spec fn repaired_calls(content: Option<Seq<char>>, calls: Seq<ToolCallView>) -> Seq<ToolCallView> {
    repair_start(content, calls).map_values(|t: ToolCallView| fixed_call(t))
}

/// Whether a call's arguments do not parse and can be completed.
pub open spec fn completes(t: ToolCallView) -> bool {
    json_document(t.arguments) is None && repaired(t.arguments) is Some
}

/// One note per call whose arguments were completed, in call order.
pub open spec fn truncation_notes(calls: Seq<ToolCallView>) -> Seq<(Seq<char>, Seq<char>)>
    decreases calls.len(),
{
    if calls.len() == 0 {
        Seq::empty()
    } else {
        truncation_notes(calls.drop_last()) + if completes(calls.last()) {
            seq![("truncation"@, "repaired arguments for '"@ + calls.last().name + "'"@)]
        } else {
            Seq::empty()
        }
    }
}

/// The notes of one repair: a "scavenge" note with the number of calls recovered from the
/// content, then a "truncation" note for each call whose arguments were completed.
pub open spec fn repair_notes(content: Option<Seq<char>>, calls: Seq<ToolCallView>) -> Seq<(Seq<char>, Seq<char>)> {
    (if scavenges(content, calls) {
        seq![("scavenge"@, "recovered "@ + decimal(repair_start(content, calls).len()) + " tool call(s) from content"@)]
    } else {
        Seq::empty()
    }) + truncation_notes(repair_start(content, calls))
}

/// Notes as plain values.
pub open spec fn notes_view(notes: Seq<(&'static str, String)>) -> Seq<(Seq<char>, Seq<char>)> {
    notes.map_values(|n: (&'static str, String)| (n.0@, n.1@))
}

impl ToolCallRepair {
    pub fn new() -> (r: Self)
        ensures
            r.recent@.len() == 0,
    {
        ToolCallRepair { recent: Vec::new() }
    }

    /// Recovers tool calls from the content when the response has none, and completes
    /// argument texts that do not parse. The notes say what was done.
    pub fn repair(&mut self, content: Option<&str>, calls: Vec<ToolCall>) -> (r: (Vec<ToolCall>, Vec<(&'static str, String)>))
        ensures
            calls_view(r.0@) == repaired_calls(
                match content {
                    Some(c) => Some(c@),
                    None => None,
                },
                calls_view(calls@),
            ),
            notes_view(r.1@) == repair_notes(
                match content {
                    Some(c) => Some(c@),
                    None => None,
                },
                calls_view(calls@),
            ),
            final(self).recent@ == old(self).recent@,
    {
        let ghost copt: Option<Seq<char>> = match content {
            Some(c) => Some(c@),
            None => None,
        };
        let mut notes: Vec<(&'static str, String)> = Vec::new();
        let mut calls = calls;
        let ghost original = calls_view(calls@);
        if calls.len() == 0 {
            match content {
                Some(c) => {
                    let scavenged = scavenge(c);
                    if scavenged.len() > 0 {
                        let mut detail = cat("recovered ", decimal_string(scavenged.len() as u64).as_str());
                        push_str(&mut detail, " tool call(s) from content");
                        notes.push(("scavenge", detail));
                        calls = scavenged;
                    }
                },
                None => {},
            }
        }
        let ghost start = calls_view(calls@);
        assert(start == match content {
            Some(c) => if original.len() == 0 && scavenged_from(json_candidates_spec(c@)).len() > 0 {
                scavenged_from(json_candidates_spec(c@))
            } else {
                original
            },
            None => original,
        });
        assert(start == repair_start(copt, original));
        let ghost lead = notes_view(notes@);
        assert(repair_notes(copt, original) =~= lead + truncation_notes(start)) by {
            if scavenges(copt, original) {
                assert(notes_view(notes@) =~= seq![("scavenge"@, "recovered "@ + decimal(start.len()) + " tool call(s) from content"@)]);
            } else {
                assert(notes_view(notes@) =~= Seq::<(Seq<char>, Seq<char>)>::empty());
            }
        }
        let mut out: Vec<ToolCall> = Vec::new();
        let mut i: usize = 0;
        assert(start.take(0) =~= Seq::<ToolCallView>::empty());
        assert(lead + truncation_notes(start.take(0)) =~= lead);
        while i < calls.len()
            invariant
                i <= calls.len(),
                start == calls_view(calls@),
                calls_view(out@) == start.take(i as int).map_values(|t: ToolCallView| fixed_call(t)),
                notes_view(notes@) == lead + truncation_notes(start.take(i as int)),
            decreases calls.len() - i,
        {
            let mut call = calls[i].duplicate();
            assert(call@ == start[i as int]);
            let parses = parse_json_document(call.arguments.as_str()).is_ok();
            let ghost notes_before = notes_view(notes@);
            assert(start.take(i + 1).drop_last() =~= start.take(i as int));
            if !parses {
                match repair_truncated(call.arguments.as_str()) {
                    Some(fixed) => {
                        let mut detail = cat("repaired arguments for '", call.name.as_str());
                        push_str(&mut detail, "'");
                        notes.push(("truncation", detail));
                        assert(notes_view(notes@) =~= notes_before.push(("truncation"@, "repaired arguments for '"@ + start[i as int].name + "'"@)));
                        call.arguments = fixed;
                    },
                    None => {},
                }
            }
            assert(notes_view(notes@) =~= lead + truncation_notes(start.take(i + 1)));
            assert(call@ == fixed_call(start[i as int]));
            let ghost before = out@;
            out.push(call);
            assert(calls_view(out@) =~= calls_view(before).push(call@));
            assert(start.take(i + 1).map_values(|t: ToolCallView| fixed_call(t))
                =~= start.take(i as int).map_values(|t: ToolCallView| fixed_call(t)).push(fixed_call(start[i as int])));
            i = i + 1;
        }
        assert(start.take(calls.len() as int) =~= start);
        assert(notes_view(notes@) =~= repair_notes(copt, original));
        (out, notes)
    }

    /// Whether a call repeats one of the latest ten mutating calls at least twice before.
    /// Reading tools are never a storm and are not remembered.
    pub fn is_storm(&mut self, call: &ToolCall) -> (r: bool)
        ensures
            storm_exempt(call.name@) ==> !r && final(self).recent@ == old(self).recent@,
            !storm_exempt(call.name@) ==> signatures_view(final(self).recent@)
                == last_n(signatures_view(old(self).recent@).push((call.name@, call.arguments@)), 10)
                && r == (count_of(signatures_view(final(self).recent@), (call.name@, call.arguments@)) >= 3),
    {
        let name = call.name.as_str();
        if str_eq(name, "read_file") || str_eq(name, "list_dir") || str_eq(name, "search") {
            return false;
        }
        let ghost pushed = signatures_view(self.recent@).push((call.name@, call.arguments@));
        self.recent.push((str_owned(name), str_owned(call.arguments.as_str())));
        assert(signatures_view(self.recent@) =~= pushed);
        while self.recent.len() > 10
            invariant
                pushed.len() >= signatures_view(self.recent@).len(),
                signatures_view(self.recent@) == pushed.skip(pushed.len() - signatures_view(self.recent@).len()),
                pushed.len() > 10 ==> signatures_view(self.recent@).len() >= 10,
                pushed.len() <= 10 ==> signatures_view(self.recent@) == pushed,
            decreases self.recent.len(),
        {
            let ghost before = signatures_view(self.recent@);
            self.recent.remove(0);
            assert(signatures_view(self.recent@) =~= before.drop_first());
            assert(pushed.skip(pushed.len() - signatures_view(self.recent@).len()) =~= before.drop_first());
        }
        proof {
            if pushed.len() <= 10 {
                assert(pushed.skip(0) =~= pushed);
            }
        }
        let mut count: usize = 0;
        let mut i: usize = 0;
        while i < self.recent.len()
            invariant
                i <= self.recent.len(),
                count == count_of(signatures_view(self.recent@).take(i as int), (call.name@, call.arguments@)),
                count <= i,
                name@ == call.name@,
            decreases self.recent.len() - i,
        {
            assert(signatures_view(self.recent@).take(i + 1).drop_last()
                =~= signatures_view(self.recent@).take(i as int));
            let ghost v = signatures_view(self.recent@);
            let ghost x = (call.name@, call.arguments@);
            assert(v[i as int] == (self.recent@[i as int].0@, self.recent@[i as int].1@));
            assert(v.take(i + 1).last() == v[i as int]);
            let e1 = str_eq(self.recent[i].0.as_str(), name);
            let e2 = str_eq(self.recent[i].1.as_str(), call.arguments.as_str());
            assert(e1 == (self.recent@[i as int].0@ == call.name@));
            assert(e2 == (self.recent@[i as int].1@ == call.arguments@));
            let same = e1 && e2;
            assert(same == (v[i as int] == x));
            assert(count_of(v.take(i + 1), x) == count_of(v.take(i as int), x) + if v[i as int] == x { 1nat } else { 0nat });
            if same {
                count = count + 1;
            }
            i = i + 1;
        }
        assert(signatures_view(self.recent@).take(self.recent.len() as int) =~= signatures_view(self.recent@));
        count >= 3
    }
}

/// The storm window never holds more than the ten latest calls.
pub proof fn law_storm_window_is_bounded(recent: Seq<(Seq<char>, Seq<char>)>, call: (Seq<char>, Seq<char>))
    ensures
        last_n(recent.push(call), 10).len() <= 10,
        last_n(recent.push(call), 10).last() == call,
{
}

} // verus!
