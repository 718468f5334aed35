use vstd::prelude::*;

use crate::config::str_eq;
use crate::diagnostic::strings_view;
use crate::files::split_char;
use crate::json::{get_opt, json_document, json_get, json_str, parse_json_document, str_opt, JsonValue};
use crate::model::types::{ToolCall, ToolDefinition};
use crate::stages::util::{ensure_within, lines_of, lines_spec, path_within};
use crate::text::{
    cat, chars_of, contains_seq, decimal, decimal_string, join, joined, push_str, sort_strings, sorted_texts,
    starts_with_seq, str_owned, string_of,
};

verus! {

/// The tools of one session, confined to the workspace at `root`.
pub struct ToolBox {
    pub root: String,
    pub canonical_root: String,
}

/// What a tool call produced.
#[derive(Debug)]
pub struct ToolOutcome {
    pub content: String,
    pub is_error: bool,
    pub mutated: bool,
    pub finish: Option<String>,
}

/// The work a tool call asks for. Paths are the normalized parts below the workspace root.
#[derive(Debug)]
pub enum ToolAction {
    Read { parts: Vec<String> },
    Write { parts: Vec<String>, content: String },
    Edit { parts: Vec<String>, search: String, replace: String },
    List { parts: Vec<String> },
    Search { query: String },
    Done(ToolOutcome),
}

pub open spec fn error_outcome(message: Seq<char>) -> (Seq<char>, bool, bool, Option<Seq<char>>) {
    (message, true, false, None)
}

/// The parts of an outcome, as plain values.
pub open spec fn outcome_view(o: ToolOutcome) -> (Seq<char>, bool, bool, Option<Seq<char>>) {
    (o.content@, o.is_error, o.mutated, crate::diagnostic::opt_view(o.finish))
}

pub fn error(message: &str) -> (r: ToolOutcome)
    ensures
        outcome_view(r) == error_outcome(message@),
{
    ToolOutcome { content: str_owned(message), is_error: true, mutated: false, finish: None }
}

fn success(content: String, mutated: bool) -> (r: ToolOutcome)
    ensures
        outcome_view(r) == (content@, false, mutated, None::<Seq<char>>),
{
    ToolOutcome { content, is_error: false, mutated, finish: None }
}

/// Directory names that listings and searches leave out.
pub open spec fn skipped_dir(name: Seq<char>) -> bool {
    name == ".git"@ || name == ".heretek"@ || name == "node_modules"@ || name == "target"@ || name == "dist"@
        || name == "build"@ || name == "vendor"@ || name == "coverage"@
}

pub fn is_skipped_dir(name: &str) -> (r: bool)
    ensures
        r == skipped_dir(name@),
{
    str_eq(name, ".git") || str_eq(name, ".heretek") || str_eq(name, "node_modules") || str_eq(name, "target")
        || str_eq(name, "dist") || str_eq(name, "build") || str_eq(name, "vendor") || str_eq(name, "coverage")
}

/// The parts of a path that `Path::components` keeps as names: empty parts and `.` vanish.
pub open spec fn name_parts(parts: Seq<Seq<char>>) -> Seq<Seq<char>>
    decreases parts.len(),
{
    if parts.len() == 0 {
        Seq::empty()
    } else if parts.last().len() == 0 || parts.last() == "."@ {
        name_parts(parts.drop_last())
    } else {
        name_parts(parts.drop_last()).push(parts.last())
    }
}

/// A relative path normalized below the workspace, or why it is refused.
pub open spec fn safe_parts(user: Seq<char>) -> Result<Seq<Seq<char>>, Seq<char>> {
    if starts_with_seq(user, "/"@) {
        Err("absolute paths are not allowed"@)
    } else if name_parts(split_char(user, '/')).contains(".."@) {
        Err("path must not escape the workspace"@)
    } else {
        Ok(name_parts(split_char(user, '/')))
    }
}

/// Normalizes a path the model gave: absolute paths and `..` are refused.
pub fn safe_relative(user: &str) -> (r: Result<Vec<String>, String>)
    ensures
        match r {
            Ok(parts) => safe_parts(user@) == Ok::<Seq<Seq<char>>, Seq<char>>(strings_view(parts@)),
            Err(m) => safe_parts(user@) == Err::<Seq<Seq<char>>, Seq<char>>(m@),
        },
{
    let cs = chars_of(user);
    if cs.len() > 0 && cs[0] == '/' {
        proof {
            reveal_strlit("/");
            assert(user@.subrange(0, 1) =~= "/"@);
        }
        return Err(str_owned("absolute paths are not allowed"));
    }
    proof {
        reveal_strlit("/");
        if user@.len() > 0 {
            assert(user@.subrange(0, 1) != "/"@) by {
                assert(user@.subrange(0, 1)[0] == user@[0]);
            }
        }
    }
    let pieces = crate::files::split_on(&cs, '/');
    let ghost ps = split_char(cs@, '/');
    let mut parts: Vec<String> = Vec::new();
    let mut escapes = false;
    let mut i: usize = 0;
    while i < pieces.len()
        invariant
            i <= pieces.len(),
            pieces@.len() == ps.len(),
            forall|k: int| 0 <= k < pieces@.len() ==> (#[trigger] pieces@[k])@ == ps[k],
            strings_view(parts@) == name_parts(ps.take(i as int)),
            escapes == name_parts(ps.take(i as int)).contains(".."@),
        decreases pieces.len() - i,
    {
        assert(ps.take(i + 1).drop_last() =~= ps.take(i as int));
        let piece = &pieces[i];
        let text = string_of(piece);
        proof {
            reveal_strlit(".");
            reveal_strlit("..");
        }
        if piece.len() == 0 || str_eq(text.as_str(), ".") {
        } else {
            if str_eq(text.as_str(), "..") {
                escapes = true;
            }
            let ghost before = parts@;
            parts.push(text);
            assert(strings_view(parts@) =~= strings_view(before).push(ps[i as int]));
        }
        proof {
            let prev = name_parts(ps.take(i as int));
            let now = name_parts(ps.take(i + 1));
            if now.len() > prev.len() {
                assert(now == prev.push(ps[i as int]));
                vstd::seq_lib::lemma_seq_contains_after_push(prev, ps[i as int], ".."@);
            }
        }
        i = i + 1;
    }
    assert(ps.take(pieces.len() as int) =~= ps);
    if escapes {
        return Err(str_owned("path must not escape the workspace"));
    }
    Ok(parts)
}

/// A string argument.
pub open spec fn arg(v: JsonValue, key: Seq<char>) -> Option<Seq<char>> {
    json_str(json_get(v, key))
}

pub open spec fn read_action(v: JsonValue) -> ToolActionView {
    match arg(v, "path"@) {
        None => ToolActionView::Done(error_outcome("missing 'path'"@)),
        Some(p) => match safe_parts(p) {
            Err(m) => ToolActionView::Done(error_outcome(m)),
            Ok(parts) => ToolActionView::Read(parts),
        },
    }
}

/// A part that writes may not touch: git's own data, the harness's directory, and shadow
/// metadata.
pub open spec fn protected_part(part: Seq<char>) -> bool {
    part == ".git"@ || part == ".heretek"@ || part == ".heretek-shadow.json"@
}

/// The normalized parts of a path a write or edit may change, or why it may not: the path
/// rules of `safe_parts`, and no part that is protected.
pub open spec fn writable_parts(user: Seq<char>) -> Result<Seq<Seq<char>>, Seq<char>> {
    match safe_parts(user) {
        Err(m) => Err(m),
        Ok(parts) => if exists|i: int| 0 <= i < parts.len() && protected_part(#[trigger] parts[i]) {
            Err("writes to .git, .heretek or shadow metadata are not allowed"@)
        } else {
            Ok(parts)
        },
    }
}

pub open spec fn write_action(v: JsonValue) -> ToolActionView {
    match arg(v, "path"@) {
        None => ToolActionView::Done(error_outcome("missing 'path'"@)),
        Some(p) => match arg(v, "content"@) {
            None => ToolActionView::Done(error_outcome("missing 'content'"@)),
            Some(c) => match writable_parts(p) {
                Err(m) => ToolActionView::Done(error_outcome(m)),
                Ok(parts) => ToolActionView::Write(parts, c),
            },
        },
    }
}

pub open spec fn edit_action(v: JsonValue) -> ToolActionView {
    match arg(v, "path"@) {
        None => ToolActionView::Done(error_outcome("missing 'path'"@)),
        Some(p) => match arg(v, "search"@) {
            None => ToolActionView::Done(error_outcome("missing 'search'"@)),
            Some(s) => match arg(v, "replace"@) {
                None => ToolActionView::Done(error_outcome("missing 'replace'"@)),
                Some(r) => if s.len() == 0 {
                    ToolActionView::Done(error_outcome("'search' must not be empty"@))
                } else {
                    match writable_parts(p) {
                        Err(m) => ToolActionView::Done(error_outcome(m)),
                        Ok(parts) => ToolActionView::Edit(parts, s, r),
                    }
                },
            },
        },
    }
}

pub open spec fn list_action(v: JsonValue) -> ToolActionView {
    let p = match arg(v, "path"@) {
        Some(p) => p,
        None => "."@,
    };
    match safe_parts(p) {
        Err(m) => ToolActionView::Done(error_outcome(m)),
        Ok(parts) => ToolActionView::List(parts),
    }
}

pub open spec fn search_action(v: JsonValue) -> ToolActionView {
    match arg(v, "query"@) {
        None => ToolActionView::Done(error_outcome("missing 'query'"@)),
        Some(q) => if q.len() == 0 {
            ToolActionView::Done(error_outcome("'query' must not be empty"@))
        } else {
            ToolActionView::Search(q)
        },
    }
}

pub open spec fn finish_action(v: JsonValue) -> ToolActionView {
    let summary = match arg(v, "summary"@) {
        Some(s) => s,
        None => "finished"@,
    };
    ToolActionView::Done(("finished"@, false, false, Some(summary)))
}

/// The work a call asks for, once its arguments parse as JSON `v`.
pub open spec fn action_for(name: Seq<char>, v: JsonValue) -> ToolActionView {
    if name == "read_file"@ {
        read_action(v)
    } else if name == "write_file"@ {
        write_action(v)
    } else if name == "edit_file"@ {
        edit_action(v)
    } else if name == "list_dir"@ {
        list_action(v)
    } else if name == "search"@ {
        search_action(v)
    } else if name == "finish"@ {
        finish_action(v)
    } else {
        ToolActionView::Done(error_outcome("unknown tool '"@ + name + "'"@))
    }
}

/// A tool action as plain values.
pub enum ToolActionView {
    Read(Seq<Seq<char>>),
    Write(Seq<Seq<char>>, Seq<char>),
    Edit(Seq<Seq<char>>, Seq<char>, Seq<char>),
    List(Seq<Seq<char>>),
    Search(Seq<char>),
    Done((Seq<char>, bool, bool, Option<Seq<char>>)),
}

pub open spec fn action_view(a: ToolAction) -> ToolActionView {
    match a {
        ToolAction::Read { parts } => ToolActionView::Read(strings_view(parts@)),
        ToolAction::Write { parts, content } => ToolActionView::Write(strings_view(parts@), content@),
        ToolAction::Edit { parts, search, replace } => ToolActionView::Edit(strings_view(parts@), search@, replace@),
        ToolAction::List { parts } => ToolActionView::List(strings_view(parts@)),
        ToolAction::Search { query } => ToolActionView::Search(query@),
        ToolAction::Done(o) => ToolActionView::Done(outcome_view(o)),
    }
}

fn arg_of<'a>(v: &'a JsonValue, key: &str) -> (r: Option<&'a String>)
    ensures
        match r {
            Some(s) => arg(*v, key@) == Some(s@),
            None => arg(*v, key@) is None,
        },
{
    str_opt(v.get(key))
}

fn path_action(p: &str) -> (r: Result<Vec<String>, ToolOutcome>)
    ensures
        match r {
            Ok(parts) => safe_parts(p@) == Ok::<Seq<Seq<char>>, Seq<char>>(strings_view(parts@)),
            Err(o) => safe_parts(p@) is Err && outcome_view(o) == error_outcome(safe_parts(p@)->Err_0),
        },
{
    match safe_relative(p) {
        Ok(parts) => Ok(parts),
        Err(m) => Err(error(m.as_str())),
    }
}

fn writable_action(p: &str) -> (r: Result<Vec<String>, ToolOutcome>)
    ensures
        match r {
            Ok(parts) => writable_parts(p@) == Ok::<Seq<Seq<char>>, Seq<char>>(strings_view(parts@)),
            Err(o) => writable_parts(p@) is Err && outcome_view(o) == error_outcome(writable_parts(p@)->Err_0),
        },
{
    let parts = match path_action(p) {
        Ok(parts) => parts,
        Err(o) => return Err(o),
    };
    let mut i: usize = 0;
    while i < parts.len()
        invariant
            i <= parts.len(),
            forall|k: int| 0 <= k < i ==> !protected_part(#[trigger] strings_view(parts@)[k]),
            safe_parts(p@) == Ok::<Seq<Seq<char>>, Seq<char>>(strings_view(parts@)),
        decreases parts.len() - i,
    {
        let part = parts[i].as_str();
        if str_eq(part, ".git") || str_eq(part, ".heretek") || str_eq(part, ".heretek-shadow.json") {
            assert(protected_part(strings_view(parts@)[i as int]));
            return Err(error("writes to .git, .heretek or shadow metadata are not allowed"));
        }
        i = i + 1;
    }
    Ok(parts)
}

fn plan_read(v: &JsonValue) -> (r: ToolAction)
    ensures
        action_view(r) == read_action(*v),
{
    let p = match arg_of(v, "path") {
        Some(p) => p,
        None => return ToolAction::Done(error("missing 'path'")),
    };
    match path_action(p.as_str()) {
        Ok(parts) => ToolAction::Read { parts },
        Err(o) => ToolAction::Done(o),
    }
}

fn plan_write(v: &JsonValue) -> (r: ToolAction)
    ensures
        action_view(r) == write_action(*v),
{
    let p = match arg_of(v, "path") {
        Some(p) => p,
        None => return ToolAction::Done(error("missing 'path'")),
    };
    let c = match arg_of(v, "content") {
        Some(c) => c,
        None => return ToolAction::Done(error("missing 'content'")),
    };
    match writable_action(p.as_str()) {
        Ok(parts) => ToolAction::Write { parts, content: str_owned(c.as_str()) },
        Err(o) => ToolAction::Done(o),
    }
}

fn plan_edit(v: &JsonValue) -> (r: ToolAction)
    ensures
        action_view(r) == edit_action(*v),
{
    let p = match arg_of(v, "path") {
        Some(p) => p,
        None => return ToolAction::Done(error("missing 'path'")),
    };
    let s = match arg_of(v, "search") {
        Some(s) => s,
        None => return ToolAction::Done(error("missing 'search'")),
    };
    let r = match arg_of(v, "replace") {
        Some(r) => r,
        None => return ToolAction::Done(error("missing 'replace'")),
    };
    if s.as_str().is_empty() {
        return ToolAction::Done(error("'search' must not be empty"));
    }
    match writable_action(p.as_str()) {
        Ok(parts) => ToolAction::Edit { parts, search: str_owned(s.as_str()), replace: str_owned(r.as_str()) },
        Err(o) => ToolAction::Done(o),
    }
}

fn plan_list(v: &JsonValue) -> (r: ToolAction)
    ensures
        action_view(r) == list_action(*v),
{
    let p: &str = match arg_of(v, "path") {
        Some(p) => p.as_str(),
        None => ".",
    };
    match path_action(p) {
        Ok(parts) => ToolAction::List { parts },
        Err(o) => ToolAction::Done(o),
    }
}

fn plan_search(v: &JsonValue) -> (r: ToolAction)
    ensures
        action_view(r) == search_action(*v),
{
    let q = match arg_of(v, "query") {
        Some(q) => q,
        None => return ToolAction::Done(error("missing 'query'")),
    };
    if q.as_str().is_empty() {
        return ToolAction::Done(error("'query' must not be empty"));
    }
    ToolAction::Search { query: str_owned(q.as_str()) }
}

fn plan_finish(v: &JsonValue) -> (r: ToolAction)
    ensures
        action_view(r) == finish_action(*v),
{
    let summary = match arg_of(v, "summary") {
        Some(s) => str_owned(s.as_str()),
        None => str_owned("finished"),
    };
    ToolAction::Done(ToolOutcome { content: str_owned("finished"), is_error: false, mutated: false, finish: Some(summary) })
}

impl ToolBox {
    /// A toolbox for the workspace at `root`; `canonical_root` is its resolved form, when it
    /// could be resolved.
    pub fn new(root: &str, canonical_root: Option<String>) -> (r: Self)
        ensures
            r.root@ == root@,
            r.canonical_root@ == match canonical_root {
                Some(c) => c@,
                None => root@,
            },
    {
        let canonical = match canonical_root {
            Some(c) => c,
            None => str_owned(root),
        };
        ToolBox { root: str_owned(root), canonical_root: canonical }
    }

    /// What a tool call asks for: an error when its arguments are not JSON or miss a field,
    /// else the file work to do, or the finished outcome.
    pub fn plan(&self, call: &ToolCall) -> (r: ToolAction)
        ensures
            match json_document(call.arguments@) {
                None => r matches ToolAction::Done(o) && o.is_error && !o.mutated && o.finish is None
                    && starts_with_seq(o.content@, "invalid arguments JSON: "@),
                Some(v) => action_view(r) == action_for(call.name@, v),
            },
    {
        let v = match parse_json_document(call.arguments.as_str()) {
            Ok(v) => v,
            Err(message) => {
                let m = cat("invalid arguments JSON: ", message.as_str());
                assert(m@.subrange(0, "invalid arguments JSON: "@.len() as int) =~= "invalid arguments JSON: "@);
                return ToolAction::Done(error(m.as_str()));
            },
        };
        let name = call.name.as_str();
        if str_eq(name, "read_file") {
            plan_read(&v)
        } else if str_eq(name, "write_file") {
            plan_write(&v)
        } else if str_eq(name, "edit_file") {
            plan_edit(&v)
        } else if str_eq(name, "list_dir") {
            plan_list(&v)
        } else if str_eq(name, "search") {
            plan_search(&v)
        } else if str_eq(name, "finish") {
            plan_finish(&v)
        } else {
            let mut m = cat("unknown tool '", name);
            push_str(&mut m, "'");
            ToolAction::Done(error(m.as_str()))
        }
    }
}

/// A line number right-aligned in five columns.
pub open spec fn padded(n: nat) -> Seq<char> {
    let d = decimal(n);
    if d.len() >= 5 {
        d
    } else {
        Seq::new((5 - d.len()) as nat, |i: int| ' ') + d
    }
}

/// The lines of a file, each after its number and a bar.
pub open spec fn numbered(content: Seq<char>) -> Seq<char> {
    let ls = lines_spec(content);
    joined(Seq::new(ls.len(), |i: int| padded((i + 1) as nat) + " | "@ + ls[i]), "\n"@)
}

fn padded_number(n: u64) -> (r: String)
    ensures
        r@ == padded(n as nat),
{
    let d = decimal_string(n);
    let len = chars_of(d.as_str()).len();
    if len >= 5 {
        return d;
    }
    let mut pad: Vec<char> = Vec::new();
    let mut i: usize = 0;
    while i < 5 - len
        invariant
            len < 5,
            i <= 5 - len,
            pad@ == Seq::new(i as nat, |k: int| ' '),
        decreases 5 - len - i,
    {
        pad.push(' ');
        assert(pad@ =~= Seq::new((i + 1) as nat, |k: int| ' '));
        i = i + 1;
    }
    cat(string_of(&pad).as_str(), d.as_str())
}

/// What reading a file gave: its numbered lines, or the error.
pub fn read_outcome(result: Result<String, String>) -> (r: ToolOutcome)
    ensures
        outcome_view(r) == match result {
            Ok(content) => (numbered(content@), false, false, None::<Seq<char>>),
            Err(e) => error_outcome("cannot read file: "@ + e@),
        },
{
    match result {
        Ok(content) => {
            let lines = lines_of(&chars_of(content.as_str()));
            let ghost ls = lines_spec(content@);
            let ghost want = Seq::new(ls.len(), |i: int| padded((i + 1) as nat) + " | "@ + ls[i]);
            let mut out: Vec<String> = Vec::new();
            let mut i: usize = 0;
            while i < lines.len()
                invariant
                    i <= lines.len(),
                    lines@.len() == ls.len(),
                    ls == lines_spec(content@),
                    want == Seq::new(ls.len(), |i: int| padded((i + 1) as nat) + " | "@ + ls[i]),
                    forall|k: int| 0 <= k < lines@.len() ==> (#[trigger] lines@[k])@ == ls[k],
                    strings_view(out@) == want.take(i as int),
                decreases lines.len() - i,
            {
                let mut line = padded_number((i + 1) as u64);
                push_str(&mut line, " | ");
                push_str(&mut line, string_of(&lines[i]).as_str());
                let ghost before = out@;
                out.push(line);
                assert(strings_view(out@) =~= strings_view(before).push(want[i as int]));
                assert(want.take(i + 1) =~= want.take(i as int).push(want[i as int]));
                i = i + 1;
            }
            assert(want.take(lines.len() as int) =~= want);
            success(join(&out, "\n"), false)
        },
        Err(e) => error(cat("cannot read file: ", e.as_str()).as_str()),
    }
}

/// What writing `content` gave.
pub fn write_outcome(content: &str, result: Result<(), String>) -> (r: ToolOutcome)
    ensures
        outcome_view(r) == match result {
            Ok(_) => ("wrote "@ + decimal((vstd::utf8::encode_utf8(content@).len() as usize) as nat) + " bytes"@, false, true, None::<Seq<char>>),
            Err(e) => error_outcome("cannot write file: "@ + e@),
        },
{
    match result {
        Ok(()) => {
            let n = content.len();
            let mut m = cat("wrote ", decimal_string(n as u64).as_str());
            push_str(&mut m, " bytes");
            success(m, true)
        },
        Err(e) => error(cat("cannot write file: ", e.as_str()).as_str()),
    }
}

/// Number of non-overlapping occurrences of `t` in `s`, scanning from the left (`str::matches`).
pub open spec fn occurrences_from(s: Seq<char>, t: Seq<char>, i: int) -> nat
    decreases s.len() - i,
{
    if t.len() == 0 || i < 0 || i + t.len() > s.len() {
        0
    } else if s.subrange(i, i + t.len()) == t {
        1 + occurrences_from(s, t, i + t.len())
    } else {
        occurrences_from(s, t, i + 1)
    }
}

/// The text with the first occurrence of `t` replaced (`str::replacen` once).
pub open spec fn replace_first(s: Seq<char>, t: Seq<char>, r: Seq<char>) -> Seq<char> {
    if exists|i: int| crate::text::has_at(s, t, i) {
        let i = choose|i: int| crate::text::has_at(s, t, i) && forall|k: int| 0 <= k < i ==> !crate::text::has_at(s, t, k);
        s.take(i) + r + s.skip(i + t.len())
    } else {
        s
    }
}

/// The edit of a file's text: the new text when `search` occurs exactly once, else the
/// outcome that refuses it.
pub fn edit_text(content: &str, search: &str, replace: &str) -> (r: Result<String, ToolOutcome>)
    requires
        search@.len() > 0,
    ensures
        match r {
            Ok(t) => occurrences_from(content@, search@, 0) == 1 && t@ == replace_first(content@, search@, replace@),
            Err(o) => occurrences_from(content@, search@, 0) != 1 && outcome_view(o) == error_outcome(
                "'search' must match exactly once, found "@ + decimal(occurrences_from(content@, search@, 0))
                    + " occurrence(s)"@,
            ),
        },
{
    let s = chars_of(content);
    let t = chars_of(search);
    let mut count: u64 = 0;
    let mut first: Option<usize> = None;
    let mut i: usize = 0;
    proof {
        lemma_occurrences_bound(s@, t@, 0);
    }
    while i <= s.len() && t.len() <= s.len() - i
        invariant
            t.len() > 0,
            s@ == content@,
            t@ == search@,
            i <= s.len() + t.len(),
            count + occurrences_from(s@, t@, i as int) == occurrences_from(s@, t@, 0),
            occurrences_from(s@, t@, 0) <= s.len(),
            match first {
                Some(f) => crate::text::has_at(s@, t@, f as int) && f < i
                    && forall|k: int| 0 <= k < f ==> !crate::text::has_at(s@, t@, k),
                None => count == 0 && forall|k: int| 0 <= k < i ==> !crate::text::has_at(s@, t@, k),
            },
        decreases s.len() + 1 - i,
    {
        if crate::text::match_at(&s, &t, i) {
            assert(s@.subrange(i as int, i + t.len()) =~= t@);
            if first.is_none() {
                first = Some(i);
            }
            count = count + 1;
            i = i + t.len();
        } else {
            assert(!crate::text::has_at(s@, t@, i as int));
            i = i + 1;
        }
    }
    if count != 1 {
        let mut m = cat("'search' must match exactly once, found ", decimal_string(count).as_str());
        push_str(&mut m, " occurrence(s)");
        return Err(error(m.as_str()));
    }
    let f = first.unwrap();
    proof {
        assert(crate::text::has_at(s@, t@, f as int));
        let c = choose|c: int| crate::text::has_at(s@, t@, c) && forall|k: int| 0 <= k < c ==> !crate::text::has_at(s@, t@, k);
        assert(crate::text::has_at(s@, t@, c));
        assert(c == f as int);
    }
    let mut out: Vec<char> = Vec::new();
    let mut k: usize = 0;
    while k < f
        invariant
            k <= f,
            f + t.len() <= s.len(),
            out@ == s@.take(k as int),
        decreases f - k,
    {
        out.push(s[k]);
        assert(out@ =~= s@.take(k + 1));
        k = k + 1;
    }
    let r = chars_of(replace);
    let mut j: usize = 0;
    while j < r.len()
        invariant
            j <= r.len(),
            out@ == s@.take(f as int) + r@.take(j as int),
        decreases r.len() - j,
    {
        out.push(r[j]);
        assert(out@ =~= s@.take(f as int) + r@.take(j + 1));
        j = j + 1;
    }
    let mut k: usize = f + t.len();
    while k < s.len()
        invariant
            f + t.len() <= k <= s.len(),
            out@ == s@.take(f as int) + r@ + s@.subrange(f + t.len(), k as int),
        decreases s.len() - k,
    {
        out.push(s[k]);
        assert(out@ =~= s@.take(f as int) + r@ + s@.subrange(f + t.len(), k + 1));
        k = k + 1;
    }
    assert(r@.take(r.len() as int) =~= r@);
    assert(s@.subrange(f + t.len(), s.len() as int) =~= s@.skip(f + t.len()));
    Ok(string_of(&out))
}

proof fn lemma_occurrences_bound(s: Seq<char>, t: Seq<char>, i: int)
    requires
        0 <= i <= s.len(),
    ensures
        occurrences_from(s, t, i) <= s.len() - i,
    decreases s.len() - i,
{
    if t.len() == 0 || i + t.len() > s.len() {
    } else if s.subrange(i, i + t.len()) == t {
        lemma_occurrences_bound(s, t, i + t.len());
    } else {
        lemma_occurrences_bound(s, t, i + 1);
    }
}

/// What writing the edited text gave.
pub fn edited_outcome(result: Result<(), String>) -> (r: ToolOutcome)
    ensures
        outcome_view(r) == match result {
            Ok(_) => ("edited file"@, false, true, None::<Seq<char>>),
            Err(e) => error_outcome("cannot write file: "@ + e@),
        },
{
    match result {
        Ok(()) => success(str_owned("edited file"), true),
        Err(e) => error(cat("cannot write file: ", e.as_str()).as_str()),
    }
}

/// What a directory listing gave: the entries sorted and cut at 400, one per line.
pub fn list_outcome(entries: Vec<String>) -> (r: ToolOutcome)
    ensures
        entries@.len() == 0 ==> outcome_view(r) == error_outcome("directory is empty or unreadable"@),
        entries@.len() > 0 ==> !r.is_error && !r.mutated && r.finish is None && exists|sorted: Seq<Seq<char>>|
            #![trigger sorted_texts(sorted)]
            sorted_texts(sorted) && sorted.to_multiset() == strings_view(entries@).to_multiset()
                && r.content@ == joined(crate::agent::context::first_n(sorted, 400), "\n"@),
{
    if entries.len() == 0 {
        return error("directory is empty or unreadable");
    }
    let mut sorted = sort_strings(entries);
    let ghost full = strings_view(sorted@);
    sorted.truncate(400);
    assert(strings_view(sorted@) =~= crate::agent::context::first_n(full, 400));
    success(join(&sorted, "\n"), false)
}

/// `str::to_lowercase`, Unicode's full lower-casing.
pub uninterp spec fn lowercased(s: Seq<char>) -> Seq<char>;

/// `str::to_lowercase`; its result is named, as the Unicode tables that decide it are std's.
#[verifier::external_body]
pub fn to_lowercase(s: &str) -> (r: String)
    ensures
        r@ == lowercased(s@),
{
    s.to_lowercase()
}

/// The search hit for line `index` (counted from 0) of the file shown as `path`, when the
/// lower-cased line holds `needle`: the path, the line number and at most 200 characters.
pub open spec fn search_hit(path: Seq<char>, index: nat, line: Seq<char>, needle: Seq<char>) -> Option<Seq<char>> {
    if contains_seq(lowercased(line), needle) {
        Some(path + ":"@ + decimal(index + 1) + ": "@ + crate::agent::context::first_n(line, 200))
    } else {
        None
    }
}

/// Most hits a search collects.
pub const SEARCH_HIT_LIMIT: usize = 400;

/// Directory levels a search descends, the workspace root being the first.
pub const SEARCH_DEPTH: usize = 12;

/// Largest file a search reads, in bytes.
pub const SEARCH_FILE_BYTES: u64 = 2000000;

/// Whether a search looks into a directory: it has a level left and fewer hits than the limit.
pub fn search_enters(hits: usize, levels_left: usize) -> (r: bool)
    ensures
        r == (hits < SEARCH_HIT_LIMIT && levels_left > 0),
{
    hits < SEARCH_HIT_LIMIT && levels_left > 0
}

/// Whether a search goes on to the next entry or line: fewer hits than the limit.
pub fn search_goes_on(hits: usize) -> (r: bool)
    ensures
        r == (hits < SEARCH_HIT_LIMIT),
{
    hits < SEARCH_HIT_LIMIT
}

/// Whether a search reads a file of `bytes` bytes: larger files are passed over.
pub fn search_reads(bytes: u64) -> (r: bool)
    ensures
        r == (bytes <= SEARCH_FILE_BYTES),
{
    bytes <= SEARCH_FILE_BYTES
}

pub fn search_line(path: &str, index: u64, line: &str, needle: &str) -> (r: Option<String>)
    requires
        index < u64::MAX,
    ensures
        match r {
            Some(h) => search_hit(path@, index as nat, line@, needle@) == Some(h@),
            None => search_hit(path@, index as nat, line@, needle@) is None,
        },
{
    let low = to_lowercase(line);
    if !crate::text::contains_str(low.as_str(), needle) {
        return None;
    }
    let mut h = cat(path, ":");
    push_str(&mut h, decimal_string(index + 1).as_str());
    push_str(&mut h, ": ");
    let cs = chars_of(line);
    let mut out: Vec<char> = Vec::new();
    let mut i: usize = 0;
    while i < cs.len() && i < 200
        invariant
            i <= cs.len(),
            i <= 200,
            out@ == cs@.take(i as int),
        decreases cs.len() - i,
    {
        out.push(cs[i]);
        assert(out@ =~= cs@.take(i + 1));
        i = i + 1;
    }
    proof {
        if cs@.len() <= 200 {
            assert(cs@.take(cs@.len() as int) =~= cs@);
        }
    }
    push_str(&mut h, string_of(&out).as_str());
    Some(h)
}

/// What a search gave: the hits cut at 200, or a note that there were none.
pub fn search_outcome(query: &str, matches: Vec<String>) -> (r: ToolOutcome)
    ensures
        outcome_view(r) == if matches@.len() == 0 {
            ("no matches for '"@ + query@ + "'"@, false, false, None::<Seq<char>>)
        } else {
            (joined(crate::agent::context::first_n(strings_view(matches@), 200), "\n"@), false, false, None::<Seq<char>>)
        },
{
    if matches.len() == 0 {
        let mut m = cat("no matches for '", query);
        push_str(&mut m, "'");
        return success(m, false);
    }
    let mut kept = matches;
    let ghost full = strings_view(kept@);
    kept.truncate(200);
    assert(strings_view(kept@) =~= crate::agent::context::first_n(full, 200));
    success(join(&kept, "\n"), false)
}

/// The names, descriptions and argument schemas of the six tools.
pub open spec fn tool_specs() -> Seq<(Seq<char>, Seq<char>, Seq<char>)> {
    seq![
        ("read_file"@, "Read a file from the workspace. Returns numbered lines."@,
            "{\"properties\":{\"path\":{\"type\":\"string\"}},\"required\":[\"path\"],\"type\":\"object\"}"@),
        ("write_file"@, "Create or replace a file with the given content."@,
            "{\"properties\":{\"content\":{\"type\":\"string\"},\"path\":{\"type\":\"string\"}},\"required\":[\"path\",\"content\"],\"type\":\"object\"}"@),
        ("edit_file"@, "Replace an exact search string with a replacement. The search must match exactly once."@,
            "{\"properties\":{\"path\":{\"type\":\"string\"},\"replace\":{\"type\":\"string\"},\"search\":{\"type\":\"string\"}},\"required\":[\"path\",\"search\",\"replace\"],\"type\":\"object\"}"@),
        ("list_dir"@, "List directory entries, two levels deep."@,
            "{\"properties\":{\"path\":{\"type\":\"string\"}},\"required\":[],\"type\":\"object\"}"@),
        ("search"@, "Search file contents for a case-insensitive substring. Returns file:line matches."@,
            "{\"properties\":{\"query\":{\"type\":\"string\"}},\"required\":[\"query\"],\"type\":\"object\"}"@),
        ("finish"@, "Declare the task complete with a one-paragraph summary."@,
            "{\"properties\":{\"summary\":{\"type\":\"string\"}},\"required\":[\"summary\"],\"type\":\"object\"}"@),
    ]
}

fn definition(name: &str, description: &str, parameters: &str) -> (r: ToolDefinition)
    ensures
        r.name@ == name@ && r.description@ == description@ && r.parameters@ == parameters@,
{
    ToolDefinition { name: str_owned(name), description: str_owned(description), parameters: str_owned(parameters) }
}

impl ToolBox {
    /// The tools offered to the model, in this order.
    pub fn definitions() -> (r: Vec<ToolDefinition>)
        ensures
            r@.len() == tool_specs().len(),
            forall|i: int| 0 <= i < r@.len() ==> ((#[trigger] r@[i]).name@, r@[i].description@, r@[i].parameters@)
                == tool_specs()[i],
    {
        let mut v: Vec<ToolDefinition> = Vec::new();
        v.push(definition("read_file", "Read a file from the workspace. Returns numbered lines.",
            "{\"properties\":{\"path\":{\"type\":\"string\"}},\"required\":[\"path\"],\"type\":\"object\"}"));
        v.push(definition("write_file", "Create or replace a file with the given content.",
            "{\"properties\":{\"content\":{\"type\":\"string\"},\"path\":{\"type\":\"string\"}},\"required\":[\"path\",\"content\"],\"type\":\"object\"}"));
        v.push(definition("edit_file", "Replace an exact search string with a replacement. The search must match exactly once.",
            "{\"properties\":{\"path\":{\"type\":\"string\"},\"replace\":{\"type\":\"string\"},\"search\":{\"type\":\"string\"}},\"required\":[\"path\",\"search\",\"replace\"],\"type\":\"object\"}"));
        v.push(definition("list_dir", "List directory entries, two levels deep.",
            "{\"properties\":{\"path\":{\"type\":\"string\"}},\"required\":[],\"type\":\"object\"}"));
        v.push(definition("search", "Search file contents for a case-insensitive substring. Returns file:line matches.",
            "{\"properties\":{\"query\":{\"type\":\"string\"}},\"required\":[\"query\"],\"type\":\"object\"}"));
        v.push(definition("finish", "Declare the task complete with a one-paragraph summary.",
            "{\"properties\":{\"summary\":{\"type\":\"string\"}},\"required\":[\"summary\"],\"type\":\"object\"}"));
        v
    }
}

proof fn lemma_name_parts_are_names(parts: Seq<Seq<char>>)
    ensures
        forall|i: int| 0 <= i < name_parts(parts).len() ==> (#[trigger] name_parts(parts)[i]).len() > 0
            && name_parts(parts)[i] != "."@,
    decreases parts.len(),
{
    if parts.len() > 0 {
        lemma_name_parts_are_names(parts.drop_last());
        let prev = name_parts(parts.drop_last());
        if !(parts.last().len() == 0 || parts.last() == "."@) {
            assert(name_parts(parts) == prev.push(parts.last()));
            assert forall|i: int| 0 <= i < name_parts(parts).len() implies (#[trigger] name_parts(parts)[i]).len() > 0
                && name_parts(parts)[i] != "."@ by {
                if i < prev.len() {
                    assert(name_parts(parts)[i] == prev[i]);
                }
            }
        }
    }
}

/// The path a tool works on: the workspace root, then each part after a `/`.
pub open spec fn joined_path(root: Seq<char>, parts: Seq<Seq<char>>) -> Seq<char>
    decreases parts.len(),
{
    if parts.len() == 0 {
        root
    } else {
        joined_path(root, parts.drop_last()) + "/"@ + parts.last()
    }
}

impl ToolBox {
    /// The path of the normalized `parts` below the workspace root.
    pub fn target_path(&self, parts: &Vec<String>) -> (r: String)
        ensures
            r@ == joined_path(self.root@, strings_view(parts@)),
    {
        let mut path = str_owned(self.root.as_str());
        let mut i: usize = 0;
        while i < parts.len()
            invariant
                i <= parts.len(),
                path@ == joined_path(self.root@, strings_view(parts@.take(i as int))),
            decreases parts.len() - i,
        {
            assert(strings_view(parts@.take(i + 1)).drop_last() =~= strings_view(parts@.take(i as int)));
            push_str(&mut path, "/");
            push_str(&mut path, parts[i].as_str());
            i = i + 1;
        }
        assert(parts@.take(parts.len() as int) =~= parts@);
        path
    }

    /// Refuses a target that does not lie below the root by whole components, or whose
    /// resolved form (that of its nearest existing ancestor, itself included) is missing or
    /// does not lie below the resolved root; symlinks cannot lead a tool out of the workspace.
    pub fn confine(&self, target: &str, resolved: Option<String>) -> (r: Result<(), String>)
        ensures
            !path_within(self.root@, target@) ==> (r matches Err(m) && m@ == "path escapes the workspace"@),
            path_within(self.root@, target@) ==> match resolved {
                Some(e) => if path_within(self.canonical_root@, e@) {
                    r is Ok
                } else {
                    r matches Err(m) && m@ == "path resolves outside the workspace"@
                },
                None => r matches Err(m) && m@ == "path cannot be resolved inside the workspace"@,
            },
    {
        if !ensure_within(self.root.as_str(), target) {
            return Err(str_owned("path escapes the workspace"));
        }
        match resolved {
            Some(e) => if ensure_within(self.canonical_root.as_str(), e.as_str()) {
                Ok(())
            } else {
                Err(str_owned("path resolves outside the workspace"))
            },
            None => Err(str_owned("path cannot be resolved inside the workspace")),
        }
    }
}

/// A path the tools accept is relative and made of plain names only: no part is empty,
/// `.` or `..`, so it cannot leave the workspace.
pub proof fn law_safe_paths_stay_inside(user: Seq<char>)
    ensures
        safe_parts(user) is Ok ==> !starts_with_seq(user, "/"@) && forall|i: int|
            0 <= i < safe_parts(user)->Ok_0.len() ==> (#[trigger] safe_parts(user)->Ok_0[i]).len() > 0
                && safe_parts(user)->Ok_0[i] != "."@ && safe_parts(user)->Ok_0[i] != ".."@,
{
    let parts = name_parts(split_char(user, '/'));
    lemma_name_parts_are_names(split_char(user, '/'));
    if safe_parts(user) is Ok {
        assert forall|i: int| 0 <= i < parts.len() implies parts[i] != ".."@ by {
            if parts[i] == ".."@ {
                assert(parts.contains(".."@));
            }
        }
    }
}

/// Writes and edits never reach git's data, the harness's directory or shadow metadata: a
/// path they accept is a safe path none of whose parts is protected.
pub proof fn law_writes_avoid_protected_paths(user: Seq<char>)
    ensures
        writable_parts(user) is Ok ==> safe_parts(user) == Ok::<Seq<Seq<char>>, Seq<char>>(writable_parts(user)->Ok_0)
            && forall|i: int| 0 <= i < writable_parts(user)->Ok_0.len()
                ==> !protected_part(#[trigger] writable_parts(user)->Ok_0[i]),
{
}

} // verus!
