use vstd::prelude::*;

use crate::diagnostic::strings_view;
use crate::json::{json_document, json_get, json_str, parse_json_document, JsonNode, JsonValue};
use crate::stages::util::{lines_of, lines_spec};
use crate::text::{
    cat, chars_of, decimal, decimal_string, join, joined, push_str, sort_strings, sorted_texts, str_owned,
    string_of,
};

verus! {

/// The two fixed parts of every prompt: the rules and the workspace layout.
pub struct Zones {
    pub system: String,
    pub topology: String,
}

/// A hash of a prompt zone, with std's `DefaultHasher` as `DefaultHasher::new()` makes it;
/// std does not specify its algorithm, so nothing is stated of the value.
#[verifier::external_body]
pub fn zone_hash(text: &str) -> u64 {
    std::hash::BuildHasher::hash_one(&std::hash::BuildHasherDefault::<std::collections::hash_map::DefaultHasher>::default(), text)
}

/// The rules the agent works under.
pub open spec fn system_prompt_text() -> Seq<char> {
    "You are Heretek, a local coding agent operating inside a workspace.\nEvery edit you make is verified by deterministic gates: syntax, formatting, types, tests, structural rules, and security scans.\nRules:\n1. Read a file before editing it. Never guess file contents.\n2. Prefer small, surgical edits over rewrites.\n3. Do not narrate. At most one short status line, then act with tools.\n4. After you edit, the harness runs the gates and returns errors only if something fails. Fix the reported problems exactly; do not argue with the gates.\n5. Do not claim the task is complete unless the gates pass.\n6. Work only within the workspace. Absolute paths and parent-directory traversal are rejected.\n7. When the task is done, call the finish tool with a short summary."@
}

pub fn system_prompt() -> (r: String)
    ensures
        r@ == system_prompt_text(),
{
    str_owned("You are Heretek, a local coding agent operating inside a workspace.\nEvery edit you make is verified by deterministic gates: syntax, formatting, types, tests, structural rules, and security scans.\nRules:\n1. Read a file before editing it. Never guess file contents.\n2. Prefer small, surgical edits over rewrites.\n3. Do not narrate. At most one short status line, then act with tools.\n4. After you edit, the harness runs the gates and returns errors only if something fails. Fix the reported problems exactly; do not argue with the gates.\n5. Do not claim the task is complete unless the gates pass.\n6. Work only within the workspace. Absolute paths and parent-directory traversal are rejected.\n7. When the task is done, call the finish tool with a short summary.")
}

/// The zones of a workspace whose layout text is `topology`.
pub fn build_zones(topology: String) -> (r: Zones)
    ensures
        r.system@ == system_prompt_text(),
        r.topology == topology,
{
    Zones { system: system_prompt(), topology }
}

/// Directory names the layout listing leaves out.
pub open spec fn topology_skips(name: Seq<char>) -> bool {
    name == ".git"@ || name == ".heretek"@ || name == "node_modules"@ || name == "target"@ || name == "dist"@
        || name == "build"@ || name == "coverage"@
}

pub fn skipped_in_topology(name: &str) -> (r: bool)
    ensures
        r == topology_skips(name@),
{
    let n = name;
    crate::config::str_eq(n, ".git") || crate::config::str_eq(n, ".heretek") || crate::config::str_eq(n, "node_modules")
        || crate::config::str_eq(n, "target") || crate::config::str_eq(n, "dist") || crate::config::str_eq(n, "build")
        || crate::config::str_eq(n, "coverage")
}

/// At most the first `n` elements.
pub open spec fn first_n<T>(s: Seq<T>, n: nat) -> Seq<T> {
    if s.len() <= n {
        s
    } else {
        s.take(n as int)
    }
}

/// The entries of an object, in stored order.
pub open spec fn json_object(v: Option<JsonValue>) -> Option<Seq<(String, JsonValue)>> {
    match v {
        Some(x) => match x.node {
            JsonNode::Object(entries) => Some(entries@),
            _ => None,
        },
        None => None,
    }
}

/// The listing line of one `package.json` script.
pub open spec fn script_line(entry: (String, JsonValue)) -> Seq<char> {
    let command = match json_str(Some(entry.1)) {
        Some(c) => c,
        None => Seq::empty(),
    };
    "  "@ + entry.0@ + ": "@ + first_n(command, 120)
}

/// The script lines of a `package.json` text, when it is JSON with a `scripts` object.
pub open spec fn script_lines(package_json: Seq<char>) -> Seq<Seq<char>> {
    match json_document(package_json) {
        Some(v) => match json_object(json_get(v, "scripts"@)) {
            Some(entries) => seq!["package.json scripts:"@] + first_n(entries, 20).map_values(|e: (String, JsonValue)| script_line(e)),
            None => Seq::empty(),
        },
        None => Seq::empty(),
    }
}

/// The excerpt lines of an instructions file.
pub open spec fn note_lines(name: Seq<char>, content: Seq<char>) -> Seq<Seq<char>> {
    seq![name + " (excerpt):"@] + first_n(lines_spec(content), 60).map_values(|l: Seq<char>| "  "@ + l)
}

fn take_chars_of(s: &str, n: usize) -> (r: String)
    ensures
        r@ == first_n(s@, n as nat),
{
    let cs = chars_of(s);
    let mut out: Vec<char> = Vec::new();
    let mut i: usize = 0;
    while i < cs.len() && i < n
        invariant
            i <= cs.len(),
            i <= n,
            out@ == cs@.take(i as int),
        decreases cs.len() - i,
    {
        out.push(cs[i]);
        assert(out@ =~= cs@.take(i + 1));
        i = i + 1;
    }
    proof {
        if cs@.len() <= n {
            assert(i == cs@.len());
            assert(cs@.take(cs@.len() as int) =~= cs@);
        } else {
            assert(i == n);
        }
    }
    string_of(&out)
}

fn script_text(package_json: &str) -> (r: Vec<String>)
    ensures
        strings_view(r@) == script_lines(package_json@),
{
    let mut out: Vec<String> = Vec::new();
    let v = match parse_json_document(package_json) {
        Ok(v) => v,
        Err(_) => {
            assert(strings_view(out@) =~= Seq::<Seq<char>>::empty());
            return out;
        },
    };
    let entries = match v.get("scripts") {
        Some(s) => match &s.node {
            JsonNode::Object(entries) => entries,
            _ => {
                assert(strings_view(out@) =~= Seq::<Seq<char>>::empty());
                return out;
            },
        },
        None => {
            assert(strings_view(out@) =~= Seq::<Seq<char>>::empty());
            return out;
        },
    };
    out.push(str_owned("package.json scripts:"));
    let ghost shown = first_n(entries@, 20).map_values(|e: (String, JsonValue)| script_line(e));
    let mut i: usize = 0;
    while i < entries.len() && i < 20
        invariant
            i <= entries.len(),
            i <= 20,
            strings_view(out@) == seq!["package.json scripts:"@] + shown.take(i as int),
            shown == first_n(entries@, 20).map_values(|e: (String, JsonValue)| script_line(e)),
        decreases entries.len() - i,
    {
        let name = &entries[i].0;
        let command = &entries[i].1;
        proof {
            reveal_strlit("");
        }
        let c: &str = match command.as_str() {
            Some(t) => t.as_str(),
            None => "",
        };
        assert(c@ == match json_str(Some(entries@[i as int].1)) {
            Some(t) => t,
            None => Seq::<char>::empty(),
        });
        let mut line = cat("  ", name.as_str());
        push_str(&mut line, ": ");
        push_str(&mut line, take_chars_of(c, 120).as_str());
        assert(line@ == script_line(entries@[i as int]));
        let ghost before = out@;
        out.push(line);
        assert(strings_view(out@) =~= strings_view(before).push(line@));
        assert(shown.take(i + 1) =~= shown.take(i as int).push(shown[i as int]));
        i = i + 1;
    }
    assert(shown.len() == first_n(entries@, 20).len());
    assert(shown.take(i as int) =~= shown);
    out
}

fn note_text(name: &str, content: &str) -> (r: Vec<String>)
    ensures
        strings_view(r@) == note_lines(name@, content@),
{
    let lines = lines_of(&chars_of(content));
    let ghost shown = first_n(lines_spec(content@), 60).map_values(|l: Seq<char>| "  "@ + l);
    let mut out: Vec<String> = Vec::new();
    out.push(cat(name, " (excerpt):"));
    let mut i: usize = 0;
    while i < lines.len() && i < 60
        invariant
            i <= lines.len(),
            i <= 60,
            lines@.len() == lines_spec(content@).len(),
            forall|k: int| 0 <= k < lines@.len() ==> (#[trigger] lines@[k])@ == lines_spec(content@)[k],
            shown == first_n(lines_spec(content@), 60).map_values(|l: Seq<char>| "  "@ + l),
            strings_view(out@) == seq![name@ + " (excerpt):"@] + shown.take(i as int),
        decreases lines.len() - i,
    {
        let line = cat("  ", string_of(&lines[i]).as_str());
        let ghost before = out@;
        out.push(line);
        assert(strings_view(out@) =~= strings_view(before).push(line@));
        assert(shown.take(i + 1) =~= shown.take(i as int).push(shown[i as int]));
        i = i + 1;
    }
    assert(shown.len() == first_n(lines_spec(content@), 60).len());
    assert(shown.take(i as int) =~= shown);
    out
}

/// The lines after the listing: the scripts of `package.json` and the excerpt of the first
/// instructions file, when there are any.
pub open spec fn extra_lines(package_json: Option<&str>, note: Option<(&str, &str)>) -> Seq<Seq<char>> {
    let scripts = match package_json {
        Some(p) => script_lines(p@),
        None => Seq::empty(),
    };
    let notes = match note {
        Some((n, c)) => note_lines(n@, c@),
        None => Seq::empty(),
    };
    scripts + notes
}

/// Builds the layout text from what the workspace walk found: the header and the listing
/// lines `entries`, sorted and cut at 250 lines, then the extra lines.
pub fn topology_text(entries: Vec<String>, package_json: Option<&str>, note: Option<(&str, &str)>) -> (r: String)
    ensures
        exists|sorted: Seq<Seq<char>>|
            #![trigger sorted_texts(sorted)]
            sorted_texts(sorted)
                && sorted.to_multiset() == (seq!["Workspace topology:"@] + strings_view(entries@)).to_multiset()
                && r@ == joined(first_n(sorted, 250) + extra_lines(package_json, note), "\n"@),
{
    let mut lines: Vec<String> = Vec::new();
    lines.push(str_owned("Workspace topology:"));
    let ghost e = strings_view(entries@);
    let mut rest = entries;
    lines.append(&mut rest);
    assert(strings_view(lines@) =~= seq!["Workspace topology:"@] + e);
    let mut sorted = sort_strings(lines);
    let ghost full = strings_view(sorted@);
    sorted.truncate(250);
    assert(strings_view(sorted@) =~= first_n(full, 250));
    let mut tail: Vec<String> = match package_json {
        Some(p) => script_text(p),
        None => {
            let t: Vec<String> = Vec::new();
            assert(strings_view(t@) =~= Seq::<Seq<char>>::empty());
            t
        },
    };
    let ghost s1 = strings_view(sorted@);
    let ghost t1 = strings_view(tail@);
    sorted.append(&mut tail);
    assert(strings_view(sorted@) =~= s1 + t1);
    let mut notes: Vec<String> = match note {
        Some((n, c)) => note_text(n, c),
        None => {
            let t: Vec<String> = Vec::new();
            assert(strings_view(t@) =~= Seq::<Seq<char>>::empty());
            t
        },
    };
    let ghost s2 = strings_view(sorted@);
    let ghost n1 = strings_view(notes@);
    sorted.append(&mut notes);
    assert(strings_view(sorted@) =~= s2 + n1);
    assert(strings_view(sorted@) =~= first_n(full, 250) + extra_lines(package_json, note));
    join(&sorted, "\n")
}

/// A long tool result cut to its first three fifths and its last two fifths of `budget`
/// characters, with a marker saying how many were left out.
pub open spec fn compacted(content: Seq<char>, budget: nat) -> Seq<char> {
    if content.len() <= budget {
        content
    } else {
        let head = (budget * 3 / 5) as nat;
        let tail = (budget - head) as nat;
        content.take(head as int) + "\n... ["@ + decimal((content.len() - budget) as nat)
            + " chars omitted; re-read the file if needed] ...\n"@ + content.skip(content.len() - tail)
    }
}

pub fn compact_tool_result(content: &str, budget_chars: usize) -> (r: String)
    requires
        budget_chars * 3 <= usize::MAX,
    ensures
        r@ == compacted(content@, budget_chars as nat),
{
    let cs = chars_of(content);
    if cs.len() <= budget_chars {
        return str_owned(content);
    }
    let head_budget: usize = budget_chars * 3 / 5;
    let tail_budget: usize = budget_chars - head_budget;
    let mut head: Vec<char> = Vec::new();
    let mut i: usize = 0;
    while i < head_budget
        invariant
            i <= head_budget <= budget_chars < cs.len(),
            head@ == cs@.take(i as int),
        decreases head_budget - i,
    {
        head.push(cs[i]);
        assert(head@ =~= cs@.take(i + 1));
        i = i + 1;
    }
    let start: usize = cs.len() - tail_budget;
    let mut tail: Vec<char> = Vec::new();
    let mut j: usize = start;
    while j < cs.len()
        invariant
            start <= j <= cs.len(),
            tail@ == cs@.subrange(start as int, j as int),
        decreases cs.len() - j,
    {
        tail.push(cs[j]);
        assert(tail@ =~= cs@.subrange(start as int, j + 1));
        j = j + 1;
    }
    let omitted: u64 = (cs.len() - budget_chars) as u64;
    let mut s = string_of(&head);
    push_str(&mut s, "\n... [");
    push_str(&mut s, decimal_string(omitted).as_str());
    push_str(&mut s, " chars omitted; re-read the file if needed] ...\n");
    push_str(&mut s, string_of(&tail).as_str());
    assert(cs@.subrange(start as int, cs.len() as int) =~= cs@.skip(start as int));
    s
}

/// A tool result within the budget is kept as it is; a longer one keeps its first three
/// fifths of the budget and its last characters up to the budget.
pub proof fn law_compaction_keeps_both_ends(content: Seq<char>, budget: nat)
    ensures
        content.len() <= budget ==> compacted(content, budget) == content,
        content.len() > budget ==> {
            let head = (budget * 3 / 5) as nat;
            let tail = (budget - head) as nat;
            &&& compacted(content, budget).take(head as int) == content.take(head as int)
            &&& compacted(content, budget).skip(compacted(content, budget).len() - tail) == content.skip(content.len() - tail)
        },
{
    if content.len() > budget {
        let head = (budget * 3 / 5) as nat;
        let tail = (budget - head) as nat;
        let c = compacted(content, budget);
        let mid = "\n... ["@ + decimal((content.len() - budget) as nat) + " chars omitted; re-read the file if needed] ...\n"@;
        assert(c == content.take(head as int) + mid + content.skip(content.len() - tail));
        assert(c.take(head as int) =~= content.take(head as int));
        assert(c.skip(c.len() - tail) =~= content.skip(content.len() - tail));
    }
}

} // verus!
