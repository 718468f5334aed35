use vstd::prelude::*;

use crate::stages::{stage_kind, stage_name, StageId};

use crate::config::{str_eq, GateConfig};
use crate::diagnostic::{diagnostics_view, new_diagnostic_view, strings_view, Diagnostic, DiagnosticView, GateKind, Severity};
use crate::json::{get_opt, json_array, json_document, json_get, json_get_opt, json_str, json_u64, opt_deref, parse_json_document, str_opt, u64_opt, JsonNode, JsonValue};
use crate::process::{combined_spec, ProcessOutput, ProcessSpec};
use crate::report::StageStatus;
use crate::stage::{target_root_of, GateContext, GateError, StageOutcome, Target};
use crate::stages::tests::{filter_plain, is_pathological_spec};
use crate::stages::util::{diagnostic, filter_ts, status_text, timed_out_text, truncate, truncated, ts_files, UNPARSEABLE};
use crate::text::{cat, chars_of, join, joined, lower_char, lower_seq, push_str, str_owned, to_lower, trim_seq, trim_str};

verus! {

/// Formatting and lint check with `biome` (blocking).
pub struct FormatStage {
    pub program: Option<String>,
    pub timeout_secs: u64,
    pub max_output: usize,
}

/// Equality ignoring ASCII case (`str::eq_ignore_ascii_case`).
pub open spec fn eq_ignore_case(a: Seq<char>, b: Seq<char>) -> bool {
    lower_seq(a) == lower_seq(b)
}

pub fn eq_ignore_ascii_case(a: &str, b: &str) -> (r: bool)
    ensures
        r == eq_ignore_case(a@, b@),
{
    let x = chars_of(a);
    let y = chars_of(b);
    if x.len() != y.len() {
        assert(lower_seq(a@).len() != lower_seq(b@).len());
        return false;
    }
    let mut i: usize = 0;
    while i < x.len()
        invariant
            i <= x.len(),
            x.len() == y.len(),
            x@ == a@,
            y@ == b@,
            forall|k: int| 0 <= k < i ==> lower_char(x@[k]) == lower_char(y@[k]),
        decreases x.len() - i,
    {
        if to_lower(x[i]) != to_lower(y[i]) {
            assert(lower_seq(a@)[i as int] != lower_seq(b@)[i as int]);
            return false;
        }
        i = i + 1;
    }
    assert(lower_seq(a@) =~= lower_seq(b@));
    true
}

/// The severity a biome diagnostic names.
pub open spec fn biome_severity_spec(v: Seq<char>) -> Severity {
    if eq_ignore_case(v, "error"@) || eq_ignore_case(v, "fatal"@) {
        Severity::Error
    } else if eq_ignore_case(v, "warning"@) {
        Severity::Warning
    } else {
        Severity::Note
    }
}

pub fn biome_severity(v: &str) -> (r: Severity)
    ensures
        r == biome_severity_spec(v@),
{
    if eq_ignore_ascii_case(v, "error") || eq_ignore_ascii_case(v, "fatal") {
        Severity::Error
    } else if eq_ignore_ascii_case(v, "warning") {
        Severity::Warning
    } else {
        Severity::Note
    }
}

pub open spec fn str_or_empty(v: Option<Seq<char>>) -> Seq<char> {
    match v {
        Some(s) => s,
        None => Seq::empty(),
    }
}

/// The file of a diagnostic: `location.path`, or `location.path.file`.
pub open spec fn biome_file(e: JsonValue) -> Seq<char> {
    let p = json_get_opt(json_get(e, "location"@), "path"@);
    match json_str(p) {
        Some(s) => s,
        None => str_or_empty(json_str(json_get_opt(p, "file"@))),
    }
}

/// The `content` texts of message parts, in order.
pub open spec fn part_contents(parts: Seq<JsonValue>) -> Seq<Seq<char>>
    decreases parts.len(),
{
    if parts.len() == 0 {
        Seq::empty()
    } else {
        match json_str(json_get(parts.last(), "content"@)) {
            Some(c) => part_contents(parts.drop_last()).push(c),
            None => part_contents(parts.drop_last()),
        }
    }
}

/// The message of a diagnostic: a string, or the contents of its parts on separate lines.
pub open spec fn biome_message(e: JsonValue) -> Seq<char> {
    match json_get(e, "message"@) {
        Some(m) => match m.node {
            JsonNode::Str(s) => s@,
            JsonNode::Array(parts) => joined(part_contents(parts@), "\n"@),
            _ => Seq::empty(),
        },
        None => Seq::empty(),
    }
}

/// Bytes of a character in UTF-8.
pub open spec fn char_width(c: char) -> int {
    let u = c as u32;
    if u < 0x80 {
        1
    } else if u < 0x800 {
        2
    } else if u < 0x10000 {
        3
    } else {
        4
    }
}

/// Line and column reached after `budget` bytes of `s`, counted from (`line`, `col`); a
/// character the budget cuts counts as one more column, as lossy decoding gives it.
pub open spec fn walk(s: Seq<char>, budget: int, line: nat, col: nat) -> (nat, nat)
    decreases s.len(),
{
    if s.len() == 0 || budget <= 0 {
        (line, col)
    } else if char_width(s[0]) > budget {
        (line, col + 1)
    } else if s[0] == '\n' {
        walk(s.drop_first(), budget - char_width(s[0]), line + 1, 1)
    } else {
        walk(s.drop_first(), budget - char_width(s[0]), line, col + 1)
    }
}

/// The 1-based line and column of a byte offset in a file's text.
pub open spec fn offset_position(content: Seq<char>, offset: u64) -> (u32, u32) {
    let p = walk(content, offset as int, 1, 1);
    (p.0 as u32, p.1 as u32)
}

/// The text of `file` among the sources read for the run, when it was read.
pub open spec fn source_of(sources: Seq<(String, String)>, file: Seq<char>) -> Option<Seq<char>> {
    if file.len() == 0 {
        None
    } else if exists|i: int| 0 <= i < sources.len() && sources[i].0@ == file {
        let i = choose|i: int| 0 <= i < sources.len() && sources[i].0@ == file
            && forall|k: int| 0 <= k < i ==> sources[k].0@ != file;
        Some(sources[i].1@)
    } else {
        None
    }
}

/// The first element of an array value.
pub open spec fn first_of(v: Option<JsonValue>) -> Option<JsonValue> {
    match json_array(v) {
        Some(items) => if items.len() > 0 {
            Some(items[0])
        } else {
            None
        },
        None => None,
    }
}

/// Where a diagnostic points: `location.start` when it has a line and column, else the byte
/// offset `location.span[0]` in the file's text, else nowhere.
pub open spec fn biome_position(e: JsonValue, sources: Seq<(String, String)>) -> (u32, u32) {
    let loc = json_get(e, "location"@);
    let start = json_get_opt(loc, "start"@);
    match (json_u64(json_get_opt(start, "line"@)), json_u64(json_get_opt(start, "column"@))) {
        (Some(l), Some(c)) => (l as u32, c as u32),
        _ => match json_u64(first_of(json_get_opt(loc, "span"@))) {
            None => (0, 0),
            Some(off) => match source_of(sources, biome_file(e)) {
                None => (0, 0),
                Some(content) => offset_position(content, off),
            },
        },
    }
}

/// The frame for one biome diagnostic.
pub open spec fn biome_frame(e: JsonValue, sources: Seq<(String, String)>) -> DiagnosticView {
    let pos = biome_position(e, sources);
    let category = str_or_empty(json_str(json_get(e, "category"@)));
    let d = new_diagnostic_view(
        "format"@,
        biome_severity_spec(str_or_empty(json_str(json_get(e, "severity"@)))),
        biome_file(e),
        pos.0,
        pos.1,
        truncated(biome_message(e), 800),
    );
    if category.len() == 0 {
        d
    } else {
        DiagnosticView { code: Some(category), ..d }
    }
}

/// The frames of biome's JSON report, when its output is one.
pub open spec fn biome_frames(stdout: Seq<char>, sources: Seq<(String, String)>) -> Option<Seq<DiagnosticView>> {
    match json_document(trim_seq(stdout)) {
        Some(v) => match json_array(json_get(v, "diagnostics"@)) {
            Some(entries) => Some(entries.map_values(|e: JsonValue| biome_frame(e, sources))),
            None => None,
        },
        None => None,
    }
}

fn char_width_of(c: char) -> (r: u64)
    ensures
        r == char_width(c),
{
    let u = c as u32;
    if u < 0x80 {
        1
    } else if u < 0x800 {
        2
    } else if u < 0x10000 {
        3
    } else {
        4
    }
}

proof fn lemma_walk_bound(s: Seq<char>, budget: int, line: nat, col: nat)
    ensures
        walk(s, budget, line, col).0 <= line + s.len(),
        walk(s, budget, line, col).1 <= col + s.len() + 1 || walk(s, budget, line, col).1 <= s.len() + 1,
    decreases s.len(),
{
    if s.len() > 0 && budget > 0 && char_width(s[0]) <= budget {
        let b = budget - char_width(s[0]);
        if s[0] == '\n' {
            lemma_walk_bound(s.drop_first(), b, line + 1, 1);
        } else {
            lemma_walk_bound(s.drop_first(), b, line, col + 1);
        }
    }
}

pub fn offset_to_line_column(content: &str, offset: u64) -> (r: (u32, u32))
    ensures
        r == offset_position(content@, offset),
{
    let cs = chars_of(content);
    let mut budget: u64 = offset;
    let mut line: u128 = 1;
    let mut col: u128 = 1;
    let mut i: usize = 0;
    assert(cs@.skip(0) =~= cs@);
    while i < cs.len() && budget > 0
        invariant
            i <= cs.len(),
            cs@ == content@,
            1 <= line <= i + 1,
            1 <= col <= i + 1,
            walk(cs@, offset as int, 1, 1) == walk(cs@.skip(i as int), budget as int, line as nat, col as nat),
        decreases cs.len() - i,
    {
        let w = char_width_of(cs[i]);
        assert(cs@.skip(i as int)[0] == cs@[i as int]);
        assert(cs@.skip(i as int).drop_first() =~= cs@.skip(i + 1));
        if w > budget {
            col = col + 1;
            let l: u32 = line as u32;
            let c: u32 = col as u32;
            return (l, c);
        }
        budget = budget - w;
        if cs[i] == '\n' {
            line = line + 1;
            col = 1;
        } else {
            col = col + 1;
        }
        i = i + 1;
    }
    let l: u32 = line as u32;
    let c: u32 = col as u32;
    (l, c)
}

fn source_for<'a>(sources: &'a Vec<(String, String)>, file: &str) -> (r: Option<&'a String>)
    ensures
        match r {
            Some(t) => source_of(sources@, file@) == Some(t@),
            None => source_of(sources@, file@) is None,
        },
{
    if file.is_empty() {
        return None;
    }
    let mut i: usize = 0;
    while i < sources.len()
        invariant
            i <= sources.len(),
            file@.len() > 0,
            forall|k: int| 0 <= k < i ==> (#[trigger] sources@[k]).0@ != file@,
        decreases sources.len() - i,
    {
        if str_eq(sources[i].0.as_str(), file) {
            return Some(&sources[i].1);
        }
        i = i + 1;
    }
    None
}

fn file_of(e: &JsonValue) -> (r: String)
    ensures
        r@ == biome_file(*e),
{
    let p = get_opt(e.get("location"), "path");
    match str_opt(p) {
        Some(s) => str_owned(s.as_str()),
        None => match str_opt(get_opt(p, "file")) {
            Some(s) => str_owned(s.as_str()),
            None => String::new(),
        },
    }
}

fn message_of(e: &JsonValue) -> (r: String)
    ensures
        r@ == biome_message(*e),
{
    match e.get("message") {
        Some(m) => match &m.node {
            JsonNode::Str(s) => str_owned(s.as_str()),
            JsonNode::Array(parts) => {
                let mut contents: Vec<String> = Vec::new();
                let mut i: usize = 0;
                while i < parts.len()
                    invariant
                        i <= parts.len(),
                        strings_view(contents@) == part_contents(parts@.take(i as int)),
                    decreases parts.len() - i,
                {
                    assert(parts@.take(i + 1).drop_last() =~= parts@.take(i as int));
                    match str_opt(parts[i].get("content")) {
                        Some(c) => {
                            let ghost before = contents@;
                            contents.push(str_owned(c.as_str()));
                            assert(strings_view(contents@) =~= strings_view(before).push(c@));
                        },
                        None => {},
                    }
                    i = i + 1;
                }
                assert(parts@.take(parts.len() as int) =~= parts@);
                join(&contents, "\n")
            },
            _ => String::new(),
        },
        None => String::new(),
    }
}

fn position_of(e: &JsonValue, file: &str, sources: &Vec<(String, String)>) -> (r: (u32, u32))
    requires
        file@ == biome_file(*e),
    ensures
        r == biome_position(*e, sources@),
{
    let loc = e.get("location");
    let start = get_opt(loc, "start");
    let line = u64_opt(get_opt(start, "line"));
    let column = u64_opt(get_opt(start, "column"));
    match (line, column) {
        (Some(l), Some(c)) => {
            let a: u32 = l as u32;
            let b: u32 = c as u32;
            return (a, b);
        },
        _ => {},
    }
    let span = crate::json::array_opt(get_opt(loc, "span"));
    let off = match span {
        Some(items) => if items.len() > 0 {
            items[0].as_u64()
        } else {
            None
        },
        None => None,
    };
    match off {
        None => (0, 0),
        Some(o) => match source_for(sources, file) {
            None => (0, 0),
            Some(content) => offset_to_line_column(content.as_str(), o),
        },
    }
}

fn frame_of(e: &JsonValue, sources: &Vec<(String, String)>) -> (r: Diagnostic)
    ensures
        r@ == biome_frame(*e, sources@),
{
    let file = file_of(e);
    let (line, column) = position_of(e, file.as_str(), sources);
    let severity = match str_opt(e.get("severity")) {
        Some(s) => biome_severity(s.as_str()),
        None => {
            proof {
                reveal_strlit("");
                assert(""@ =~= Seq::<char>::empty());
            }
            biome_severity("")
        },
    };
    let message = truncate(message_of(e).as_str(), 800);
    let mut d = diagnostic("format", severity, file.as_str(), line, column, message.as_str());
    match str_opt(e.get("category")) {
        Some(c) => if !c.as_str().is_empty() {
            d.code = Some(str_owned(c.as_str()));
        },
        None => {},
    }
    d
}

/// Reads biome's JSON report.
pub fn parse_diagnostics(stdout: &str, sources: &Vec<(String, String)>) -> (r: Option<Vec<Diagnostic>>)
    ensures
        match r {
            Some(ds) => biome_frames(stdout@, sources@) == Some(diagnostics_view(ds@)),
            None => biome_frames(stdout@, sources@) is None,
        },
{
    let t = crate::text::string_of(&trim_str(stdout));
    let v = match parse_json_document(t.as_str()) {
        Ok(v) => v,
        Err(_) => return None,
    };
    let entries = match crate::json::array_opt(v.get("diagnostics")) {
        Some(entries) => entries,
        None => return None,
    };
    let ghost want = entries@.map_values(|e: JsonValue| biome_frame(e, sources@));
    let mut out: Vec<Diagnostic> = Vec::new();
    let mut i: usize = 0;
    while i < entries.len()
        invariant
            i <= entries.len(),
            want == entries@.map_values(|e: JsonValue| biome_frame(e, sources@)),
            diagnostics_view(out@) == want.take(i as int),
        decreases entries.len() - i,
    {
        let d = frame_of(&entries[i], sources);
        let ghost before = out@;
        out.push(d);
        assert(diagnostics_view(out@) =~= diagnostics_view(before).push(want[i as int]));
        assert(want.take(i + 1) =~= want.take(i as int).push(want[i as int]));
        i = i + 1;
    }
    assert(want.take(entries.len() as int) =~= want);
    Some(out)
}

/// The same frames, reported as warnings.
pub open spec fn as_warnings(ds: Seq<DiagnosticView>) -> Seq<DiagnosticView> {
    ds.map_values(|d: DiagnosticView| DiagnosticView { severity: Severity::Warning, ..d })
}

fn warn_all(ds: Vec<Diagnostic>) -> (r: Vec<Diagnostic>)
    ensures
        diagnostics_view(r@) == as_warnings(diagnostics_view(ds@)),
{
    let ghost want = as_warnings(diagnostics_view(ds@));
    let mut rest = ds;
    let ghost all = rest@;
    let mut out: Vec<Diagnostic> = Vec::new();
    let mut i: usize = 0;
    assert(all.skip(0) =~= all);
    let n = rest.len();
    assert(all.len() == n);
    while rest.len() > 0
        invariant
            i <= all.len(),
            rest@ == all.skip(i as int),
            rest.len() == all.len() - i,
            all.len() <= usize::MAX,
            want == as_warnings(diagnostics_view(all)),
            diagnostics_view(out@) == want.take(i as int),
        decreases rest.len(),
    {
        let mut d = rest.remove(0);
        assert(d == all[i as int]);
        d.severity = Severity::Warning;
        let ghost before = out@;
        out.push(d);
        assert(diagnostics_view(out@) =~= diagnostics_view(before).push(want[i as int]));
        assert(want.take(i + 1) =~= want.take(i as int).push(want[i as int]));
        assert(rest@ =~= all.skip(i + 1));
        i = i + 1;
    }
    assert(want.take(i as int) =~= want);
    out
}

fn any_error(ds: &Vec<Diagnostic>) -> (r: bool)
    ensures
        r == exists|k: int| 0 <= k < ds@.len() && (#[trigger] ds@[k]).severity == Severity::Error,
{
    let mut i: usize = 0;
    while i < ds.len()
        invariant
            i <= ds.len(),
            forall|k: int| 0 <= k < i ==> (#[trigger] ds@[k]).severity != Severity::Error,
        decreases ds.len() - i,
    {
        if ds[i].severity == Severity::Error {
            return true;
        }
        i = i + 1;
    }
    false
}

/// The arguments of a check run.
pub open spec fn check_args(fix: bool, files: Seq<Seq<char>>) -> Seq<Seq<char>> {
    (if fix {
        seq!["check"@, "--write"@, "--no-errors-on-unmatched"@, "--reporter=json"@]
    } else {
        seq!["check"@, "--no-errors-on-unmatched"@, "--reporter=json"@]
    }) + files
}

impl FormatStage {
    /// `program` is the resolved `biome`.
    pub fn new(program: Option<String>, config: &GateConfig) -> (r: Self)
        ensures
            r.program == program,
            r.timeout_secs == config.stage_timeout_secs,
            r.max_output == config.max_output_bytes,
    {
        FormatStage { program, timeout_secs: config.stage_timeout_secs, max_output: config.max_output_bytes }
    }

    pub fn id(&self) -> (r: &'static str)
        ensures
            r@ == stage_name(StageId::Format),
    {
        "format"
    }

    pub fn kind(&self) -> (r: GateKind)
        ensures
            r == stage_kind(StageId::Format),
    {
        GateKind::Blocking
    }

    /// Skips without biome, without changed script files, or when only pathological names
    /// changed; otherwise checks the changed files, writing fixes only when the context asks
    /// for them on a worktree: a staged (hook) run never changes files.
    pub fn plan(&self, ctx: &GateContext) -> (r: Result<ProcessSpec, StageOutcome>)
        ensures
            self.program is None ==> r is Err && r->Err_0.status == StageStatus::Skipped
                && crate::diagnostic::opt_view(r->Err_0.skipped_reason) == Some("biome not found"@),
            self.program is Some && ts_files(ctx.files@).len() == 0 ==> r is Err && r->Err_0.status == StageStatus::Skipped
                && crate::diagnostic::opt_view(r->Err_0.skipped_reason) == Some("no TypeScript or JavaScript files changed"@),
            self.program is Some && ts_files(ctx.files@).len() > 0
                && ts_files(ctx.files@).filter(|f: String| !is_pathological_spec(f@)).len() == 0 ==> r is Err
                && r->Err_0.status == StageStatus::Skipped
                && crate::diagnostic::opt_view(r->Err_0.skipped_reason) == Some("only pathological file names changed"@),
            self.program is Some && ts_files(ctx.files@).filter(|f: String| !is_pathological_spec(f@)).len() > 0 ==> r is Ok
                && r->Ok_0.program@ == self.program->0@ && r->Ok_0.cwd@ == target_root_of(*ctx)
                && strings_view(r->Ok_0.args@) == check_args(ctx.fix && ctx.target is Worktree, strings_view(ts_files(ctx.files@).filter(|f: String| !is_pathological_spec(f@))))
                && r->Ok_0.timeout_secs == self.timeout_secs && r->Ok_0.max_output_bytes == self.max_output
                && !r->Ok_0.allow_network,
    {
        let program = match &self.program {
            Some(p) => p,
            None => return Err(StageOutcome::skipped("biome not found")),
        };
        let changed = filter_ts(&ctx.files);
        if changed.len() == 0 {
            return Err(StageOutcome::skipped("no TypeScript or JavaScript files changed"));
        }
        let files = filter_plain(&changed);
        if files.len() == 0 {
            return Err(StageOutcome::skipped("only pathological file names changed"));
        }
        let mut args: Vec<String> = Vec::new();
        args.push(str_owned("check"));
        let writes = ctx.fix && match ctx.target {
            Target::Worktree(_) => true,
            Target::Staged => false,
        };
        if writes {
            args.push(str_owned("--write"));
        }
        args.push(str_owned("--no-errors-on-unmatched"));
        args.push(str_owned("--reporter=json"));
        let ghost base = strings_view(args@);
        let mut i: usize = 0;
        while i < files.len()
            invariant
                i <= files.len(),
                strings_view(args@) == base + strings_view(files@.take(i as int)),
            decreases files.len() - i,
        {
            let ghost before = args@;
            args.push(files[i].clone());
            assert(strings_view(args@) =~= strings_view(before).push(files@[i as int]@));
            assert(strings_view(files@.take(i + 1)) =~= strings_view(files@.take(i as int)).push(files@[i as int]@));
            i = i + 1;
        }
        assert(files@.take(files.len() as int) =~= files@);
        assert(strings_view(args@) =~= check_args(writes, strings_view(files@)));
        Ok(ProcessSpec::new(program.as_str(), ctx.target_root().as_str()).args(args).timeout(self.timeout_secs)
            .max_output_bytes(self.max_output).allow_network(false))
    }

    /// Reads biome's output. `sources` holds the texts of the checked files, for positions
    /// given as byte offsets. Findings only warn for staged runs or runs without fixing.
    pub fn interpret(&self, output: &ProcessOutput, ctx: &GateContext, sources: &Vec<(String, String)>)
        -> (r: Result<StageOutcome, GateError>)
        ensures
            output.timed_out ==> (r matches Err(GateError::Failed { message })
                && message@ == timed_out_text("biome check"@, self.timeout_secs)),
            !output.timed_out && (vstd::utf8::encode_utf8(output.stdout@).len() as usize >= self.max_output
                || vstd::utf8::encode_utf8(output.stderr@).len() as usize >= self.max_output)
                ==> (r matches Err(GateError::Failed { message }) && message@ == UNPARSEABLE@),
            !output.timed_out && !(vstd::utf8::encode_utf8(output.stdout@).len() as usize >= self.max_output
                || vstd::utf8::encode_utf8(output.stderr@).len() as usize >= self.max_output) ==> match biome_frames(output.stdout@, sources@) {
                None => if trim_seq(combined_spec(output.stdout@, output.stderr@)).len() != 0 {
                    r matches Err(GateError::Failed { message }) && message@ == UNPARSEABLE@
                } else if output.status == Some(0i32) {
                    r is Ok && r->Ok_0.status == StageStatus::Passed && r->Ok_0.diagnostics@.len() == 0
                } else {
                    r is Ok && r->Ok_0.status == StageStatus::Failed && diagnostics_view(r->Ok_0.diagnostics@) == seq![
                        new_diagnostic_view("format"@, Severity::Error, ""@, 0, 0, "biome check exited with "@
                            + status_text(output.status) + ": "@ + truncated(trim_seq(combined_spec(output.stdout@, output.stderr@)), 600)),
                    ]
                },
                Some(ds) => if ctx.target is Staged || !ctx.fix {
                    r is Ok && r->Ok_0.status == StageStatus::Passed && diagnostics_view(r->Ok_0.diagnostics@) == as_warnings(ds)
                } else if exists|k: int| 0 <= k < ds.len() && (#[trigger] ds[k]).severity == Severity::Error {
                    r is Ok && r->Ok_0.status == StageStatus::Failed && diagnostics_view(r->Ok_0.diagnostics@) == ds
                } else {
                    r is Ok && r->Ok_0.status == StageStatus::Passed && diagnostics_view(r->Ok_0.diagnostics@) == ds
                },
            },
    {
        if output.timed_out {
            return Err(GateError::Failed { message: crate::stages::util::timed_out_message("biome check", self.timeout_secs) });
        }
        if output.truncated(self.max_output) {
            return Err(GateError::Failed { message: str_owned(UNPARSEABLE) });
        }
        let parsed = parse_diagnostics(output.stdout.as_str(), sources);
        let diagnostics = match parsed {
            Some(ds) => ds,
            None => {
                let combined = output.combined();
                let t = crate::text::string_of(&trim_str(combined.as_str()));
                if !t.as_str().is_empty() {
                    return Err(GateError::Failed { message: str_owned(UNPARSEABLE) });
                }
                if output.success() {
                    return Ok(StageOutcome::passed());
                }
                let message = truncate(t.as_str(), 600);
                let mut text = cat("biome check exited with ", crate::stages::util::status_string(output.status).as_str());
                push_str(&mut text, ": ");
                push_str(&mut text, message.as_str());
                let d = diagnostic("format", Severity::Error, "", 0, 0, text.as_str());
                let ghost dv = d@;
                let mut ds: Vec<Diagnostic> = Vec::new();
                ds.push(d);
                assert(diagnostics_view(ds@) =~= seq![dv]);
                return Ok(StageOutcome::failed(ds));
            },
        };
        let staged = match ctx.target {
            Target::Staged => true,
            _ => false,
        };
        if staged || !ctx.fix {
            return Ok(StageOutcome::passed_with(warn_all(diagnostics)));
        }
        if any_error(&diagnostics) {
            proof {
                let k = choose|k: int| 0 <= k < diagnostics@.len() && (#[trigger] diagnostics@[k]).severity == Severity::Error;
                assert(diagnostics_view(diagnostics@)[k].severity == Severity::Error);
            }
            return Ok(StageOutcome::failed(diagnostics));
        }
        assert(forall|k: int| 0 <= k < diagnostics@.len() ==> diagnostics_view(diagnostics@)[k] == diagnostics@[k]@);
        Ok(StageOutcome::passed_with(diagnostics))
    }
}

} // verus!
