use vstd::prelude::*;

use crate::stages::{stage_kind, stage_name, StageId};

use crate::config::{str_eq, GateConfig};
use crate::diagnostic::{diagnostics_view, new_diagnostic_view, strings_view, Diagnostic, DiagnosticView, GateKind, Severity};
use crate::json::{get_opt, json_array, json_get, json_get_opt, json_str, json_u64, str_opt, u64_opt, JsonValue};
use crate::process::{combined_spec, ProcessOutput, ProcessSpec};
use crate::report::StageStatus;
use crate::stage::{target_root_of, GateContext, GateError, StageOutcome};
use crate::stages::format::str_or_empty;
use crate::stages::util::{diagnostic, exited_text, output_json, output_json_spec, timed_out_text, truncate, truncated};
use crate::text::{cat, push_str, sort_strings, sorted_texts, starts_with_seq, str_owned};

verus! {

/// Structural rules with `ast-grep` (blocking).
pub struct AstGrepStage {
    pub program: Option<String>,
    pub timeout_secs: u64,
    pub max_output: usize,
    pub allow_network: bool,
}

/// The rules path of the configuration, below the repository root unless absolute.
pub open spec fn rules_path(repo_root: Seq<char>, configured: Seq<char>) -> Seq<char> {
    if starts_with_seq(configured, "/"@) {
        configured
    } else {
        repo_root + "/"@ + configured
    }
}

pub fn configured_rules_path(repo_root: &str, configured: &str) -> (r: String)
    ensures
        r@ == rules_path(repo_root@, configured@),
{
    let cs = crate::text::chars_of(configured);
    proof {
        reveal_strlit("/");
    }
    if cs.len() > 0 && cs[0] == '/' {
        assert(configured@.subrange(0, 1) =~= "/"@);
        return str_owned(configured);
    }
    proof {
        if configured@.len() > 0 {
            assert(configured@.subrange(0, 1)[0] == configured@[0]);
        }
    }
    let mut s = cat(repo_root, "/");
    push_str(&mut s, configured);
    s
}

/// `--rule` before each rule file.
pub open spec fn rule_flags(files: Seq<Seq<char>>) -> Seq<Seq<char>>
    decreases files.len(),
{
    if files.len() == 0 {
        Seq::empty()
    } else {
        rule_flags(files.drop_last()) + seq!["--rule"@, files.last()]
    }
}

/// The rule arguments for a rules path: the file itself, or a directory's `sgconfig.yml`,
/// or its `.yml` files sorted and at most fifty. `config_file` is the directory's
/// `sgconfig.yml` when it is a file; `yml_files` are the directory's `.yml` files.
pub fn rule_args_for_path(path: &str, is_file: bool, is_dir: bool, config_file: Option<String>, yml_files: Vec<String>)
    -> (r: Option<Vec<String>>)
    ensures
        is_file ==> (r matches Some(a) && strings_view(a@) == seq!["--rule"@, path@]),
        !is_file && !is_dir ==> r is None,
        !is_file && is_dir && config_file is Some ==> (r matches Some(a) && strings_view(a@) == seq!["--config"@, config_file->0@]),
        !is_file && is_dir && config_file is None ==> (yml_files@.len() == 0 <==> r is None) && (r matches Some(a)
            ==> exists|sorted: Seq<Seq<char>>| #![trigger sorted_texts(sorted)] sorted_texts(sorted)
                && sorted.to_multiset() == strings_view(yml_files@).to_multiset()
                && strings_view(a@) == rule_flags(crate::agent::context::first_n(sorted, 50))),
{
    if is_file {
        let a: Vec<String> = vec![str_owned("--rule"), str_owned(path)];
        assert(strings_view(a@) =~= seq!["--rule"@, path@]);
        return Some(a);
    }
    if !is_dir {
        return None;
    }
    match config_file {
        Some(c) => {
            let a: Vec<String> = vec![str_owned("--config"), c];
            assert(strings_view(a@) =~= seq!["--config"@, a@[1]@]);
            return Some(a);
        },
        None => {},
    }
    if yml_files.len() == 0 {
        return None;
    }
    let mut rules = sort_strings(yml_files);
    let ghost full = strings_view(rules@);
    rules.truncate(50);
    let ghost kept = crate::agent::context::first_n(full, 50);
    assert(strings_view(rules@) =~= kept);
    let mut args: Vec<String> = Vec::new();
    let mut i: usize = 0;
    while i < rules.len()
        invariant
            i <= rules.len(),
            strings_view(rules@) == kept,
            strings_view(args@) == rule_flags(kept.take(i as int)),
        decreases rules.len() - i,
    {
        assert(kept.take(i + 1).drop_last() =~= kept.take(i as int));
        let ghost before = args@;
        args.push(str_owned("--rule"));
        args.push(rules[i].clone());
        assert(strings_view(args@) =~= strings_view(before) + seq!["--rule"@, kept[i as int]]);
        i = i + 1;
    }
    assert(kept.take(rules.len() as int) =~= kept);
    Some(args)
}

/// The entry field `a`, or `b` when `a` is absent.
pub open spec fn either(e: JsonValue, a: Seq<char>, b: Seq<char>) -> Option<JsonValue> {
    match json_get(e, a) {
        Some(v) => Some(v),
        None => json_get(e, b),
    }
}

/// A 1-based position from a 0-based one (cut to 32 bits, wrapping), or 0 when absent.
pub open spec fn one_based(v: Option<u64>) -> u32 {
    match v {
        Some(n) => if (n as u32) == u32::MAX {
            0
        } else {
            ((n as u32) + 1) as u32
        },
        None => 0,
    }
}

/// The frame for one ast-grep match.
pub open spec fn match_frame(e: JsonValue) -> DiagnosticView {
    let start = json_get_opt(json_get(e, "range"@), "start"@);
    let (line, column) = match start {
        Some(s) => (one_based(json_u64(json_get(s, "line"@))), one_based(json_u64(json_get(s, "column"@)))),
        None => (0u32, 0u32),
    };
    let rule = str_or_empty(json_str(either(e, "ruleId"@, "rule_id"@)));
    let sev = json_str(json_get(e, "severity"@));
    let severity = if sev == Some("error"@) {
        Severity::Error
    } else if sev == Some("warning"@) {
        Severity::Warning
    } else {
        Severity::Note
    };
    let d = new_diagnostic_view(
        "ast-grep"@,
        severity,
        str_or_empty(json_str(either(e, "file"@, "path"@))),
        line,
        column,
        truncated(str_or_empty(json_str(either(e, "message"@, "note"@))), 800),
    );
    if rule.len() == 0 {
        d
    } else {
        DiagnosticView { code: Some(rule), ..d }
    }
}

/// The matches of a report: the value itself when it is an array, else its `matches`.
pub open spec fn matches_of(v: JsonValue) -> Seq<JsonValue> {
    match json_array(Some(v)) {
        Some(items) => items,
        None => match json_array(json_get(v, "matches"@)) {
            Some(items) => items,
            None => Seq::empty(),
        },
    }
}

pub open spec fn match_frames(v: JsonValue) -> Seq<DiagnosticView> {
    matches_of(v).map_values(|e: JsonValue| match_frame(e))
}

fn either_of<'a>(e: &'a JsonValue, a: &str, b: &str) -> (r: Option<&'a JsonValue>)
    ensures
        match r {
            Some(x) => either(*e, a@, b@) == Some(*x),
            None => either(*e, a@, b@) is None,
        },
{
    match e.get(a) {
        Some(v) => Some(v),
        None => e.get(b),
    }
}

fn one_based_of(v: Option<u64>) -> (r: u32)
    ensures
        r == one_based(v),
{
    match v {
        Some(n) => {
            let m: u32 = n as u32;
            if m == u32::MAX {
                0
            } else {
                m + 1
            }
        },
        None => 0,
    }
}

fn str_or<'a>(s: Option<&'a String>) -> (r: &'a str)
    ensures
        r@ == str_or_empty(match s {
            Some(x) => Some(x@),
            None => None,
        }),
{
    proof {
        reveal_strlit("");
    }
    match s {
        Some(x) => x.as_str(),
        None => "",
    }
}

fn match_diagnostic(e: &JsonValue) -> (r: Diagnostic)
    ensures
        r@ == match_frame(*e),
{
    let file = str_or(str_opt(either_of(e, "file", "path")));
    let start = get_opt(e.get("range"), "start");
    let (line, column) = match start {
        Some(s) => (one_based_of(u64_opt(s.get("line"))), one_based_of(u64_opt(s.get("column")))),
        None => (0u32, 0u32),
    };
    let rule = str_or(str_opt(either_of(e, "ruleId", "rule_id")));
    let message = str_or(str_opt(either_of(e, "message", "note")));
    let severity = match str_opt(e.get("severity")) {
        Some(s) => if str_eq(s.as_str(), "error") {
            Severity::Error
        } else if str_eq(s.as_str(), "warning") {
            Severity::Warning
        } else {
            Severity::Note
        },
        None => Severity::Note,
    };
    let text = truncate(message, 800);
    let mut d = diagnostic("ast-grep", severity, file, line, column, text.as_str());
    if !rule.is_empty() {
        d.code = Some(str_owned(rule));
    }
    d
}

pub fn match_diagnostics(value: &JsonValue) -> (r: Vec<Diagnostic>)
    ensures
        diagnostics_view(r@) == match_frames(*value),
{
    let items: &Vec<JsonValue> = match value.as_array() {
        Some(items) => items,
        None => match crate::json::array_opt(value.get("matches")) {
            Some(items) => items,
            None => {
                let out: Vec<Diagnostic> = Vec::new();
                assert(diagnostics_view(out@) =~= match_frames(*value));
                return out;
            },
        },
    };
    let ghost want = match_frames(*value);
    assert(items@ == matches_of(*value));
    let mut out: Vec<Diagnostic> = Vec::new();
    let mut i: usize = 0;
    while i < items.len()
        invariant
            i <= items.len(),
            want == items@.map_values(|e: JsonValue| match_frame(e)),
            diagnostics_view(out@) == want.take(i as int),
        decreases items.len() - i,
    {
        let d = match_diagnostic(&items[i]);
        let ghost before = out@;
        out.push(d);
        assert(diagnostics_view(out@) =~= diagnostics_view(before).push(want[i as int]));
        assert(want.take(i + 1) =~= want.take(i as int).push(want[i as int]));
        i = i + 1;
    }
    assert(want.take(items.len() as int) =~= want);
    out
}

pub open spec fn any_error_view(ds: Seq<DiagnosticView>) -> bool {
    exists|k: int| 0 <= k < ds.len() && (#[trigger] ds[k]).severity == Severity::Error
}

pub fn has_error_frame(ds: &Vec<Diagnostic>) -> (r: bool)
    ensures
        r == any_error_view(diagnostics_view(ds@)),
{
    let mut i: usize = 0;
    while i < ds.len()
        invariant
            i <= ds.len(),
            forall|k: int| 0 <= k < i ==> (#[trigger] diagnostics_view(ds@)[k]).severity != Severity::Error,
        decreases ds.len() - i,
    {
        if ds[i].severity == Severity::Error {
            assert(diagnostics_view(ds@)[i as int].severity == Severity::Error);
            return true;
        }
        i = i + 1;
    }
    false
}

/// The outcome of a scan that found `ds`: a pass when nothing matched, a failure when an
/// error matched, otherwise a pass with the findings.
pub open spec fn scan_result(ds: Seq<DiagnosticView>, r: StageOutcome) -> bool {
    if ds.len() == 0 {
        r.status == StageStatus::Passed && r.diagnostics@.len() == 0
    } else if any_error_view(ds) {
        r.status == StageStatus::Failed && diagnostics_view(r.diagnostics@) == ds
    } else {
        r.status == StageStatus::Passed && diagnostics_view(r.diagnostics@) == ds
    }
}

impl AstGrepStage {
    /// `program` is the resolved `ast-grep`.
    pub fn new(program: Option<String>, config: &GateConfig) -> (r: Self)
        ensures
            r.program == program,
            r.timeout_secs == config.stage_timeout_secs,
            r.max_output == config.max_output_bytes,
            r.allow_network == config.allow_network,
    {
        AstGrepStage {
            program,
            timeout_secs: config.stage_timeout_secs,
            max_output: config.max_output_bytes,
            allow_network: config.allow_network,
        }
    }

    pub fn id(&self) -> (r: &'static str)
        ensures
            r@ == stage_name(StageId::AstGrep),
    {
        "ast-grep"
    }

    pub fn kind(&self) -> (r: GateKind)
        ensures
            r == stage_kind(StageId::AstGrep),
    {
        GateKind::Blocking
    }

    /// Skips without the tool, without changed files, or without rules; otherwise scans the
    /// changed files with `rule_args` (see `rule_args_for_path`).
    pub fn plan(&self, ctx: &GateContext, rule_args: Option<Vec<String>>) -> (r: Result<ProcessSpec, StageOutcome>)
        ensures
            self.program is None ==> r is Err && r->Err_0.status == StageStatus::Skipped
                && crate::diagnostic::opt_view(r->Err_0.skipped_reason) == Some("ast-grep not found"@),
            self.program is Some && ctx.files@.len() == 0 ==> r is Err && r->Err_0.status == StageStatus::Skipped
                && crate::diagnostic::opt_view(r->Err_0.skipped_reason) == Some("no changed files"@),
            self.program is Some && ctx.files@.len() > 0 && rule_args is None ==> r is Err
                && r->Err_0.status == StageStatus::Skipped
                && crate::diagnostic::opt_view(r->Err_0.skipped_reason) == Some("no ast-grep rules configured"@),
            self.program is Some && ctx.files@.len() > 0 && rule_args is Some ==> r is Ok
                && r->Ok_0.program@ == self.program->0@ && r->Ok_0.cwd@ == target_root_of(*ctx)
                && strings_view(r->Ok_0.args@) == seq!["scan"@, "--json=compact"@] + strings_view(rule_args->0@)
                    + strings_view(ctx.files@)
                && r->Ok_0.timeout_secs == self.timeout_secs && r->Ok_0.max_output_bytes == self.max_output
                && r->Ok_0.allow_network == self.allow_network,
    {
        let program = match &self.program {
            Some(p) => p,
            None => return Err(StageOutcome::skipped("ast-grep not found")),
        };
        if ctx.files.len() == 0 {
            return Err(StageOutcome::skipped("no changed files"));
        }
        let mut extra = match rule_args {
            Some(a) => a,
            None => return Err(StageOutcome::skipped("no ast-grep rules configured")),
        };
        let mut args: Vec<String> = Vec::new();
        args.push(str_owned("scan"));
        args.push(str_owned("--json=compact"));
        let ghost e = strings_view(extra@);
        let ghost base = strings_view(args@);
        args.append(&mut extra);
        assert(strings_view(args@) =~= base + e);
        let ghost mid = strings_view(args@);
        let mut files = crate::diagnostic::clone_strings(&ctx.files);
        args.append(&mut files);
        assert(strings_view(args@) =~= mid + strings_view(ctx.files@));
        Ok(ProcessSpec::new(program.as_str(), ctx.target_root().as_str()).args(args).timeout(self.timeout_secs)
            .max_output_bytes(self.max_output).allow_network(self.allow_network))
    }

    /// Reads the scan's JSON report (see `scan_result`); output that is not JSON passes a
    /// successful run and fails any other.
    pub fn interpret(&self, output: &ProcessOutput) -> (r: Result<StageOutcome, GateError>)
        ensures
            output.timed_out ==> (r matches Err(GateError::Failed { message })
                && message@ == timed_out_text("ast-grep"@, self.timeout_secs)),
            !output.timed_out ==> match output_json_spec(*output) {
                None => if output.status == Some(0i32) {
                    r is Ok && r->Ok_0.status == StageStatus::Passed && r->Ok_0.diagnostics@.len() == 0
                } else {
                    r matches Err(GateError::Failed { message })
                        && message@ == exited_text("ast-grep"@, output.status, combined_spec(output.stdout@, output.stderr@))
                },
                Some(v) => r is Ok && scan_result(match_frames(v), r->Ok_0),
            },
    {
        if output.timed_out {
            return Err(GateError::Failed { message: crate::stages::util::timed_out_message("ast-grep", self.timeout_secs) });
        }
        let v = match output_json(output) {
            Some(v) => v,
            None => {
                if output.success() {
                    return Ok(StageOutcome::passed());
                }
                return Err(GateError::Failed { message: crate::stages::util::exited_message("ast-grep", output) });
            },
        };
        let ds = match_diagnostics(&v);
        if ds.len() == 0 {
            return Ok(StageOutcome::passed());
        }
        if has_error_frame(&ds) {
            return Ok(StageOutcome::failed(ds));
        }
        Ok(StageOutcome::passed_with(ds))
    }
}

} // verus!
