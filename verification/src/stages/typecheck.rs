use vstd::prelude::*;

use crate::stages::{stage_kind, stage_name, StageId};

use crate::config::GateConfig;
use crate::diagnostic::{diagnostics_view, new_diagnostic_view, Diagnostic, DiagnosticView, GateKind, Severity};
use crate::files::vec_eq;
use crate::process::{combined_spec, ProcessOutput, ProcessSpec};
use crate::report::StageStatus;
use crate::stage::{target_root_of, GateContext, GateError, StageOutcome};
use crate::stages::util::{
    diagnostic, exited_message, filter_ts, find_char, index_of_spec, is_ts, is_ts_spec, position_spec,
    lines_of, lines_spec, parse_position, slice_of, split_once, split_once_spec, timed_out_message,
    timed_out_text, truncate, truncated, ts_files, status_string, status_text,
};
use crate::text::{chars_of, string_of, trim, trim_seq};

verus! {

/// The text after any leading `:` characters (`trim_start_matches(':')`).
pub open spec fn strip_colons(s: Seq<char>) -> Seq<char>
    decreases s.len(),
{
    if s.len() > 0 && s[0] == ':' {
        strip_colons(s.drop_first())
    } else {
        s
    }
}

fn strip_colons_exec(s: &Vec<char>) -> (r: Vec<char>)
    ensures
        r@ == strip_colons(s@),
{
    let mut i: usize = 0;
    assert(s@.skip(0) =~= s@);
    while i < s.len() && s[i] == ':'
        invariant
            i <= s.len(),
            strip_colons(s@) == strip_colons(s@.skip(i as int)),
        decreases s.len() - i,
    {
        assert(s@.skip(i as int).drop_first() =~= s@.skip(i + 1));
        i = i + 1;
    }
    let r = slice_of(s, i, s.len());
    assert(r@ =~= s@.skip(i as int));
    r
}

pub open spec fn severity_of_token(tok: Seq<char>) -> Option<Severity> {
    if tok == "error"@ {
        Some(Severity::Error)
    } else if tok == "warning"@ {
        Some(Severity::Warning)
    } else {
        None
    }
}

/// The frame for the part of a checker line after the position: `severity code: message`.
pub open spec fn tsc_tail(gate: Seq<char>, file: Seq<char>, line_no: u32, column: u32, rest: Seq<char>) -> Option<DiagnosticView> {
    match split_once_spec(rest, ' ') {
        None => None,
        Some(parts) => match severity_of_token(parts.0) {
            None => None,
            Some(sv) => {
                let cm = match split_once_spec(parts.1, ':') {
                    Some(p) => (trim_seq(p.0), trim_seq(p.1)),
                    None => (Seq::<char>::empty(), trim_seq(parts.1)),
                };
                let d = new_diagnostic_view(gate, sv, file, line_no, column, truncated(cm.1, 800));
                Some(if cm.0.len() > 0 {
                    DiagnosticView { code: Some(cm.0), ..d }
                } else {
                    d
                })
            },
        },
    }
}

/// The frame that a `tsc` or `tsgo` line `file(line,column): severity code: message` gives
/// (line and column separated by a comma),
/// for a JavaScript or TypeScript file with a non-zero line.
#[verifier::opaque]
pub open spec fn tsc_diagnostic(gate: Seq<char>, line: Seq<char>) -> Option<DiagnosticView> {
    match index_of_spec(line, '(', 0) {
        None => None,
        Some(open) => match index_of_spec(line, ')', open) {
            None => None,
            Some(close) => {
                let file = trim_seq(line.take(open));
                let lc = position_spec(line.subrange(open + 1, close), ',');
                if file.len() == 0 || !is_ts_spec(file) || lc.0 == 0 {
                    None
                } else {
                    tsc_tail(gate, file, lc.0, lc.1, trim_seq(strip_colons(line.skip(close + 1))))
                }
            },
        },
    }
}

fn parse_tail(gate: &str, file: &str, line_no: u32, column: u32, rest: &Vec<char>) -> (r: Option<Diagnostic>)
    ensures
        match r {
            Some(d) => tsc_tail(gate@, file@, line_no, column, rest@) == Some(d@),
            None => tsc_tail(gate@, file@, line_no, column, rest@) is None,
        },
{
    let (tok, after) = match split_once(rest, ' ') {
        Some(p) => p,
        None => {
            return None;
        },
    };
    let severity = if vec_eq(&tok, &chars_of("error")) {
        Severity::Error
    } else if vec_eq(&tok, &chars_of("warning")) {
        Severity::Warning
    } else {
        return None;
    };
    let (code, message) = match split_once(&after, ':') {
        Some((c, m)) => (trim(&c), trim(&m)),
        None => (Vec::new(), trim(&after)),
    };
    let msg = truncate(string_of(&message).as_str(), 800);
    let mut d = diagnostic(gate, severity, file, line_no, column, msg.as_str());
    if code.len() > 0 {
        d.code = Some(string_of(&code));
    }
    Some(d)
}

#[verifier::rlimit(40)]
pub fn parse_diagnostic(gate: &str, line: &str) -> (r: Option<Diagnostic>)
    ensures
        match r {
            Some(d) => tsc_diagnostic(gate@, line@) == Some(d@),
            None => tsc_diagnostic(gate@, line@) is None,
        },
{
    reveal(tsc_diagnostic);
    let s = chars_of(line);
    let open = match find_char(&s, '(', 0) {
        Some(i) => i,
        None => {
            return None;
        },
    };
    let close = match find_char(&s, ')', open) {
        Some(i) => i,
        None => {
            return None;
        },
    };
    let file = trim(&slice_of(&s, 0, open));
    let file_s = string_of(&file);
    let inner = string_of(&slice_of(&s, open + 1, close));
    let (line_no, column) = parse_position(inner.as_str(), ',');
    let rest = trim(&strip_colons_exec(&slice_of(&s, close + 1, s.len())));
    proof {
        assert(s@.take(open as int) =~= s@.subrange(0, open as int));
        assert(s@.skip(close + 1) =~= s@.subrange(close + 1, s@.len() as int));
    }
    if file.len() == 0 || !is_ts(file_s.as_str()) || line_no == 0 {
        return None;
    }
    parse_tail(gate, file_s.as_str(), line_no, column, &rest)
}

/// The frames of every line of the output that reads as a `tsc` diagnostic, in order.
pub open spec fn tsc_diagnostics(gate: Seq<char>, text: Seq<char>) -> Seq<DiagnosticView>
    decreases lines_spec(text).len(),
{
    tsc_lines(gate, lines_spec(text))
}

pub open spec fn tsc_lines(gate: Seq<char>, lines: Seq<Seq<char>>) -> Seq<DiagnosticView>
    decreases lines.len(),
{
    if lines.len() == 0 {
        Seq::empty()
    } else {
        let rest = tsc_lines(gate, lines.drop_last());
        match tsc_diagnostic(gate, lines.last()) {
            Some(d) => rest.push(d),
            None => rest,
        }
    }
}

fn parse_all(gate: &str, text: &str) -> (r: Vec<Diagnostic>)
    ensures
        diagnostics_view(r@) == tsc_diagnostics(gate@, text@),
{
    let lines = lines_of(&chars_of(text));
    let ghost ls = lines_spec(text@);
    let mut out: Vec<Diagnostic> = Vec::new();
    let mut i: usize = 0;
    while i < lines.len()
        invariant
            i <= lines.len(),
            lines@.len() == ls.len(),
            ls == lines_spec(text@),
            forall|k: int| 0 <= k < lines@.len() ==> (#[trigger] lines@[k])@ == ls[k],
            diagnostics_view(out@) == tsc_lines(gate@, ls.take(i as int)),
        decreases lines.len() - i,
    {
        assert(ls.take(i + 1).drop_last() =~= ls.take(i as int));
        assert(ls.take(i + 1).last() == lines@[i as int]@);
        let l = string_of(&lines[i]);
        match parse_diagnostic(gate, l.as_str()) {
            Some(d) => {
                let ghost old_out = out@;
                out.push(d);
                assert(diagnostics_view(out@) =~= diagnostics_view(old_out).push(d@));
            },
            None => {},
        }
        i = i + 1;
    }
    assert(ls.take(lines.len() as int) =~= ls);
    out
}

/// Type checking with `tsgo` or `tsc` (blocking).
pub struct TypecheckStage {
    pub program: Option<String>,
    pub timeout_secs: u64,
    pub max_output: usize,
    pub allow_network: bool,
}

pub open spec fn has_error(ds: Seq<DiagnosticView>) -> bool {
    exists|i: int| 0 <= i < ds.len() && (#[trigger] ds[i]).severity == Severity::Error
}

pub fn any_error(ds: &Vec<Diagnostic>) -> (r: bool)
    ensures
        r == has_error(diagnostics_view(ds@)),
{
    let mut i: usize = 0;
    while i < ds.len()
        invariant
            i <= ds.len(),
            forall|k: int| 0 <= k < i ==> (#[trigger] ds@[k]).severity != Severity::Error,
        decreases ds.len() - i,
    {
        if ds[i].severity == Severity::Error {
            assert(diagnostics_view(ds@)[i as int].severity == Severity::Error);
            return true;
        }
        i = i + 1;
    }
    false
}

impl TypecheckStage {
    /// `program` is the resolved `tsgo` (or else `tsc`); the timeout is capped at 900 seconds.
    pub fn new(program: Option<String>, config: &GateConfig) -> (r: Self)
        ensures
            r.program == program,
            r.timeout_secs == if config.stage_timeout_secs < 900 { config.stage_timeout_secs } else { 900 },
            r.max_output == config.max_output_bytes,
            r.allow_network == config.allow_network,
    {
        TypecheckStage {
            program,
            timeout_secs: if config.stage_timeout_secs < 900 { config.stage_timeout_secs } else { 900 },
            max_output: config.max_output_bytes,
            allow_network: config.allow_network,
        }
    }

    pub fn id(&self) -> (r: &'static str)
        ensures
            r@ == stage_name(StageId::Typecheck),
    {
        "typecheck"
    }

    pub fn kind(&self) -> (r: GateKind)
        ensures
            r == stage_kind(StageId::Typecheck),
    {
        GateKind::Blocking
    }

    /// Skips without a checker or without changed script files; otherwise checks the project
    /// when `tsconfig.json` exists in the target, else the changed files.
    pub fn plan(&self, ctx: &GateContext, has_project: bool) -> (r: Result<ProcessSpec, StageOutcome>)
        ensures
            self.program is None ==> r is Err && r->Err_0.status == StageStatus::Skipped
                && crate::diagnostic::opt_view(r->Err_0.skipped_reason) == Some("tsgo and tsc are not available"@),
            self.program is Some && ts_files(ctx.files@).len() == 0 ==> r is Err && r->Err_0.status == StageStatus::Skipped
                && crate::diagnostic::opt_view(r->Err_0.skipped_reason) == Some("no TypeScript or JavaScript files changed"@),
            self.program is Some && ts_files(ctx.files@).len() > 0 ==> r is Ok && r->Ok_0.program@ == self.program->0@
                && r->Ok_0.cwd@ == target_root_of(*ctx)
                && crate::diagnostic::strings_view(r->Ok_0.args@) == if has_project {
                    seq!["--noEmit"@, "--pretty"@, "false"@, "-p"@, "tsconfig.json"@]
                } else {
                    seq!["--noEmit"@, "--pretty"@, "false"@] + crate::diagnostic::strings_view(ts_files(ctx.files@))
                }
                && r->Ok_0.timeout_secs == self.timeout_secs && r->Ok_0.max_output_bytes == self.max_output
                && r->Ok_0.allow_network == self.allow_network,
    {
        let program = match &self.program {
            Some(p) => p,
            None => {
                return Err(StageOutcome::skipped("tsgo and tsc are not available"));
            },
        };
        let changed = filter_ts(&ctx.files);
        if changed.len() == 0 {
            return Err(StageOutcome::skipped("no TypeScript or JavaScript files changed"));
        }
        let mut args: Vec<String> = Vec::new();
        args.push("--noEmit".to_owned());
        args.push("--pretty".to_owned());
        args.push("false".to_owned());
        let ghost base = crate::diagnostic::strings_view(args@);
        assert(base =~= seq!["--noEmit"@, "--pretty"@, "false"@]);
        if has_project {
            args.push("-p".to_owned());
            args.push("tsconfig.json".to_owned());
            assert(crate::diagnostic::strings_view(args@) =~= seq!["--noEmit"@, "--pretty"@, "false"@, "-p"@, "tsconfig.json"@]);
        } else {
            let mut i: usize = 0;
            while i < changed.len()
                invariant
                    i <= changed.len(),
                    crate::diagnostic::strings_view(args@) == base + crate::diagnostic::strings_view(changed@.take(i as int)),
                decreases changed.len() - i,
            {
                let ghost old_args = args@;
                args.push(changed[i].clone());
                assert(crate::diagnostic::strings_view(args@) =~= crate::diagnostic::strings_view(old_args).push(changed@[i as int]@));
                assert(changed@.take(i + 1) =~= changed@.take(i as int).push(changed@[i as int]));
                assert(crate::diagnostic::strings_view(changed@.take(i + 1)) =~= crate::diagnostic::strings_view(changed@.take(i as int)).push(changed@[i as int]@));
                assert(crate::diagnostic::strings_view(args@) =~= base + crate::diagnostic::strings_view(changed@.take(i + 1)));
                i = i + 1;
            }
            assert(changed@.take(changed.len() as int) =~= changed@);
        }
        let spec = ProcessSpec::new(program.as_str(), ctx.target_root().as_str()).args(args).timeout(
            self.timeout_secs,
        ).max_output_bytes(self.max_output).allow_network(self.allow_network);
        Ok(spec)
    }

    /// Reads the checker's output: any error frame fails the stage, a failing exit without
    /// one fails it with the exit status, otherwise it passes with any warnings.
    pub fn interpret(&self, output: &ProcessOutput) -> (r: Result<StageOutcome, GateError>)
        ensures
            output.timed_out ==> (r matches Err(GateError::Failed { message }) && message@ == timed_out_text("typecheck"@, self.timeout_secs)),
            !output.timed_out ==> r is Ok && ({
                let ds = tsc_diagnostics("typecheck"@, combined_spec(output.stdout@, output.stderr@));
                let o = r->Ok_0;
                if has_error(ds) {
                    o.status == StageStatus::Failed && diagnostics_view(o.diagnostics@) == ds
                } else if output.status != Some(0i32) {
                    o.status == StageStatus::Failed && diagnostics_view(o.diagnostics@) == seq![
                        new_diagnostic_view("typecheck"@, Severity::Error, ""@, 0, 0,
                            "typecheck exited with "@ + status_text(output.status) + ": "@
                                + truncated(trim_seq(combined_spec(output.stdout@, output.stderr@)), 600)),
                    ]
                } else {
                    o.status == StageStatus::Passed && diagnostics_view(o.diagnostics@) == ds
                }
            }),
    {
        if output.timed_out {
            return Err(GateError::Failed { message: timed_out_message("typecheck", self.timeout_secs) });
        }
        let combined = output.combined();
        let diagnostics = parse_all("typecheck", combined.as_str());
        if any_error(&diagnostics) {
            return Ok(StageOutcome::failed(diagnostics));
        }
        if !output.success() {
            let t = string_of(&trim(&chars_of(combined.as_str())));
            let message = truncate(t.as_str(), 600);
            let a = crate::text::cat("typecheck exited with ", status_string(output.status).as_str());
            let b = crate::text::cat(a.as_str(), ": ");
            let text = crate::text::cat(b.as_str(), message.as_str());
            let d = diagnostic("typecheck", Severity::Error, "", 0, 0, text.as_str());
            let ghost dv = d@;
            let mut ds: Vec<Diagnostic> = Vec::new();
            ds.push(d);
            assert(diagnostics_view(ds@) =~= seq![dv]);
            return Ok(StageOutcome::failed(ds));
        }
        Ok(StageOutcome::passed_with(diagnostics))
    }
}

} // verus!
