use vstd::prelude::*;

use crate::agent::session::SessionOutcome;
use crate::config::HereConfig;
use crate::diagnostic::{diagnostics_view, severity_name, strings_view, DiagnosticView};
use crate::report::{stages_view, total_new, GateReport, StageReportView, StageStatus};
use crate::stage::Target;
use crate::stages::util::truncated;
use crate::text::{cat, decimal, decimal_string, push_str, starts_with_seq, str_owned, string_of, trim_seq, trim_str};

verus! {

/// Exit status for a passing run.
pub const EXIT_PASS: u8 = 0;
/// Exit status for a blocked change.
pub const EXIT_BLOCKED: u8 = 1;
/// Exit status for a usage or configuration problem.
pub const EXIT_USAGE: u8 = 2;
/// Exit status for an internal failure.
pub const EXIT_INTERNAL: u8 = 3;

/// How a gate report is printed.
#[derive(Debug, Clone, Copy, PartialEq, Eq, Structural)]
pub enum OutputFormat {
    Text,
    Json,
}

/// `heretek apply PATH`.
#[derive(Debug)]
pub struct ApplyArgs {
    pub path: String,
}

/// `heretek run TASK`.
#[derive(Debug)]
pub struct RunArgs {
    pub task: String,
    pub lane: Option<String>,
    pub max_turns: Option<u32>,
    pub apply: bool,
}

/// `heretek gate`.
#[derive(Debug)]
pub struct GateArgs {
    pub staged: bool,
    pub worktree: Option<String>,
    pub baseline: Option<String>,
    pub format: OutputFormat,
    pub fix: bool,
}

/// `heretek doctor`.
#[derive(Debug)]
pub struct DoctorArgs {
    pub models: bool,
}

/// `heretek init`.
#[derive(Debug)]
pub struct InitArgs {
    pub print: bool,
    pub force: bool,
    pub lefthook: bool,
}

/// A path below `base` unless it is absolute.
pub open spec fn absolute_path_of(base: Seq<char>, path: Seq<char>) -> Seq<char> {
    if starts_with_seq(path, "/"@) {
        path
    } else {
        base + "/"@ + path
    }
}

pub fn absolute_path(base: &str, path: &str) -> (r: String)
    ensures
        r@ == absolute_path_of(base@, path@),
{
    crate::stages::ast_grep::configured_rules_path(base, path)
}

/// What `heretek gate` checks: the worktree given, below the repository unless absolute,
/// else the staged changes.
pub fn gate_target(args: &GateArgs, repo_root: &str) -> (r: Target)
    ensures
        match args.worktree {
            Some(p) => r matches Target::Worktree(t) && t@ == absolute_path_of(repo_root@, p@),
            None => r is Staged,
        },
{
    match &args.worktree {
        Some(p) => Target::Worktree(absolute_path(repo_root, p.as_str())),
        None => Target::Staged,
    }
}

/// The baseline of a gate run: the one asked for, else the configured one.
pub fn gate_baseline(args: &GateArgs, config: &HereConfig) -> (r: Option<String>)
    ensures
        crate::diagnostic::opt_view(r) == match args.baseline {
            Some(b) => Some(b@),
            None => crate::diagnostic::opt_view(config.gate.baseline),
        },
{
    match &args.baseline {
        Some(b) => Some(str_owned(b.as_str())),
        None => crate::diagnostic::clone_opt(&config.gate.baseline),
    }
}

/// The exit status of `heretek gate`: a pass needs a passing report that counts as evidence,
/// that is one where a blocking stage ran, or where nothing gateable changed.
pub fn gate_exit_code(report: &GateReport, changed_files: &Vec<String>) -> (r: u8)
    ensures
        r == if report.passed && crate::verify::verification_of(report@, changed_files@)
            != crate::verify::Verification::Unverified {
            EXIT_PASS
        } else {
            EXIT_BLOCKED
        },
{
    if report.passed && crate::verify::is_verified(report, changed_files) { EXIT_PASS } else { EXIT_BLOCKED }
}

/// The exit status of `heretek run`: a pass needs a finished session whose final gate passed.
pub fn run_exit_code(finished: bool, passed: bool) -> (r: u8)
    ensures
        r == if finished && passed { EXIT_PASS } else { EXIT_BLOCKED },
{
    if finished && passed { EXIT_PASS } else { EXIT_BLOCKED }
}

/// A stage status as the text report names it.
pub open spec fn status_word_of(s: StageStatus) -> Seq<char> {
    match s {
        StageStatus::Passed => "passed"@,
        StageStatus::Failed => "failed"@,
        StageStatus::Skipped => "skipped"@,
    }
}

pub fn status_word(s: StageStatus) -> (r: &'static str)
    ensures
        r@ == status_word_of(s),
{
    match s {
        StageStatus::Passed => "passed",
        StageStatus::Failed => "failed",
        StageStatus::Skipped => "skipped",
    }
}

/// How many diagnostics a baseline already had.
pub open spec fn count_old(ds: Seq<DiagnosticView>) -> nat
    decreases ds.len(),
{
    if ds.len() == 0 {
        0
    } else {
        count_old(ds.drop_last()) + if ds.last().is_new { 0nat } else { 1nat }
    }
}

pub open spec fn total_old(stages: Seq<StageReportView>) -> nat
    decreases stages.len(),
{
    if stages.len() == 0 {
        0
    } else {
        total_old(stages.drop_last()) + count_old(stages.last().diagnostics)
    }
}

/// The line of one diagnostic in the text report.
pub open spec fn diagnostic_line(d: DiagnosticView, with_marker: bool) -> Seq<char> {
    "      "@ + d.file + ":"@ + decimal(d.line as nat) + ":"@ + decimal(d.column as nat) + " "@ + severity_name(d.severity)
        + (if with_marker {
            " ["@ + (if d.is_new { "new"@ } else { "baseline"@ }) + "]"@
        } else {
            Seq::empty()
        }) + " "@ + d.message
}

/// The lines of one stage in the text report.
pub open spec fn stage_lines(s: StageReportView, full: bool) -> Seq<Seq<char>> {
    let head = seq!["  ["@ + status_word_of(s.status) + "] "@ + s.id + " ("@ + decimal(s.duration_ms as nat) + " ms)"@];
    let skip = if full {
        match s.skipped_reason {
            Some(r) => seq!["      skipped: "@ + r],
            None => Seq::empty(),
        }
    } else {
        Seq::empty()
    };
    head + skip + s.diagnostics.map_values(|d: DiagnosticView| diagnostic_line(d, full))
}

pub open spec fn stages_lines(stages: Seq<StageReportView>, full: bool) -> Seq<Seq<char>>
    decreases stages.len(),
{
    if stages.len() == 0 {
        Seq::empty()
    } else {
        stages_lines(stages.drop_last(), full) + stage_lines(stages.last(), full)
    }
}

/// The text report of `heretek gate` (`full`: with skip reasons, new/baseline markers and
/// the baseline count) or of the MCP `report_get` tool.
pub open spec fn report_lines(r: crate::report::GateReportView, full: bool) -> Seq<Seq<char>> {
    seq!["heretek gate: "@ + r.target] + stages_lines(r.stages, full)
        + r.warnings.map_values(|w: Seq<char>| "warning: "@ + w)
        + seq!["summary: "@ + decimal(r.blocking_failures) + " blocking failure(s), "@ + decimal(total_new(r.stages))
            + " new diagnostic(s)"@ + if full {
                ", "@ + decimal(total_old(r.stages)) + " baseline diagnostic(s)"@
            } else {
                Seq::empty()
            }]
}

fn diagnostic_text(d: &crate::diagnostic::Diagnostic, with_marker: bool) -> (r: String)
    ensures
        r@ == diagnostic_line(d@, with_marker),
{
    let mut s = cat("      ", d.file.as_str());
    push_str(&mut s, ":");
    push_str(&mut s, decimal_string(d.line as u64).as_str());
    push_str(&mut s, ":");
    push_str(&mut s, decimal_string(d.column as u64).as_str());
    push_str(&mut s, " ");
    push_str(&mut s, d.severity.as_str());
    if with_marker {
        push_str(&mut s, " [");
        push_str(&mut s, if d.is_new { "new" } else { "baseline" });
        push_str(&mut s, "]");
    }
    push_str(&mut s, " ");
    push_str(&mut s, d.message.as_str());
    s
}

fn stage_text(stage: &crate::report::StageReport, full: bool, out: &mut Vec<String>)
    ensures
        strings_view(final(out)@) == strings_view(old(out)@) + stage_lines(stage@, full),
{
    let ghost start = strings_view(out@);
    let mut head = cat("  [", status_word(stage.status));
    push_str(&mut head, "] ");
    push_str(&mut head, stage.id.as_str());
    push_str(&mut head, " (");
    push_str(&mut head, decimal_string(stage.duration_ms).as_str());
    push_str(&mut head, " ms)");
    out.push(head);
    let ghost with_head = strings_view(out@);
    if full {
        match &stage.skipped_reason {
            Some(r) => {
                out.push(cat("      skipped: ", r.as_str()));
            },
            None => {},
        }
    }
    let ghost base = strings_view(out@);
    let ghost lines = diagnostics_view(stage.diagnostics@).map_values(|d: DiagnosticView| diagnostic_line(d, full));
    let mut i: usize = 0;
    while i < stage.diagnostics.len()
        invariant
            i <= stage.diagnostics.len(),
            lines == diagnostics_view(stage.diagnostics@).map_values(|d: DiagnosticView| diagnostic_line(d, full)),
            strings_view(out@) == base + lines.take(i as int),
        decreases stage.diagnostics.len() - i,
    {
        let line = diagnostic_text(&stage.diagnostics[i], full);
        let ghost before = out@;
        out.push(line);
        assert(strings_view(out@) =~= strings_view(before).push(lines[i as int]));
        assert(lines.take(i + 1) =~= lines.take(i as int).push(lines[i as int]));
        i = i + 1;
    }
    assert(lines.take(stage.diagnostics.len() as int) =~= lines);
    assert(strings_view(out@) =~= start + stage_lines(stage@, full));
}

fn count_old_exec(ds: &Vec<crate::diagnostic::Diagnostic>) -> (r: usize)
    ensures
        r == count_old(diagnostics_view(ds@)),
{
    let mut n: usize = 0;
    let mut i: usize = 0;
    while i < ds.len()
        invariant
            i <= ds.len(),
            n <= i,
            n == count_old(diagnostics_view(ds@.take(i as int))),
        decreases ds.len() - i,
    {
        assert(diagnostics_view(ds@.take(i + 1)).drop_last() =~= diagnostics_view(ds@.take(i as int)));
        if !ds[i].is_new {
            n = n + 1;
        }
        i = i + 1;
    }
    assert(ds@.take(ds.len() as int) =~= ds@);
    n
}

proof fn lemma_total_old_prefix(stages: Seq<StageReportView>, k: int)
    requires
        0 <= k <= stages.len(),
    ensures
        total_old(stages.subrange(0, k)) <= total_old(stages),
    decreases stages.len(),
{
    if k < stages.len() {
        lemma_total_old_prefix(stages.drop_last(), k);
        assert(stages.drop_last().subrange(0, k) =~= stages.subrange(0, k));
    } else {
        assert(stages.subrange(0, k) =~= stages);
    }
}

fn total_old_exec(report: &GateReport) -> (r: usize)
    requires
        total_old(report@.stages) <= usize::MAX,
    ensures
        r == total_old(report@.stages),
{
    let mut n: usize = 0;
    let mut i: usize = 0;
    while i < report.stages.len()
        invariant
            i <= report.stages.len(),
            total_old(report@.stages) <= usize::MAX,
            n == total_old(stages_view(report.stages@.subrange(0, i as int))),
        decreases report.stages.len() - i,
    {
        assert(stages_view(report.stages@.subrange(0, i + 1)).drop_last() =~= stages_view(report.stages@.subrange(0, i as int)));
        proof {
            lemma_total_old_prefix(report@.stages, i + 1);
            assert(stages_view(report.stages@.subrange(0, i + 1)) =~= report@.stages.subrange(0, i + 1));
        }
        let c = count_old_exec(&report.stages[i].diagnostics);
        n = n + c;
        i = i + 1;
    }
    assert(report.stages@.subrange(0, report.stages.len() as int) =~= report.stages@);
    n
}

/// The lines of a text report (see `report_lines`).
pub fn text_report(report: &GateReport, full: bool) -> (r: Vec<String>)
    requires
        total_new(report@.stages) <= usize::MAX,
        total_old(report@.stages) <= usize::MAX,
    ensures
        strings_view(r@) == report_lines(report@, full),
{
    let mut out: Vec<String> = Vec::new();
    out.push(cat("heretek gate: ", report.target.as_str()));
    let ghost head = strings_view(out@);
    let mut i: usize = 0;
    while i < report.stages.len()
        invariant
            i <= report.stages.len(),
            strings_view(out@) == head + stages_lines(stages_view(report.stages@.take(i as int)), full),
        decreases report.stages.len() - i,
    {
        assert(stages_view(report.stages@.take(i + 1)).drop_last() =~= stages_view(report.stages@.take(i as int)));
        stage_text(&report.stages[i], full, &mut out);
        i = i + 1;
    }
    assert(report.stages@.take(report.stages.len() as int) =~= report.stages@);
    let ghost mid = strings_view(out@);
    let ghost ws = strings_view(report.warnings@).map_values(|w: Seq<char>| "warning: "@ + w);
    let mut j: usize = 0;
    while j < report.warnings.len()
        invariant
            j <= report.warnings.len(),
            ws == strings_view(report.warnings@).map_values(|w: Seq<char>| "warning: "@ + w),
            strings_view(out@) == mid + ws.take(j as int),
        decreases report.warnings.len() - j,
    {
        let line = cat("warning: ", report.warnings[j].as_str());
        let ghost before = out@;
        out.push(line);
        assert(strings_view(out@) =~= strings_view(before).push(ws[j as int]));
        assert(ws.take(j + 1) =~= ws.take(j as int).push(ws[j as int]));
        j = j + 1;
    }
    assert(ws.take(report.warnings.len() as int) =~= ws);
    let mut summary = cat("summary: ", decimal_string(report.blocking_failures as u64).as_str());
    push_str(&mut summary, " blocking failure(s), ");
    push_str(&mut summary, decimal_string(report.new_diagnostic_count() as u64).as_str());
    push_str(&mut summary, " new diagnostic(s)");
    if full {
        push_str(&mut summary, ", ");
        push_str(&mut summary, decimal_string(total_old_exec(report) as u64).as_str());
        push_str(&mut summary, " baseline diagnostic(s)");
    }
    let ghost before = out@;
    out.push(summary);
    assert(strings_view(out@) =~= strings_view(before).push(summary@));
    assert(stages_view(report.stages@) == report@.stages);
    assert(strings_view(report.warnings@) == report@.warnings);
    assert(summary@ =~= "summary: "@ + decimal(report@.blocking_failures) + " blocking failure(s), "@
        + decimal(total_new(report@.stages)) + " new diagnostic(s)"@ + if full {
            ", "@ + decimal(total_old(report@.stages)) + " baseline diagnostic(s)"@
        } else {
            Seq::empty()
        });
    assert(strings_view(out@) =~= report_lines(report@, full));
    out
}

/// The lines `heretek run` prints about a finished session; `verified` says whether a
/// blocking stage ran in the final gate.
pub open spec fn run_lines(o: SessionOutcome) -> Seq<Seq<char>> {
    seq![
        "heretek run: "@ + decimal(o.turns as nat) + " turn(s)"@,
        "  tokens: "@ + decimal(o.usage.prompt_tokens as nat) + " prompt, "@ + decimal(o.usage.completion_tokens as nat)
            + " completion, "@ + decimal(match o.usage.cached_tokens {
                Some(c) => c as nat,
                None => 0nat,
            }) + " cached"@,
        "  shadow: "@ + o.shadow_path@,
        "  events: "@ + o.events_path@,
    ] + (if o.escalated {
        seq!["  escalated to the deep lane during the session"@]
    } else {
        Seq::empty()
    }) + (if o.summary@.len() > 0 {
        seq!["  summary: "@ + o.summary@]
    } else {
        Seq::empty()
    }) + seq![
        "  final gate: "@ + (if o.passed { "passed"@ } else { "failed"@ }) + " (verification: "@ + (if o.verified {
            "at least one blocking stage ran"@
        } else {
            "no blocking stage ran; treat as unverified"@
        }) + ")"@,
    ]
}

pub fn run_summary(o: &SessionOutcome) -> (r: Vec<String>)
    ensures
        strings_view(r@) == run_lines(*o),
{
    let mut out: Vec<String> = Vec::new();
    let mut a = cat("heretek run: ", decimal_string(o.turns as u64).as_str());
    push_str(&mut a, " turn(s)");
    out.push(a);
    let mut b = cat("  tokens: ", decimal_string(o.usage.prompt_tokens).as_str());
    push_str(&mut b, " prompt, ");
    push_str(&mut b, decimal_string(o.usage.completion_tokens).as_str());
    push_str(&mut b, " completion, ");
    let cached: u64 = match o.usage.cached_tokens {
        Some(c) => c,
        None => 0,
    };
    push_str(&mut b, decimal_string(cached).as_str());
    push_str(&mut b, " cached");
    out.push(b);
    out.push(cat("  shadow: ", o.shadow_path.as_str()));
    out.push(cat("  events: ", o.events_path.as_str()));
    let ghost first = strings_view(out@);
    if o.escalated {
        out.push(str_owned("  escalated to the deep lane during the session"));
    }
    if !o.summary.as_str().is_empty() {
        out.push(cat("  summary: ", o.summary.as_str()));
    }
    let mut last = cat("  final gate: ", if o.passed { "passed" } else { "failed" });
    push_str(&mut last, " (verification: ");
    push_str(&mut last, if o.verified { "at least one blocking stage ran" } else { "no blocking stage ran; treat as unverified" });
    push_str(&mut last, ")");
    out.push(last);
    assert(strings_view(out@) =~= run_lines(*o));
    out
}

/// The tools `heretek doctor` looks for, and whether each is required.
pub open spec fn doctor_tools() -> Seq<(&'static str, bool)> {
    seq![
        ("git", true),
        ("cargo", false),
        ("node", false),
        ("pnpm", false),
        ("tsgo", false),
        ("biome", false),
        ("vitest", false),
        ("ast-grep", false),
        ("semgrep", false),
        ("knip", false),
        ("osv-scanner", false),
        ("llama-server", false),
    ]
}

pub fn doctor_tool_list() -> (r: Vec<(&'static str, bool)>)
    ensures
        r@ == doctor_tools(),
{
    vec![
        ("git", true),
        ("cargo", false),
        ("node", false),
        ("pnpm", false),
        ("tsgo", false),
        ("biome", false),
        ("vitest", false),
        ("ast-grep", false),
        ("semgrep", false),
        ("knip", false),
        ("osv-scanner", false),
        ("llama-server", false),
    ]
}

/// Index of the first line that is not blank.
pub open spec fn first_nonblank_spec(lines: Seq<Seq<char>>) -> Option<int> {
    if exists|i: int| 0 <= i < lines.len() && trim_seq(lines[i]).len() > 0 {
        Some(choose|i: int| 0 <= i < lines.len() && trim_seq(lines[i]).len() > 0
            && forall|k: int| 0 <= k < i ==> trim_seq(lines[k]).len() == 0)
    } else {
        None
    }
}

/// The first non-blank line, trimmed, of a tool's `--version` output (standard output
/// first), cut to 64 characters.
pub open spec fn version_line_of(stdout: Seq<char>, stderr: Seq<char>) -> Option<Seq<char>> {
    let lines = crate::stages::util::lines_spec(stdout) + crate::stages::util::lines_spec(stderr);
    match first_nonblank_spec(lines) {
        Some(i) => Some(truncated(trim_seq(lines[i]), 64)),
        None => None,
    }
}

proof fn lemma_first_nonblank(lines: Seq<Seq<char>>, i: int)
    requires
        0 <= i < lines.len(),
        trim_seq(lines[i]).len() > 0,
        forall|k: int| 0 <= k < i ==> trim_seq(#[trigger] lines[k]).len() == 0,
    ensures
        first_nonblank_spec(lines) == Some(i),
{
    let c = choose|c: int| 0 <= c < lines.len() && trim_seq(lines[c]).len() > 0
        && forall|k: int| 0 <= k < c ==> trim_seq(lines[k]).len() == 0;
    if c < i {
        assert(trim_seq(lines[c]).len() == 0);
    }
    if c > i {
        assert(trim_seq(lines[i]).len() == 0);
    }
}

fn first_nonblank(lines: &Vec<Vec<char>>) -> (r: Option<usize>)
    ensures
        match r {
            Some(i) => i < lines@.len() && trim_seq(lines@[i as int]@).len() > 0
                && forall|k: int| 0 <= k < i ==> trim_seq(#[trigger] lines@[k]@).len() == 0,
            None => forall|k: int| 0 <= k < lines@.len() ==> trim_seq(#[trigger] lines@[k]@).len() == 0,
        },
{
    let mut i: usize = 0;
    while i < lines.len()
        invariant
            i <= lines.len(),
            forall|k: int| 0 <= k < i ==> trim_seq(#[trigger] lines@[k]@).len() == 0,
        decreases lines.len() - i,
    {
        if crate::text::trim(&lines[i]).len() > 0 {
            return Some(i);
        }
        i = i + 1;
    }
    None
}

pub fn version_line(stdout: &str, stderr: &str) -> (r: Option<String>)
    ensures
        match r {
            Some(v) => version_line_of(stdout@, stderr@) == Some(v@),
            None => version_line_of(stdout@, stderr@) is None,
        },
{
    let mut all = crate::stages::util::lines_of(&crate::text::chars_of(stdout));
    let mut b = crate::stages::util::lines_of(&crate::text::chars_of(stderr));
    let ghost la = crate::stages::util::lines_spec(stdout@);
    let ghost lb = crate::stages::util::lines_spec(stderr@);
    let ghost lines = la + lb;
    let ghost a0 = all@;
    let ghost b0 = b@;
    all.append(&mut b);
    proof {
        assert(all@ == a0 + b0);
        assert forall|k: int| 0 <= k < all@.len() implies (#[trigger] all@[k])@ == lines[k] by {
            if k < a0.len() {
                assert(all@[k] == a0[k]);
            } else {
                assert(all@[k] == b0[k - a0.len()]);
            }
        }
        assert(all@.len() == lines.len());
    }
    match first_nonblank(&all) {
        Some(i) => {
            let t = string_of(&crate::text::trim(&all[i]));
            proof {
                assert(lines[i as int] == all@[i as int]@);
                assert forall|k: int| 0 <= k < i implies trim_seq(#[trigger] lines[k]).len() == 0 by {
                    assert(lines[k] == all@[k]@);
                }
                lemma_first_nonblank(lines, i as int);
            }
            Some(crate::stages::util::truncate(t.as_str(), 64))
        },
        None => {
            proof {
                assert forall|c: int| 0 <= c < lines.len() implies trim_seq(lines[c]).len() == 0 by {
                    assert(lines[c] == all@[c]@);
                }
            }
            None
        },
    }
}

/// The text padded with spaces on the right to `width` characters.
pub open spec fn pad_right(s: Seq<char>, width: nat) -> Seq<char> {
    if s.len() >= width {
        s
    } else {
        s + Seq::new((width - s.len()) as nat, |i: int| ' ')
    }
}

fn pad(s: &str, width: usize) -> (r: String)
    ensures
        r@ == pad_right(s@, width as nat),
{
    let n = crate::text::chars_of(s).len();
    if n >= width {
        return str_owned(s);
    }
    let mut spaces: Vec<char> = Vec::new();
    let mut i: usize = 0;
    while i < width - n
        invariant
            n < width,
            i <= width - n,
            spaces@ == Seq::new(i as nat, |k: int| ' '),
        decreases width - n - i,
    {
        spaces.push(' ');
        assert(spaces@ =~= Seq::new((i + 1) as nat, |k: int| ' '));
        i = i + 1;
    }
    cat(s, string_of(&spaces).as_str())
}

/// The doctor's line for one tool.
pub open spec fn doctor_line_of(name: Seq<char>, required: bool, version: Option<Seq<char>>) -> Seq<char> {
    "  "@ + pad_right(name, 14) + " "@ + pad_right(if required { "required"@ } else { "optional"@ }, 9) + " "@
        + match version {
            Some(v) => v,
            None => if required { "missing"@ } else { "not found"@ },
        }
}

pub fn doctor_line(name: &str, required: bool, version: Option<&str>) -> (r: String)
    ensures
        r@ == doctor_line_of(name@, required, match version {
            Some(v) => Some(v@),
            None => None,
        }),
{
    let mut s = cat("  ", pad(name, 14).as_str());
    push_str(&mut s, " ");
    push_str(&mut s, pad(if required { "required" } else { "optional" }, 9).as_str());
    push_str(&mut s, " ");
    match version {
        Some(v) => push_str(&mut s, v),
        None => push_str(&mut s, if required { "missing" } else { "not found" }),
    }
    s
}

/// The exit status of `heretek doctor`: 2 when a required tool is missing.
pub fn doctor_exit_code(missing_required: bool) -> (r: u8)
    ensures
        r == if missing_required { 2u8 } else { 0u8 },
{
    if missing_required { 2 } else { 0 }
}

/// The hook snippet `heretek init` writes or prints.
pub const LEFTHOOK_SNIPPET: &'static str = "pre-commit:\n  commands:\n    heretek:\n      run: heretek gate --staged --format text\n\npre-push:\n  commands:\n    heretek:\n      run: heretek gate --baseline origin/main --format text\n";

/// The starter configuration `heretek init` writes.
pub const CONFIG_TEMPLATE: &'static str = "# Heretek configuration.\n\n[gate]\n# Baseline ref for diff-aware blocking. Only new diagnostics block.\n# baseline = \"origin/main\"\nstage_timeout_secs = 300\n# allow_network = false\n# stages.tests = false\n\n[agent]\nmax_turns = 40\nmax_wall_secs = 1800\n\n# Any OpenAI-compatible endpoint works.\n[models.fast]\nlane = \"fast\"\nbase_url = \"http://127.0.0.1:8080/v1\"\nmodel = \"qwen3.6-35b-a3b\"\ncontext_tokens = 32768\n\n# [models.deep]\n# lane = \"deep\"\n# base_url = \"http://127.0.0.1:8080/v1\"\n# model = \"qwen3.6-122b-a10b\"\n# context_tokens = 131072\n";

/// Whether `heretek init` writes a file: when it does not exist yet, or when forced.
pub fn should_write(present: bool, force: bool) -> (r: bool)
    ensures
        r == (!present || force),
{
    !present || force
}

} // verus!
