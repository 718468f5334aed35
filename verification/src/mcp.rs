use vstd::prelude::*;

use crate::cli::{absolute_path, absolute_path_of, report_lines, total_old};
use crate::config::{str_eq, HereConfig};
use crate::diagnostic::{strings_view, GateKind};
use crate::report::{total_new, GateReport};
use crate::stage::Target;
use crate::text::{cat, join, joined, push_str, str_owned};

verus! {

/// What the `gate_run` tool was asked to check.
#[derive(Debug)]
pub struct GateRunParams {
    pub target: Option<String>,
    pub path: Option<String>,
    pub baseline: Option<String>,
}

/// Whether the parameters ask for a worktree with a path.
pub open spec fn wants_worktree(p: GateRunParams) -> bool {
    p.target is Some && p.target->0@ == "worktree"@ && p.path is Some
}

/// The target of a `gate_run` call: the worktree at `path` when asked for, else the staged
/// changes.
pub fn run_target(params: &GateRunParams) -> (r: Target)
    ensures
        wants_worktree(*params) ==> (r matches Target::Worktree(p) && p@ == params.path->0@),
        !wants_worktree(*params) ==> r is Staged,
{
    match (&params.target, &params.path) {
        (Some(t), Some(p)) => if str_eq(t.as_str(), "worktree") {
            Target::Worktree(str_owned(p.as_str()))
        } else {
            Target::Staged
        },
        _ => Target::Staged,
    }
}

/// The repository a `gate_run` call works in: the worktree when asked for, below the
/// working directory unless absolute, else the working directory.
pub fn repo_root_for(cwd: &str, params: &GateRunParams) -> (r: String)
    ensures
        wants_worktree(*params) ==> r@ == absolute_path_of(cwd@, params.path->0@),
        !wants_worktree(*params) ==> r@ == cwd@,
{
    match (&params.target, &params.path) {
        (Some(t), Some(p)) => if str_eq(t.as_str(), "worktree") {
            absolute_path(cwd, p.as_str())
        } else {
            str_owned(cwd)
        },
        _ => str_owned(cwd),
    }
}

/// The baseline of a `gate_run` call: the one asked for, else the configured one.
pub fn run_baseline(params: &GateRunParams, config: &HereConfig) -> (r: Option<String>)
    ensures
        crate::diagnostic::opt_view(r) == match params.baseline {
            Some(b) => Some(b@),
            None => crate::diagnostic::opt_view(config.gate.baseline),
        },
{
    match &params.baseline {
        Some(b) => Some(str_owned(b.as_str())),
        None => crate::diagnostic::clone_opt(&config.gate.baseline),
    }
}

/// The label of a stage kind in the stage list.
pub fn kind_label(kind: GateKind) -> (r: &'static str)
    ensures
        r@ == match kind {
            GateKind::Blocking => "blocking"@,
            GateKind::Advisory => "advisory"@,
        },
{
    match kind {
        GateKind::Blocking => "blocking",
        GateKind::Advisory => "advisory",
    }
}

/// The report text of the `report_get` tool.
pub fn render_text(report: &GateReport) -> (r: String)
    requires
        total_new(report@.stages) <= usize::MAX,
        total_old(report@.stages) <= usize::MAX,
    ensures
        r@ == joined(report_lines(report@, false), "\n"@),
{
    join(&crate::cli::text_report(report, false), "\n")
}

/// What `report_get` answers.
#[derive(Debug)]
pub enum ReportReply<'a> {
    Json(&'a GateReport),
    Text(String),
}

/// The server behind the MCP tools; it remembers the last gate report.
pub struct HeretekServer {
    pub cache: Option<GateReport>,
}

/// The message for a format `report_get` does not know.
pub open spec fn unknown_format_text(f: Seq<char>) -> Seq<char> {
    "unknown format \""@ + f + "\"; expected \"text\" or \"json\""@
}

impl HeretekServer {
    pub fn new() -> (r: Self)
        ensures
            r.cache is None,
    {
        HeretekServer { cache: None }
    }

    /// Keeps the report of the latest `gate_run`.
    pub fn remember(&mut self, report: GateReport)
        ensures
            final(self).cache == Some(report),
    {
        self.cache = Some(report);
    }

    /// The answer of `report_get` in the format asked for (JSON when none is given).
    pub fn report_get(&self, format: Option<&str>) -> (r: Result<ReportReply<'_>, String>)
        requires
            self.cache matches Some(rep) ==> total_new(rep@.stages) <= usize::MAX && total_old(rep@.stages) <= usize::MAX,
        ensures
            self.cache is None ==> (r matches Err(m) && m@ == "no gate report cached; run gate_run first"@),
            self.cache matches Some(rep) ==> match format {
                None => r matches Ok(ReportReply::Json(x)) && *x == rep,
                Some(f) => if f@ == "json"@ {
                    r matches Ok(ReportReply::Json(x)) && *x == rep
                } else if f@ == "text"@ {
                    r matches Ok(ReportReply::Text(t)) && t@ == joined(report_lines(rep@, false), "\n"@)
                } else {
                    r matches Err(m) && m@ == unknown_format_text(f@)
                },
            },
    {
        let report = match &self.cache {
            Some(r) => r,
            None => return Err(str_owned("no gate report cached; run gate_run first")),
        };
        let f = match format {
            Some(f) => f,
            None => return Ok(ReportReply::Json(report)),
        };
        if str_eq(f, "json") {
            Ok(ReportReply::Json(report))
        } else if str_eq(f, "text") {
            Ok(ReportReply::Text(render_text(report)))
        } else {
            let mut m = cat("unknown format \"", f);
            push_str(&mut m, "\"; expected \"text\" or \"json\"");
            Err(m)
        }
    }
}

} // verus!
