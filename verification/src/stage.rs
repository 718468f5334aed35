use vstd::prelude::*;

use crate::config::{validate_git_ref, git_ref_problem, GateConfig};
use crate::diagnostic::{diagnostics_view, opt_view, Diagnostic, DiagnosticView, GateKind};
use crate::report::StageStatus;
use crate::text::cat;

verus! {

/// What a gate run looks at.
#[derive(Debug, Clone)]
pub enum Target {
    Staged,
    Worktree(String),
}

pub open spec fn describe_target(t: Target) -> Seq<char> {
    match t {
        Target::Staged => "staged"@,
        Target::Worktree(p) => p@,
    }
}

impl Target {
    pub fn describe(&self) -> (r: String)
        ensures
            r@ == describe_target(*self),
    {
        match self {
            Target::Staged => "staged".to_owned(),
            Target::Worktree(path) => path.clone(),
        }
    }
}

/// Everything a stage needs to know about one gate run.
#[derive(Debug, Clone)]
pub struct GateContext {
    pub repo_root: String,
    pub target: Target,
    pub baseline: Option<String>,
    pub config: GateConfig,
    pub files: Vec<String>,
    pub fix: bool,
}

/// Directory a stage runs in: the repository for staged runs, else the worktree.
pub open spec fn target_root_of(ctx: GateContext) -> Seq<char> {
    match ctx.target {
        Target::Staged => ctx.repo_root@,
        Target::Worktree(p) => p@,
    }
}

impl GateContext {
    /// A context with the default gate configuration, no baseline, no files and no fixing.
    pub fn new(repo_root: &str, target: Target) -> (r: Self)
        ensures
            r.repo_root@ == repo_root@,
            r.target == target,
            r.baseline is None,
            r.files@.len() == 0,
            !r.fix,
            r.config.stage_timeout_secs == 300,
    {
        GateContext {
            repo_root: repo_root.to_owned(),
            target,
            baseline: None,
            config: GateConfig::default(),
            files: Vec::new(),
            fix: false,
        }
    }

    pub fn with_config(self, config: GateConfig) -> (r: Self)
        ensures
            r == (GateContext { config, ..self }),
    {
        GateContext { config, ..self }
    }

    pub fn with_files(self, files: Vec<String>) -> (r: Self)
        ensures
            r == (GateContext { files, ..self }),
    {
        GateContext { files, ..self }
    }

    pub fn with_fix(self, fix: bool) -> (r: Self)
        ensures
            r == (GateContext { fix, ..self }),
    {
        GateContext { fix, ..self }
    }

    pub fn with_baseline(self, baseline: Option<String>) -> (r: Self)
        ensures
            r == (GateContext { baseline, ..self }),
    {
        GateContext { baseline, ..self }
    }

    /// Refuses a baseline ref that git could misread.
    pub fn validate(&self) -> (r: Result<(), GateError>)
        ensures
            match r {
                Ok(()) => self.baseline is None || git_ref_problem(self.baseline->0@) is None,
                Err(GateError::Failed { message }) => self.baseline is Some && git_ref_problem(
                    self.baseline->0@,
                ) == Some(message@),
                Err(_) => false,
            },
    {
        match &self.baseline {
            Some(b) => crate::files::valid_ref(b.as_str()),
            None => Ok(()),
        }
    }

    /// The context of a staged run whose index was written out at `root`: its stages look at
    /// the files there, as a commit would hold them; everything else stays.
    pub fn on_index(self, root: String) -> (r: Self)
        ensures
            r == (GateContext { repo_root: root, ..self }),
    {
        GateContext { repo_root: root, ..self }
    }

    pub fn target_root(&self) -> (r: &String)
        ensures
            r@ == target_root_of(*self),
    {
        match &self.target {
            Target::Staged => &self.repo_root,
            Target::Worktree(p) => p,
        }
    }
}

/// What one stage found.
#[derive(Debug, Clone)]
pub struct StageOutcome {
    pub status: StageStatus,
    pub diagnostics: Vec<Diagnostic>,
    pub skipped_reason: Option<String>,
}

impl StageOutcome {
    pub fn passed() -> (r: Self)
        ensures
            r.status == StageStatus::Passed,
            r.diagnostics@.len() == 0,
            r.skipped_reason is None,
    {
        StageOutcome { status: StageStatus::Passed, diagnostics: Vec::new(), skipped_reason: None }
    }

    /// A pass that still reports (non-blocking) diagnostics.
    pub fn passed_with(diagnostics: Vec<Diagnostic>) -> (r: Self)
        ensures
            r.status == StageStatus::Passed,
            r.diagnostics == diagnostics,
            r.skipped_reason is None,
    {
        StageOutcome { status: StageStatus::Passed, diagnostics, skipped_reason: None }
    }

    pub fn failed(diagnostics: Vec<Diagnostic>) -> (r: Self)
        ensures
            r.status == StageStatus::Failed,
            r.diagnostics == diagnostics,
            r.skipped_reason is None,
    {
        StageOutcome { status: StageStatus::Failed, diagnostics, skipped_reason: None }
    }

    pub fn skipped(reason: &str) -> (r: Self)
        ensures
            r.status == StageStatus::Skipped,
            r.diagnostics@.len() == 0,
            opt_view(r.skipped_reason) == Some(reason@),
    {
        StageOutcome {
            status: StageStatus::Skipped,
            diagnostics: Vec::new(),
            skipped_reason: Some(reason.to_owned()),
        }
    }
}

/// Why a stage could not produce an outcome.
#[derive(Debug)]
pub enum GateError {
    Io(String),
    ToolMissing { tool: String },
    Failed { message: String },
}

pub open spec fn gate_error_text(e: GateError) -> Seq<char> {
    match e {
        GateError::Io(m) => "io error: "@ + m@,
        GateError::ToolMissing { tool } => "required tool not found: "@ + tool@,
        GateError::Failed { message } => "stage failed: "@ + message@,
    }
}

impl GateError {
    /// The human-readable text of the error.
    pub fn text(&self) -> (r: String)
        ensures
            r@ == gate_error_text(*self),
    {
        match self {
            GateError::Io(m) => cat("io error: ", m.as_str()),
            GateError::ToolMissing { tool } => cat("required tool not found: ", tool.as_str()),
            GateError::Failed { message } => cat("stage failed: ", message.as_str()),
        }
    }
}

/// One gate implementation in the pipeline.
pub trait Stage {
    /// The id the stage reports under.
    spec fn stage_id(&self) -> &'static str;

    /// Whether the stage's findings block.
    spec fn stage_kind(&self) -> GateKind;

    /// Whether `r` is a result the stage may give when run in `ctx`.
    spec fn gives(&self, ctx: GateContext, r: Result<StageOutcome, GateError>) -> bool;

    fn id(&self) -> (r: &'static str)
        ensures
            r == self.stage_id(),
    ;

    fn kind(&self) -> (r: GateKind)
        ensures
            r == self.stage_kind(),
    ;

    fn run(&self, ctx: &GateContext) -> (r: Result<StageOutcome, GateError>)
        ensures
            self.gives(*ctx, r),
    ;
}

/// Where the index of a staged run with `id` is written out.
pub open spec fn index_root_of(repo_root: Seq<char>, id: Seq<char>) -> Seq<char> {
    repo_root + "/.heretek/index/"@ + id
}

pub fn index_root(repo_root: &str, id: &str) -> (r: String)
    ensures
        r@ == index_root_of(repo_root@, id@),
{
    let mut r = cat(repo_root, "/.heretek/index/");
    crate::text::push_str(&mut r, id);
    r
}

/// The `git checkout-index` arguments that write every staged file, as the index holds it,
/// below `root`.
pub fn index_checkout_args(root: &str) -> (r: Vec<String>)
    ensures
        crate::diagnostic::strings_view(r@) == seq!["checkout-index"@, "--all"@, "--force"@, "--prefix="@ + root@ + "/"@],
{
    let mut prefix = cat("--prefix=", root);
    crate::text::push_str(&mut prefix, "/");
    let mut r: Vec<String> = Vec::new();
    r.push("checkout-index".to_owned());
    r.push("--all".to_owned());
    r.push("--force".to_owned());
    r.push(prefix);
    assert(crate::diagnostic::strings_view(r@) =~= seq!["checkout-index"@, "--all"@, "--force"@, "--prefix="@ + root@ + "/"@]);
    r
}

} // verus!
