use vstd::prelude::*;

use crate::stages::{stage_kind, stage_name, StageId};

use crate::config::{str_eq, GateConfig};
use crate::diagnostic::{diagnostics_view, new_diagnostic_view, strings_view, Diagnostic, DiagnosticView, GateKind, Severity};
use crate::json::{get_opt, json_array, json_get, json_get_opt, json_str, json_u64, str_opt, u64_opt, JsonValue};
use crate::process::{combined_spec, ProcessOutput, ProcessSpec};
use crate::report::StageStatus;
use crate::stage::{target_root_of, GateContext, GateError, StageOutcome};
use crate::stages::format::str_or_empty;
use crate::stages::util::{diagnostic, exited_text, output_json, output_json_spec, timed_out_text, truncate, truncated};
use crate::text::str_owned;

verus! {

/// Secret scanning with semgrep's secrets rules (advisory).
pub struct SecretsStage {
    pub program: Option<String>,
    pub timeout_secs: u64,
    pub max_output: usize,
    pub allow_network: bool,
}

/// Static analysis with semgrep's default rules (advisory).
pub struct SastStage {
    pub program: Option<String>,
    pub timeout_secs: u64,
    pub max_output: usize,
    pub allow_network: bool,
}

/// The semgrep config to scan with: the configured one, else a config file of the
/// repository (`local`, the first of `semgrep.yml` and `.semgrep.yml` that is a file), else
/// the registry rules when the network may be used.
pub open spec fn semgrep_config_of(config: GateConfig, local: Option<Seq<char>>, registry: Seq<char>) -> Option<Seq<char>> {
    match config.semgrep_config {
        Some(c) => Some(c@),
        None => match local {
            Some(l) => Some(l),
            None => if config.allow_network {
                Some(registry)
            } else {
                None
            },
        },
    }
}

pub fn resolve_config(config: &GateConfig, local: Option<String>, registry: &str) -> (r: Option<String>)
    ensures
        match r {
            Some(c) => semgrep_config_of(*config, match local {
                Some(l) => Some(l@),
                None => None,
            }, registry@) == Some(c@),
            None => semgrep_config_of(*config, match local {
                Some(l) => Some(l@),
                None => None,
            }, registry@) is None,
        },
{
    match &config.semgrep_config {
        Some(c) => Some(str_owned(c.as_str())),
        None => match local {
            Some(l) => Some(l),
            None => if config.allow_network {
                Some(str_owned(registry))
            } else {
                None
            },
        },
    }
}

/// The frame for one semgrep result of stage `gate`.
pub open spec fn result_frame(gate: Seq<char>, e: JsonValue) -> DiagnosticView {
    let start = json_get(e, "start"@);
    let extra = json_get(e, "extra"@);
    let line: u32 = match json_u64(json_get_opt(start, "line"@)) {
        Some(v) => v as u32,
        None => 0,
    };
    let column: u32 = match json_u64(json_get_opt(start, "col"@)) {
        Some(v) => v as u32,
        None => 0,
    };
    let severity = if json_str(json_get_opt(extra, "severity"@)) == Some("INFO"@) {
        Severity::Note
    } else {
        Severity::Warning
    };
    let d = new_diagnostic_view(
        gate,
        severity,
        str_or_empty(json_str(json_get(e, "path"@))),
        line,
        column,
        truncated(str_or_empty(json_str(json_get_opt(extra, "message"@))), 800),
    );
    match json_str(json_get(e, "check_id"@)) {
        Some(c) => DiagnosticView { code: Some(c), ..d },
        None => d,
    }
}

pub open spec fn result_frames(gate: Seq<char>, v: JsonValue) -> Seq<DiagnosticView> {
    match json_array(json_get(v, "results"@)) {
        Some(items) => items.map_values(|e: JsonValue| result_frame(gate, e)),
        None => Seq::empty(),
    }
}

fn u32_of(v: Option<u64>) -> (r: u32)
    ensures
        r == match v {
            Some(n) => n as u32,
            None => 0u32,
        },
{
    match v {
        Some(n) => n as u32,
        None => 0,
    }
}

fn result_diagnostic(gate: &str, e: &JsonValue) -> (r: Diagnostic)
    ensures
        r@ == result_frame(gate@, *e),
{
    proof {
        reveal_strlit("");
        assert(""@ =~= Seq::<char>::empty());
    }
    let start = e.get("start");
    let extra = e.get("extra");
    let line = u32_of(u64_opt(get_opt(start, "line")));
    let column = u32_of(u64_opt(get_opt(start, "col")));
    let severity = match str_opt(get_opt(extra, "severity")) {
        Some(s) => if str_eq(s.as_str(), "INFO") {
            Severity::Note
        } else {
            Severity::Warning
        },
        None => Severity::Warning,
    };
    let file: &str = match str_opt(e.get("path")) {
        Some(f) => f.as_str(),
        None => "",
    };
    let message: &str = match str_opt(get_opt(extra, "message")) {
        Some(m) => m.as_str(),
        None => "",
    };
    let text = truncate(message, 800);
    let mut d = diagnostic(gate, severity, file, line, column, text.as_str());
    match str_opt(e.get("check_id")) {
        Some(c) => {
            d.code = Some(str_owned(c.as_str()));
        },
        None => {},
    }
    d
}

pub fn result_diagnostics(gate: &str, value: &JsonValue) -> (r: Vec<Diagnostic>)
    ensures
        diagnostics_view(r@) == result_frames(gate@, *value),
{
    let mut out: Vec<Diagnostic> = Vec::new();
    let items = match crate::json::array_opt(value.get("results")) {
        Some(items) => items,
        None => {
            assert(diagnostics_view(out@) =~= result_frames(gate@, *value));
            return out;
        },
    };
    let ghost want = items@.map_values(|e: JsonValue| result_frame(gate@, e));
    let mut i: usize = 0;
    while i < items.len()
        invariant
            i <= items.len(),
            want == items@.map_values(|e: JsonValue| result_frame(gate@, e)),
            diagnostics_view(out@) == want.take(i as int),
        decreases items.len() - i,
    {
        let d = result_diagnostic(gate, &items[i]);
        let ghost before = out@;
        out.push(d);
        assert(diagnostics_view(out@) =~= diagnostics_view(before).push(want[i as int]));
        assert(want.take(i + 1) =~= want.take(i as int).push(want[i as int]));
        i = i + 1;
    }
    assert(want.take(items.len() as int) =~= want);
    out
}

/// What a semgrep stage runs, or why it skips.
pub open spec fn semgrep_plan_ok(program: Option<String>, ctx: GateContext, config: Option<Seq<char>>, timeout_secs: u64,
    max_output: usize, allow_network: bool, r: Result<ProcessSpec, StageOutcome>) -> bool {
    if program is None {
        r is Err && r->Err_0.status == StageStatus::Skipped
            && crate::diagnostic::opt_view(r->Err_0.skipped_reason) == Some("semgrep not found"@)
    } else if ctx.files@.len() == 0 {
        r is Err && r->Err_0.status == StageStatus::Skipped
            && crate::diagnostic::opt_view(r->Err_0.skipped_reason) == Some("no changed files"@)
    } else if config is None {
        r is Err && r->Err_0.status == StageStatus::Skipped
            && crate::diagnostic::opt_view(r->Err_0.skipped_reason) == Some("no semgrep config and registry access requires network"@)
    } else {
        r is Ok && r->Ok_0.program@ == program->0@ && r->Ok_0.cwd@ == target_root_of(ctx)
            && strings_view(r->Ok_0.args@) == seq!["scan"@, "--json"@, "--quiet"@, "--metrics=off"@,
                "--disable-version-check"@, "--config"@, config->0] + strings_view(ctx.files@)
            && r->Ok_0.timeout_secs == timeout_secs && r->Ok_0.max_output_bytes == max_output
            && r->Ok_0.allow_network == allow_network
    }
}

fn semgrep_plan(program: &Option<String>, ctx: &GateContext, config: Option<String>, timeout_secs: u64,
    max_output: usize, allow_network: bool) -> (r: Result<ProcessSpec, StageOutcome>)
    ensures
        semgrep_plan_ok(*program, *ctx, match config {
            Some(c) => Some(c@),
            None => None,
        }, timeout_secs, max_output, allow_network, r),
{
    let program = match program {
        Some(p) => p,
        None => return Err(StageOutcome::skipped("semgrep not found")),
    };
    if ctx.files.len() == 0 {
        return Err(StageOutcome::skipped("no changed files"));
    }
    let config = match config {
        Some(c) => c,
        None => return Err(StageOutcome::skipped("no semgrep config and registry access requires network")),
    };
    let mut args: Vec<String> = Vec::new();
    args.push(str_owned("scan"));
    args.push(str_owned("--json"));
    args.push(str_owned("--quiet"));
    args.push(str_owned("--metrics=off"));
    args.push(str_owned("--disable-version-check"));
    args.push(str_owned("--config"));
    let ghost cv = config@;
    args.push(config);
    let ghost base = strings_view(args@);
    assert(base =~= seq!["scan"@, "--json"@, "--quiet"@, "--metrics=off"@, "--disable-version-check"@, "--config"@, cv]);
    let mut files = crate::diagnostic::clone_strings(&ctx.files);
    args.append(&mut files);
    assert(strings_view(args@) =~= base + strings_view(ctx.files@));
    Ok(ProcessSpec::new(program.as_str(), ctx.target_root().as_str()).args(args).timeout(timeout_secs)
        .max_output_bytes(max_output).allow_network(allow_network))
}

/// How a semgrep stage reads its run: findings fail the stage.
pub open spec fn semgrep_result(gate: Seq<char>, timeout_secs: u64, output: ProcessOutput, r: Result<StageOutcome, GateError>) -> bool {
    if output.timed_out {
        r matches Err(GateError::Failed { message }) && message@ == timed_out_text(gate, timeout_secs)
    } else {
        match output_json_spec(output) {
            None => if output.status == Some(0i32) {
                r is Ok && r->Ok_0.status == StageStatus::Passed && r->Ok_0.diagnostics@.len() == 0
            } else {
                r matches Err(GateError::Failed { message })
                    && message@ == exited_text(gate, output.status, combined_spec(output.stdout@, output.stderr@))
            },
            Some(v) => r is Ok && if result_frames(gate, v).len() == 0 {
                r->Ok_0.status == StageStatus::Passed && r->Ok_0.diagnostics@.len() == 0
            } else {
                r->Ok_0.status == StageStatus::Failed && diagnostics_view(r->Ok_0.diagnostics@) == result_frames(gate, v)
            },
        }
    }
}

fn semgrep_interpret(gate: &str, timeout_secs: u64, output: &ProcessOutput) -> (r: Result<StageOutcome, GateError>)
    ensures
        semgrep_result(gate@, timeout_secs, *output, r),
{
    if output.timed_out {
        return Err(GateError::Failed { message: crate::stages::util::timed_out_message(gate, timeout_secs) });
    }
    let v = match output_json(output) {
        Some(v) => v,
        None => {
            if output.success() {
                return Ok(StageOutcome::passed());
            }
            return Err(GateError::Failed { message: crate::stages::util::exited_message(gate, output) });
        },
    };
    let ds = result_diagnostics(gate, &v);
    if ds.len() == 0 {
        return Ok(StageOutcome::passed());
    }
    Ok(StageOutcome::failed(ds))
}

impl SecretsStage {
    /// `program` is the resolved `semgrep`.
    pub fn new(program: Option<String>, config: &GateConfig) -> (r: Self)
        ensures
            r.program == program,
            r.timeout_secs == config.stage_timeout_secs,
            r.max_output == config.max_output_bytes,
            r.allow_network == config.allow_network,
    {
        SecretsStage { program, timeout_secs: config.stage_timeout_secs, max_output: config.max_output_bytes, allow_network: config.allow_network }
    }

    pub fn id(&self) -> (r: &'static str)
        ensures
            r@ == stage_name(StageId::Secrets),
    {
        "secrets"
    }

    pub fn kind(&self) -> (r: GateKind)
        ensures
            r == stage_kind(StageId::Secrets),
    {
        GateKind::Advisory
    }

    /// `local` is the repository's own semgrep config file, when it has one.
    pub fn plan(&self, ctx: &GateContext, local: Option<String>) -> (r: Result<ProcessSpec, StageOutcome>)
        ensures
            semgrep_plan_ok(self.program, *ctx, semgrep_config_of(ctx.config, match local {
                Some(l) => Some(l@),
                None => None,
            }, "p/secrets"@), self.timeout_secs, self.max_output, self.allow_network, r),
    {
        let config = resolve_config(&ctx.config, local, "p/secrets");
        semgrep_plan(&self.program, ctx, config, self.timeout_secs, self.max_output, self.allow_network)
    }

    pub fn interpret(&self, output: &ProcessOutput) -> (r: Result<StageOutcome, GateError>)
        ensures
            semgrep_result("secrets"@, self.timeout_secs, *output, r),
    {
        semgrep_interpret("secrets", self.timeout_secs, output)
    }
}

impl SastStage {
    /// `program` is the resolved `semgrep`.
    pub fn new(program: Option<String>, config: &GateConfig) -> (r: Self)
        ensures
            r.program == program,
            r.timeout_secs == config.stage_timeout_secs,
            r.max_output == config.max_output_bytes,
            r.allow_network == config.allow_network,
    {
        SastStage { program, timeout_secs: config.stage_timeout_secs, max_output: config.max_output_bytes, allow_network: config.allow_network }
    }

    pub fn id(&self) -> (r: &'static str)
        ensures
            r@ == stage_name(StageId::Sast),
    {
        "sast"
    }

    pub fn kind(&self) -> (r: GateKind)
        ensures
            r == stage_kind(StageId::Sast),
    {
        GateKind::Advisory
    }

    /// `local` is the repository's own semgrep config file, when it has one.
    pub fn plan(&self, ctx: &GateContext, local: Option<String>) -> (r: Result<ProcessSpec, StageOutcome>)
        ensures
            semgrep_plan_ok(self.program, *ctx, semgrep_config_of(ctx.config, match local {
                Some(l) => Some(l@),
                None => None,
            }, "p/default"@), self.timeout_secs, self.max_output, self.allow_network, r),
    {
        let config = resolve_config(&ctx.config, local, "p/default");
        semgrep_plan(&self.program, ctx, config, self.timeout_secs, self.max_output, self.allow_network)
    }

    pub fn interpret(&self, output: &ProcessOutput) -> (r: Result<StageOutcome, GateError>)
        ensures
            semgrep_result("sast"@, self.timeout_secs, *output, r),
    {
        semgrep_interpret("sast", self.timeout_secs, output)
    }
}

} // verus!
