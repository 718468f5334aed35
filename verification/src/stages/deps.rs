use vstd::prelude::*;

use crate::stages::{stage_kind, stage_name, StageId};

use crate::agent::context::first_n;
use crate::config::GateConfig;
use crate::diagnostic::{diagnostics_view, new_diagnostic_view, strings_view, Diagnostic, DiagnosticView, GateKind, Severity};
use crate::json::{get_opt, json_array, json_get, json_get_opt, json_str, str_opt, JsonValue};
use crate::process::{combined_spec, ProcessOutput, ProcessSpec};
use crate::report::StageStatus;
use crate::stage::{target_root_of, GateContext, GateError, StageOutcome};
use crate::stages::util::{diagnostic, exited_text, output_json, output_json_spec, timed_out_text, truncate, truncated, UNPARSEABLE};
use crate::text::{cat, push_str, str_owned, trim_seq, trim_str};

verus! {

/// Known vulnerabilities of dependencies with `osv-scanner` (advisory).
pub struct DepsStage {
    pub program: Option<String>,
    pub timeout_secs: u64,
    pub max_output: usize,
}

pub open spec fn str_or(v: Option<Seq<char>>, default: Seq<char>) -> Seq<char> {
    match v {
        Some(s) => s,
        None => default,
    }
}

/// The finding for one vulnerability of a package.
pub open spec fn vulnerability_frame(file: Seq<char>, ecosystem: Seq<char>, name: Seq<char>, version: Seq<char>, vuln: JsonValue) -> DiagnosticView {
    let id = str_or(json_str(json_get(vuln, "id"@)), "OSV"@);
    let summary = str_or(json_str(json_get(vuln, "summary"@)), Seq::empty());
    DiagnosticView {
        code: Some(id),
        hint: Some("upgrade or pin a patched version"@),
        ..new_diagnostic_view("deps"@, Severity::Warning, file, 0, 0,
            truncated(ecosystem + "/"@ + name + "@"@ + version + ": "@ + summary, 400))
    }
}

/// The findings for one package entry of a result whose source is `source`.
pub open spec fn package_frames(source: Option<Seq<char>>, package: JsonValue) -> Seq<DiagnosticView> {
    match json_array(json_get(package, "vulnerabilities"@)) {
        None => Seq::empty(),
        Some(vulns) => {
            let info = json_get(package, "package"@);
            let name = str_or(json_str(json_get_opt(info, "name"@)), "unknown"@);
            let version = str_or(json_str(json_get_opt(info, "version"@)), "unknown"@);
            let ecosystem = str_or(json_str(json_get_opt(info, "ecosystem"@)), "unknown"@);
            let file = str_or(source, name);
            vulns.map_values(|v: JsonValue| vulnerability_frame(file, ecosystem, name, version, v))
        },
    }
}

pub open spec fn packages_frames(source: Option<Seq<char>>, packages: Seq<JsonValue>) -> Seq<DiagnosticView>
    decreases packages.len(),
{
    if packages.len() == 0 {
        Seq::empty()
    } else {
        packages_frames(source, packages.drop_last()) + package_frames(source, packages.last())
    }
}

pub open spec fn result_findings(result: JsonValue) -> Seq<DiagnosticView> {
    let source = json_str(json_get_opt(json_get(result, "source"@), "path"@));
    match json_array(json_get(result, "packages"@)) {
        Some(packages) => packages_frames(source, packages),
        None => Seq::empty(),
    }
}

pub open spec fn results_findings(results: Seq<JsonValue>) -> Seq<DiagnosticView>
    decreases results.len(),
{
    if results.len() == 0 {
        Seq::empty()
    } else {
        results_findings(results.drop_last()) + result_findings(results.last())
    }
}

/// Every finding of an osv-scanner report, in order.
#[verifier::opaque]
pub open spec fn all_vulnerabilities(v: JsonValue) -> Seq<DiagnosticView> {
    match json_array(json_get(v, "results"@)) {
        Some(results) => results_findings(results),
        None => Seq::empty(),
    }
}

fn str_or_exec<'a>(v: Option<&'a String>, default: &'a str) -> (r: &'a str)
    ensures
        r@ == str_or(match v {
            Some(s) => Some(s@),
            None => None,
        }, default@),
{
    match v {
        Some(s) => s.as_str(),
        None => default,
    }
}

fn package_findings(source: Option<&String>, package: &JsonValue, out: &mut Vec<Diagnostic>)
    ensures
        diagnostics_view(final(out)@) == diagnostics_view(old(out)@) + package_frames(match source {
            Some(s) => Some(s@),
            None => None,
        }, *package),
{
    let ghost src = match source {
        Some(s) => Some(s@),
        None => None,
    };
    let vulns = match crate::json::array_opt(package.get("vulnerabilities")) {
        Some(v) => v,
        None => {
            assert(diagnostics_view(out@) =~= diagnostics_view(out@) + Seq::<DiagnosticView>::empty());
            return;
        },
    };
    let info = package.get("package");
    let name = str_or_exec(str_opt(get_opt(info, "name")), "unknown");
    let version = str_or_exec(str_opt(get_opt(info, "version")), "unknown");
    let ecosystem = str_or_exec(str_opt(get_opt(info, "ecosystem")), "unknown");
    let file: &str = match source {
        Some(s) => s.as_str(),
        None => name,
    };
    let ghost start = diagnostics_view(out@);
    let ghost want = vulns@.map_values(|v: JsonValue| vulnerability_frame(file@, ecosystem@, name@, version@, v));
    assert(want == package_frames(src, *package));
    let mut i: usize = 0;
    while i < vulns.len()
        invariant
            i <= vulns.len(),
            want == vulns@.map_values(|v: JsonValue| vulnerability_frame(file@, ecosystem@, name@, version@, v)),
            diagnostics_view(out@) == start + want.take(i as int),
        decreases vulns.len() - i,
    {
        proof {
            reveal_strlit("");
        }
        let vuln = &vulns[i];
        let id = str_or_exec(str_opt(vuln.get("id")), "OSV");
        let summary = str_or_exec(str_opt(vuln.get("summary")), "");
        let mut text = cat(ecosystem, "/");
        push_str(&mut text, name);
        push_str(&mut text, "@");
        push_str(&mut text, version);
        push_str(&mut text, ": ");
        push_str(&mut text, summary);
        let message = truncate(text.as_str(), 400);
        let mut d = diagnostic("deps", Severity::Warning, file, 0, 0, message.as_str());
        d.code = Some(str_owned(id));
        d.hint = Some(str_owned("upgrade or pin a patched version"));
        assert(d@ == want[i as int]);
        let ghost before = out@;
        out.push(d);
        assert(diagnostics_view(out@) =~= diagnostics_view(before).push(want[i as int]));
        assert(want.take(i + 1) =~= want.take(i as int).push(want[i as int]));
        i = i + 1;
    }
    assert(want.take(vulns.len() as int) =~= want);
}

/// The findings of an osv-scanner report, at most two hundred of them.
pub fn vulnerability_diagnostics(value: &JsonValue) -> (r: Vec<Diagnostic>)
    ensures
        diagnostics_view(r@) == first_n(all_vulnerabilities(*value), 200),
{
    reveal(all_vulnerabilities);
    let mut out: Vec<Diagnostic> = Vec::new();
    match crate::json::array_opt(value.get("results")) {
        Some(results) => {
            let mut i: usize = 0;
            while i < results.len()
                invariant
                    i <= results.len(),
                    diagnostics_view(out@) == results_findings(results@.take(i as int)),
                decreases results.len() - i,
            {
                assert(results@.take(i + 1).drop_last() =~= results@.take(i as int));
                let result = &results[i];
                let source = str_opt(get_opt(result.get("source"), "path"));
                let ghost base = diagnostics_view(out@);
                match crate::json::array_opt(result.get("packages")) {
                    Some(packages) => {
                        let mut j: usize = 0;
                        while j < packages.len()
                            invariant
                                j <= packages.len(),
                                diagnostics_view(out@) == base + packages_frames(match source {
                                    Some(s) => Some(s@),
                                    None => None,
                                }, packages@.take(j as int)),
                            decreases packages.len() - j,
                        {
                            assert(packages@.take(j + 1).drop_last() =~= packages@.take(j as int));
                            package_findings(source, &packages[j], &mut out);
                            assert(diagnostics_view(out@) =~= base + packages_frames(match source {
                                Some(s) => Some(s@),
                                None => None,
                            }, packages@.take(j + 1)));
                            j = j + 1;
                        }
                        assert(packages@.take(packages.len() as int) =~= packages@);
                    },
                    None => {},
                }
                assert(diagnostics_view(out@) =~= results_findings(results@.take(i + 1)));
                i = i + 1;
            }
            assert(results@.take(results.len() as int) =~= results@);
        },
        None => {
            assert(diagnostics_view(out@) =~= Seq::<DiagnosticView>::empty());
        },
    }
    let ghost full = diagnostics_view(out@);
    out.truncate(200);
    assert(diagnostics_view(out@) =~= first_n(full, 200));
    out
}

impl DepsStage {
    /// `program` is the resolved `osv-scanner`.
    pub fn new(program: Option<String>, config: &GateConfig) -> (r: Self)
        ensures
            r.program == program,
            r.timeout_secs == config.stage_timeout_secs,
            r.max_output == config.max_output_bytes,
    {
        DepsStage { program, timeout_secs: config.stage_timeout_secs, max_output: config.max_output_bytes }
    }

    pub fn id(&self) -> (r: &'static str)
        ensures
            r@ == stage_name(StageId::Deps),
    {
        "deps"
    }

    pub fn kind(&self) -> (r: GateKind)
        ensures
            r == stage_kind(StageId::Deps),
    {
        GateKind::Advisory
    }

    /// Skips without the scanner or without changed files; otherwise scans the target's
    /// sources, with network access.
    pub fn plan(&self, ctx: &GateContext) -> (r: Result<ProcessSpec, StageOutcome>)
        ensures
            self.program is None ==> r is Err && r->Err_0.status == StageStatus::Skipped
                && crate::diagnostic::opt_view(r->Err_0.skipped_reason) == Some("osv-scanner not found"@),
            self.program is Some && ctx.files@.len() == 0 ==> r is Err && r->Err_0.status == StageStatus::Skipped
                && crate::diagnostic::opt_view(r->Err_0.skipped_reason) == Some("no changed files"@),
            self.program is Some && ctx.files@.len() > 0 ==> r is Ok && r->Ok_0.program@ == self.program->0@
                && r->Ok_0.cwd@ == target_root_of(*ctx)
                && strings_view(r->Ok_0.args@) == seq!["scan"@, "source"@, "-r"@, "--format"@, "json"@, "."@]
                && r->Ok_0.timeout_secs == self.timeout_secs && r->Ok_0.max_output_bytes == self.max_output
                && r->Ok_0.allow_network,
    {
        let program = match &self.program {
            Some(p) => p,
            None => return Err(StageOutcome::skipped("osv-scanner not found")),
        };
        if ctx.files.len() == 0 {
            return Err(StageOutcome::skipped("no changed files"));
        }
        let args: Vec<String> = vec![str_owned("scan"), str_owned("source"), str_owned("-r"), str_owned("--format"),
            str_owned("json"), str_owned(".")];
        assert(strings_view(args@) =~= seq!["scan"@, "source"@, "-r"@, "--format"@, "json"@, "."@]);
        Ok(ProcessSpec::new(program.as_str(), ctx.target_root().as_str()).args(args).timeout(self.timeout_secs)
            .max_output_bytes(self.max_output).allow_network(true))
    }

    /// Reads the scanner's JSON report: vulnerabilities fail the stage; output that is cut
    /// or is not JSON is an error.
    pub fn interpret(&self, output: &ProcessOutput) -> (r: Result<StageOutcome, GateError>)
        ensures
            output.timed_out ==> (r matches Err(GateError::Failed { message })
                && message@ == timed_out_text("deps"@, self.timeout_secs)),
            !output.timed_out && (vstd::utf8::encode_utf8(output.stdout@).len() as usize >= self.max_output
                || vstd::utf8::encode_utf8(output.stderr@).len() as usize >= self.max_output)
                ==> (r matches Err(GateError::Failed { message }) && message@ == UNPARSEABLE@),
            !output.timed_out && !(vstd::utf8::encode_utf8(output.stdout@).len() as usize >= self.max_output
                || vstd::utf8::encode_utf8(output.stderr@).len() as usize >= self.max_output) ==> report_result(*output, r),
    {
        if output.timed_out {
            return Err(GateError::Failed { message: crate::stages::util::timed_out_message("deps", self.timeout_secs) });
        }
        if output.truncated(self.max_output) {
            return Err(GateError::Failed { message: str_owned(UNPARSEABLE) });
        }
        read_report(output)
    }
}

/// How a finished scan whose output was not cut is read.
pub open spec fn report_result(output: ProcessOutput, r: Result<StageOutcome, GateError>) -> bool {
    match output_json_spec(output) {
        None => if trim_seq(combined_spec(output.stdout@, output.stderr@)).len() != 0 {
            r matches Err(GateError::Failed { message }) && message@ == UNPARSEABLE@
        } else if output.status == Some(0i32) {
            r is Ok && r->Ok_0.status == StageStatus::Passed && r->Ok_0.diagnostics@.len() == 0
        } else {
            r matches Err(GateError::Failed { message })
                && message@ == exited_text("deps"@, output.status, combined_spec(output.stdout@, output.stderr@))
        },
        Some(v) => r is Ok && if all_vulnerabilities(v).len() == 0 {
            r->Ok_0.status == StageStatus::Passed && r->Ok_0.diagnostics@.len() == 0
        } else {
            r->Ok_0.status == StageStatus::Failed
                && diagnostics_view(r->Ok_0.diagnostics@) == first_n(all_vulnerabilities(v), 200)
        },
    }
}

fn read_report(output: &ProcessOutput) -> (r: Result<StageOutcome, GateError>)
    ensures
        report_result(*output, r),
{
    let v = match output_json(output) {
        Some(v) => v,
        None => {
            let combined = output.combined();
            if trim_str(combined.as_str()).len() != 0 {
                return Err(GateError::Failed { message: str_owned(UNPARSEABLE) });
            }
            if output.success() {
                return Ok(StageOutcome::passed());
            }
            return Err(GateError::Failed { message: crate::stages::util::exited_message("deps", output) });
        },
    };
    let ds = vulnerability_diagnostics(&v);
    assert(diagnostics_view(ds@).len() == ds@.len());
    if ds.len() == 0 {
        assert(all_vulnerabilities(v).len() == 0);
        return Ok(StageOutcome::passed());
    }
    Ok(StageOutcome::failed(ds))
}

/// A dependency scan reports at most two hundred findings.
pub proof fn law_vulnerabilities_capped(v: JsonValue)
    ensures
        first_n(all_vulnerabilities(v), 200).len() <= 200,
{
}

} // verus!
