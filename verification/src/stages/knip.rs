use vstd::prelude::*;

use crate::stages::{stage_kind, stage_name, StageId};

use crate::agent::context::first_n;
use crate::config::GateConfig;
use crate::diagnostic::{diagnostics_view, new_diagnostic_view, strings_view, Diagnostic, DiagnosticView, GateKind, Severity};
use crate::json::{json_array, json_get, json_str, json_u64, str_opt, JsonValue};
use crate::process::{combined_spec, ProcessOutput, ProcessSpec};
use crate::report::StageStatus;
use crate::stage::{target_root_of, GateContext, GateError, StageOutcome};
use crate::stages::format::str_or_empty;
use crate::stages::util::{diagnostic, exited_text, filter_ts, output_json, output_json_spec, timed_out_text, truncate, truncated, ts_files};
use crate::text::{cat, decimal, decimal_string, join, joined, push_str, str_owned};

verus! {

/// Unused files, exports and dependencies with `knip` (advisory).
pub struct KnipStage {
    pub program: Option<String>,
    pub timeout_secs: u64,
    pub max_output: usize,
    pub allow_network: bool,
}

/// At most this many findings are reported.
pub const MAX_DIAGNOSTICS: usize = 200;

/// The issue categories knip reports, with their labels, in reporting order.
pub open spec fn categories() -> Seq<(&'static str, &'static str)> {
    seq![
        ("dependencies", "unused dependencies"),
        ("devDependencies", "unused devDependencies"),
        ("optionalPeerDependencies", "unused optional peer dependencies"),
        ("unlisted", "unlisted dependencies"),
        ("binaries", "unused binaries"),
        ("unresolved", "unresolved imports"),
        ("exports", "unused exports"),
        ("types", "unused types"),
        ("duplicates", "duplicate exports"),
        ("enumMembers", "unused enum members"),
        ("classMembers", "unused class members"),
    ]
}

fn category_list() -> (r: Vec<(&'static str, &'static str)>)
    ensures
        r@ == categories(),
{
    vec![
        ("dependencies", "unused dependencies"),
        ("devDependencies", "unused devDependencies"),
        ("optionalPeerDependencies", "unused optional peer dependencies"),
        ("unlisted", "unlisted dependencies"),
        ("binaries", "unused binaries"),
        ("unresolved", "unresolved imports"),
        ("exports", "unused exports"),
        ("types", "unused types"),
        ("duplicates", "duplicate exports"),
        ("enumMembers", "unused enum members"),
        ("classMembers", "unused class members"),
    ]
}

/// One knip finding.
pub open spec fn knip_frame(file: Seq<char>, line: u32, message: Seq<char>) -> DiagnosticView {
    DiagnosticView { code: Some("knip"@), ..new_diagnostic_view("knip"@, Severity::Note, file, line, 0, truncated(message, 400)) }
}

/// The string entries of an array, in order.
pub open spec fn str_items(items: Seq<JsonValue>) -> Seq<Seq<char>>
    decreases items.len(),
{
    if items.len() == 0 {
        Seq::empty()
    } else {
        match json_str(Some(items.last())) {
            Some(s) => str_items(items.drop_last()).push(s),
            None => str_items(items.drop_last()),
        }
    }
}

/// A symbol's name: the entry itself when it is a string, else its `name`.
pub open spec fn symbol_name(e: JsonValue) -> Option<Seq<char>> {
    match json_str(Some(e)) {
        Some(s) => Some(s),
        None => json_str(json_get(e, "name"@)),
    }
}

pub open spec fn names_of(entries: Seq<JsonValue>) -> Seq<Seq<char>>
    decreases entries.len(),
{
    if entries.len() == 0 {
        Seq::empty()
    } else {
        match symbol_name(entries.last()) {
            Some(s) => names_of(entries.drop_last()).push(s),
            None => names_of(entries.drop_last()),
        }
    }
}

/// The message for a category: its label and at most ten names, with a count of the rest.
pub open spec fn category_message(label: Seq<char>, names: Seq<Seq<char>>) -> Seq<char> {
    label + ": "@ + joined(first_n(names, 10), ", "@) + if names.len() > 10 {
        " (+"@ + decimal((names.len() - 10) as nat) + " more)"@
    } else {
        Seq::empty()
    }
}

/// The finding of one category of an issue, when it names any symbol; the line is the first
/// entry's.
pub open spec fn category_frame(file: Seq<char>, issue: JsonValue, key: Seq<char>, label: Seq<char>) -> Option<DiagnosticView> {
    match json_array(json_get(issue, key)) {
        None => None,
        Some(entries) => {
            let names = names_of(entries);
            if names.len() == 0 {
                None
            } else {
                let line: u32 = if entries.len() > 0 {
                    match json_u64(json_get(entries[0], "line"@)) {
                        Some(l) => l as u32,
                        None => 0,
                    }
                } else {
                    0
                };
                Some(knip_frame(file, line, category_message(label, names)))
            }
        },
    }
}

/// The findings of one issue over the first `n` categories.
pub open spec fn issue_frames(file: Seq<char>, issue: JsonValue, n: int) -> Seq<DiagnosticView>
    decreases n,
{
    if n <= 0 {
        Seq::empty()
    } else {
        let prior = issue_frames(file, issue, n - 1);
        match category_frame(file, issue, categories()[n - 1].0@, categories()[n - 1].1@) {
            Some(d) => prior.push(d),
            None => prior,
        }
    }
}

pub open spec fn issues_frames(issues: Seq<JsonValue>) -> Seq<DiagnosticView>
    decreases issues.len(),
{
    if issues.len() == 0 {
        Seq::empty()
    } else {
        let issue = issues.last();
        issues_frames(issues.drop_last())
            + issue_frames(str_or_empty(json_str(json_get(issue, "file"@))), issue, categories().len() as int)
    }
}

/// Every finding of a knip report: the unused files, then each issue's categories.
pub open spec fn all_findings(v: JsonValue) -> Seq<DiagnosticView> {
    let files = match json_array(json_get(v, "files"@)) {
        Some(items) => str_items(items).map_values(|f: Seq<char>| knip_frame(f, 0, "unused file"@)),
        None => Seq::empty(),
    };
    let issues = match json_array(json_get(v, "issues"@)) {
        Some(items) => issues_frames(items),
        None => Seq::empty(),
    };
    files + issues
}

fn frame(file: &str, line: u32, message: &str) -> (r: Diagnostic)
    ensures
        r@ == knip_frame(file@, line, message@),
{
    let text = truncate(message, 400);
    let mut d = diagnostic("knip", Severity::Note, file, line, 0, text.as_str());
    d.code = Some(str_owned("knip"));
    d
}

fn name_list(entries: &Vec<JsonValue>) -> (r: Vec<String>)
    ensures
        strings_view(r@) == names_of(entries@),
{
    let mut out: Vec<String> = Vec::new();
    let mut i: usize = 0;
    while i < entries.len()
        invariant
            i <= entries.len(),
            strings_view(out@) == names_of(entries@.take(i as int)),
        decreases entries.len() - i,
    {
        assert(entries@.take(i + 1).drop_last() =~= entries@.take(i as int));
        let e = &entries[i];
        let name = match e.as_str() {
            Some(s) => Some(s),
            None => str_opt(e.get("name")),
        };
        match name {
            Some(s) => {
                let ghost before = out@;
                out.push(str_owned(s.as_str()));
                assert(strings_view(out@) =~= strings_view(before).push(s@));
            },
            None => {},
        }
        i = i + 1;
    }
    assert(entries@.take(entries.len() as int) =~= entries@);
    out
}

fn category_finding(file: &str, issue: &JsonValue, key: &str, label: &str) -> (r: Option<Diagnostic>)
    ensures
        match r {
            Some(d) => category_frame(file@, *issue, key@, label@) == Some(d@),
            None => category_frame(file@, *issue, key@, label@) is None,
        },
{
    let entries = match crate::json::array_opt(issue.get(key)) {
        Some(e) => e,
        None => return None,
    };
    let names = name_list(entries);
    if names.len() == 0 {
        return None;
    }
    let line: u32 = if entries.len() > 0 {
        match entries[0].get("line") {
            Some(l) => match l.as_u64() {
                Some(n) => n as u32,
                None => 0,
            },
            None => 0,
        }
    } else {
        0
    };
    let mut listed: Vec<String> = names.clone();
    let ghost all = strings_view(names@);
    listed.truncate(10);
    assert(strings_view(listed@) =~= first_n(all, 10));
    let mut message = cat(label, ": ");
    push_str(&mut message, join(&listed, ", ").as_str());
    if names.len() > 10 {
        push_str(&mut message, " (+");
        push_str(&mut message, decimal_string((names.len() - 10) as u64).as_str());
        push_str(&mut message, " more)");
    }
    assert(message@ =~= category_message(label@, all));
    Some(frame(file, line, message.as_str()))
}

/// The findings of a knip report, at most `MAX_DIAGNOSTICS` of them.
pub fn collect_diagnostics(value: &JsonValue) -> (r: Vec<Diagnostic>)
    ensures
        diagnostics_view(r@) == first_n(all_findings(*value), 200),
{
    let mut out: Vec<Diagnostic> = Vec::new();
    let ghost files_part = match json_array(json_get(*value, "files"@)) {
        Some(items) => str_items(items).map_values(|f: Seq<char>| knip_frame(f, 0, "unused file"@)),
        None => Seq::empty(),
    };
    match crate::json::array_opt(value.get("files")) {
        Some(items) => {
            let mut i: usize = 0;
            while i < items.len()
                invariant
                    i <= items.len(),
                    diagnostics_view(out@) == str_items(items@.take(i as int)).map_values(|f: Seq<char>| knip_frame(f, 0, "unused file"@)),
                decreases items.len() - i,
            {
                assert(items@.take(i + 1).drop_last() =~= items@.take(i as int));
                match items[i].as_str() {
                    Some(f) => {
                        let d = frame(f.as_str(), 0, "unused file");
                        let ghost before = out@;
                        out.push(d);
                        assert(diagnostics_view(out@) =~= diagnostics_view(before).push(d@));
                        assert(str_items(items@.take(i + 1)) == str_items(items@.take(i as int)).push(f@));
                        assert(str_items(items@.take(i + 1)).map_values(|f: Seq<char>| knip_frame(f, 0, "unused file"@))
                            =~= str_items(items@.take(i as int)).map_values(|f: Seq<char>| knip_frame(f, 0, "unused file"@)).push(d@));
                    },
                    None => {},
                }
                i = i + 1;
            }
            assert(items@.take(items.len() as int) =~= items@);
        },
        None => {
            assert(diagnostics_view(out@) =~= files_part);
        },
    }
    assert(diagnostics_view(out@) == files_part);
    let cats = category_list();
    match crate::json::array_opt(value.get("issues")) {
        Some(issues) => {
            let mut i: usize = 0;
            while i < issues.len()
                invariant
                    i <= issues.len(),
                    cats@ == categories(),
                    diagnostics_view(out@) == files_part + issues_frames(issues@.take(i as int)),
                decreases issues.len() - i,
            {
                assert(issues@.take(i + 1).drop_last() =~= issues@.take(i as int));
                let issue = &issues[i];
                let file: &str = match str_opt(issue.get("file")) {
                    Some(f) => f.as_str(),
                    None => {
                        proof {
                            reveal_strlit("");
                        }
                        ""
                    },
                };
                assert(file@ == str_or_empty(json_str(json_get(*issue, "file"@))));
                let ghost base = diagnostics_view(out@);
                let mut c: usize = 0;
                while c < cats.len()
                    invariant
                        c <= cats.len(),
                        cats@ == categories(),
                        diagnostics_view(out@) == base + issue_frames(file@, *issue, c as int),
                    decreases cats.len() - c,
                {
                    let (key, label) = cats[c];
                    match category_finding(file, issue, key, label) {
                        Some(d) => {
                            let ghost before = out@;
                            out.push(d);
                            assert(diagnostics_view(out@) =~= diagnostics_view(before).push(d@));
                        },
                        None => {},
                    }
                    assert(diagnostics_view(out@) =~= base + issue_frames(file@, *issue, c + 1));
                    c = c + 1;
                }
                assert(diagnostics_view(out@) =~= files_part + issues_frames(issues@.take(i + 1)));
                i = i + 1;
            }
            assert(issues@.take(issues.len() as int) =~= issues@);
        },
        None => {
            assert(diagnostics_view(out@) =~= all_findings(*value));
        },
    }
    assert(diagnostics_view(out@) =~= all_findings(*value));
    let ghost full = diagnostics_view(out@);
    out.truncate(200);
    assert(diagnostics_view(out@) =~= first_n(full, 200));
    out
}

impl KnipStage {
    /// `program` is the resolved `knip`.
    pub fn new(program: Option<String>, config: &GateConfig) -> (r: Self)
        ensures
            r.program == program,
            r.timeout_secs == config.stage_timeout_secs,
            r.max_output == config.max_output_bytes,
            r.allow_network == config.allow_network,
    {
        KnipStage {
            program,
            timeout_secs: config.stage_timeout_secs,
            max_output: config.max_output_bytes,
            allow_network: config.allow_network,
        }
    }

    pub fn id(&self) -> (r: &'static str)
        ensures
            r@ == stage_name(StageId::DeadCode),
    {
        "knip"
    }

    pub fn kind(&self) -> (r: GateKind)
        ensures
            r == stage_kind(StageId::DeadCode),
    {
        GateKind::Advisory
    }

    /// Skips without the tool or without changed script files; otherwise runs knip over
    /// the target.
    pub fn plan(&self, ctx: &GateContext) -> (r: Result<ProcessSpec, StageOutcome>)
        ensures
            self.program is None ==> r is Err && r->Err_0.status == StageStatus::Skipped
                && crate::diagnostic::opt_view(r->Err_0.skipped_reason) == Some("knip not found"@),
            self.program is Some && ts_files(ctx.files@).len() == 0 ==> r is Err && r->Err_0.status == StageStatus::Skipped
                && crate::diagnostic::opt_view(r->Err_0.skipped_reason) == Some("no TypeScript or JavaScript files changed"@),
            self.program is Some && ts_files(ctx.files@).len() > 0 ==> r is Ok && r->Ok_0.program@ == self.program->0@
                && r->Ok_0.cwd@ == target_root_of(*ctx)
                && strings_view(r->Ok_0.args@) == seq!["--reporter"@, "json"@, "--no-progress"@, "--no-exit-code"@]
                && r->Ok_0.timeout_secs == self.timeout_secs && r->Ok_0.max_output_bytes == self.max_output
                && r->Ok_0.allow_network == self.allow_network,
    {
        let program = match &self.program {
            Some(p) => p,
            None => return Err(StageOutcome::skipped("knip not found")),
        };
        if filter_ts(&ctx.files).len() == 0 {
            return Err(StageOutcome::skipped("no TypeScript or JavaScript files changed"));
        }
        let args: Vec<String> = vec![str_owned("--reporter"), str_owned("json"), str_owned("--no-progress"), str_owned("--no-exit-code")];
        assert(strings_view(args@) =~= seq!["--reporter"@, "json"@, "--no-progress"@, "--no-exit-code"@]);
        Ok(ProcessSpec::new(program.as_str(), ctx.target_root().as_str()).args(args).timeout(self.timeout_secs)
            .max_output_bytes(self.max_output).allow_network(self.allow_network))
    }

    /// Reads knip's JSON report; its findings never fail the stage.
    pub fn interpret(&self, output: &ProcessOutput) -> (r: Result<StageOutcome, GateError>)
        ensures
            output.timed_out ==> (r matches Err(GateError::Failed { message })
                && message@ == timed_out_text("knip"@, self.timeout_secs)),
            !output.timed_out ==> match output_json_spec(*output) {
                None => if output.status == Some(0i32) {
                    r is Ok && r->Ok_0.status == StageStatus::Passed && r->Ok_0.diagnostics@.len() == 0
                } else {
                    r matches Err(GateError::Failed { message })
                        && message@ == exited_text("knip"@, output.status, combined_spec(output.stdout@, output.stderr@))
                },
                Some(v) => r is Ok && r->Ok_0.status == StageStatus::Passed
                    && diagnostics_view(r->Ok_0.diagnostics@) == first_n(all_findings(v), 200),
            },
    {
        if output.timed_out {
            return Err(GateError::Failed { message: crate::stages::util::timed_out_message("knip", self.timeout_secs) });
        }
        match output_json(output) {
            Some(v) => Ok(StageOutcome::passed_with(collect_diagnostics(&v))),
            None => {
                if output.success() {
                    Ok(StageOutcome::passed())
                } else {
                    Err(GateError::Failed { message: crate::stages::util::exited_message("knip", output) })
                }
            },
        }
    }
}

/// A knip run reports at most two hundred findings.
pub proof fn law_knip_findings_capped(v: JsonValue)
    ensures
        first_n(all_findings(v), 200).len() <= 200,
{
}

} // verus!
