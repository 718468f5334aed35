use heretek::baseline::{fingerprint, Baseline};
use heretek::diagnostic::{Diagnostic, GateKind, Severity};
use heretek::report::{GateReport, StageReport};
use heretek::pipeline::Pipeline;
use heretek::report::StageStatus;
use heretek::stage::{GateContext, GateError, Stage, StageOutcome, Target};

fn context() -> GateContext {
    GateContext::new("/tmp/heretek-test", Target::Worktree("/tmp/heretek-test/tree".to_string()))
}

#[derive(Clone, Copy)]
struct FakeStage {
    id: &'static str,
    kind: GateKind,
    outcome: FakeOutcome,
}

#[derive(Clone, Copy)]
enum FakeOutcome {
    Pass,
    Fail,
    Skip,
    Error,
}

impl Stage for FakeStage {
    fn stage_id(&self) -> &'static str {
        self.id
    }

    fn stage_kind(&self) -> GateKind {
        self.kind
    }

    fn gives(&self, _ctx: GateContext, result: Result<StageOutcome, GateError>) -> bool {
        match (self.outcome, result) {
            (FakeOutcome::Pass, Ok(o)) => o.status == StageStatus::Passed,
            (FakeOutcome::Fail, Ok(o)) => o.status == StageStatus::Failed,
            (FakeOutcome::Skip, Ok(o)) => o.status == StageStatus::Skipped,
            (FakeOutcome::Error, Err(_)) => true,
            _ => false,
        }
    }

    fn id(&self) -> &'static str {
        self.id
    }

    fn kind(&self) -> GateKind {
        self.kind
    }

    fn run(&self, _ctx: &GateContext) -> Result<StageOutcome, GateError> {
        match self.outcome {
            FakeOutcome::Pass => Ok(StageOutcome::passed()),
            FakeOutcome::Fail => Ok(StageOutcome::failed(vec![Diagnostic::new(
                self.id,
                Severity::Error,
                "src/lib.ts",
                1,
                1,
                "fake failure",
            )])),
            FakeOutcome::Skip => Ok(StageOutcome::skipped("not applicable")),
            FakeOutcome::Error => Err(GateError::ToolMissing { tool: "fake-tool".to_string() }),
        }
    }
}

fn pipeline(stages: Vec<FakeStage>) -> Pipeline {
    Pipeline::new(stages.into_iter().map(|s| Box::new(s) as Box<dyn Stage>).collect())
}

#[test]
fn blocking_failure_fails_the_report() {
    let report = pipeline(vec![
        FakeStage { id: "syntax", kind: GateKind::Blocking, outcome: FakeOutcome::Fail },
        FakeStage { id: "format", kind: GateKind::Blocking, outcome: FakeOutcome::Pass },
    ])
    .run(&context());

    assert!(!report.passed);
    assert_eq!(report.blocking_failures, 1);
    assert_eq!(report.stages.len(), 2);
    assert_eq!(report.new_diagnostic_count(), 1);
}

#[test]
fn advisory_failure_does_not_fail_the_report() {
    let report = pipeline(vec![FakeStage { id: "sast", kind: GateKind::Advisory, outcome: FakeOutcome::Fail }])
        .run(&context());

    assert!(report.passed);
    assert_eq!(report.blocking_failures, 0);
    assert_eq!(report.new_diagnostic_count(), 1);
}

#[test]
fn skipped_stage_is_recorded_with_reason() {
    let report = pipeline(vec![FakeStage { id: "tests", kind: GateKind::Blocking, outcome: FakeOutcome::Skip }])
        .run(&context());

    assert!(report.passed);
    assert_eq!(report.stages[0].status, StageStatus::Skipped);
    assert_eq!(report.stages[0].skipped_reason.as_deref(), Some("not applicable"));
}

#[test]
fn stage_error_becomes_a_blocking_diagnostic() {
    let report = pipeline(vec![FakeStage { id: "typecheck", kind: GateKind::Blocking, outcome: FakeOutcome::Error }])
        .run(&context());

    assert!(!report.passed);
    assert_eq!(report.blocking_failures, 1);
    let message = &report.stages[0].diagnostics[0].message;
    assert!(message.contains("fake-tool"));
}

#[test]
fn stages_run_in_declaration_order() {
    let report = pipeline(vec![
        FakeStage { id: "syntax", kind: GateKind::Blocking, outcome: FakeOutcome::Pass },
        FakeStage { id: "format", kind: GateKind::Blocking, outcome: FakeOutcome::Pass },
        FakeStage { id: "tests", kind: GateKind::Blocking, outcome: FakeOutcome::Pass },
    ])
    .run(&context());

    let ids: Vec<&str> = report.stages.iter().map(|s| s.id.as_str()).collect();
    assert_eq!(ids, ["syntax", "format", "tests"]);
}

#[test]
fn empty_pipeline_warns_instead_of_silently_passing() {
    let report = Pipeline::empty().run(&context());

    assert!(report.passed);
    assert_eq!(report.warnings, ["pipeline contains no stages; nothing was verified"]);
}

#[test]
fn invalid_baseline_fails_before_any_stage_runs() {
    let ctx = context().with_baseline(Some("--upload-pack=evil".to_string()));
    let report = pipeline(vec![FakeStage { id: "syntax", kind: GateKind::Blocking, outcome: FakeOutcome::Pass }])
        .run(&ctx);
    assert!(!report.passed);
    assert_eq!(report.blocking_failures, 1);
}

#[test]
fn own_baseline_marks_every_finding_as_old() {
    let report = pipeline(vec![FakeStage { id: "syntax", kind: GateKind::Blocking, outcome: FakeOutcome::Fail }])
        .run(&context());
    let baseline = Baseline::from_report(&report);
    let again = pipeline(vec![FakeStage { id: "syntax", kind: GateKind::Blocking, outcome: FakeOutcome::Fail }])
        .run(&context());
    let matched = baseline.match_new(again);
    assert!(matched.passed);
    assert_eq!(matched.new_diagnostic_count(), 0);
    assert_eq!(matched.blocking_failures, 0);
}

#[test]
fn a_report_matched_against_its_own_baseline_keeps_nothing_new() {
    let report = pipeline(vec![
        FakeStage { id: "syntax", kind: GateKind::Blocking, outcome: FakeOutcome::Fail },
        FakeStage { id: "sast", kind: GateKind::Advisory, outcome: FakeOutcome::Fail },
    ])
    .run(&context());
    assert_eq!(report.new_diagnostic_count(), 2);
    assert_eq!(report.new_diagnostic_count(), report.stages.iter().map(|s| s.new_diagnostic_count()).sum::<usize>());
    let copy = report.duplicate();
    assert_eq!(copy.stages.len(), 2);
    assert_eq!(copy.stages[1].diagnostics[0].message, report.stages[1].diagnostics[0].message);
    assert_eq!(copy.passed, report.passed);
    let matched = Baseline::from_report(&report).match_new(copy);
    assert_eq!(matched.new_diagnostic_count(), 0);
    assert_eq!(matched.blocking_failures, 0);
    assert!(matched.passed);
    assert_eq!(matched.stages.len(), report.stages.len());
}

#[test]
fn recorded_ids_and_kinds_are_the_stages_own() {
    let p = pipeline(vec![
        FakeStage { id: "syntax", kind: GateKind::Blocking, outcome: FakeOutcome::Pass },
        FakeStage { id: "deps", kind: GateKind::Advisory, outcome: FakeOutcome::Skip },
    ]);
    assert_eq!(p.stage_ids(), ["syntax", "deps"]);
    assert_eq!(p.stage_kinds(), [("syntax", GateKind::Blocking), ("deps", GateKind::Advisory)]);
}

#[test]
fn baseline_is_matched_as_a_multiset() {
    let frame = || Diagnostic::new("tsc", Severity::Error, "src/a.ts", 3, 1, "Type   mismatch");
    let stage = |count: usize| {
        StageReport::failed("typecheck", GateKind::Blocking, 1, (0..count).map(|_| frame()).collect())
    };
    let key = fingerprint(&frame());
    assert_eq!(key, "tsc||src/a.ts|Type mismatch|");
    let baseline = Baseline { fingerprints: vec![(key, 2)] };
    let matched = baseline.match_new(GateReport::from_stages("staged", vec![stage(3)]));
    let flags: Vec<bool> = matched.stages[0].diagnostics.iter().map(|d| d.is_new).collect();
    assert_eq!(flags, vec![false, false, true]);
    assert!(!matched.passed);
    assert_eq!(matched.new_diagnostic_count(), 1);
    let fewer = baseline.match_new(GateReport::from_stages("staged", vec![stage(1)]));
    assert!(fewer.passed);
    assert_eq!(fewer.stages[0].status, StageStatus::Passed);
}

#[test]
fn frames_drop_terminal_escape_codes() {
    let frame = Diagnostic::new("tsc\x07", Severity::Error, "src/a.ts", 1, 2, "\x1b[31mbad\x1b[0m\tvalue\nnext")
        .with_hint("use\x00 this")
        .with_context(vec!["1 | \x1b[1mx".to_string()]);
    assert_eq!(frame.gate, "tsc ");
    assert_eq!(frame.message, " [31mbad [0m\tvalue\nnext");
    assert_eq!(frame.hint.as_deref(), Some("use  this"));
    assert_eq!(frame.context, vec!["1 |  [1mx".to_string()]);
    assert!(frame.is_new);
    assert_eq!(heretek::diagnostic::sanitize("plain text"), "plain text");
}

#[test]
fn skipped_blocking_stage_leaves_a_warning() {
    let report = pipeline(vec![
        FakeStage { id: "tests", kind: GateKind::Blocking, outcome: FakeOutcome::Skip },
        FakeStage { id: "deps", kind: GateKind::Advisory, outcome: FakeOutcome::Skip },
    ])
    .run(&context());
    assert!(report.passed);
    assert_eq!(report.warnings, vec!["blocking stage 'tests' was skipped: not applicable".to_string()]);
}

#[test]
fn reports_are_assembled_from_stage_results() {
    let failed = StageOutcome::failed(vec![Diagnostic::new("syntax", Severity::Error, "a.ts", 1, 1, "bad")]);
    let ids = vec!["syntax", "deps"];
    let kinds = vec![GateKind::Blocking, GateKind::Advisory];
    let results = vec![Ok(failed), Err(GateError::ToolMissing { tool: "osv-scanner".to_string() })];
    let report = heretek::pipeline::assemble("staged", &ids, &kinds, vec![3, 4], results);
    assert!(!report.passed);
    assert_eq!(report.blocking_failures, 1);
    assert_eq!(report.stages[0].id, "syntax");
    assert_eq!(report.stages[0].duration_ms, 3);
    assert_eq!(report.stages[1].status, StageStatus::Failed);
    assert_eq!(report.stages[1].diagnostics[0].message, "stage error: required tool not found: osv-scanner");
    let p = pipeline(vec![
        FakeStage { id: "syntax", kind: GateKind::Blocking, outcome: FakeOutcome::Pass },
        FakeStage { id: "sast", kind: GateKind::Advisory, outcome: FakeOutcome::Fail },
    ]);
    assert_eq!(p.stage_ids(), vec!["syntax", "sast"]);
    assert_eq!(p.stage_kinds(), vec![("syntax", GateKind::Blocking), ("sast", GateKind::Advisory)]);
}

/// A new frame carries the diagnostic schema, and its fields read back unchanged from JSON
/// text written with serde_json; the serde encoding of the frame itself lives in the binary.
#[test]
fn new_frame_fields_read_back_from_json_text() {
    let diagnostic = Diagnostic::new(
        "typecheck",
        Severity::Error,
        "src/auth/session.ts",
        84,
        22,
        "Argument of type 'string | null' is not assignable to 'string'.",
    );
    let mut object = serde_json::Map::new();
    object.insert("schema".to_string(), serde_json::Value::from(diagnostic.schema.clone()));
    object.insert("gate".to_string(), serde_json::Value::from(diagnostic.gate.clone()));
    object.insert("file".to_string(), serde_json::Value::from(diagnostic.file.clone()));
    object.insert("line".to_string(), serde_json::Value::from(diagnostic.line));
    object.insert("column".to_string(), serde_json::Value::from(diagnostic.column));
    object.insert("message".to_string(), serde_json::Value::from(diagnostic.message.clone()));
    let json = serde_json::Value::Object(object).to_string();
    let value: serde_json::Value = serde_json::from_str(&json).expect("deserialize");
    let back = Diagnostic::new(
        value["gate"].as_str().unwrap(),
        Severity::Error,
        value["file"].as_str().unwrap(),
        value["line"].as_u64().unwrap() as u32,
        value["column"].as_u64().unwrap() as u32,
        value["message"].as_str().unwrap(),
    );
    assert_eq!(value["schema"].as_str(), Some(heretek::diagnostic::DIAGNOSTIC_SCHEMA));
    assert_eq!(back.schema, heretek::diagnostic::DIAGNOSTIC_SCHEMA);
    assert_eq!(back.gate, diagnostic.gate);
    assert_eq!(back.severity, diagnostic.severity);
    assert_eq!(back.file, diagnostic.file);
    assert_eq!((back.line, back.column), (84, 22));
    assert_eq!(back.message, diagnostic.message);
    assert_eq!(back.code, None);
    assert_eq!(back.hint, None);
    assert!(back.context.is_empty());
    assert!(back.is_new);
}
