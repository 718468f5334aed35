use heretek::process::{command_plan, ProcessSpec};
use heretek::stages::typecheck::parse_diagnostic;
use heretek::cli::{doctor_line, gate_exit_code, run_exit_code, text_report, version_line, GateArgs, OutputFormat};
use heretek::config::{ConfigError, GateConfig, HereConfig};
use heretek::diagnostic::{Diagnostic, GateKind, Severity};
use heretek::json::parse_json_document;
use heretek::mcp::{kind_label, run_target, GateRunParams, HeretekServer, ReportReply};
use heretek::process::ProcessOutput;
use heretek::report::{GateReport, StageReport, StageStatus};
use heretek::shadow::{
    check_owner, check_patch, harness_config_files, patch_args, read_metadata, restore_args, shadow_path, ShadowWorkspace,
};
use heretek::stage::{GateContext, GateError, Target};
use heretek::stages::ast_grep::{match_diagnostics, rule_args_for_path, AstGrepStage};
use heretek::stages::deps::vulnerability_diagnostics;
use heretek::stages::format::{biome_severity, offset_to_line_column, parse_diagnostics, FormatStage};
use heretek::stages::knip::collect_diagnostics;
use heretek::stages::semgrep::{resolve_config, result_diagnostics};
use heretek::stages::syntax::{language_for, SourceLanguage, SyntaxStage};
use heretek::stages::tests::location_from;
use heretek::stages::util::parse_json;
use heretek::stages::{enabled_stages, StageId};
use heretek::text::{join, sort_strings};

fn ctx_with(files: &[&str], fix: bool) -> GateContext {
    GateContext::new("/repo", Target::Worktree("/repo/tree".to_string()))
        .with_files(files.iter().map(|f| f.to_string()).collect())
        .with_fix(fix)
}

fn output(stdout: &str, status: Option<i32>) -> ProcessOutput {
    ProcessOutput { status, stdout: stdout.to_string(), stderr: String::new(), timed_out: false }
}

#[test]
fn strings_sort_in_byte_order_and_join() {
    let sorted = sort_strings(vec!["b".to_string(), "a".to_string(), "B".to_string()]);
    assert_eq!(sorted, ["B", "a", "b"]);
    assert_eq!(join(&sorted, ", "), "B, a, b");
}

#[test]
fn json_documents_and_streams() {
    let v = parse_json_document("{\"a\": 1}").unwrap();
    assert_eq!(v.get("a").and_then(|a| a.as_u64()), Some(1));
    assert_eq!(v.text, "{\"a\":1}");
    assert!(parse_json_document("{").is_err());
    let found = parse_json("noise {\"x\": [1]} trailing").unwrap();
    assert_eq!(found.get("x").and_then(|x| x.as_array()).map(|a| a.len()), Some(1));
}

#[test]
fn byte_offsets_become_lines_and_columns() {
    assert_eq!(offset_to_line_column("ab\ncd", 4), (2, 2));
    assert_eq!(offset_to_line_column("é", 1), (1, 2));
    assert_eq!(offset_to_line_column("abc", 0), (1, 1));
}

#[test]
fn biome_report_is_read() {
    let sources = vec![("a.ts".to_string(), "ab\ncd".to_string())];
    let report = r#"{"diagnostics":[{"severity":"error","message":"bad","category":"lint/x","location":{"path":{"file":"a.ts"},"span":[4,5]}},{"severity":"information","message":[{"content":"one"},{"content":"two"}],"location":{"path":"b.ts","start":{"line":7,"column":9}}}]}"#;
    let ds = parse_diagnostics(report, &sources).unwrap();
    assert_eq!(ds.len(), 2);
    assert_eq!((ds[0].file.as_str(), ds[0].line, ds[0].column), ("a.ts", 2, 2));
    assert_eq!(ds[0].severity, Severity::Error);
    assert_eq!(ds[0].code.as_deref(), Some("lint/x"));
    assert_eq!((ds[1].file.as_str(), ds[1].line, ds[1].column), ("b.ts", 7, 9));
    assert_eq!(ds[1].message, "one\ntwo");
    assert_eq!(ds[1].severity, Severity::Note);
    assert_eq!(biome_severity("FATAL"), Severity::Error);
    assert!(parse_diagnostics("not json", &sources).is_none());
}

#[test]
fn format_stage_checks_plain_script_files() {
    let stage = FormatStage::new(Some("biome".to_string()), &GateConfig::default());
    let spec = stage.plan(&ctx_with(&["a.ts", "-evil.ts", "b.md"], true)).ok().unwrap();
    assert_eq!(spec.args, ["check", "--write", "--no-errors-on-unmatched", "--reporter=json", "a.ts"]);
    assert!(!spec.allow_network);
    let skipped = stage.plan(&ctx_with(&["-evil.ts"], false)).err().unwrap();
    assert_eq!(skipped.skipped_reason.as_deref(), Some("only pathological file names changed"));
    let staged = GateContext::new("/repo", Target::Staged).with_files(vec!["a.ts".to_string()]);
    let out = output(r#"{"diagnostics":[{"severity":"error","message":"bad","location":{"path":"a.ts"}}]}"#, Some(1));
    let outcome = stage.interpret(&out, &staged, &vec![]).ok().unwrap();
    assert_eq!(outcome.status, StageStatus::Passed);
    assert_eq!(outcome.diagnostics[0].severity, Severity::Warning);
}

#[test]
fn ast_grep_matches_become_frames() {
    let v = parse_json_document(r#"[{"file":"a.ts","range":{"start":{"line":0,"column":4}},"ruleId":"no-x","message":"m","severity":"error"}]"#).unwrap();
    let ds = match_diagnostics(&v);
    assert_eq!((ds[0].line, ds[0].column), (1, 5));
    assert_eq!(ds[0].code.as_deref(), Some("no-x"));
    assert_eq!(ds[0].severity, Severity::Error);
    let rules = rule_args_for_path("r.yml", true, false, None, vec![]).unwrap();
    assert_eq!(rules, ["--rule", "r.yml"]);
    let dir = rule_args_for_path("rules", false, true, None, vec!["b.yml".to_string(), "a.yml".to_string()]).unwrap();
    assert_eq!(dir, ["--rule", "a.yml", "--rule", "b.yml"]);
    assert!(rule_args_for_path("rules", false, true, None, vec![]).is_none());
    let stage = AstGrepStage::new(Some("ast-grep".to_string()), &GateConfig::default());
    let skipped = stage.plan(&ctx_with(&["a.ts"], false), None).err().unwrap();
    assert_eq!(skipped.skipped_reason.as_deref(), Some("no ast-grep rules configured"));
}

#[test]
fn knip_findings_are_listed() {
    let v = parse_json_document(r#"{"files":["x.ts"],"issues":[{"file":"y.ts","exports":[{"name":"a","line":3},{"name":"b"}]}]}"#).unwrap();
    let ds = collect_diagnostics(&v);
    assert_eq!(ds.len(), 2);
    assert_eq!((ds[0].file.as_str(), ds[0].line, ds[0].message.as_str()), ("x.ts", 0, "unused file"));
    assert_eq!((ds[1].file.as_str(), ds[1].line, ds[1].message.as_str()), ("y.ts", 3, "unused exports: a, b"));
    assert_eq!(ds[1].code.as_deref(), Some("knip"));
}

#[test]
fn vulnerabilities_are_listed_per_package() {
    let v = parse_json_document(r#"{"results":[{"source":{"path":"package-lock.json"},"packages":[{"package":{"name":"lodash","version":"4.17.0","ecosystem":"npm"},"vulnerabilities":[{"id":"GHSA-1","summary":"proto"}]}]}]}"#).unwrap();
    let ds = vulnerability_diagnostics(&v);
    assert_eq!(ds.len(), 1);
    assert_eq!(ds[0].file, "package-lock.json");
    assert_eq!(ds[0].message, "npm/lodash@4.17.0: proto");
    assert_eq!(ds[0].code.as_deref(), Some("GHSA-1"));
    assert_eq!(ds[0].hint.as_deref(), Some("upgrade or pin a patched version"));
}

#[test]
fn semgrep_results_and_config() {
    let v = parse_json_document(r#"{"results":[{"path":"a.ts","start":{"line":2,"col":3},"extra":{"message":"m","severity":"INFO"},"check_id":"r1"}]}"#).unwrap();
    let ds = result_diagnostics("sast", &v);
    assert_eq!((ds[0].line, ds[0].column, ds[0].severity), (2, 3, Severity::Note));
    assert_eq!(ds[0].code.as_deref(), Some("r1"));
    let config = GateConfig::default();
    assert_eq!(resolve_config(&config, None, "p/default"), None);
    assert_eq!(resolve_config(&config, Some("semgrep.yml".to_string()), "p/default").as_deref(), Some("semgrep.yml"));
}

#[test]
fn syntax_stage_parses_with_tree_sitter() {
    assert_eq!(language_for("a.tsx"), Some(SourceLanguage::Tsx));
    assert_eq!(language_for("src/a.mts"), Some(SourceLanguage::TypeScript));
    assert_eq!(language_for("x/.ts"), None);
    assert_eq!(language_for("a.md"), None);
    let stage = SyntaxStage::new(&GateConfig::default());
    let good = stage.check(&vec![("a.ts".to_string(), "let x = 1;\n".to_string())]);
    assert_eq!(good.status, StageStatus::Passed);
    let bad = stage.check(&vec![("b.ts".to_string(), "let x = ;\n".to_string())]);
    assert_eq!(bad.status, StageStatus::Failed);
    assert_eq!(bad.diagnostics[0].code.as_deref(), Some("syntax"));
    assert_eq!(bad.diagnostics[0].file, "b.ts");
}

#[test]
fn test_failures_point_at_their_location() {
    assert_eq!(location_from("at foo (src/a.test.ts:12:5)"), (12, 5));
    assert_eq!(location_from("no location"), (0, 0));
}

#[test]
fn enabled_stages_follow_the_toggles() {
    let mut config = GateConfig::default();
    config.stages.tests = false;
    let ids = enabled_stages(&config);
    assert_eq!(ids.first(), Some(&StageId::Syntax));
    assert!(!ids.contains(&StageId::Tests));
}

fn report() -> GateReport {
    let mut old = Diagnostic::new("syntax", Severity::Error, "a.ts", 1, 2, "old");
    old.is_new = false;
    let stage = StageReport::failed("syntax", GateKind::Blocking, 5, vec![old, Diagnostic::new("syntax", Severity::Error, "a.ts", 3, 4, "new")]);
    GateReport::from_stages("staged changes", vec![stage, StageReport::skipped("tests", GateKind::Blocking, "no tests")])
}

#[test]
fn text_reports() {
    let lines = text_report(&report(), true);
    assert_eq!(lines[0], "heretek gate: staged changes");
    assert_eq!(lines[1], "  [failed] syntax (5 ms)");
    assert_eq!(lines[2], "      a.ts:1:2 error [baseline] old");
    assert_eq!(lines[3], "      a.ts:3:4 error [new] new");
    assert_eq!(lines[4], "  [skipped] tests (0 ms)");
    assert_eq!(lines[5], "      skipped: no tests");
    assert_eq!(lines[6], "summary: 1 blocking failure(s), 1 new diagnostic(s), 1 baseline diagnostic(s)");
    let short = text_report(&report(), false);
    assert_eq!(short.len(), 6);
    assert_eq!(short[5], "summary: 1 blocking failure(s), 1 new diagnostic(s)");
    assert_eq!(gate_exit_code(&report(), &Vec::new()), 1);
    assert_eq!(run_exit_code(true, true), 0);
    assert_eq!(run_exit_code(false, true), 1);
}

#[test]
fn doctor_output() {
    assert_eq!(version_line("\n  v1.2.3 \n", "").as_deref(), Some("v1.2.3"));
    assert_eq!(version_line("", "tool 2.0\n").as_deref(), Some("tool 2.0"));
    assert_eq!(version_line(" \n", ""), None);
    assert_eq!(doctor_line("git", true, None), format!("  {:<14} {:<9} {}", "git", "required", "missing"));
    assert_eq!(doctor_line("knip", false, Some("5.0")), format!("  {:<14} {:<9} {}", "knip", "optional", "5.0"));
}

#[test]
fn gate_target_of_the_command_line() {
    let args = GateArgs { staged: false, worktree: Some("tree".to_string()), baseline: None, format: OutputFormat::Text, fix: false };
    match heretek::cli::gate_target(&args, "/repo") {
        Target::Worktree(p) => assert_eq!(p, "/repo/tree"),
        Target::Staged => panic!("worktree ignored"),
    }
}

#[test]
fn shadow_plans() {
    assert_eq!(shadow_path("/r", true, "s1"), "/r/.heretek/worktrees/s1");
    assert_eq!(shadow_path("/r", false, "s1"), "/r/.heretek/shadow/s1");
    let (add, diff) = patch_args("abc");
    assert_eq!(add, ["add", "-A", "--", ".", ":(exclude).heretek-shadow.json"]);
    assert_eq!(diff, ["diff", "--cached", "--binary", "abc", "--", ".", ":(exclude).heretek-shadow.json"]);
    let mut copy = ShadowWorkspace::new_copy("/r", "/r/.heretek/shadow/s1", "s1");
    assert_eq!(copy.snapshot_marker().as_deref(), Some("copy-0"));
    assert_eq!(copy.snapshot_marker().as_deref(), Some("copy-1"));
    match copy.rollback_plan("abc") {
        Err(GateError::Failed { message }) => assert_eq!(message, "rollback is not supported for non-git workspaces"),
        _ => panic!("copy rollback accepted"),
    }
    let mut git = ShadowWorkspace::new_git("/r", "/w", "s1", "deadbeef\n");
    assert_eq!(git.base(), "deadbeef");
    assert_eq!(git.snapshot_ref(), "refs/heretek/turns/s1/0");
    assert_eq!(git.record_snapshot("cafe\n"), "cafe");
    assert!(git.rollback_plan("-x").is_err());
    let meta = read_metadata(r#"{"mode":"copy","repo_root":"/r"}"#).ok().unwrap();
    assert!(meta.copy);
    assert!(read_metadata("{").is_err());
    assert!(check_owner("/a", "/b").is_err());
    assert!(check_patch("  \n").is_err());
}

#[test]
fn mcp_report_cache() {
    let mut server = HeretekServer::new();
    assert!(server.report_get(None).is_err());
    server.remember(report());
    assert!(matches!(server.report_get(Some("json")), Ok(ReportReply::Json(_))));
    match server.report_get(Some("text")) {
        Ok(ReportReply::Text(t)) => assert!(t.starts_with("heretek gate: staged changes\n  [failed] syntax (5 ms)")),
        _ => panic!("text expected"),
    }
    match server.report_get(Some("xml")) {
        Err(m) => assert_eq!(m, "unknown format \"xml\"; expected \"text\" or \"json\""),
        _ => panic!("unknown format accepted"),
    }
    assert_eq!(kind_label(GateKind::Advisory), "advisory");
    let params = GateRunParams { target: Some("worktree".to_string()), path: Some("/w".to_string()), baseline: None };
    assert!(matches!(run_target(&params), Target::Worktree(_)));
}

#[test]
fn configuration_checks() {
    assert!(HereConfig::default().validate().is_ok());
    let mut config = HereConfig::default();
    config.default_lane = Some("deep".to_string());
    match config.validate() {
        Err(ConfigError::Invalid(m)) => assert_eq!(m, "default_lane \"deep\" has no matching models entry"),
        _ => panic!("unknown default lane accepted"),
    }
    let e = ConfigError::Read { path: ".heretek.toml".to_string(), message: "denied".to_string() };
    assert_eq!(e.text(), "cannot read .heretek.toml: denied");
}

#[test]
fn gate_passes_only_with_evidence() {
    let ts = vec!["src/a.ts".to_string()];
    let docs = vec!["README.md".to_string()];
    let skipped = GateReport::from_stages("staged", vec![StageReport::skipped("syntax", GateKind::Blocking, "no tool")]);
    assert!(skipped.passed);
    assert_eq!(gate_exit_code(&skipped, &ts), 1);
    assert_eq!(gate_exit_code(&skipped, &docs), 0);
    assert_eq!(gate_exit_code(&skipped, &Vec::new()), 0);
    let ran = GateReport::from_stages("staged", vec![StageReport::passed("syntax", GateKind::Blocking, 3)]);
    assert_eq!(gate_exit_code(&ran, &ts), 0);
    let advisory_only = GateReport::from_stages("staged", vec![StageReport::passed("deps", GateKind::Advisory, 3)]);
    assert_eq!(gate_exit_code(&advisory_only, &ts), 1);
}

#[test]
fn staged_format_runs_never_write() {
    let stage = FormatStage::new(Some("biome".to_string()), &GateConfig::default());
    let staged = GateContext::new("/repo", Target::Staged).with_files(vec!["a.ts".to_string()]).with_fix(true);
    let spec = stage.plan(&staged).ok().unwrap();
    assert_eq!(spec.args, ["check", "--no-errors-on-unmatched", "--reporter=json", "a.ts"]);
    assert_eq!(spec.cwd, "/repo");
}

#[test]
fn checker_configurations_are_restored_from_head() {
    let files = harness_config_files();
    assert!(files.contains(&"tsconfig.json"));
    assert!(files.contains(&"sgconfig.yml"));
    assert_eq!(files.len(), 11);
    let args = restore_args(&vec!["tsconfig.json".to_string(), "biome.json".to_string()]);
    assert_eq!(args, vec!["checkout", "HEAD", "--", "tsconfig.json", "biome.json"]);
}

#[test]
fn checker_lines_become_frames() {
    let line = "src/a.ts(3,5): error TS2322: Type 'string' is not assignable to type 'number'.";
    let d = parse_diagnostic("typecheck", line).unwrap();
    assert_eq!(d.gate, "typecheck");
    assert_eq!(d.file, "src/a.ts");
    assert_eq!((d.line, d.column), (3, 5));
    assert_eq!(d.severity, Severity::Error);
    assert_eq!(d.code.as_deref(), Some("TS2322"));
    assert_eq!(d.message, "Type 'string' is not assignable to type 'number'.");
    assert!(parse_diagnostic("typecheck", "notes.md(3,5): error X: y").is_none());
    assert!(parse_diagnostic("typecheck", "src/a.ts(0,5): error X: y").is_none());
}

#[test]
fn deeply_nested_sources_are_checked() {
    let stage = SyntaxStage::new(&GateConfig::default());
    let depth = 50_000;
    let source = format!("let x = {}1{};\n", "[".repeat(depth), "]".repeat(depth));
    let ok = stage.check(&vec![("deep.ts".to_string(), source)]);
    assert_eq!(ok.status, StageStatus::Passed);
    let broken = format!("let x = {}1;\n", "[".repeat(depth));
    let bad = stage.check(&vec![("deep.ts".to_string(), broken)]);
    assert_eq!(bad.status, StageStatus::Failed);
    assert!(bad.diagnostics.len() <= 20);
}

#[test]
fn tool_commands_get_a_scrubbed_environment() {
    let spec = ProcessSpec::new("tsc", "/repo").args(vec!["--noEmit".to_string()]).env("FORCE", "1");
    let inherited = vec![
        ("PATH".to_string(), "/bin".to_string()),
        ("AWS_SECRET".to_string(), "x".to_string()),
        ("HOME".to_string(), "/h".to_string()),
    ];
    let (program, args, env) = command_plan(&spec, true, inherited.clone());
    assert_eq!(program, "unshare");
    assert_eq!(args, vec!["--user", "--map-root-user", "--net", "tsc", "--noEmit"]);
    let pairs = |v: &[(&str, &str)]| v.iter().map(|(k, x)| (k.to_string(), x.to_string())).collect::<Vec<_>>();
    assert_eq!(env, pairs(&[("PATH", "/bin"), ("HOME", "/h"), ("TERM", "dumb"), ("NO_COLOR", "1"), ("CI", "1"), ("FORCE", "1")]));
    let (program, args, env) = command_plan(&spec, false, inherited);
    assert_eq!(program, "tsc");
    assert_eq!(args, vec!["--noEmit"]);
    assert_eq!(env.len(), 11);
    assert_eq!(env[5], ("HTTP_PROXY".to_string(), "http://127.0.0.1:9".to_string()));
    assert_eq!(env[9], ("NO_PROXY".to_string(), String::new()));
}
