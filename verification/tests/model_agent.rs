use heretek::agent::context::{compact_tool_result, system_prompt, topology_text, zone_hash};
use heretek::agent::error::{blocking_frames, AgentError};
use heretek::agent::repair::{repair_truncated, scavenge, ToolCallRepair};
use heretek::agent::session::{applies_result, tool_budget, turn_limit, SessionOptions, SessionState, TurnStart};
use heretek::agent::tools::{
    edit_text, list_outcome, read_outcome, safe_relative, search_enters, search_goes_on, search_line, search_reads, SEARCH_DEPTH, search_outcome, write_outcome, ToolAction,
    ToolBox,
};
use heretek::config::HereConfig;
use heretek::decide::RiskTier;
use heretek::diagnostic::{Diagnostic, GateKind, Severity};
use heretek::json::parse_json_document;
use heretek::model::client::{
    api_key_from, base_url_of, decode_body, model_ids, parse_chat, parse_content, retry_after, retry_delay,
};
use heretek::model::error::ModelError;
use heretek::model::router::Router;
use heretek::model::types::{Message, ModelHealth, Role, ToolCall, Usage};
use heretek::profile::{Lane, ModelProfile};
use heretek::report::{GateReport, StageReport};

fn call(name: &str, arguments: &str) -> ToolCall {
    ToolCall { id: "c1".to_string(), name: name.to_string(), arguments: arguments.to_string() }
}

fn profile(lane: Lane) -> ModelProfile {
    ModelProfile {
        lane,
        base_url: "http://127.0.0.1:8080/v1".to_string(),
        model: "m".to_string(),
        context_tokens: 32768,
        api_key_env: None,
    }
}

fn failing_report() -> GateReport {
    let d = Diagnostic::new("syntax", Severity::Error, "a.ts", 3, 4, "m").with_hint("h");
    let mut d = d;
    d.code = Some("X".to_string());
    let stage = StageReport::failed("syntax", GateKind::Blocking, 5, vec![d]);
    GateReport::from_stages("staged changes", vec![stage])
}

#[test]
fn chat_completion_is_read_field_by_field() {
    let body = r#"{"choices":[{"message":{"content":"hi","tool_calls":[{"id":"c1","function":{"name":"read_file","arguments":"{\"path\":\"a\"}"}}]},"finish_reason":"stop"}],"usage":{"prompt_tokens":5,"completion_tokens":2,"total_tokens":7,"prompt_tokens_details":{"cached_tokens":3}}}"#;
    let value = parse_json_document(body).unwrap();
    let response = parse_chat(value, "m0").unwrap();
    assert_eq!(response.content.as_deref(), Some("hi"));
    assert_eq!(response.tool_calls.len(), 1);
    assert_eq!(response.tool_calls[0].name, "read_file");
    assert_eq!(response.tool_calls[0].arguments, "{\"path\":\"a\"}");
    assert_eq!(
        response.usage,
        Usage { prompt_tokens: 5, completion_tokens: 2, total_tokens: 7, cached_tokens: Some(3) }
    );
    assert_eq!(response.model, "m0");
    assert_eq!(response.finish_reason.as_deref(), Some("stop"));
    assert_eq!(response.tool_call_by_name("read_file").map(|c| c.id.as_str()), Some("c1"));
    assert!(response.tool_call_by_name("write_file").is_none());
}

#[test]
fn chat_without_choices_is_a_parse_error() {
    let value = parse_json_document("{\"choices\": []}").unwrap();
    match parse_chat(value, "m") {
        Err(ModelError::Parse(m)) => assert_eq!(m, "response contained no choices"),
        other => panic!("unexpected {:?}", other.is_ok()),
    }
    let value = parse_json_document("{\"choices\": [{}]}").unwrap();
    match parse_chat(value, "m") {
        Err(ModelError::Parse(m)) => assert_eq!(m, "response choice had no message"),
        other => panic!("unexpected {:?}", other.is_ok()),
    }
}

#[test]
fn object_arguments_are_kept_as_compact_json() {
    let body = r#"{"choices":[{"message":{"tool_calls":[{"id":"c","function":{"name":"x","arguments":{"a": 1}}},{"function":{"name":"no-id"}}]}}],"model":"served"}"#;
    let response = parse_chat(parse_json_document(body).unwrap(), "fallback").unwrap();
    assert_eq!(response.tool_calls.len(), 1);
    assert_eq!(response.tool_calls[0].arguments, "{\"a\":1}");
    assert_eq!(response.model, "served");
    assert_eq!(response.usage, Usage::default());
}

#[test]
fn content_parts_are_joined() {
    let value = parse_json_document(r#"[{"type":"text","text":"a"},"b",3]"#).unwrap();
    assert_eq!(parse_content(Some(&value)).as_deref(), Some("ab"));
    let empty = parse_json_document("[]").unwrap();
    assert_eq!(parse_content(Some(&empty)), None);
}

#[test]
fn retries_back_off_and_stop_after_three_attempts() {
    assert_eq!(retry_delay(1), 300);
    assert_eq!(retry_delay(2), 900);
    assert_eq!(retry_delay(7), 2700);
    let busy = ModelError::Status { status: 429, body: String::new() };
    assert_eq!(retry_after(0, &busy), Some(300));
    assert_eq!(retry_after(1, &busy), Some(900));
    assert_eq!(retry_after(2, &busy), None);
    let bad = ModelError::Status { status: 400, body: String::new() };
    assert_eq!(retry_after(0, &bad), None);
    let connect = ModelError::Http { message: "refused".to_string(), timeout: false, connect: true };
    assert!(connect.is_retryable());
}

#[test]
fn model_errors_have_messages() {
    let e = ModelError::Status { status: 503, body: "busy".to_string() };
    assert_eq!(e.text(), "model endpoint returned status 503: busy");
    assert_eq!(ModelError::MissingApiKey("KEY".to_string()).text(), "missing API key environment variable KEY");
    assert_eq!(AgentError::Io("x".to_string()).text(), "io error: x");
    assert_eq!(AgentError::Model(e).text(), "model error: model endpoint returned status 503: busy");
}

#[test]
fn endpoint_settings_are_normalized() {
    assert_eq!(base_url_of("http://x/v1//"), "http://x/v1");
    match api_key_from(&Some("KEY".to_string()), Some(String::new())) {
        Err(ModelError::MissingApiKey(v)) => assert_eq!(v, "KEY"),
        _ => panic!("empty key accepted"),
    }
    assert_eq!(api_key_from(&None, Some("x".to_string())).unwrap(), None);
    assert_eq!(api_key_from(&Some("KEY".to_string()), Some("s".to_string())).unwrap().as_deref(), Some("s"));
}

#[test]
fn error_bodies_are_cut_and_bad_json_is_refused() {
    let long = "x".repeat(700);
    match decode_body(false, 500, &long) {
        Err(ModelError::Status { status, body }) => {
            assert_eq!(status, 500);
            assert_eq!(body.chars().count(), 600);
        },
        _ => panic!("error status accepted"),
    }
    match decode_body(true, 200, "{") {
        Err(ModelError::Parse(m)) => assert!(m.starts_with("invalid JSON from model endpoint: ")),
        _ => panic!("bad json accepted"),
    }
    let ids = model_ids(&decode_body(true, 200, r#"{"data":[{"id":"a"},{"x":1},{"id":"b"}]}"#).unwrap());
    assert_eq!(ids, ["a", "b"]);
}

#[test]
fn router_picks_lanes() {
    let mut config = HereConfig::default();
    config.models = vec![("deep".to_string(), profile(Lane::Deep)), ("fast".to_string(), profile(Lane::Fast))];
    let router = Router::new(config);
    assert_eq!(router.default_lane().ok(), Some("fast"));
    assert_eq!(router.lane_for_risk(RiskTier::High), "deep");
    assert_eq!(router.lane_for_risk(RiskTier::Low), "fast");
    match router.profile_for("micro") {
        Err(ModelError::Config(m)) => assert_eq!(m, "lane \"micro\" is not configured (available: deep, fast)"),
        _ => panic!("unknown lane accepted"),
    }
    let empty = Router::new(HereConfig::default());
    match empty.default_lane() {
        Err(ModelError::Config(m)) => assert_eq!(m, "no models configured"),
        _ => panic!("no lane expected"),
    }
}

#[test]
fn lanes_are_kept_once_each_in_name_order() {
    let mut config = HereConfig::default();
    config.set_model("fast".to_string(), profile(Lane::Fast));
    config.set_model("deep".to_string(), profile(Lane::Deep));
    config.set_model("micro".to_string(), profile(Lane::Micro));
    config.set_model("fast".to_string(), profile(Lane::Micro));
    let names: Vec<&str> = config.models.iter().map(|(k, _)| k.as_str()).collect();
    assert_eq!(names, ["deep", "fast", "micro"]);
    assert_eq!(config.models[1].1.lane, Lane::Micro);
}

#[test]
fn probes_come_back_in_lane_order() {
    let mut config = HereConfig::default();
    config.models = vec![("zeta".to_string(), profile(Lane::Deep)), ("alpha".to_string(), profile(Lane::Fast))];
    let router = Router::new(config);
    assert_eq!(router.default_lane().ok(), Some("alpha"));
    let up = ModelHealth::from_listing(Ok(vec!["m".to_string()]), 12);
    let v = router.probe(vec![Ok(up), Err("OPENAI_KEY is not set".to_string())]);
    let names: Vec<&str> = v.iter().map(|(k, _)| k.as_str()).collect();
    assert_eq!(names, ["alpha", "zeta"]);
    assert!(!v[0].1.reachable);
    assert!(v[0].1.models.is_empty());
    assert_eq!(v[0].1.latency_ms, 0);
    assert_eq!(v[0].1.error.as_deref(), Some("OPENAI_KEY is not set"));
    assert!(v[1].1.reachable);
    assert_eq!(v[1].1.models, ["m"]);
    assert_eq!(v[1].1.latency_ms, 12);
    let down = ModelHealth::from_listing(Err("connection refused".to_string()), 7);
    assert!(!down.reachable && down.models.is_empty() && down.latency_ms == 7);
    assert_eq!(down.error.as_deref(), Some("connection refused"));
}

#[test]
fn tool_results_are_compacted_to_head_and_tail() {
    assert_eq!(
        compact_tool_result("abcdefghij", 5),
        "abc\n... [5 chars omitted; re-read the file if needed] ...\nij"
    );
    assert_eq!(compact_tool_result("short", 5), "short");
}

#[test]
fn prompt_zones() {
    assert!(system_prompt().starts_with("You are Heretek, a local coding agent"));
    assert_eq!(zone_hash("abc"), zone_hash("abc"));
    assert_eq!(topology_text(vec!["  src/".to_string()], None, None), "  src/\nWorkspace topology:");
    let with_scripts = topology_text(vec![], Some(r#"{"scripts":{"test":"vitest run"}}"#), Some(("AGENTS.md", "rule one\nrule two")));
    assert_eq!(
        with_scripts,
        "Workspace topology:\npackage.json scripts:\n  test: vitest run\nAGENTS.md (excerpt):\n  rule one\n  rule two"
    );
}

#[test]
fn truncated_arguments_are_completed() {
    assert_eq!(repair_truncated("{\"a\": [1, 2").as_deref(), Some("{\"a\": [1, 2]}"));
    assert_eq!(repair_truncated("  ").as_deref(), Some("{}"));
    assert_eq!(repair_truncated("{\"a\": \"x").as_deref(), Some("{\"a\": \"x\"}"));
    assert_eq!(repair_truncated("{\"a\": tru"), None);
}

#[test]
fn tool_calls_written_as_text_are_recovered() {
    let calls = scavenge("I will call {\"name\": \"read_file\", \"arguments\": {\"path\": \"a\"}} now");
    assert_eq!(calls.len(), 1);
    assert_eq!(calls[0].id, "scavenged-0");
    assert_eq!(calls[0].name, "read_file");
    assert_eq!(calls[0].arguments, "{\"path\":\"a\"}");
    let mut repair = ToolCallRepair::new();
    let (calls, notes) = repair.repair(Some("{\"tool\": \"finish\", \"args\": {}}"), vec![]);
    assert_eq!(calls.len(), 1);
    assert_eq!(calls[0].name, "finish");
    assert_eq!(notes, [("scavenge", "recovered 1 tool call(s) from content".to_string())]);
}

#[test]
fn cut_arguments_of_a_call_are_repaired() {
    let mut repair = ToolCallRepair::new();
    let (calls, notes) = repair.repair(None, vec![call("write_file", "{\"path\": \"a")]);
    assert_eq!(calls[0].arguments, "{\"path\": \"a\"}");
    assert_eq!(notes, [("truncation", "repaired arguments for 'write_file'".to_string())]);
}

#[test]
fn searches_stop_at_their_limits() {
    assert!(search_enters(0, SEARCH_DEPTH));
    assert!(!search_enters(0, 0));
    assert!(!search_enters(400, 5));
    assert!(search_goes_on(399));
    assert!(!search_goes_on(400));
    assert!(search_reads(2_000_000));
    assert!(!search_reads(2_000_001));
    assert_eq!(SEARCH_DEPTH, 12);
}

#[test]
fn third_identical_mutating_call_is_a_storm() {
    let mut repair = ToolCallRepair::new();
    let c = call("write_file", "{\"path\":\"a\"}");
    assert!(!repair.is_storm(&c));
    assert!(!repair.is_storm(&c));
    assert!(repair.is_storm(&c));
    let r = call("read_file", "{\"path\":\"a\"}");
    for _ in 0..5 {
        assert!(!repair.is_storm(&r));
    }
    assert!(repair.recent.len() <= 10);
}

#[test]
fn tool_calls_are_planned_within_the_workspace() {
    let tools = ToolBox::new("/repo", None);
    assert_eq!(tools.canonical_root, "/repo");
    match tools.plan(&call("read_file", "not json")) {
        ToolAction::Done(o) => assert!(o.is_error && o.content.starts_with("invalid arguments JSON: ")),
        _ => panic!("bad arguments accepted"),
    }
    match tools.plan(&call("read_file", "{\"path\": \"/etc/passwd\"}")) {
        ToolAction::Done(o) => assert_eq!(o.content, "absolute paths are not allowed"),
        _ => panic!("absolute path accepted"),
    }
    match tools.plan(&call("read_file", "{\"path\": \"src/../../x\"}")) {
        ToolAction::Done(o) => assert_eq!(o.content, "path must not escape the workspace"),
        _ => panic!("escape accepted"),
    }
    match tools.plan(&call("read_file", "{\"path\": \"./src//a.ts\"}")) {
        ToolAction::Read { parts } => assert_eq!(parts, ["src", "a.ts"]),
        _ => panic!("path refused"),
    }
    match tools.plan(&call("nope", "{}")) {
        ToolAction::Done(o) => assert_eq!(o.content, "unknown tool 'nope'"),
        _ => panic!("unknown tool accepted"),
    }
    match tools.plan(&call("finish", "{}")) {
        ToolAction::Done(o) => {
            assert!(!o.is_error);
            assert_eq!(o.finish.as_deref(), Some("finished"));
        },
        _ => panic!("finish not done"),
    }
    match tools.plan(&call("edit_file", "{\"path\": \"a\", \"replace\": \"b\"}")) {
        ToolAction::Done(o) => assert_eq!(o.content, "missing 'search'"),
        _ => panic!("missing search accepted"),
    }
    match tools.plan(&call("list_dir", "{}")) {
        ToolAction::List { parts } => assert!(parts.is_empty()),
        _ => panic!("list refused"),
    }
    assert_eq!(safe_relative("a/./b").unwrap(), ["a", "b"]);
    assert_eq!(ToolBox::definitions().len(), 6);
    assert_eq!(ToolBox::definitions()[5].name, "finish");
}

#[test]
fn file_tool_outcomes() {
    assert_eq!(read_outcome(Ok("a\nb".to_string())).content, "    1 | a\n    2 | b");
    assert_eq!(read_outcome(Err("gone".to_string())).content, "cannot read file: gone");
    let written = write_outcome("héllo", Ok(()));
    assert_eq!(written.content, "wrote 6 bytes");
    assert!(written.mutated);
    match edit_text("aXbXc", "X", "Y") {
        Err(o) => assert_eq!(o.content, "'search' must match exactly once, found 2 occurrence(s)"),
        Ok(_) => panic!("ambiguous edit accepted"),
    }
    assert_eq!(edit_text("abc", "b", "ZZ").ok().as_deref(), Some("aZZc"));
    assert_eq!(search_line("f.ts", 0, "Hello World", "world").as_deref(), Some("f.ts:1: Hello World"));
    assert_eq!(search_line("f.ts", 0, "Hello", "world"), None);
    assert_eq!(search_outcome("q", vec![]).content, "no matches for 'q'");
    assert_eq!(list_outcome(vec!["b".to_string(), "a".to_string()]).content, "a\nb");
    assert!(list_outcome(vec![]).is_error);
}

#[test]
fn blocking_frames_list_new_blocking_findings() {
    assert_eq!(blocking_frames(&failing_report()), "[syntax] a.ts:3:4 error X: m hint: h");
}

#[test]
fn a_session_stops_at_its_turn_limit() {
    let mut state = SessionState::new("fast".to_string(), "do it", 2);
    assert_eq!(state.begin_turn(800, 0, 60), TurnStart::Started);
    assert_eq!(state.begin_turn(800, 1_000, 60), TurnStart::Started);
    assert_eq!(state.begin_turn(800, 2_000, 60), TurnStart::OutOfTurns);
    assert_eq!(state.turn, 2);
    let options = SessionOptions { lane: None, max_turns: Some(0), apply: false };
    assert_eq!(turn_limit(&options, &HereConfig::default()), 1);
}

#[test]
fn no_turn_starts_after_the_wall_clock_budget() {
    let mut state = SessionState::new("fast".to_string(), "do it", 5);
    assert_eq!(state.begin_turn(800, 59_999, 60), TurnStart::Started);
    assert_eq!(state.begin_turn(800, 60_000, 60), TurnStart::OutOfTime);
    assert_eq!(state.turn, 1);
    assert_eq!(state.begin_turn(800, 0, 0), TurnStart::OutOfTime);
}

#[test]
fn repeated_gate_failures_escalate_once() {
    let mut state = SessionState::new("fast".to_string(), "do it", 10);
    state.begin_turn(800, 0, 60);
    assert_eq!(state.gate_feedback(&failing_report(), true, true), None);
    state.begin_turn(800, 0, 60);
    assert_eq!(state.gate_feedback(&failing_report(), true, true).as_deref(), Some("2 consecutive gate failures"));
    state.escalate();
    assert_eq!(state.lane, "deep");
    assert_eq!(state.gate_feedback(&failing_report(), true, true), None);
    let last = state.tail.last().unwrap();
    assert_eq!(last.role, Role::User);
    assert!(last.content.as_deref().unwrap().starts_with("The gates rejected this change. Fix exactly these problems:\n[syntax]"));
}

#[test]
fn responses_add_up_usage_and_report_repairs() {
    let mut state = SessionState::new("fast".to_string(), "do it", 10);
    let usage = Usage { prompt_tokens: 1, completion_tokens: 2, total_tokens: 3, cached_tokens: Some(1) };
    let (_, notes) = state.record_response(Some("thinking"), vec![], &usage);
    assert!(notes.is_empty());
    let plain = Usage { prompt_tokens: 10, completion_tokens: 20, total_tokens: 30, cached_tokens: None };
    let (calls, notes) = state.record_response(None, vec![call("write_file", "{\"path\": \"a")], &plain);
    assert_eq!(calls[0].arguments, "{\"path\": \"a\"}");
    assert_eq!(notes, [("truncation", "repaired arguments for 'write_file'".to_string())]);
    assert_eq!(state.usage.prompt_tokens, 11);
    assert_eq!(state.usage.completion_tokens, 22);
    assert_eq!(state.usage.total_tokens, 33);
    assert_eq!(state.usage.cached_tokens, Some(1));
    let (_, notes) = state.record_response(Some("{\"tool\": \"finish\", \"args\": {}}"), vec![], &usage);
    assert_eq!(notes, [("scavenge", "recovered 1 tool call(s) from content".to_string())]);
    assert_eq!(state.usage.cached_tokens, Some(2));
}

#[test]
fn a_response_without_calls_gets_a_nudge() {
    let mut state = SessionState::new("fast".to_string(), "do it", 10);
    let usage = Usage { prompt_tokens: 1, completion_tokens: 2, total_tokens: 3, cached_tokens: Some(1) };
    let (calls, _) = state.record_response(Some("thinking"), vec![], &usage);
    assert!(calls.is_empty());
    assert_eq!(state.tail.len(), 3);
    assert_eq!(state.tail[1].role, Role::Assistant);
    assert_eq!(
        state.tail[2].content.as_deref(),
        Some("Use the provided tools to make progress, or call finish when the task is complete.")
    );
    assert_eq!(state.usage.cached_tokens, Some(1));
    let system = Message::system("rules");
    assert_eq!(state.request_messages(&system).len(), 4);
}

#[test]
fn apply_needs_a_verified_pass() {
    let asked = SessionOptions { lane: None, max_turns: None, apply: true };
    assert!(applies_result(&asked, true, true));
    assert!(!applies_result(&asked, true, false));
    assert!(!applies_result(&asked, false, true));
    assert!(!applies_result(&SessionOptions::default(), true, true));
}

#[test]
fn tool_targets_stay_in_the_workspace() {
    let toolbox = ToolBox::new("/work/shadow", Some("/real/shadow".to_string()));
    let target = toolbox.target_path(&vec!["src".to_string(), "a.ts".to_string()]);
    assert_eq!(target, "/work/shadow/src/a.ts");
    assert_eq!(toolbox.confine(&target, Some("/real/shadow/src".to_string())), Ok(()));
    assert_eq!(toolbox.confine(&target, None), Err("path cannot be resolved inside the workspace".to_string()));
    assert_eq!(
        toolbox.confine(&target, Some("/etc".to_string())),
        Err("path resolves outside the workspace".to_string())
    );
    assert_eq!(toolbox.confine("/work/shadowy/a.ts", None), Err("path escapes the workspace".to_string()));
}

#[test]
fn tool_results_are_budgeted_by_the_lane_window() {
    let config = HereConfig::default();
    assert_eq!(tool_budget(&config, 32768), 4 * 2730);
    assert_eq!(tool_budget(&config, 131072), 4 * 3000);
    assert_eq!(tool_budget(&config, 1000), 4 * 200);
}

#[test]
fn a_session_refuses_the_third_identical_write() {
    let mut state = SessionState::new("fast".to_string(), "task", 5);
    let write = ToolCall { id: "w".to_string(), name: "write_file".to_string(), arguments: "{}".to_string() };
    assert!(state.admit_call(&write));
    assert!(state.admit_call(&write));
    assert_eq!(state.tail.len(), 1);
    assert!(!state.admit_call(&write));
    assert_eq!(state.tail.len(), 2);
    assert_eq!(state.tail[1].tool_call_id.as_deref(), Some("w"));
    let read = ToolCall { id: "r".to_string(), name: "read_file".to_string(), arguments: "{}".to_string() };
    for _ in 0..5 {
        assert!(state.admit_call(&read));
    }
    assert_eq!(state.repair.recent.len(), 3);
}

#[test]
fn writes_to_protected_paths_are_refused() {
    let toolbox = ToolBox::new("/work/shadow", None);
    for path in [".git/config", "src/.heretek/x", ".heretek-shadow.json"] {
        let args = format!("{{\"path\":\"{path}\",\"content\":\"x\"}}");
        let call = ToolCall { id: "1".to_string(), name: "write_file".to_string(), arguments: args };
        match toolbox.plan(&call) {
            ToolAction::Done(o) => {
                assert!(o.is_error && !o.mutated);
                assert_eq!(o.content, "writes to .git, .heretek or shadow metadata are not allowed");
            },
            other => panic!("unexpected {other:?}"),
        }
    }
    let edit = ToolCall {
        id: "2".to_string(),
        name: "edit_file".to_string(),
        arguments: "{\"path\":\".git/HEAD\",\"search\":\"a\",\"replace\":\"b\"}".to_string(),
    };
    assert!(matches!(toolbox.plan(&edit), ToolAction::Done(_)));
    let read = ToolCall { id: "3".to_string(), name: "read_file".to_string(), arguments: "{\"path\":\".git/HEAD\"}".to_string() };
    assert!(matches!(toolbox.plan(&read), ToolAction::Read { .. }));
}
