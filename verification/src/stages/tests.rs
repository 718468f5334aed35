use vstd::prelude::*;

use crate::stages::{stage_kind, stage_name, StageId};

use crate::config::GateConfig;
use crate::diagnostic::{diagnostics_view, new_diagnostic_view, strings_view, Diagnostic, DiagnosticView, GateKind, Severity};
use crate::json::{array_opt, get_opt, json_array, json_get, json_get_opt, json_str, opt_deref, str_opt, JsonValue};
use crate::process::{combined_spec, ProcessOutput, ProcessSpec};
use crate::report::StageStatus;
use crate::stage::{target_root_of, GateContext, GateError, StageOutcome, Target};
use crate::stages::typecheck::{any_error, has_error};
use crate::stages::util::{
    diagnostic, exited_message, exited_text, filter_ts, is_ts_spec, output_json, output_json_spec, parse_u32,
    parse_u32_spec, slice_of, timed_out_message, timed_out_text, truncate, truncated, ts_files, UNPARSEABLE,
};
use crate::text::{cat, chars_of, contains, contains_seq, is_digit, starts_with, starts_with_seq, string_of, trim_seq, trim_str};

verus! {

/// Which test runner was found.
#[derive(Debug, Clone, Copy, PartialEq, Eq, Structural)]
pub enum Runner {
    Vitest,
    Jest,
}

/// Affected tests with `vitest` or `jest` (blocking).
pub struct TestsStage {
    pub program: Option<String>,
    pub runner: Runner,
    pub timeout_secs: u64,
    pub max_output: usize,
    pub allow_network: bool,
}

/// Whether a path names a test file.
pub open spec fn is_test_file_spec(p: Seq<char>) -> bool {
    contains_seq(p, ".test."@) || contains_seq(p, ".spec."@) || contains_seq(p, "__tests__/"@)
        || contains_seq(p, "/tests/"@) || starts_with_seq(p, "tests/"@)
}

/// `p` is `x`, a test marker, then `y`; or "tests/" then `y`.
pub open spec fn marked_around(p: Seq<char>, x: Seq<char>, y: Seq<char>) -> bool {
    p == x + ".test."@ + y || p == x + ".spec."@ + y || p == x + "__tests__/"@ + y || p == x + "/tests/"@ + y
        || p == "tests/"@ + y
}

/// A path names a test file when ".test.", ".spec." or "__tests__/" occurs anywhere in it, or
/// when it lies in a "tests" directory ("/tests/" in it, or "tests/" at its start); a path
/// with none of these is no test file.
pub proof fn law_test_file_markers(a: Seq<char>, b: Seq<char>, p: Seq<char>)
    ensures
        is_test_file_spec(a + ".test."@ + b),
        is_test_file_spec(a + ".spec."@ + b),
        is_test_file_spec(a + "__tests__/"@ + b),
        is_test_file_spec(a + "/tests/"@ + b),
        is_test_file_spec("tests/"@ + b),
        is_test_file_spec(p) ==> exists|x: Seq<char>, y: Seq<char>| #[trigger] marked_around(p, x, y),
{
    crate::text::lemma_contains_inserted(a, ".test."@, b);
    crate::text::lemma_contains_inserted(a, ".spec."@, b);
    crate::text::lemma_contains_inserted(a, "__tests__/"@, b);
    crate::text::lemma_contains_inserted(a, "/tests/"@, b);
    crate::text::lemma_contains_inserted(Seq::empty(), "tests/"@, b);
    if is_test_file_spec(p) {
        if contains_seq(p, ".test."@) {
            let (x, y) = lemma_split_at_marker(p, ".test."@);
            assert(marked_around(p, x, y));
        } else if contains_seq(p, ".spec."@) {
            let (x, y) = lemma_split_at_marker(p, ".spec."@);
            assert(marked_around(p, x, y));
        } else if contains_seq(p, "__tests__/"@) {
            let (x, y) = lemma_split_at_marker(p, "__tests__/"@);
            assert(marked_around(p, x, y));
        } else if contains_seq(p, "/tests/"@) {
            let (x, y) = lemma_split_at_marker(p, "/tests/"@);
            assert(marked_around(p, x, y));
        } else {
            let y = p.subrange("tests/"@.len() as int, p.len() as int);
            assert(p =~= "tests/"@ + y);
            assert(marked_around(p, Seq::empty(), y));
        }
    }
}

/// A text that contains `m` is some text, then `m`, then some text.
proof fn lemma_split_at_marker(p: Seq<char>, m: Seq<char>) -> (r: (Seq<char>, Seq<char>))
    requires
        contains_seq(p, m),
    ensures
        p == r.0 + m + r.1,
{
    let i = choose|i: int| crate::text::has_at(p, m, i);
    let x = p.subrange(0, i);
    let y = p.subrange(i + m.len(), p.len() as int);
    assert(p =~= x + m + y);
    (x, y)
}

pub fn is_test_file(path: &str) -> (r: bool)
    ensures
        r == is_test_file_spec(path@),
{
    let p = chars_of(path);
    contains(&p, &chars_of(".test.")) || contains(&p, &chars_of(".spec.")) || contains(&p, &chars_of("__tests__/"))
        || contains(&p, &chars_of("/tests/")) || starts_with(&p, &chars_of("tests/"))
}

/// The file name: the text after the last `/`.
pub open spec fn file_name(p: Seq<char>) -> Seq<char>
    decreases p.len(),
{
    if p.len() == 0 {
        p
    } else if p.last() == '/' {
        Seq::empty()
    } else {
        file_name(p.drop_last()).push(p.last())
    }
}

/// A name a tool could read as an option, or a path with a newline.
pub open spec fn is_pathological_spec(p: Seq<char>) -> bool {
    starts_with_seq(file_name(p), "-"@) || p.contains('\n')
}

fn file_name_exec(p: &Vec<char>) -> (r: Vec<char>)
    ensures
        r@ == file_name(p@),
{
    let mut start: usize = 0;
    let mut i: usize = 0;
    while i < p.len()
        invariant
            i <= p.len(),
            start <= i,
            file_name(p@.take(i as int)) == p@.subrange(start as int, i as int),
        decreases p.len() - i,
    {
        assert(p@.take(i + 1).drop_last() =~= p@.take(i as int));
        if p[i] == '/' {
            start = i + 1;
            assert(file_name(p@.take(i + 1)) =~= p@.subrange(start as int, i + 1));
        } else {
            assert(file_name(p@.take(i + 1)) =~= p@.subrange(start as int, i + 1));
        }
        i = i + 1;
    }
    assert(p@.take(p.len() as int) =~= p@);
    slice_of(p, start, p.len())
}

pub fn is_pathological(path: &str) -> (r: bool)
    ensures
        r == is_pathological_spec(path@),
{
    let p = chars_of(path);
    let name = file_name_exec(&p);
    starts_with(&name, &chars_of("-")) || crate::text::char_in(&p, '\n')
}

/// Arguments for a runner: its JSON reporter flags, then either the changed-only switch or
/// the test file filters.
pub open spec fn runner_args(runner: Runner, filters: Seq<Seq<char>>, changed_mode: bool) -> Seq<Seq<char>> {
    let base = match runner {
        Runner::Vitest => seq!["run"@, "--reporter=json"@, "--no-color"@],
        Runner::Jest => seq!["--json"@, "--ci"@],
    };
    if changed_mode {
        base + match runner {
            Runner::Vitest => seq!["--changed"@, "HEAD"@],
            Runner::Jest => seq!["--onlyChanged"@],
        }
    } else {
        base + filters
    }
}

/// Test files among the changed script files, and those without a pathological name.
pub open spec fn test_filters(files: Seq<String>) -> (Seq<String>, Seq<String>) {
    let path_filters = ts_files(files).filter(|f: String| is_test_file_spec(f@));
    (path_filters, path_filters.filter(|f: String| !is_pathological_spec(f@)))
}

/// Whether only changed tests run: with a baseline, or for staged changes.
pub open spec fn changed_mode_of(ctx: GateContext) -> bool {
    ctx.baseline is Some || ctx.target is Staged
}

fn filter_tests(files: &Vec<String>) -> (r: Vec<String>)
    ensures
        r@ == files@.filter(|f: String| is_test_file_spec(f@)),
{
    let mut out: Vec<String> = Vec::new();
    let mut i: usize = 0;
    while i < files.len()
        invariant
            i <= files.len(),
            out@ == files@.take(i as int).filter(|f: String| is_test_file_spec(f@)),
        decreases files.len() - i,
    {
        assert(files@.take(i + 1).drop_last() =~= files@.take(i as int));
        reveal_with_fuel(Seq::<String>::filter, 1);
        if is_test_file(files[i].as_str()) {
            out.push(files[i].clone());
        }
        i = i + 1;
    }
    assert(files@.take(files.len() as int) =~= files@);
    out
}

pub fn filter_plain(files: &Vec<String>) -> (r: Vec<String>)
    ensures
        r@ == files@.filter(|f: String| !is_pathological_spec(f@)),
{
    let mut out: Vec<String> = Vec::new();
    let mut i: usize = 0;
    while i < files.len()
        invariant
            i <= files.len(),
            out@ == files@.take(i as int).filter(|f: String| !is_pathological_spec(f@)),
        decreases files.len() - i,
    {
        assert(files@.take(i + 1).drop_last() =~= files@.take(i as int));
        reveal_with_fuel(Seq::<String>::filter, 1);
        if !is_pathological(files[i].as_str()) {
            out.push(files[i].clone());
        }
        i = i + 1;
    }
    assert(files@.take(files.len() as int) =~= files@);
    out
}

/// What a test run leads to next.
pub enum TestsStep {
    Done(Result<StageOutcome, GateError>),
    Rerun(ProcessSpec),
}

/// The outcome of a finished run, from its output.
pub open spec fn tests_result(o: ProcessOutput, r: Result<StageOutcome, GateError>) -> bool {
    let parsed = output_json_spec(o);
    let ds = match parsed {
        Some(v) => assertion_diags(v),
        None => Seq::empty(),
    };
    if parsed is None && trim_seq(combined_spec(o.stdout@, o.stderr@)).len() != 0 {
        r matches Err(GateError::Failed { message }) && message@ == UNPARSEABLE@
    } else if o.status == Some(0i32) {
        r is Ok && r->Ok_0.status == StageStatus::Passed && diagnostics_view(r->Ok_0.diagnostics@) == ds
    } else if has_error(ds) {
        r is Ok && r->Ok_0.status == StageStatus::Failed && diagnostics_view(r->Ok_0.diagnostics@) == ds
    } else {
        r matches Err(GateError::Failed { message }) && message@ == exited_text("tests"@, o.status, combined_spec(o.stdout@, o.stderr@))
    }
}

/// Whether a run's report lists test results.
pub open spec fn has_test_results_spec(v: Option<JsonValue>) -> bool {
    match json_array(json_get_opt(v, "testResults"@)) {
        Some(items) => items.len() > 0,
        None => false,
    }
}

pub fn has_test_results(v: Option<&JsonValue>) -> (r: bool)
    ensures
        r == has_test_results_spec(opt_deref(v)),
{
    match array_opt(get_opt(v, "testResults")) {
        Some(items) => items.len() > 0,
        None => false,
    }
}

/// `title: failure`, with the failure cut to 800 characters; either alone when the other is empty.
pub open spec fn failure_text(title: Seq<char>, failure: Seq<char>) -> Seq<char> {
    let f = truncated(failure, 800);
    if f.len() == 0 {
        title
    } else if title.len() == 0 {
        f
    } else {
        title + ": "@ + f
    }
}

pub fn failure_message(title: &str, failure: &str) -> (r: String)
    ensures
        r@ == failure_text(title@, failure@),
{
    let f = truncate(failure, 800);
    if f.as_str().is_empty() {
        return title.to_owned();
    }
    if title.is_empty() {
        return f;
    }
    let a = cat(title, ": ");
    cat(a.as_str(), f.as_str())
}

/// The run of ASCII digits at the start of `s`.
pub open spec fn digit_run(s: Seq<char>) -> Seq<char>
    decreases s.len(),
{
    if s.len() > 0 && is_digit(s[0]) {
        seq![s[0]] + digit_run(s.drop_first())
    } else {
        Seq::empty()
    }
}

/// At position `i`: `:` then digits, `:`, digits; gives the two digit runs.
pub open spec fn location_at(m: Seq<char>, i: int) -> Option<(Seq<char>, Seq<char>)> {
    if 0 <= i < m.len() && m[i] == ':' {
        let d1 = digit_run(m.skip(i + 1));
        let after = m.skip(i + 1 + d1.len());
        if d1.len() > 0 && after.len() > 0 && after[0] == ':' {
            let d2 = digit_run(after.drop_first());
            if d2.len() > 0 {
                Some((d1, d2))
            } else {
                None
            }
        } else {
            None
        }
    } else {
        None
    }
}

pub open spec fn num_or_zero(d: Seq<char>) -> u32 {
    match parse_u32_spec(d) {
        Some(v) => v,
        None => 0,
    }
}

/// The first `:line:column` in a failure text, read as numbers (0 when out of range); (0, 0)
/// when there is none.
pub open spec fn location_spec(m: Seq<char>) -> (u32, u32) {
    if exists|i: int| location_at(m, i) is Some {
        let i = choose|i: int| location_at(m, i) is Some && forall|k: int| 0 <= k < i ==> location_at(m, k) is None;
        (num_or_zero(location_at(m, i).unwrap().0), num_or_zero(location_at(m, i).unwrap().1))
    } else {
        (0, 0)
    }
}

proof fn lemma_digit_run(s: Seq<char>)
    ensures
        digit_run(s).len() <= s.len(),
        digit_run(s) == s.take(digit_run(s).len() as int),
        forall|k: int| 0 <= k < digit_run(s).len() ==> is_digit(#[trigger] s[k]),
        digit_run(s).len() < s.len() ==> !is_digit(s[digit_run(s).len() as int]),
    decreases s.len(),
{
    if s.len() > 0 && is_digit(s[0]) {
        lemma_digit_run(s.drop_first());
        assert(digit_run(s) =~= s.take(digit_run(s).len() as int));
        assert forall|k: int| 0 <= k < digit_run(s).len() implies is_digit(#[trigger] s[k]) by {
            if k > 0 {
                assert(s[k] == s.drop_first()[k - 1]);
            }
        }
        if digit_run(s).len() < s.len() {
            assert(s[digit_run(s).len() as int] == s.drop_first()[digit_run(s.drop_first()).len() as int]);
        }
    } else {
        assert(s.take(0) =~= Seq::<char>::empty());
    }
}

fn digit_run_len(s: &Vec<char>, from: usize) -> (r: usize)
    requires
        from <= s.len(),
    ensures
        from + digit_run(s@.skip(from as int)).len() == r,
        r <= s.len(),
{
    let mut i = from;
    while i < s.len() && '0' <= s[i] && s[i] <= '9'
        invariant
            from <= i <= s.len(),
            forall|k: int| from <= k < i ==> is_digit(#[trigger] s@[k]),
        decreases s.len() - i,
    {
        i = i + 1;
    }
    proof {
        let t = s@.skip(from as int);
        lemma_digit_run(t);
        let n = digit_run(t).len() as int;
        if n < i - from {
            assert(t[n] == s@[from + n]);
            assert(!is_digit(t[n]));
        }
        if n > i - from {
            assert(t[i - from] == s@[i as int]);
            assert(is_digit(t[i - from]));
        }
    }
    i
}

fn location_try(m: &Vec<char>, i: usize) -> (r: Option<(u32, u32)>)
    requires
        i < m.len(),
    ensures
        match r {
            Some(lc) => location_at(m@, i as int) is Some && lc == (num_or_zero(location_at(m@, i as int).unwrap().0), num_or_zero(location_at(m@, i as int).unwrap().1)),
            None => location_at(m@, i as int) is None,
        },
{
    if m[i] != ':' {
        return None;
    }
    let e1 = digit_run_len(m, i + 1);
    if e1 == i + 1 {
        return None;
    }
    proof {
        lemma_digit_run(m@.skip(i + 1));
    }
    let ghost d1 = digit_run(m@.skip(i + 1));
    assert(m@.skip(i + 1 + d1.len()) =~= m@.skip(e1 as int));
    if e1 >= m.len() || m[e1] != ':' {
        return None;
    }
    assert(m@.skip(e1 as int)[0] == m@[e1 as int]);
    assert(m@.skip(e1 as int).drop_first() =~= m@.skip(e1 + 1));
    let e2 = digit_run_len(m, e1 + 1);
    if e2 == e1 + 1 {
        return None;
    }
    proof {
        lemma_digit_run(m@.skip(e1 + 1));
    }
    let a = slice_of(m, i + 1, e1);
    let b = slice_of(m, e1 + 1, e2);
    assert(a@ =~= d1);
    assert(b@ =~= digit_run(m@.skip(e1 + 1)));
    let x = match parse_u32(&a) {
        Some(v) => v,
        None => 0,
    };
    let y = match parse_u32(&b) {
        Some(v) => v,
        None => 0,
    };
    Some((x, y))
}

/// The `line:column` of the first `:line:column` in a failure message.
pub fn location_from(message: &str) -> (r: (u32, u32))
    ensures
        r == location_spec(message@),
{
    let m = chars_of(message);
    let mut i: usize = 0;
    while i < m.len()
        invariant
            i <= m.len(),
            m@ == message@,
            forall|k: int| 0 <= k < i ==> location_at(m@, k) is None,
        decreases m.len() - i,
    {
        match location_try(&m, i) {
            Some(lc) => {
                proof {
                    let j = choose|j: int| location_at(m@, j) is Some && forall|k: int| 0 <= k < j ==> location_at(m@, k) is None;
                    assert(location_at(m@, i as int) is Some && forall|k: int| 0 <= k < i ==> location_at(m@, k) is None);
                    if j < i {
                        assert(location_at(m@, j) is None);
                    }
                    if j > i {
                        assert(location_at(m@, i as int) is None);
                    }
                }
                return lc;
            },
            None => {},
        }
        i = i + 1;
    }
    proof {
        assert forall|k: int| location_at(m@, k) is None by {
            if 0 <= k < m@.len() {
            }
        }
    }
    (0, 0)
}

/// The frame for one failed assertion.
#[verifier::opaque]
pub open spec fn assertion_frame(file: Seq<char>, a: JsonValue) -> DiagnosticView {
    let title = match json_str(json_get(a, "title"@)) {
        Some(t) => t,
        None => "test failed"@,
    };
    let failures = json_array(json_get(a, "failureMessages"@));
    let failure = match failures {
        Some(fs) => if fs.len() > 0 {
            match json_str(Some(fs[0])) {
                Some(f) => f,
                None => ""@,
            }
        } else {
            ""@
        },
        None => ""@,
    };
    let lc = location_spec(failure);
    DiagnosticView {
        code: Some("test"@),
        ..new_diagnostic_view("tests"@, Severity::Error, file, lc.0, lc.1, failure_text(title, failure))
    }
}

/// Frames for the failed assertions among `items`, in order.
pub open spec fn assertion_frames(file: Seq<char>, items: Seq<JsonValue>) -> Seq<DiagnosticView>
    decreases items.len(),
{
    if items.len() == 0 {
        Seq::empty()
    } else {
        let rest = assertion_frames(file, items.drop_last());
        let a = items.last();
        if json_str(json_get(a, "status"@)) == Some("failed"@) {
            rest.push(assertion_frame(file, a))
        } else {
            rest
        }
    }
}

/// Frames for one test file's result: its failed assertions, or one frame for the file when
/// it failed without any.
pub open spec fn result_frames(result: JsonValue) -> Seq<DiagnosticView> {
    let file = match json_str(json_get(result, "name"@)) {
        Some(f) => f,
        None => ""@,
    };
    let frames = match json_array(json_get(result, "assertionResults"@)) {
        Some(items) => assertion_frames(file, items),
        None => Seq::empty(),
    };
    if frames.len() == 0 && json_str(json_get(result, "status"@)) == Some("failed"@) {
        let message = match json_str(json_get(result, "message"@)) {
            Some(m) => m,
            None => ""@,
        };
        seq![file_frame(file, message)]
    } else {
        frames
    }
}

/// The frame for a test file that failed without a failed assertion.
#[verifier::opaque]
pub open spec fn file_frame(file: Seq<char>, message: Seq<char>) -> DiagnosticView {
    let lc = location_spec(message);
    DiagnosticView {
        code: Some("test"@),
        ..new_diagnostic_view("tests"@, Severity::Error, file, lc.0, lc.1, truncated(message, 800))
    }
}

fn file_failure(file: &str, message: &str) -> (r: Diagnostic)
    ensures
        r@ == file_frame(file@, message@),
{
    proof {
        reveal(file_frame);
    }
    let (line, column) = location_from(message);
    let msg = truncate(message, 800);
    let mut d = diagnostic("tests", Severity::Error, file, line, column, msg.as_str());
    d.code = Some("test".to_owned());
    d
}

pub open spec fn results_frames(results: Seq<JsonValue>) -> Seq<DiagnosticView>
    decreases results.len(),
{
    if results.len() == 0 {
        Seq::empty()
    } else {
        results_frames(results.drop_last()) + result_frames(results.last())
    }
}

/// Frames for the failures a `vitest` or `jest` JSON report lists.
pub open spec fn assertion_diags(v: JsonValue) -> Seq<DiagnosticView> {
    match json_array(json_get(v, "testResults"@)) {
        Some(results) => results_frames(results),
        None => Seq::empty(),
    }
}

fn str_or<'a>(s: Option<&'a String>, default: &'a str) -> (r: &'a str)
    ensures
        r@ == match s {
            Some(x) => x@,
            None => default@,
        },
{
    match s {
        Some(x) => x.as_str(),
        None => default,
    }
}

fn assertion_diagnostic(file: &str, a: &JsonValue) -> (r: Diagnostic)
    ensures
        r@ == assertion_frame(file@, *a),
{
    proof {
        reveal(assertion_frame);
    }
    let title = str_or(str_opt(a.get("title")), "test failed");
    let failure: &str = match array_opt(a.get("failureMessages")) {
        Some(fs) => if fs.len() > 0 {
            str_or(fs[0].as_str(), "")
        } else {
            ""
        },
        None => "",
    };
    let (line, column) = location_from(failure);
    let msg = failure_message(title, failure);
    let mut d = diagnostic("tests", Severity::Error, file, line, column, msg.as_str());
    d.code = Some("test".to_owned());
    d
}

fn failed_assertions(file: &str, items: &Vec<JsonValue>, out: &mut Vec<Diagnostic>)
    ensures
        diagnostics_view(final(out)@) == diagnostics_view(old(out)@) + assertion_frames(file@, items@),
{
    let ghost start = diagnostics_view(out@);
    let mut i: usize = 0;
    while i < items.len()
        invariant
            i <= items.len(),
            diagnostics_view(out@) == start + assertion_frames(file@, items@.take(i as int)),
        decreases items.len() - i,
    {
        assert(items@.take(i + 1).drop_last() =~= items@.take(i as int));
        let a = &items[i];
        let failed = match str_opt(a.get("status")) {
            Some(s) => crate::config::str_eq(s.as_str(), "failed"),
            None => false,
        };
        if failed {
            let d = assertion_diagnostic(file, a);
            let ghost old_out = out@;
            out.push(d);
            assert(diagnostics_view(out@) =~= diagnostics_view(old_out).push(d@));
        }
        i = i + 1;
    }
    assert(items@.take(items.len() as int) =~= items@);
}

fn result_diagnostics(result: &JsonValue, out: &mut Vec<Diagnostic>)
    ensures
        diagnostics_view(final(out)@) == diagnostics_view(old(out)@) + result_frames(*result),
{
    let file = str_or(str_opt(result.get("name")), "");
    let mut frames: Vec<Diagnostic> = Vec::new();
    match array_opt(result.get("assertionResults")) {
        Some(items) => failed_assertions(file, items, &mut frames),
        None => {},
    }
    assert(diagnostics_view(frames@) =~= Seq::<DiagnosticView>::empty() + diagnostics_view(frames@));
    let status_failed = match str_opt(result.get("status")) {
        Some(s) => crate::config::str_eq(s.as_str(), "failed"),
        None => false,
    };
    let ghost old_out = diagnostics_view(out@);
    if frames.len() == 0 && status_failed {
        let message = str_or(str_opt(result.get("message")), "");
        let d = file_failure(file, message);
        let ghost pushed = out@;
        out.push(d);
        assert(diagnostics_view(out@) =~= diagnostics_view(pushed).push(d@));
        assert(diagnostics_view(out@) =~= old_out + result_frames(*result));
    } else {
        let ghost before = out@;
        let ghost fr = frames@;
        out.append(&mut frames);
        assert(diagnostics_view(out@) =~= diagnostics_view(before) + diagnostics_view(fr));
        assert(diagnostics_view(out@) =~= old_out + result_frames(*result));
    }
}

/// Frames for the failures a `vitest` or `jest` JSON report lists.
pub fn assertion_diagnostics(value: &JsonValue) -> (r: Vec<Diagnostic>)
    ensures
        diagnostics_view(r@) == assertion_diags(*value),
{
    let mut out: Vec<Diagnostic> = Vec::new();
    match array_opt(value.get("testResults")) {
        Some(results) => {
            let mut i: usize = 0;
            while i < results.len()
                invariant
                    i <= results.len(),
                    diagnostics_view(out@) == results_frames(results@.take(i as int)),
                decreases results.len() - i,
            {
                assert(results@.take(i + 1).drop_last() =~= results@.take(i as int));
                result_diagnostics(&results[i], &mut out);
                i = i + 1;
            }
            assert(results@.take(results.len() as int) =~= results@);
        },
        None => {
            assert(diagnostics_view(out@) =~= Seq::<DiagnosticView>::empty());
        },
    }
    out
}

impl TestsStage {
    /// Prefers `vitest`, then `jest`.
    pub fn new(vitest: Option<String>, jest: Option<String>, config: &GateConfig) -> (r: Self)
        ensures
            vitest is Some ==> r.program == vitest && r.runner == Runner::Vitest,
            vitest is None && jest is Some ==> r.program == jest && r.runner == Runner::Jest,
            vitest is None && jest is None ==> r.program is None && r.runner == Runner::Vitest,
            r.timeout_secs == config.stage_timeout_secs,
            r.max_output == config.max_output_bytes,
            r.allow_network == config.allow_network,
    {
        let (program, runner) = match vitest {
            Some(p) => (Some(p), Runner::Vitest),
            None => match jest {
                Some(p) => (Some(p), Runner::Jest),
                None => (None, Runner::Vitest),
            },
        };
        TestsStage {
            program,
            runner,
            timeout_secs: config.stage_timeout_secs,
            max_output: config.max_output_bytes,
            allow_network: config.allow_network,
        }
    }

    pub fn id(&self) -> (r: &'static str)
        ensures
            r@ == stage_name(StageId::Tests),
    {
        "tests"
    }

    pub fn kind(&self) -> (r: GateKind)
        ensures
            r == stage_kind(StageId::Tests),
    {
        GateKind::Blocking
    }

    pub fn args(&self, filters: &Vec<String>, changed_mode: bool) -> (r: Vec<String>)
        ensures
            strings_view(r@) == runner_args(self.runner, strings_view(filters@), changed_mode),
    {
        let mut args: Vec<String> = Vec::new();
        match self.runner {
            Runner::Vitest => {
                args.push("run".to_owned());
                args.push("--reporter=json".to_owned());
                args.push("--no-color".to_owned());
            },
            Runner::Jest => {
                args.push("--json".to_owned());
                args.push("--ci".to_owned());
            },
        }
        let ghost base = strings_view(args@);
        if changed_mode {
            match self.runner {
                Runner::Vitest => {
                    args.push("--changed".to_owned());
                    args.push("HEAD".to_owned());
                },
                Runner::Jest => {
                    args.push("--onlyChanged".to_owned());
                },
            }
            assert(strings_view(args@) =~= runner_args(self.runner, strings_view(filters@), changed_mode));
        } else {
            let mut i: usize = 0;
            while i < filters.len()
                invariant
                    i <= filters.len(),
                    strings_view(args@) == base + strings_view(filters@.take(i as int)),
                decreases filters.len() - i,
            {
                let ghost old_args = args@;
                args.push(filters[i].clone());
                assert(strings_view(args@) =~= strings_view(old_args).push(filters@[i as int]@));
                assert(filters@.take(i + 1) =~= filters@.take(i as int).push(filters@[i as int]));
                assert(strings_view(filters@.take(i + 1)) =~= strings_view(filters@.take(i as int)).push(filters@[i as int]@));
                i = i + 1;
            }
            assert(filters@.take(filters.len() as int) =~= filters@);
            assert(strings_view(args@) =~= runner_args(self.runner, strings_view(filters@), changed_mode));
        }
        args
    }

    fn spec_for(&self, program: &String, ctx: &GateContext, args: Vec<String>) -> (r: ProcessSpec)
        ensures
            r.program@ == program@,
            r.cwd@ == target_root_of(*ctx),
            r.args == args,
            r.timeout_secs == self.timeout_secs,
            r.max_output_bytes == self.max_output,
            r.allow_network == self.allow_network,
    {
        ProcessSpec::new(program.as_str(), ctx.target_root().as_str()).args(args).timeout(self.timeout_secs).max_output_bytes(
            self.max_output,
        ).allow_network(self.allow_network)
    }

    /// Skips without a runner, without changed script files, or when every changed test file
    /// has a pathological name; otherwise runs the changed tests (staged or baseline runs) or
    /// the changed test files.
    pub fn plan(&self, ctx: &GateContext) -> (r: Result<ProcessSpec, StageOutcome>)
        ensures
            self.program is None ==> r is Err && r->Err_0.status == StageStatus::Skipped
                && crate::diagnostic::opt_view(r->Err_0.skipped_reason) == Some("vitest and jest not found"@),
            self.program is Some && ts_files(ctx.files@).len() == 0 ==> r is Err && r->Err_0.status == StageStatus::Skipped
                && crate::diagnostic::opt_view(r->Err_0.skipped_reason) == Some("no test files changed"@),
            self.program is Some && ts_files(ctx.files@).len() > 0 && test_filters(ctx.files@).0.len() > 0
                && test_filters(ctx.files@).1.len() == 0 ==> r is Err && r->Err_0.status == StageStatus::Skipped
                && crate::diagnostic::opt_view(r->Err_0.skipped_reason) == Some("only pathological file names changed"@),
            self.program is Some && ts_files(ctx.files@).len() > 0 && !(test_filters(ctx.files@).0.len() > 0
                && test_filters(ctx.files@).1.len() == 0) ==> r is Ok && r->Ok_0.program@ == self.program->0@
                && r->Ok_0.cwd@ == target_root_of(*ctx)
                && strings_view(r->Ok_0.args@) == runner_args(self.runner, strings_view(test_filters(ctx.files@).1), changed_mode_of(*ctx))
                && r->Ok_0.timeout_secs == self.timeout_secs && r->Ok_0.max_output_bytes == self.max_output
                && r->Ok_0.allow_network == self.allow_network,
    {
        let program = match &self.program {
            Some(p) => p,
            None => {
                return Err(StageOutcome::skipped("vitest and jest not found"));
            },
        };
        let relevant = filter_ts(&ctx.files);
        if relevant.len() == 0 {
            return Err(StageOutcome::skipped("no test files changed"));
        }
        let path_filters = filter_tests(&relevant);
        let filters = filter_plain(&path_filters);
        if path_filters.len() > 0 && filters.len() == 0 {
            return Err(StageOutcome::skipped("only pathological file names changed"));
        }
        let changed_mode = ctx.baseline.is_some() || match ctx.target {
            Target::Staged => true,
            _ => false,
        };
        let args = self.args(&filters, changed_mode);
        Ok(self.spec_for(program, ctx, args))
    }

    /// After a run: a timeout or a cut output is an error; a failing first changed-only run
    /// that listed no test results is always run again over the test file filters (when there
    /// is a runner); otherwise the run is read (see `tests_result`).
    pub fn after_run(&self, ctx: &GateContext, output: &ProcessOutput, first: bool) -> (r: TestsStep)
        ensures
            output.timed_out ==> (r matches TestsStep::Done(Err(GateError::Failed { message })) && message@ == timed_out_text("tests"@, self.timeout_secs)),
            !output.timed_out && (vstd::utf8::encode_utf8(output.stdout@).len() as usize >= self.max_output
                || vstd::utf8::encode_utf8(output.stderr@).len() as usize >= self.max_output) ==> (r matches TestsStep::Done(Err(GateError::Failed { message })) && message@ == UNPARSEABLE@),
            !output.timed_out && !(vstd::utf8::encode_utf8(output.stdout@).len() as usize >= self.max_output
                || vstd::utf8::encode_utf8(output.stderr@).len() as usize >= self.max_output) ==> {
                if first && changed_mode_of(*ctx) && output.status != Some(0i32) && !has_test_results_spec(output_json_spec(*output)) {
                    &&& self.program is Some ==> r is Rerun && r->Rerun_0.program@ == self.program->0@
                        && strings_view(r->Rerun_0.args@) == runner_args(self.runner, strings_view(test_filters(ctx.files@).1), false)
                        && r->Rerun_0.cwd@ == target_root_of(*ctx) && r->Rerun_0.timeout_secs == self.timeout_secs
                        && r->Rerun_0.max_output_bytes == self.max_output && r->Rerun_0.allow_network == self.allow_network
                    &&& self.program is None ==> r is Done && tests_result(*output, r->Done_0)
                } else {
                    r is Done && tests_result(*output, r->Done_0)
                }
            },
    {
        if output.timed_out {
            return TestsStep::Done(Err(GateError::Failed { message: timed_out_message("tests", self.timeout_secs) }));
        }
        if output.truncated(self.max_output) {
            return TestsStep::Done(Err(GateError::Failed { message: UNPARSEABLE.to_owned() }));
        }
        let parsed = output_json(output);
        let has_results = match &parsed {
            Some(v) => has_test_results(Some(v)),
            None => has_test_results(None),
        };
        let changed_mode = ctx.baseline.is_some() || match ctx.target {
            Target::Staged => true,
            _ => false,
        };
        if first && changed_mode && !output.success() && !has_results {
            match &self.program {
                Some(program) => {
                    let relevant = filter_ts(&ctx.files);
                    let path_filters = filter_tests(&relevant);
                    let filters = filter_plain(&path_filters);
                    let args = self.args(&filters, false);
                    return TestsStep::Rerun(self.spec_for(program, ctx, args));
                },
                None => {},
            }
        }
        TestsStep::Done(finish_run(output, parsed))
    }
}

fn finish_run(output: &ProcessOutput, parsed: Option<JsonValue>) -> (r: Result<StageOutcome, GateError>)
    requires
        parsed == output_json_spec(*output),
    ensures
        tests_result(*output, r),
{
    let combined = output.combined();
    if parsed.is_none() && trim_str(combined.as_str()).len() != 0 {
        return Err(GateError::Failed { message: UNPARSEABLE.to_owned() });
    }
    let diagnostics = match &parsed {
        Some(v) => assertion_diagnostics(v),
        None => {
            let e: Vec<Diagnostic> = Vec::new();
            assert(diagnostics_view(e@) =~= Seq::<DiagnosticView>::empty());
            e
        },
    };
    if output.success() {
        return Ok(StageOutcome::passed_with(diagnostics));
    }
    if any_error(&diagnostics) {
        return Ok(StageOutcome::failed(diagnostics));
    }
    Err(GateError::Failed { message: exited_message("tests", output) })
}

} // verus!
