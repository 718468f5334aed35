use vstd::prelude::*;

use crate::diagnostic::{new_diagnostic_view, Diagnostic, DiagnosticView, Severity};
use crate::files::{is_source_file, is_source_spec};
use crate::text::{cat, chars_of, is_digit, string_of, trim, trim_seq};

verus! {

/// Extensions of the files the JavaScript and TypeScript stages look at.
pub open spec fn ts_extensions() -> Seq<&'static str> {
    seq![".ts", ".tsx", ".js", ".jsx", ".mjs", ".cjs", ".mts", ".cts"]
}

pub fn ts_extension_list() -> (r: Vec<&'static str>)
    ensures
        r@ == ts_extensions(),
{
    vec![".ts", ".tsx", ".js", ".jsx", ".mjs", ".cjs", ".mts", ".cts"]
}

pub open spec fn is_ts_spec(path: Seq<char>) -> bool {
    is_source_spec(path, ts_extensions())
}

pub fn is_ts(path: &str) -> (r: bool)
    ensures
        r == is_ts_spec(path@),
{
    let exts = ts_extension_list();
    is_source_file(path, exts.as_slice())
}

/// A new diagnostic frame for a stage.
pub fn diagnostic(gate: &str, severity: Severity, file: &str, line: u32, column: u32, message: &str) -> (r: Diagnostic)
    ensures
        r@ == new_diagnostic_view(gate@, severity, file@, line, column, message@),
{
    Diagnostic::new(gate, severity, file, line, column, message)
}

/// Text cut to `max` characters: longer text keeps `max - 3` characters and gains `...`.
pub open spec fn truncated(text: Seq<char>, max: nat) -> Seq<char> {
    if text.len() <= max {
        text
    } else {
        text.take(if max >= 3 { max - 3 } else { 0 }) + "..."@
    }
}

pub fn truncate(text: &str, max: usize) -> (r: String)
    ensures
        r@ == truncated(text@, max as nat),
{
    let cs = chars_of(text);
    if cs.len() <= max {
        return text.to_owned();
    }
    let keep: usize = if max >= 3 { max - 3 } else { 0 };
    let mut head: Vec<char> = Vec::new();
    let mut i: usize = 0;
    while i < keep
        invariant
            i <= keep,
            keep < cs.len(),
            cs@ == text@,
            head@ == cs@.take(i as int),
        decreases keep - i,
    {
        head.push(cs[i]);
        assert(head@ =~= cs@.take(i + 1));
        i = i + 1;
    }
    let h = string_of(&head);
    cat(h.as_str(), "...")
}

/// The value of a digit string.
pub open spec fn digits_value(s: Seq<char>) -> nat
    decreases s.len(),
{
    if s.len() == 0 {
        0
    } else {
        digits_value(s.drop_last()) * 10 + ((s.last() as u32) - 48) as nat
    }
}

/// What `str::parse::<u32>` gives: an optional `+`, then one or more ASCII digits whose
/// value fits in 32 bits.
pub open spec fn unsigned_body(s: Seq<char>) -> Seq<char> {
    if s.len() > 0 && s[0] == '+' {
        s.drop_first()
    } else {
        s
    }
}

pub open spec fn all_digits(t: Seq<char>) -> bool {
    forall|i: int| 0 <= i < t.len() ==> is_digit(#[trigger] t[i])
}

pub open spec fn parse_u32_spec(s: Seq<char>) -> Option<u32> {
    let t = unsigned_body(s);
    if t.len() > 0 && all_digits(t) && digits_value(t) <= u32::MAX {
        Some(digits_value(t) as u32)
    } else {
        None
    }
}

proof fn lemma_digits_value_mono(t: Seq<char>, k: int)
    requires
        0 <= k <= t.len(),
        forall|i: int| 0 <= i < t.len() ==> is_digit(#[trigger] t[i]),
    ensures
        digits_value(t.take(k)) <= digits_value(t),
    decreases t.len(),
{
    if k < t.len() {
        assert(t.drop_last().take(k) =~= t.take(k));
        assert forall|i: int| 0 <= i < t.drop_last().len() implies is_digit(#[trigger] t.drop_last()[i]) by {
            assert(t.drop_last()[i] == t[i]);
        }
        lemma_digits_value_mono(t.drop_last(), k);
    } else {
        assert(t.take(k) =~= t);
    }
}

/// `str::parse::<u32>` on characters.
pub fn parse_u32(s: &Vec<char>) -> (r: Option<u32>)
    ensures
        r == parse_u32_spec(s@),
{
    let start: usize = if s.len() > 0 && s[0] == '+' { 1 } else { 0 };
    let ghost t = unsigned_body(s@);
    assert(t =~= s@.subrange(start as int, s@.len() as int));
    if start >= s.len() {
        return None;
    }
    let mut v: u64 = 0;
    let mut i: usize = start;
    while i < s.len()
        invariant
            start <= i <= s.len(),
            start < s.len(),
            t == unsigned_body(s@),
            t == s@.subrange(start as int, s@.len() as int),
            forall|k: int| start <= k < i ==> is_digit(#[trigger] s@[k]),
            v == digits_value(t.take(i - start)),
            v <= u32::MAX,
        decreases s.len() - i,
    {
        let c = s[i];
        assert(t[i - start] == s@[i as int]);
        if !('0' <= c && c <= '9') {
            assert(!is_digit(t[i - start]));
            assert(!all_digits(t));
            return None;
        }
        assert(t.take(i - start + 1).drop_last() =~= t.take(i - start));
        assert(t.take(i - start + 1).last() == c);
        let d: u64 = (c as u32 - 48) as u64;
        let nv: u64 = v * 10 + d;
        assert(digits_value(t.take(i - start + 1)) == digits_value(t.take(i - start)) * 10 + ((c as u32) - 48) as nat);
        if nv > 0xffff_ffff {
            proof {
                if all_digits(t) {
                    lemma_digits_value_mono(t, i - start + 1);
                }
                assert(parse_u32_spec(s@) is None);
            }
            return None;
        }
        v = nv;
        i = i + 1;
    }
    assert(t.take(i - start) =~= t);
    assert forall|k: int| 0 <= k < t.len() implies is_digit(#[trigger] t[k]) by {
        assert(t[k] == s@[start + k]);
    }
    Some(v as u32)
}

/// The text before the first `:` and the text between the first and second `:`, if any.
/// The first field before `c`, and the second one (up to the next `c`) when there is a `c`.
pub open spec fn sep_fields(s: Seq<char>, c: char) -> (Seq<char>, Option<Seq<char>>) {
    if s.contains(c) {
        let i = choose|i: int| 0 <= i < s.len() && s[i] == c && forall|k: int| 0 <= k < i ==> s[k] != c;
        let rest = s.subrange(i + 1, s.len() as int);
        (s.take(i), Some(if rest.contains(c) {
            let j = choose|j: int| 0 <= j < rest.len() && rest[j] == c && forall|k: int| 0 <= k < j ==> rest[k] != c;
            rest.take(j)
        } else {
            rest
        }))
    } else {
        (s, None)
    }
}

/// Position of the first `c` at or after `from`, or the length.
pub fn index_of_from(s: &Vec<char>, c: char, from: usize) -> (r: usize)
    requires
        from <= s.len(),
    ensures
        from <= r <= s.len(),
        r < s.len() ==> s@[r as int] == c,
        forall|k: int| from <= k < r ==> s@[k] != c,
{
    let mut i = from;
    while i < s.len()
        invariant
            from <= i <= s.len(),
            forall|k: int| from <= k < i ==> s@[k] != c,
        decreases s.len() - i,
    {
        if s[i] == c {
            return i;
        }
        i = i + 1;
    }
    i
}

pub fn slice_of(s: &Vec<char>, a: usize, b: usize) -> (r: Vec<char>)
    requires
        a <= b <= s.len(),
    ensures
        r@ == s@.subrange(a as int, b as int),
{
    let mut out: Vec<char> = Vec::new();
    let mut i = a;
    while i < b
        invariant
            a <= i <= b,
            b <= s.len(),
            out@ == s@.subrange(a as int, i as int),
        decreases b - i,
    {
        out.push(s[i]);
        assert(out@ =~= s@.subrange(a as int, i + 1));
        i = i + 1;
    }
    out
}

pub open spec fn field_number(f: Seq<char>) -> u32 {
    match parse_u32_spec(trim_seq(f)) {
        Some(v) => v,
        None => 0,
    }
}

/// Line and column read from the first two fields separated by `sep`; a missing or
/// unreadable field reads as 0.
pub open spec fn position_spec(text: Seq<char>, sep: char) -> (u32, u32) {
    let (a, b) = sep_fields(text, sep);
    (field_number(a), match b {
        Some(f) => field_number(f),
        None => 0,
    })
}

/// `line:column` read from the first two `:`-separated fields.
pub open spec fn line_column_spec(text: Seq<char>) -> (u32, u32) {
    position_spec(text, ':')
}

pub fn parse_line_column(text: &str) -> (r: (u32, u32))
    ensures
        r == line_column_spec(text@),
{
    parse_position(text, ':')
}

#[verifier::rlimit(30)]
/// Line and column separated by `sep`, as `position_spec` reads them.
pub fn parse_position(text: &str, sep: char) -> (r: (u32, u32))
    ensures
        r == position_spec(text@, sep),
{
    let s = chars_of(text);
    let i = index_of_from(&s, sep, 0);
    let first = slice_of(&s, 0, i);
    let line = match parse_u32(&trim(&first)) {
        Some(v) => v,
        None => 0,
    };
    if i == s.len() {
        proof {
            assert(!s@.contains(sep));
            assert(first@ =~= s@);
        }
        return (line, 0);
    }
    let j = index_of_from(&s, sep, i + 1);
    let second = slice_of(&s, i + 1, j);
    let column = match parse_u32(&trim(&second)) {
        Some(v) => v,
        None => 0,
    };
    proof {
        let ii = choose|ii: int| 0 <= ii < s@.len() && s@[ii] == sep && forall|k: int| 0 <= k < ii ==> s@[k] != sep;
        assert(s@[i as int] == sep);
        if ii < i {
            assert(false);
        }
        if ii > i {
            assert(s@[i as int] != sep);
        }
        assert(ii == i);
        assert(first@ =~= s@.take(i as int));
        let rest = s@.subrange(i + 1, s@.len() as int);
        if rest.contains(sep) {
            let jj = choose|jj: int| 0 <= jj < rest.len() && rest[jj] == sep && forall|k: int| 0 <= k < jj ==> rest[k] != sep;
            assert(rest[j - i - 1] == sep || j == s.len());
            if j == s.len() {
                assert(rest[jj] == s@[i + 1 + jj]);
                assert(false);
            }
            if jj < j - i - 1 {
                assert(rest[jj] == s@[i + 1 + jj]);
                assert(false);
            }
            if jj > j - i - 1 {
                assert(rest[j - i - 1] == s@[j as int]);
            }
            assert(second@ =~= rest.take(jj));
        } else {
            if j < s.len() {
                assert(rest[j - i - 1] == s@[j as int]);
                assert(false);
            }
            assert(second@ =~= rest);
        }
    }
    (line, column)
}

/// Whether `candidate` lies inside `root`, compared by whole path components
/// (`Path::starts_with`).
pub uninterp spec fn path_within(root: Seq<char>, candidate: Seq<char>) -> bool;

/// `Path::starts_with`: the candidate's leading components equal the root's components.
#[verifier::external_body]
pub fn ensure_within(root: &str, candidate: &str) -> (r: bool)
    ensures
        r == path_within(root@, candidate@),
{
    std::path::Path::new(candidate).starts_with(std::path::Path::new(root))
}

} // verus!

verus! {

/// The first index of `c` at or after `from`, if any.
pub open spec fn index_of_spec(s: Seq<char>, c: char, from: int) -> Option<int> {
    if exists|k: int| from <= k < s.len() && s[k] == c {
        Some(choose|k: int| from <= k < s.len() && s[k] == c && forall|m: int| from <= m < k ==> s[m] != c)
    } else {
        None
    }
}

pub proof fn lemma_index_of(s: Seq<char>, c: char, from: int, r: int)
    requires
        0 <= from <= r <= s.len(),
        r < s.len() ==> s[r] == c,
        forall|k: int| from <= k < r ==> s[k] != c,
    ensures
        index_of_spec(s, c, from) == if r < s.len() {
            Some(r)
        } else {
            None::<int>
        },
{
    if r < s.len() {
        let k = choose|k: int| from <= k < s.len() && s[k] == c && forall|m: int| from <= m < k ==> s[m] != c;
        assert(from <= r < s.len() && s[r] == c && forall|m: int| from <= m < r ==> s[m] != c);
        if k < r {
            assert(s[k] != c);
        }
        if k > r {
            assert(s[r] != c);
        }
    }
}

/// The first index of `c` at or after `from`.
pub fn find_char(s: &Vec<char>, c: char, from: usize) -> (r: Option<usize>)
    requires
        from <= s.len(),
    ensures
        match r {
            Some(i) => index_of_spec(s@, c, from as int) == Some(i as int) && from <= i < s@.len() && s@[i as int] == c,
            None => index_of_spec(s@, c, from as int) is None,
        },
{
    let i = index_of_from(s, c, from);
    proof {
        lemma_index_of(s@, c, from as int, i as int);
    }
    if i < s.len() {
        Some(i)
    } else {
        None
    }
}

/// `str::split_once` on one character.
pub open spec fn split_once_spec(s: Seq<char>, c: char) -> Option<(Seq<char>, Seq<char>)> {
    match index_of_spec(s, c, 0) {
        Some(i) => Some((s.take(i), s.skip(i + 1))),
        None => None,
    }
}

pub fn split_once(s: &Vec<char>, c: char) -> (r: Option<(Vec<char>, Vec<char>)>)
    ensures
        match r {
            Some((a, b)) => split_once_spec(s@, c) == Some((a@, b@)),
            None => split_once_spec(s@, c) is None,
        },
{
    match find_char(s, c, 0) {
        Some(i) => {
            assert(i < s.len());
            let a = slice_of(s, 0, i);
            let b = slice_of(s, i + 1, s.len());
            assert(a@ =~= s@.take(i as int));
            assert(b@ =~= s@.skip(i + 1));
            Some((a, b))
        },
        None => None,
    }
}

/// `str::lines`: pieces between newlines, a `\r` before a newline removed, and no empty piece
/// after a final newline.
pub open spec fn lines_spec(s: Seq<char>) -> Seq<Seq<char>> {
    let pieces = crate::files::split_char(s, '\n');
    let n = pieces.len();
    let body = Seq::new((n - 1) as nat, |k: int| strip_cr(pieces[k]));
    if pieces.last().len() == 0 {
        body
    } else {
        body.push(pieces.last())
    }
}

pub open spec fn strip_cr(p: Seq<char>) -> Seq<char> {
    if p.len() > 0 && p.last() == '\r' {
        p.drop_last()
    } else {
        p
    }
}

/// `str::lines` on characters.
pub fn lines_of(s: &Vec<char>) -> (r: Vec<Vec<char>>)
    ensures
        r@.len() == lines_spec(s@).len(),
        forall|i: int| 0 <= i < r@.len() ==> (#[trigger] r@[i])@ == lines_spec(s@)[i],
{
    let pieces = crate::files::split_on(s, '\n');
    proof {
        crate::files::lemma_split_char_nonempty(s@, '\n');
    }
    let ghost ps = crate::files::split_char(s@, '\n');
    let ghost body = Seq::new((ps.len() - 1) as nat, |k: int| strip_cr(ps[k]));
    let mut out: Vec<Vec<char>> = Vec::new();
    let mut i: usize = 0;
    while i + 1 < pieces.len()
        invariant
            i + 1 <= pieces.len(),
            pieces@.len() == ps.len(),
            forall|k: int| 0 <= k < pieces@.len() ==> (#[trigger] pieces@[k])@ == ps[k],
            ps.len() >= 1,
            body == Seq::new((ps.len() - 1) as nat, |k: int| strip_cr(ps[k])),
            out@.len() == i,
            forall|k: int| 0 <= k < i ==> (#[trigger] out@[k])@ == body[k],
        decreases pieces.len() - i,
    {
        let p = &pieces[i];
        let q = if p.len() > 0 && p[p.len() - 1] == '\r' {
            let t = slice_of(p, 0, p.len() - 1);
            assert(t@ =~= p@.drop_last());
            t
        } else {
            slice_of(p, 0, p.len())
        };
        assert(q@ =~= strip_cr(ps[i as int]));
        out.push(q);
        i = i + 1;
    }
    let last = &pieces[pieces.len() - 1];
    if last.len() > 0 {
        out.push(slice_of(last, 0, last.len()));
        assert(out@.last()@ =~= ps.last());
    }
    out
}

/// Debug text of an optional exit status, as `{:?}` prints it.
pub open spec fn status_text(status: Option<i32>) -> Seq<char> {
    match status {
        Some(c) => "Some("@ + int_text(c as int) + ")"@,
        None => "None"@,
    }
}

pub open spec fn int_text(v: int) -> Seq<char> {
    if v < 0 {
        "-"@ + crate::text::decimal((-v) as nat)
    } else {
        crate::text::decimal(v as nat)
    }
}

pub fn status_string(status: Option<i32>) -> (r: String)
    ensures
        r@ == status_text(status),
{
    match status {
        Some(c) => {
            let mag: u64 = if c < 0 { (0i64 - (c as i64)) as u64 } else { c as u64 };
            let digits = crate::text::decimal_string(mag);
            let num = if c < 0 { cat("-", digits.as_str()) } else { digits };
            let a = cat("Some(", num.as_str());
            cat(a.as_str(), ")")
        },
        None => "None".to_owned(),
    }
}

/// The paths among `files` that the JavaScript and TypeScript stages look at.
pub open spec fn ts_files(files: Seq<String>) -> Seq<String> {
    files.filter(|f: String| is_ts_spec(f@))
}

pub fn filter_ts(files: &Vec<String>) -> (r: Vec<String>)
    ensures
        r@ == ts_files(files@),
{
    let mut out: Vec<String> = Vec::new();
    let mut i: usize = 0;
    while i < files.len()
        invariant
            i <= files.len(),
            out@ == files@.take(i as int).filter(|f: String| is_ts_spec(f@)),
        decreases files.len() - i,
    {
        assert(files@.take(i + 1).drop_last() =~= files@.take(i as int));
        reveal_with_fuel(Seq::<String>::filter, 1);
        if is_ts(files[i].as_str()) {
            out.push(files[i].clone());
        }
        i = i + 1;
    }
    assert(files@.take(files.len() as int) =~= files@);
    out
}

/// Message of a stage that ran out of time.
pub open spec fn timed_out_text(name: Seq<char>, secs: u64) -> Seq<char> {
    name + " timed out after "@ + crate::text::decimal(secs as nat) + "s"@
}

pub fn timed_out_message(name: &str, secs: u64) -> (r: String)
    ensures
        r@ == timed_out_text(name@, secs),
{
    let a = cat(name, " timed out after ");
    let b = cat(a.as_str(), crate::text::decimal_string(secs).as_str());
    cat(b.as_str(), "s")
}

/// Message of a tool that exited unexpectedly: its status and its trimmed, truncated output.
pub open spec fn exited_text(name: Seq<char>, status: Option<i32>, combined: Seq<char>) -> Seq<char> {
    name + " exited with "@ + status_text(status) + ": "@ + truncated(trim_seq(combined), 600)
}

pub fn exited_message(name: &str, output: &crate::process::ProcessOutput) -> (r: String)
    ensures
        r@ == exited_text(name@, output.status, crate::process::combined_spec(output.stdout@, output.stderr@)),
{
    let a = cat(name, " exited with ");
    let b = cat(a.as_str(), status_string(output.status).as_str());
    let c = cat(b.as_str(), ": ");
    let t = string_of(&trim(&chars_of(output.combined().as_str())));
    cat(c.as_str(), truncate(t.as_str(), 600).as_str())
}

/// Message for output that could not be read as the tool's JSON.
pub const UNPARSEABLE: &'static str = "tool output could not be parsed (possibly truncated); increase gate.max_output_bytes or reduce scope";

} // verus!

verus! {

/// Where the JSON in a tool's output starts: the first `{` or `[`, whichever comes first.
pub open spec fn json_start(t: Seq<char>) -> Option<int> {
    match (index_of_spec(t, '{', 0), index_of_spec(t, '[', 0)) {
        (Some(a), Some(b)) => Some(if a < b { a } else { b }),
        (Some(a), None) => Some(a),
        (None, Some(b)) => Some(b),
        (None, None) => None,
    }
}

/// The JSON value a tool printed: the trimmed output from its first `{` or `[` on, read as
/// the first value of a JSON stream.
pub open spec fn tool_json_spec(text: Seq<char>) -> Option<crate::json::JsonValue> {
    let t = trim_seq(text);
    if t.len() == 0 {
        None
    } else {
        match json_start(t) {
            Some(start) => crate::json::json_stream_first(t.skip(start)),
            None => None,
        }
    }
}

pub fn parse_json(text: &str) -> (r: Option<crate::json::JsonValue>)
    ensures
        r == tool_json_spec(text@),
{
    let t = trim(&chars_of(text));
    if t.len() == 0 {
        return None;
    }
    let a = find_char(&t, '{', 0);
    let b = find_char(&t, '[', 0);
    let start = match (a, b) {
        (Some(x), Some(y)) => if x < y { x } else { y },
        (Some(x), None) => x,
        (None, Some(y)) => y,
        (None, None) => {
            return None;
        },
    };
    let rest = slice_of(&t, start, t.len());
    assert(rest@ =~= t@.skip(start as int));
    let s = string_of(&rest);
    crate::json::first_json_value(s.as_str())
}

/// The tool's JSON from standard output, or else from standard error.
pub open spec fn output_json_spec(o: crate::process::ProcessOutput) -> Option<crate::json::JsonValue> {
    match tool_json_spec(o.stdout@) {
        Some(v) => Some(v),
        None => tool_json_spec(o.stderr@),
    }
}

pub fn output_json(o: &crate::process::ProcessOutput) -> (r: Option<crate::json::JsonValue>)
    ensures
        r == output_json_spec(*o),
{
    match parse_json(o.stdout.as_str()) {
        Some(v) => Some(v),
        None => parse_json(o.stderr.as_str()),
    }
}

/// A cut text never holds more than `max` characters (for `max` of at least 3, room for the
/// ellipsis), and a text that fits is kept as it is.
pub proof fn law_truncated_fits(text: Seq<char>, max: nat)
    ensures
        max >= 3 ==> truncated(text, max).len() <= max,
        text.len() <= max ==> truncated(text, max) == text,
{
    reveal_strlit("...");
}

} // verus!
