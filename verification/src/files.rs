use vstd::prelude::*;

use crate::config::{git_ref_problem, validate_git_ref};
use crate::stage::GateError;
use crate::text::{char_in, chars_of, ends_with, ends_with_seq, find_from, has_at, starts_with, starts_with_seq, trim_seq, trim_str};

verus! {

/// A path ends with one of the extensions.
pub open spec fn is_source_spec(path: Seq<char>, extensions: Seq<&str>) -> bool {
    exists|i: int| 0 <= i < extensions.len() && ends_with_seq(path, #[trigger] extensions[i]@)
}

pub fn is_source_file(path: &str, extensions: &[&str]) -> (r: bool)
    ensures
        r == is_source_spec(path@, extensions@),
{
    let p = chars_of(path);
    let mut i: usize = 0;
    while i < extensions.len()
        invariant
            i <= extensions@.len(),
            p@ == path@,
            forall|j: int| 0 <= j < i ==> !ends_with_seq(path@, #[trigger] extensions@[j]@),
        decreases extensions@.len() - i,
    {
        if ends_with(&p, &chars_of(extensions[i])) {
            return true;
        }
        i = i + 1;
    }
    false
}

/// A git ref check that reports as a `GateError`.
pub fn valid_ref(value: &str) -> (r: Result<(), GateError>)
    ensures
        match r {
            Ok(()) => git_ref_problem(value@) is None,
            Err(GateError::Failed { message }) => git_ref_problem(value@) == Some(message@),
            Err(_) => false,
        },
{
    match validate_git_ref(value) {
        Ok(()) => Ok(()),
        Err(message) => Err(GateError::Failed { message }),
    }
}

} // verus!

verus! {

/// The pieces of `s` between occurrences of `c` (`str::split` on one character).
pub open spec fn split_char(s: Seq<char>, c: char) -> Seq<Seq<char>>
    decreases s.len(),
{
    if s.len() == 0 {
        seq![Seq::empty()]
    } else {
        let init = split_char(s.drop_last(), c);
        if s.last() == c {
            init.push(Seq::empty())
        } else {
            init.update(init.len() - 1, init.last().push(s.last()))
        }
    }
}

pub proof fn lemma_split_char_nonempty(s: Seq<char>, c: char)
    ensures
        split_char(s, c).len() >= 1,
    decreases s.len(),
{
    if s.len() > 0 {
        lemma_split_char_nonempty(s.drop_last(), c);
    }
}

/// `str::split` on one character.
pub fn split_on(s: &Vec<char>, c: char) -> (r: Vec<Vec<char>>)
    ensures
        r@.len() == split_char(s@, c).len(),
        forall|i: int| 0 <= i < r@.len() ==> (#[trigger] r@[i])@ == split_char(s@, c)[i],
{
    let mut parts: Vec<Vec<char>> = Vec::new();
    let mut cur: Vec<char> = Vec::new();
    let mut i: usize = 0;
    while i < s.len()
        invariant
            i <= s.len(),
            parts@.len() + 1 == split_char(s@.take(i as int), c).len(),
            forall|k: int| 0 <= k < parts@.len() ==> (#[trigger] parts@[k])@ == split_char(s@.take(i as int), c)[k],
            cur@ == split_char(s@.take(i as int), c).last(),
        decreases s.len() - i,
    {
        proof {
            lemma_split_char_nonempty(s@.take(i as int), c);
            assert(s@.take(i + 1).drop_last() =~= s@.take(i as int));
        }
        if s[i] == c {
            let done = cur;
            parts.push(done);
            cur = Vec::new();
            assert(cur@ =~= Seq::<char>::empty());
        } else {
            cur.push(s[i]);
        }
        i = i + 1;
    }
    assert(s@.take(s.len() as int) =~= s@);
    proof {
        lemma_split_char_nonempty(s@, c);
    }
    parts.push(cur);
    parts
}

/// Whether `seg` is one of the `/`-separated segments of `path`.
pub open spec fn has_segment(path: Seq<char>, seg: Seq<char>) -> bool {
    split_char(path, '/').contains(seg)
}

pub fn vec_eq(a: &Vec<char>, b: &Vec<char>) -> (r: bool)
    ensures
        r == (a@ == b@),
{
    if a.len() != b.len() {
        return false;
    }
    let mut i: usize = 0;
    while i < a.len()
        invariant
            i <= a.len(),
            a.len() == b.len(),
            forall|j: int| 0 <= j < i ==> a@[j] == b@[j],
        decreases a.len() - i,
    {
        if a[i] != b[i] {
            return false;
        }
        i = i + 1;
    }
    assert(a@ =~= b@);
    true
}

fn segment_of(path: &Vec<char>, seg: &Vec<char>) -> (r: bool)
    ensures
        r == has_segment(path@, seg@),
{
    let parts = split_on(path, '/');
    let mut i: usize = 0;
    while i < parts.len()
        invariant
            i <= parts.len(),
            parts@.len() == split_char(path@, '/').len(),
            forall|k: int| 0 <= k < parts@.len() ==> (#[trigger] parts@[k])@ == split_char(path@, '/')[k],
            forall|k: int| 0 <= k < i ==> split_char(path@, '/')[k] != seg@,
        decreases parts.len() - i,
    {
        if vec_eq(&parts[i], seg) {
            assert(split_char(path@, '/')[i as int] == seg@);
            return true;
        }
        i = i + 1;
    }
    false
}

/// The first position at or after `from` where `t` occurs in `s`.
pub open spec fn first_occurrence(s: Seq<char>, t: Seq<char>, from: int) -> Option<int> {
    if exists|j: int| from <= j && has_at(s, t, j) {
        Some(choose|j: int| is_first_at(s, t, from, j))
    } else {
        None
    }
}

pub open spec fn is_first_at(s: Seq<char>, t: Seq<char>, from: int, j: int) -> bool {
    from <= j && has_at(s, t, j) && forall|k: int| from <= k < j ==> !has_at(s, t, k)
}

proof fn lemma_first_occurrence(s: Seq<char>, t: Seq<char>, from: int, i: int)
    requires
        from <= i,
        has_at(s, t, i),
        forall|k: int| from <= k < i ==> !has_at(s, t, k),
    ensures
        first_occurrence(s, t, from) == Some(i),
{
    assert(is_first_at(s, t, from, i));
    let j = choose|j: int| is_first_at(s, t, from, j);
    assert(is_first_at(s, t, from, j));
    if j < i {
        assert(!has_at(s, t, j));
    }
    if j > i {
        assert(!has_at(s, t, i));
    }
}

/// The matching `match_pattern` performs for a pattern with `*`: the first part must be a
/// prefix, every middle part is taken at its leftmost place after the previous one, and the
/// last part must end the text.
pub open spec fn greedy_from(text: Seq<char>, parts: Seq<Seq<char>>, index: int, pos: int) -> bool
    decreases parts.len() - index,
{
    if index >= parts.len() {
        true
    } else if parts[index].len() == 0 {
        greedy_from(text, parts, index + 1, pos)
    } else if index == parts.len() - 1 {
        ends_with_seq(text.subrange(pos, text.len() as int), parts[index])
    } else {
        match first_occurrence(text, parts[index], pos) {
            Some(p) => greedy_from(text, parts, index + 1, p + parts[index].len()),
            None => false,
        }
    }
}

pub open spec fn wildcard_spec(text: Seq<char>, pattern: Seq<char>) -> bool {
    let parts = split_char(pattern, '*');
    if parts.len() == 1 {
        text == pattern
    } else if parts[0].len() > 0 {
        starts_with_seq(text, parts[0]) && greedy_from(text, parts, 1, parts[0].len() as int)
    } else {
        greedy_from(text, parts, 1, 0)
    }
}

fn wildcard_match(text: &Vec<char>, pattern: &Vec<char>) -> (r: bool)
    ensures
        r == wildcard_spec(text@, pattern@),
{
    let parts = split_on(pattern, '*');
    proof {
        lemma_split_char_nonempty(pattern@, '*');
    }
    let ghost ps = split_char(pattern@, '*');
    if parts.len() == 1 {
        return vec_eq(text, pattern);
    }
    let mut pos: usize = 0;
    if parts[0].len() > 0 {
        if !starts_with(text, &parts[0]) {
            return false;
        }
        pos = parts[0].len();
    }
    let mut index: usize = 1;
    while index < parts.len()
        invariant
            1 <= index <= parts.len(),
            parts@.len() == ps.len(),
            ps == split_char(pattern@, '*'),
            ps.len() > 1,
            forall|k: int| 0 <= k < parts@.len() ==> (#[trigger] parts@[k])@ == ps[k],
            pos <= text.len(),
            wildcard_spec(text@, pattern@) == greedy_from(text@, ps, index as int, pos as int),
        decreases parts.len() - index,
    {
        let part = &parts[index];
        assert(part@ == ps[index as int]);
        if part.len() == 0 {
            index = index + 1;
            continue;
        }
        if index == parts.len() - 1 {
            let rem = crate::stages::util::slice_of(text, pos, text.len());
            return ends_with(&rem, part);
        }
        match find_from(text, part, pos) {
            Some(p) => {
                proof {
                    lemma_first_occurrence(text@, part@, pos as int, p as int);
                }
                index = index + 1;
                pos = p + part.len();
            },
            None => {
                return false;
            },
        }
    }
    true
}

/// Glob matching of the parts from `index` on: each occurs in order at or after `pos`, after
/// a gap of any length, and the last one ends the text.
pub open spec fn glob_rest(text: Seq<char>, parts: Seq<Seq<char>>, index: int, pos: int) -> bool
    decreases parts.len() - index,
{
    if index >= parts.len() {
        true
    } else if index == parts.len() - 1 {
        exists|q: int| pos <= q && q + parts[index].len() == text.len() && #[trigger] has_at(text, parts[index], q)
    } else {
        exists|q: int|
            pos <= q && #[trigger] has_at(text, parts[index], q) && glob_rest(text, parts, index + 1, q + parts[index].len())
    }
}

/// Glob semantics of a pattern: without `*` the text is the pattern itself; with `*`, the text
/// starts with the part before the first `*` and every later part follows in order after a gap
/// of any length (`/` included), the last part ending the text.
pub open spec fn glob_match(text: Seq<char>, pattern: Seq<char>) -> bool {
    let parts = split_char(pattern, '*');
    if parts.len() == 1 {
        text == pattern
    } else {
        starts_with_seq(text, parts[0]) && glob_rest(text, parts, 1, parts[0].len() as int)
    }
}

proof fn lemma_glob_rest_earlier(text: Seq<char>, parts: Seq<Seq<char>>, index: int, pos: int, earlier: int)
    requires
        earlier <= pos,
        glob_rest(text, parts, index, pos),
    ensures
        glob_rest(text, parts, index, earlier),
{
    if index >= parts.len() {
    } else if index == parts.len() - 1 {
        let q = choose|q: int| pos <= q && q + parts[index].len() == text.len() && #[trigger] has_at(text, parts[index], q);
        assert(earlier <= q && q + parts[index].len() == text.len() && has_at(text, parts[index], q));
    } else {
        let q = choose|q: int|
            pos <= q && #[trigger] has_at(text, parts[index], q) && glob_rest(text, parts, index + 1, q + parts[index].len());
        assert(earlier <= q && has_at(text, parts[index], q) && glob_rest(text, parts, index + 1, q + parts[index].len()));
    }
}

proof fn lemma_first_exists(s: Seq<char>, t: Seq<char>, from: int, j: int)
    requires
        from <= j,
        has_at(s, t, j),
    ensures
        exists|f: int| is_first_at(s, t, from, f),
    decreases j - from,
{
    if forall|k: int| from <= k < j ==> !has_at(s, t, k) {
        assert(is_first_at(s, t, from, j));
    } else {
        let k = choose|k: int| from <= k < j && has_at(s, t, k);
        lemma_first_exists(s, t, from, k);
    }
}

proof fn lemma_greedy_is_glob(text: Seq<char>, parts: Seq<Seq<char>>, index: int, pos: int)
    requires
        1 <= index,
        0 <= pos <= text.len(),
    ensures
        greedy_from(text, parts, index, pos) == glob_rest(text, parts, index, pos),
    decreases parts.len() - index,
{
    if index >= parts.len() {
    } else if parts[index].len() == 0 {
        if index == parts.len() - 1 {
            assert(text.subrange(text.len() as int, text.len() as int) =~= parts[index]);
            assert(has_at(text, parts[index], text.len() as int));
            assert(greedy_from(text, parts, index + 1, pos));
            assert(greedy_from(text, parts, index, pos));
        } else {
            lemma_greedy_is_glob(text, parts, index + 1, pos);
            if glob_rest(text, parts, index + 1, pos) {
                assert(text.subrange(pos, pos) =~= parts[index]);
                assert(has_at(text, parts[index], pos));
            }
            if glob_rest(text, parts, index, pos) {
                let q = choose|q: int|
                    pos <= q && #[trigger] has_at(text, parts[index], q) && glob_rest(text, parts, index + 1, q + parts[index].len());
                lemma_glob_rest_earlier(text, parts, index + 1, q, pos);
            }
        }
    } else if index == parts.len() - 1 {
        let p = parts[index];
        let rest = text.subrange(pos, text.len() as int);
        if ends_with_seq(rest, p) {
            let q = text.len() - p.len();
            assert(rest.subrange(q - pos, q - pos + p.len()) =~= text.subrange(q, q + p.len()));
            assert(pos <= q && q + p.len() == text.len() && has_at(text, p, q));
        }
        if glob_rest(text, parts, index, pos) {
            let q = choose|q: int| pos <= q && q + parts[index].len() == text.len() && #[trigger] has_at(text, parts[index], q);
            assert(rest.subrange(q - pos, q - pos + p.len()) =~= text.subrange(q, q + p.len()));
        }
    } else {
        let p = parts[index];
        if exists|j: int| pos <= j && has_at(text, p, j) {
            let j = choose|j: int| pos <= j && has_at(text, p, j);
            lemma_first_exists(text, p, pos, j);
            let f = choose|f: int| is_first_at(text, p, pos, f);
            assert(is_first_at(text, p, pos, f));
            assert(first_occurrence(text, p, pos) == Some(f));
            lemma_greedy_is_glob(text, parts, index + 1, f + p.len());
            if greedy_from(text, parts, index, pos) {
                assert(pos <= f && has_at(text, p, f) && glob_rest(text, parts, index + 1, f + p.len()));
            }
            if glob_rest(text, parts, index, pos) {
                let q = choose|q: int|
                    pos <= q && #[trigger] has_at(text, parts[index], q) && glob_rest(text, parts, index + 1, q + parts[index].len());
                if q < f {
                    assert(!has_at(text, p, q));
                }
                lemma_glob_rest_earlier(text, parts, index + 1, q + p.len(), f + p.len());
            }
            assert(greedy_from(text, parts, index, pos) == glob_rest(text, parts, index, pos));
        } else {
            assert(first_occurrence(text, p, pos) is None);
            if glob_rest(text, parts, index, pos) {
                let q = choose|q: int|
                    pos <= q && #[trigger] has_at(text, parts[index], q) && glob_rest(text, parts, index + 1, q + parts[index].len());
                assert(pos <= q && has_at(text, p, q));
            }
        }
    }
}

/// An ignore pattern with `*` matches as a glob: `*` stands for any run of characters, `/`
/// included, and the leftmost matching `matches_pattern` performs finds a match exactly when
/// one exists.
pub proof fn law_wildcard_is_glob(text: Seq<char>, pattern: Seq<char>)
    ensures
        wildcard_spec(text, pattern) == glob_match(text, pattern),
{
    lemma_split_char_nonempty(pattern, '*');
    let parts = split_char(pattern, '*');
    if parts.len() > 1 {
        if parts[0].len() > 0 {
            if starts_with_seq(text, parts[0]) {
                lemma_greedy_is_glob(text, parts, 1, parts[0].len() as int);
            }
        } else {
            assert(text.subrange(0, 0) =~= parts[0]);
            lemma_greedy_is_glob(text, parts, 1, 0);
        }
    }
}

/// Pattern semantics: patterns match whole path segments or globs. A trailing `/` names a
/// directory: the path itself, anything below it, or a segment of that name; `*` is a
/// wildcard; anything else names the path, a directory above it, or a segment.
pub open spec fn matches_pattern_spec(path: Seq<char>, pattern: Seq<char>) -> bool {
    let p = trim_seq(pattern);
    if p.len() == 0 {
        false
    } else if p.last() == '/' {
        let prefix = p.drop_last();
        path == prefix || starts_with_seq(path, p) || has_segment(path, prefix)
    } else if p.contains('*') {
        wildcard_spec(path, p)
    } else {
        path == p || starts_with_seq(path, p.push('/')) || has_segment(path, p)
    }
}

pub fn matches_pattern(path: &str, pattern: &str) -> (r: bool)
    ensures
        r == matches_pattern_spec(path@, pattern@),
{
    let p = trim_str(pattern);
    let s = chars_of(path);
    if p.len() == 0 {
        return false;
    }
    if p[p.len() - 1] == '/' {
        let prefix = crate::stages::util::slice_of(&p, 0, p.len() - 1);
        assert(prefix@ =~= p@.drop_last());
        return vec_eq(&s, &prefix) || starts_with(&s, &p) || segment_of(&s, &prefix);
    }
    if char_in(&p, '*') {
        return wildcard_match(&s, &p);
    }
    let mut with_slash = crate::stages::util::slice_of(&p, 0, p.len());
    assert(with_slash@ =~= p@);
    with_slash.push('/');
    vec_eq(&s, &p) || starts_with(&s, &with_slash) || segment_of(&s, &p)
}

/// Paths that are never gated.
pub open spec fn default_ignores() -> Seq<&'static str> {
    seq![
        "node_modules/",
        "target/",
        "dist/",
        "build/",
        "vendor/",
        ".heretek/",
        ".heretek-audit/",
        ".heretek-shadow.json",
        ".git/",
        "coverage/",
    ]
}

fn default_ignore_list() -> (r: Vec<&'static str>)
    ensures
        r@ == default_ignores(),
{
    vec![
        "node_modules/",
        "target/",
        "dist/",
        "build/",
        "vendor/",
        ".heretek/",
        ".heretek-audit/",
        ".heretek-shadow.json",
        ".git/",
        "coverage/",
    ]
}

pub open spec fn is_ignored_spec(path: Seq<char>, extra: Seq<String>) -> bool {
    (exists|i: int| 0 <= i < default_ignores().len() && matches_pattern_spec(path, #[trigger] default_ignores()[i]@))
        || (exists|j: int| 0 <= j < extra.len() && matches_pattern_spec(path, #[trigger] extra[j]@))
}

/// Whether a default or configured ignore pattern matches the path.
pub fn is_ignored(path: &str, extra: &Vec<String>) -> (r: bool)
    ensures
        r == is_ignored_spec(path@, extra@),
{
    let defaults = default_ignore_list();
    let mut i: usize = 0;
    while i < defaults.len()
        invariant
            i <= defaults.len(),
            defaults@ == default_ignores(),
            forall|k: int| 0 <= k < i ==> !matches_pattern_spec(path@, #[trigger] default_ignores()[k]@),
        decreases defaults.len() - i,
    {
        if matches_pattern(path, defaults[i]) {
            return true;
        }
        i = i + 1;
    }
    let mut j: usize = 0;
    while j < extra.len()
        invariant
            j <= extra.len(),
            forall|k: int| 0 <= k < default_ignores().len() ==> !matches_pattern_spec(path@, #[trigger] default_ignores()[k]@),
            forall|k: int| 0 <= k < j ==> !matches_pattern_spec(path@, #[trigger] extra@[k]@),
        decreases extra.len() - j,
    {
        if matches_pattern(path, extra[j].as_str()) {
            return true;
        }
        j = j + 1;
    }
    false
}

} // verus!

verus! {

/// Non-empty pieces of NUL-separated git output.
pub open spec fn nul_paths(output: Seq<char>) -> Seq<Seq<char>> {
    split_char(output, '\0').filter(|p: Seq<char>| p.len() > 0)
}

/// Non-empty NUL-separated entries of git output.
pub fn nul_to_paths(output: &str) -> (r: Vec<String>)
    ensures
        crate::diagnostic::strings_view(r@) == nul_paths(output@),
{
    let parts = split_on(&chars_of(output), '\0');
    let ghost ps = split_char(output@, '\0');
    let mut out: Vec<String> = Vec::new();
    let mut i: usize = 0;
    while i < parts.len()
        invariant
            i <= parts.len(),
            parts@.len() == ps.len(),
            forall|k: int| 0 <= k < parts@.len() ==> (#[trigger] parts@[k])@ == ps[k],
            crate::diagnostic::strings_view(out@) == ps.take(i as int).filter(|p: Seq<char>| p.len() > 0),
        decreases parts.len() - i,
    {
        let ghost old_out = out@;
        assert(ps.take(i + 1).drop_last() =~= ps.take(i as int));
        reveal_with_fuel(Seq::<Seq<char>>::filter, 1);
        if parts[i].len() > 0 {
            let s = crate::text::string_of(&parts[i]);
            out.push(s);
            assert(crate::diagnostic::strings_view(out@) =~= crate::diagnostic::strings_view(old_out).push(s@));
        }
        i = i + 1;
    }
    assert(ps.take(parts.len() as int) =~= ps);
    out
}

/// Changed files in listing order, keeping the first of duplicates and dropping empty and
/// ignored paths.
pub open spec fn select_files(files: Seq<Seq<char>>, ignore: Seq<String>) -> Seq<Seq<char>>
    decreases files.len(),
{
    if files.len() == 0 {
        Seq::empty()
    } else {
        let kept = select_files(files.drop_last(), ignore);
        let f = files.last();
        if f.len() == 0 || is_ignored_spec(f, ignore) || kept.contains(f) {
            kept
        } else {
            kept.push(f)
        }
    }
}

/// All paths of all listings, in order.
pub open spec fn all_listed(listings: Seq<String>) -> Seq<Seq<char>>
    decreases listings.len(),
{
    if listings.len() == 0 {
        Seq::empty()
    } else {
        all_listed(listings.drop_last()) + nul_paths(listings.last()@)
    }
}

/// One git invocation: its working directory and arguments.
#[derive(Debug, Clone)]
pub struct GitQuery {
    pub cwd: String,
    pub args: Vec<String>,
}

/// The git invocations whose output lists the files of a gate run: the index diff for a
/// staged run, else the diff against the baseline (if any) and the tracked and untracked
/// files of the worktree.
pub open spec fn git_queries_spec(target: crate::stage::Target, repo_root: Seq<char>, baseline: Option<Seq<char>>) -> Seq<(Seq<char>, Seq<Seq<char>>)> {
    match target {
        crate::stage::Target::Staged => seq![(repo_root, seq!["diff"@, "--cached"@, "--name-only"@, "--diff-filter=ACMR"@, "-z"@] + match baseline {
            Some(b) => seq![b, "--"@],
            None => Seq::empty(),
        })],
        crate::stage::Target::Worktree(p) => (match baseline {
            Some(b) => seq![(p@, seq!["diff"@, "--name-only"@, "-z"@, b, "--"@])],
            None => Seq::empty(),
        }) + seq![(p@, seq!["ls-files"@, "-z"@, "--cached"@, "--others"@, "--exclude-standard"@])],
    }
}

/// A staged run asks git once, in the repository root, for the files of the index: the query
/// is `git diff --cached --name-only --diff-filter=ACMR -z`, with the baseline and "--" added
/// when one is given. A worktree run asks in the worktree: for the files differing from the
/// baseline when one is given, and then always for its tracked and untracked files.
pub proof fn law_git_queries_follow_the_target(repo_root: Seq<char>, path: String, b: Seq<char>)
    ensures
        ({
            let without = git_queries_spec(crate::stage::Target::Staged, repo_root, None);
            let with = git_queries_spec(crate::stage::Target::Staged, repo_root, Some(b));
            &&& without.len() == 1 && with.len() == 1
            &&& without[0].0 == repo_root && with[0].0 == repo_root
            &&& without[0].1 == seq!["diff"@, "--cached"@, "--name-only"@, "--diff-filter=ACMR"@, "-z"@]
            &&& with[0].1 == without[0].1 + seq![b, "--"@]
        }),
        ({
            let without = git_queries_spec(crate::stage::Target::Worktree(path), repo_root, None);
            let with = git_queries_spec(crate::stage::Target::Worktree(path), repo_root, Some(b));
            &&& without == seq![(path@, seq!["ls-files"@, "-z"@, "--cached"@, "--others"@, "--exclude-standard"@])]
            &&& with == seq![(path@, seq!["diff"@, "--name-only"@, "-z"@, b, "--"@])] + without
        }),
{
    let s0 = git_queries_spec(crate::stage::Target::Staged, repo_root, None);
    assert(s0[0].1 =~= seq!["diff"@, "--cached"@, "--name-only"@, "--diff-filter=ACMR"@, "-z"@]);
    let w0 = git_queries_spec(crate::stage::Target::Worktree(path), repo_root, None);
    assert(w0 =~= seq![(path@, seq!["ls-files"@, "-z"@, "--cached"@, "--others"@, "--exclude-standard"@])]);
}

pub open spec fn queries_view(q: Seq<GitQuery>) -> Seq<(Seq<char>, Seq<Seq<char>>)> {
    q.map_values(|g: GitQuery| (g.cwd@, crate::diagnostic::strings_view(g.args@)))
}

/// The git invocations `changed_files` needs the output of, after the baseline ref is checked.
pub fn git_queries(ctx: &crate::stage::GateContext) -> (r: Result<Vec<GitQuery>, GateError>)
    ensures
        match r {
            Ok(q) => (ctx.baseline is None || git_ref_problem(ctx.baseline->0@) is None)
                && queries_view(q@) == git_queries_spec(ctx.target, ctx.repo_root@, crate::diagnostic::opt_view(ctx.baseline)),
            Err(GateError::Failed { message }) => ctx.baseline is Some && git_ref_problem(ctx.baseline->0@) == Some(message@),
            Err(_) => false,
        },
{
    match ctx.validate() {
        Ok(()) => {},
        Err(e) => {
            return Err(e);
        },
    }
    let mut queries: Vec<GitQuery> = Vec::new();
    match &ctx.target {
        crate::stage::Target::Staged => {
            let mut args: Vec<String> = Vec::new();
            args.push("diff".to_owned());
            args.push("--cached".to_owned());
            args.push("--name-only".to_owned());
            args.push("--diff-filter=ACMR".to_owned());
            args.push("-z".to_owned());
            assert(crate::diagnostic::strings_view(args@) =~= seq!["diff"@, "--cached"@, "--name-only"@, "--diff-filter=ACMR"@, "-z"@]);
            let ghost a0 = args@;
            match &ctx.baseline {
                Some(b) => {
                    args.push(b.clone());
                    args.push("--".to_owned());
                    assert(crate::diagnostic::strings_view(args@) =~= crate::diagnostic::strings_view(a0) + seq![b@, "--"@]);
                },
                None => {},
            }
            let q = GitQuery { cwd: ctx.repo_root.clone(), args };
            queries.push(q);
            proof {
                assert(crate::diagnostic::strings_view(q.args@) =~= git_queries_spec(ctx.target, ctx.repo_root@, crate::diagnostic::opt_view(ctx.baseline))[0].1);
                assert(queries_view(queries@) =~= git_queries_spec(ctx.target, ctx.repo_root@, crate::diagnostic::opt_view(ctx.baseline)));
            }
        },
        crate::stage::Target::Worktree(path) => {
            match &ctx.baseline {
                Some(b) => {
                    let mut args: Vec<String> = Vec::new();
                    args.push("diff".to_owned());
                    args.push("--name-only".to_owned());
                    args.push("-z".to_owned());
                    args.push(b.clone());
                    args.push("--".to_owned());
                    let q = GitQuery { cwd: path.clone(), args };
                    queries.push(q);
                    assert(crate::diagnostic::strings_view(q.args@) =~= seq!["diff"@, "--name-only"@, "-z"@, b@, "--"@]);
                },
                None => {},
            }
            let ghost before = queries@;
            let mut args: Vec<String> = Vec::new();
            args.push("ls-files".to_owned());
            args.push("-z".to_owned());
            args.push("--cached".to_owned());
            args.push("--others".to_owned());
            args.push("--exclude-standard".to_owned());
            let q = GitQuery { cwd: path.clone(), args };
            queries.push(q);
            proof {
                assert(crate::diagnostic::strings_view(q.args@) =~= seq!["ls-files"@, "-z"@, "--cached"@, "--others"@, "--exclude-standard"@]);
                assert(queries_view(queries@) =~= git_queries_spec(ctx.target, ctx.repo_root@, crate::diagnostic::opt_view(ctx.baseline)));
            }
        },
    }
    Ok(queries)
}

fn contains_string(v: &Vec<String>, s: &str) -> (r: bool)
    ensures
        r == crate::diagnostic::strings_view(v@).contains(s@),
{
    let mut i: usize = 0;
    while i < v.len()
        invariant
            i <= v.len(),
            forall|k: int| 0 <= k < i ==> (#[trigger] v@[k])@ != s@,
        decreases v.len() - i,
    {
        if crate::config::str_eq(v[i].as_str(), s) {
            assert(crate::diagnostic::strings_view(v@)[i as int] == s@);
            return true;
        }
        i = i + 1;
    }
    proof {
        if crate::diagnostic::strings_view(v@).contains(s@) {
            let k = choose|k: int| 0 <= k < v@.len() && crate::diagnostic::strings_view(v@)[k] == s@;
            assert(v@[k]@ == s@);
        }
    }
    false
}

/// The files of a gate run, from the output of the `git_queries` (in the same order): the
/// listed paths in order, without empty, ignored or repeated entries.
pub fn changed_files(ctx: &crate::stage::GateContext, listings: &Vec<String>) -> (r: Result<Vec<String>, GateError>)
    ensures
        match r {
            Ok(files) => (ctx.baseline is None || git_ref_problem(ctx.baseline->0@) is None)
                && crate::diagnostic::strings_view(files@) == select_files(all_listed(listings@), ctx.config.ignore@),
            Err(GateError::Failed { message }) => ctx.baseline is Some && git_ref_problem(ctx.baseline->0@) == Some(message@),
            Err(_) => false,
        },
{
    match ctx.validate() {
        Ok(()) => {},
        Err(e) => {
            return Err(e);
        },
    }
    let mut files: Vec<String> = Vec::new();
    let mut l: usize = 0;
    while l < listings.len()
        invariant
            l <= listings.len(),
            crate::diagnostic::strings_view(files@) == all_listed(listings@.take(l as int)),
        decreases listings.len() - l,
    {
        let paths = nul_to_paths(listings[l].as_str());
        let ghost old_files = files@;
        let mut k: usize = 0;
        while k < paths.len()
            invariant
                k <= paths.len(),
                files@ == old_files + paths@.take(k as int),
            decreases paths.len() - k,
        {
            files.push(paths[k].clone());
            assert(files@ =~= old_files + paths@.take(k + 1));
            k = k + 1;
        }
        proof {
            assert(paths@.take(k as int) =~= paths@);
            assert(listings@.take(l + 1).drop_last() =~= listings@.take(l as int));
            assert(crate::diagnostic::strings_view(files@) =~= crate::diagnostic::strings_view(old_files) + crate::diagnostic::strings_view(paths@));
        }
        l = l + 1;
    }
    assert(listings@.take(listings.len() as int) =~= listings@);
    let ghost all = crate::diagnostic::strings_view(files@);
    let mut output: Vec<String> = Vec::new();
    let mut i: usize = 0;
    while i < files.len()
        invariant
            i <= files.len(),
            all == crate::diagnostic::strings_view(files@),
            crate::diagnostic::strings_view(output@) == select_files(all.take(i as int), ctx.config.ignore@),
        decreases files.len() - i,
    {
        assert(all.take(i + 1).drop_last() =~= all.take(i as int));
        assert(all.take(i + 1).last() == files@[i as int]@);
        let file = &files[i];
        if file.as_str().is_empty() || is_ignored(file.as_str(), &ctx.config.ignore) {
        } else if contains_string(&output, file.as_str()) {
        } else {
            let ghost old_out = output@;
            output.push(file.clone());
            proof {
                assert(crate::diagnostic::strings_view(output@) =~= crate::diagnostic::strings_view(old_out).push(file@));
            }
        }
        i = i + 1;
    }
    assert(all.take(files.len() as int) =~= all);
    Ok(output)
}

/// What `Path::strip_prefix` leaves of `path` below `root`, as `Path::display` shows it, when
/// `root` is a prefix of it.
pub uninterp spec fn path_below(path: Seq<char>, root: Seq<char>) -> Option<Seq<char>>;

/// `Path::strip_prefix`, then `Path::display`; by its documentation it fails exactly when
/// `root` is not a prefix of `path` by whole components (`Path::starts_with`).
#[verifier::external_body]
fn strip_path_prefix(path: &str, root: &str) -> (r: Option<String>)
    ensures
        match r {
            Some(s) => path_below(path@, root@) == Some(s@),
            None => path_below(path@, root@) is None,
        },
        r is Some <==> crate::stages::util::path_within(root@, path@),
{
    std::path::Path::new(path).strip_prefix(root).ok().map(|rest| rest.display().to_string())
}

/// A path as shown to the user: relative to the repository when it lies below it, else
/// unchanged.
pub fn display_path(path: &str, repo_root: &str) -> (r: String)
    ensures
        r@ == match path_below(path@, repo_root@) {
            Some(s) => s,
            None => path@,
        },
        !crate::stages::util::path_within(repo_root@, path@) ==> r@ == path@,
{
    match strip_path_prefix(path, repo_root) {
        Some(s) => s,
        None => crate::text::str_owned(path),
    }
}

} // verus!
