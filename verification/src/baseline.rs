use vstd::prelude::*;

use crate::config::str_eq;
use crate::diagnostic::{clone_opt, diagnostics_view, strings_view, Diagnostic, DiagnosticView, GateKind};
use crate::pipeline::Pipeline;
use crate::report::{
    count_new, report_from_stages, total_new, stages_view, GateReport, GateReportView, StageReport,
    StageReportView, StageStatus,
};
use crate::stage::{GateContext, Target};
use crate::text::{cat, chars_of, is_whitespace, is_ws, string_of};

verus! {

/// White space runs collapsed: words are kept in order and separated by one space,
/// with no space at either end (what `split_whitespace` joined by a space gives).
pub open spec fn collapse(s: Seq<char>) -> Seq<char>
    decreases s.len(),
{
    if s.len() == 0 {
        Seq::empty()
    } else {
        let init = s.drop_last();
        let c = s.last();
        if is_ws(c) {
            collapse(init)
        } else if init.len() > 0 && is_ws(init.last()) && collapse(init).len() > 0 {
            collapse(init) + seq![' ', c]
        } else {
            collapse(init).push(c)
        }
    }
}

/// Collapses every run of white space to one space and trims both ends.
pub fn normalize(message: &str) -> (r: String)
    ensures
        r@ == collapse(message@),
{
    let cs = chars_of(message);
    let mut out: Vec<char> = Vec::new();
    let mut i: usize = 0;
    while i < cs.len()
        invariant
            i <= cs.len(),
            cs@ == message@,
            out@ == collapse(cs@.subrange(0, i as int)),
        decreases cs.len() - i,
    {
        let ghost pre = cs@.subrange(0, i as int);
        assert(cs@.subrange(0, i + 1).drop_last() =~= pre);
        let c = cs[i];
        if is_whitespace(c) {
        } else if i > 0 && is_whitespace(cs[i - 1]) && out.len() > 0 {
            assert(pre.last() == cs@[i - 1]);
            out.push(' ');
            out.push(c);
            assert(out@ =~= collapse(pre) + seq![' ', c]);
        } else {
            proof {
                if i > 0 {
                    assert(pre.last() == cs@[i - 1]);
                }
            }
            out.push(c);
        }
        i = i + 1;
    }
    assert(cs@.subrange(0, cs.len() as int) =~= cs@);
    string_of(&out)
}

/// The identity of a diagnostic for baseline matching: gate, code, file, the collapsed
/// message and the collapsed first context line, joined by `|`.
pub open spec fn fingerprint_spec(d: DiagnosticView) -> Seq<char> {
    d.gate + "|"@ + (match d.code {
        Some(c) => c,
        None => ""@,
    }) + "|"@ + d.file + "|"@ + collapse(d.message) + "|"@ + (if d.context.len() > 0 {
        collapse(d.context[0])
    } else {
        ""@
    })
}

pub fn fingerprint(diagnostic: &Diagnostic) -> (r: String)
    ensures
        r@ == fingerprint_spec(diagnostic@),
{
    let code = match &diagnostic.code {
        Some(c) => c.clone(),
        None => "".to_owned(),
    };
    let context = if diagnostic.context.len() > 0 {
        normalize(diagnostic.context[0].as_str())
    } else {
        "".to_owned()
    };
    let mut s = cat(diagnostic.gate.as_str(), "|");
    s = cat(s.as_str(), code.as_str());
    s = cat(s.as_str(), "|");
    s = cat(s.as_str(), diagnostic.file.as_str());
    s = cat(s.as_str(), "|");
    s = cat(s.as_str(), normalize(diagnostic.message.as_str()).as_str());
    s = cat(s.as_str(), "|");
    s = cat(s.as_str(), context.as_str());
    s
}

/// How many times `key` is recorded: the sum of the counts of entries with that key.
pub open spec fn fp_count(entries: Seq<(String, usize)>, key: Seq<char>) -> nat
    decreases entries.len(),
{
    if entries.len() == 0 {
        0
    } else {
        fp_count(entries.drop_last(), key) + if entries.last().0@ == key {
            entries.last().1 as nat
        } else {
            0nat
        }
    }
}

/// Number of diagnostics in `ds` with fingerprint `key`.
pub open spec fn occurrences(ds: Seq<DiagnosticView>, key: Seq<char>) -> nat
    decreases ds.len(),
{
    if ds.len() == 0 {
        0
    } else {
        occurrences(ds.drop_last(), key) + if fingerprint_spec(ds.last()) == key {
            1nat
        } else {
            0nat
        }
    }
}

/// All diagnostics of all stages, in stage order.
pub open spec fn flat_diags(stages: Seq<StageReportView>) -> Seq<DiagnosticView>
    decreases stages.len(),
{
    if stages.len() == 0 {
        Seq::empty()
    } else {
        flat_diags(stages.drop_last()) + stages.last().diagnostics
    }
}

/// A diagnostic is old while the baseline still holds an unmatched copy of its fingerprint:
/// the first `n` diagnostics with a fingerprint the baseline counts `n` times are old.
pub open spec fn rematched(base: Seq<(String, usize)>, seen: Seq<DiagnosticView>, d: DiagnosticView) -> DiagnosticView {
    DiagnosticView {
        is_new: occurrences(seen, fingerprint_spec(d)) >= fp_count(base, fingerprint_spec(d)),
        ..d
    }
}

pub open spec fn rematch_diags(base: Seq<(String, usize)>, before: Seq<DiagnosticView>, ds: Seq<DiagnosticView>) -> Seq<DiagnosticView> {
    Seq::new(ds.len(), |j: int| rematched(base, before + ds.subrange(0, j), ds[j]))
}

/// A stage after matching: a blocking failure left with no new diagnostic passes.
pub open spec fn rematch_stage(base: Seq<(String, usize)>, before: Seq<DiagnosticView>, s: StageReportView) -> StageReportView {
    let ds = rematch_diags(base, before, s.diagnostics);
    StageReportView {
        status: if s.kind == GateKind::Blocking && s.status == StageStatus::Failed && !(exists|j: int|
            0 <= j < ds.len() && (#[trigger] ds[j]).is_new) {
            StageStatus::Passed
        } else {
            s.status
        },
        diagnostics: ds,
        ..s
    }
}

pub open spec fn rematch_stages(base: Seq<(String, usize)>, stages: Seq<StageReportView>) -> Seq<StageReportView>
    decreases stages.len(),
{
    if stages.len() == 0 {
        Seq::empty()
    } else {
        rematch_stages(base, stages.drop_last()).push(
            rematch_stage(base, flat_diags(stages.drop_last()), stages.last()),
        )
    }
}

/// The report `match_new` gives back.
pub open spec fn rematch_report(base: Seq<(String, usize)>, r: GateReportView) -> GateReportView {
    GateReportView {
        warnings: r.warnings,
        ..report_from_stages(r.target, rematch_stages(base, r.stages))
    }
}

/// Fingerprints of known diagnostics with how often each occurred.
#[derive(Debug, Clone, Default)]
pub struct Baseline {
    pub fingerprints: Vec<(String, usize)>,
}

/// Truncated subtraction.
pub open spec fn minus(a: nat, b: nat) -> nat {
    if a >= b {
        (a - b) as nat
    } else {
        0
    }
}

proof fn lemma_fp_count_update(entries: Seq<(String, usize)>, i: int, c: usize, key: Seq<char>)
    requires
        0 <= i < entries.len(),
    ensures
        fp_count(entries.update(i, (entries[i].0, c)), key) + (if entries[i].0@ == key {
            entries[i].1 as nat
        } else {
            0nat
        }) == fp_count(entries, key) + (if entries[i].0@ == key {
            c as nat
        } else {
            0nat
        }),
    decreases entries.len(),
{
    let u = entries.update(i, (entries[i].0, c));
    if i == entries.len() - 1 {
        assert(u.drop_last() =~= entries.drop_last());
    } else {
        assert(u.drop_last() =~= entries.drop_last().update(i, (entries[i].0, c)));
        lemma_fp_count_update(entries.drop_last(), i, c, key);
    }
}

proof fn lemma_fp_count_ge(entries: Seq<(String, usize)>, i: int, key: Seq<char>)
    requires
        0 <= i < entries.len(),
        entries[i].0@ == key,
    ensures
        fp_count(entries, key) >= entries[i].1,
    decreases entries.len(),
{
    if i < entries.len() - 1 {
        assert(entries.drop_last()[i] == entries[i]);
        lemma_fp_count_ge(entries.drop_last(), i, key);
    }
}

proof fn lemma_fp_count_push(entries: Seq<(String, usize)>, e: (String, usize), key: Seq<char>)
    ensures
        fp_count(entries.push(e), key) == fp_count(entries, key) + if e.0@ == key {
            e.1 as nat
        } else {
            0nat
        },
{
    assert(entries.push(e).drop_last() =~= entries);
}

/// When every entry with key `key` counts zero, the key counts zero.
proof fn lemma_fp_count_zero_prefix(entries: Seq<(String, usize)>, key: Seq<char>)
    requires
        forall|j: int| 0 <= j < entries.len() && (#[trigger] entries[j]).0@ == key ==> entries[j].1 == 0,
    ensures
        fp_count(entries, key) == 0,
    decreases entries.len(),
{
    if entries.len() > 0 {
        assert forall|j: int| 0 <= j < entries.drop_last().len() && (#[trigger] entries.drop_last()[j]).0@ == key implies entries.drop_last()[j].1 == 0 by {
            assert(entries.drop_last()[j] == entries[j]);
        }
        lemma_fp_count_zero_prefix(entries.drop_last(), key);
    }
}

proof fn lemma_fp_count_one_key(entries: Seq<(String, usize)>, key: Seq<char>, i: int)
    requires
        0 <= i < entries.len(),
        entries[i].0@ == key,
        forall|j: int| 0 <= j < entries.len() && j != i ==> (#[trigger] entries[j]).0@ != key,
    ensures
        fp_count(entries, key) == entries[i].1,
    decreases entries.len(),
{
    if i == entries.len() - 1 {
        assert forall|j: int| 0 <= j < entries.drop_last().len() && (#[trigger] entries.drop_last()[j]).0@ == key implies entries.drop_last()[j].1 == 0 by {
            assert(entries.drop_last()[j] == entries[j]);
        }
        lemma_fp_count_zero_prefix(entries.drop_last(), key);
    } else {
        assert forall|j: int| 0 <= j < entries.drop_last().len() && j != i implies (#[trigger] entries.drop_last()[j]).0@ != key by {
            assert(entries.drop_last()[j] == entries[j]);
        }
        assert(entries.drop_last()[i] == entries[i]);
        lemma_fp_count_one_key(entries.drop_last(), key, i);
    }
}

proof fn lemma_occurrences_push(ds: Seq<DiagnosticView>, d: DiagnosticView, key: Seq<char>)
    ensures
        occurrences(ds.push(d), key) == occurrences(ds, key) + if fingerprint_spec(d) == key {
            1nat
        } else {
            0nat
        },
{
    assert(ds.push(d).drop_last() =~= ds);
}

proof fn lemma_occurrences_bound(ds: Seq<DiagnosticView>, key: Seq<char>)
    ensures
        occurrences(ds, key) <= ds.len(),
    decreases ds.len(),
{
    if ds.len() > 0 {
        lemma_occurrences_bound(ds.drop_last(), key);
    }
}

/// Finds the entry for `key`, if there is one.
fn find_entry(entries: &Vec<(String, usize)>, key: &str) -> (r: Option<usize>)
    ensures
        match r {
            Some(i) => i < entries@.len() && entries@[i as int].0@ == key@,
            None => forall|j: int| 0 <= j < entries@.len() ==> (#[trigger] entries@[j]).0@ != key@,
        },
{
    let mut i: usize = 0;
    while i < entries.len()
        invariant
            i <= entries.len(),
            forall|j: int| 0 <= j < i ==> (#[trigger] entries@[j]).0@ != key@,
        decreases entries.len() - i,
    {
        if str_eq(entries[i].0.as_str(), key) {
            return Some(i);
        }
        i = i + 1;
    }
    None
}

/// Finds the first entry for `key` that still has a positive count.
fn find_positive(entries: &Vec<(String, usize)>, key: &str) -> (r: Option<usize>)
    ensures
        match r {
            Some(i) => i < entries@.len() && entries@[i as int].0@ == key@ && entries@[i as int].1 > 0,
            None => fp_count(entries@, key@) == 0,
        },
{
    let mut i: usize = 0;
    while i < entries.len()
        invariant
            i <= entries.len(),
            forall|j: int| 0 <= j < i && (#[trigger] entries@[j]).0@ == key@ ==> entries@[j].1 == 0,
        decreases entries.len() - i,
    {
        if entries[i].1 > 0 && str_eq(entries[i].0.as_str(), key) {
            return Some(i);
        }
        i = i + 1;
    }
    proof {
        lemma_fp_count_zero_prefix(entries@, key@);
    }
    None
}

fn clone_entries(v: &Vec<(String, usize)>) -> (r: Vec<(String, usize)>)
    ensures
        r@ == v@,
{
    let mut out: Vec<(String, usize)> = Vec::new();
    let mut i: usize = 0;
    while i < v.len()
        invariant
            i <= v.len(),
            out@ == v@.subrange(0, i as int),
        decreases v.len() - i,
    {
        out.push((v[i].0.clone(), v[i].1));
        assert(out@ =~= v@.subrange(0, i + 1));
        i = i + 1;
    }
    assert(v@.subrange(0, v.len() as int) =~= v@);
    out
}

/// Every recorded fingerprint counts at least once.
pub open spec fn positive_counts(entries: Seq<(String, usize)>) -> bool {
    forall|i: int| 0 <= i < entries.len() ==> (#[trigger] entries[i]).1 >= 1
}

/// Whether the entries hold each key at most once.
pub open spec fn distinct_keys(entries: Seq<(String, usize)>) -> bool {
    forall|a: int, b: int| 0 <= a < b < entries.len() ==> (#[trigger] entries[a]).0@ != (#[trigger] entries[b]).0@
}

impl Baseline {
    /// How many times the baseline holds `key`.
    pub open spec fn count(&self, key: Seq<char>) -> nat {
        fp_count(self.fingerprints@, key)
    }

    /// Counts the fingerprint of every diagnostic in the report, one entry per fingerprint,
    /// each counted at least once.
    pub fn from_report(report: &GateReport) -> (r: Self)
        requires
            flat_diags(report@.stages).len() < usize::MAX,
        ensures
            forall|key: Seq<char>| r.count(key) == occurrences(flat_diags(report@.stages), key),
            distinct_keys(r.fingerprints@),
            positive_counts(r.fingerprints@),
    {
        let mut entries: Vec<(String, usize)> = Vec::new();
        let ghost mut seen: Seq<DiagnosticView> = Seq::empty();
        let mut s: usize = 0;
        while s < report.stages.len()
            invariant
                s <= report.stages.len(),
                flat_diags(report@.stages).len() < usize::MAX,
                seen == flat_diags(report@.stages.subrange(0, s as int)),
                forall|key: Seq<char>| fp_count(entries@, key) == occurrences(seen, key),
                distinct_keys(entries@),
                positive_counts(entries@),
            decreases report.stages.len() - s,
        {
            proof {
                assert(report@.stages.subrange(0, s + 1).drop_last() =~= report@.stages.subrange(0, s as int));
                lemma_flat_prefix(report@.stages, s + 1);
            }
            let stage = &report.stages[s];
            let mut d: usize = 0;
            while d < stage.diagnostics.len()
                invariant
                    s < report.stages.len(),
                    stage == report.stages@[s as int],
                    d <= stage.diagnostics.len(),
                    flat_diags(report@.stages).len() < usize::MAX,
                    seen == flat_diags(report@.stages.subrange(0, s as int)) + report@.stages[s as int].diagnostics.subrange(0, d as int),
                    seen.len() <= flat_diags(report@.stages).len(),
                    forall|key: Seq<char>| fp_count(entries@, key) == occurrences(seen, key),
                    distinct_keys(entries@),
                    positive_counts(entries@),
                decreases stage.diagnostics.len() - d,
            {
                let ghost dv = stage.diagnostics@[d as int]@;
                assert(report@.stages[s as int].diagnostics[d as int] == dv);
                let key = fingerprint(&stage.diagnostics[d]);
                proof {
                    lemma_occurrences_bound(seen, key@);
                    lemma_flat_prefix(report@.stages, s + 1);
                    assert(report@.stages.subrange(0, s + 1).drop_last() =~= report@.stages.subrange(0, s as int));
                    assert(seen.len() < flat_diags(report@.stages.subrange(0, s + 1)).len());
                }
                match find_entry(&entries, key.as_str()) {
                    Some(i) => {
                        let ghost old_entries = entries@;
                        proof {
                            lemma_fp_count_one_key(old_entries, key@, i as int);
                        }
                        let c = entries[i].1;
                        let k = entries[i].0.clone();
                        entries.set(i, (k, c + 1));
                        proof {
                            assert(entries@ == old_entries.update(i as int, (old_entries[i as int].0, (c + 1) as usize)));
                            assert forall|key2: Seq<char>| fp_count(entries@, key2) == occurrences(seen.push(dv), key2) by {
                                lemma_fp_count_update(old_entries, i as int, (c + 1) as usize, key2);
                                lemma_occurrences_push(seen, dv, key2);
                            }
                            assert forall|a: int, b: int| 0 <= a < b < entries@.len() implies (#[trigger] entries@[a]).0@ != (#[trigger] entries@[b]).0@ by {
                                assert(old_entries[a].0@ != old_entries[b].0@);
                            }
                            assert forall|a: int| 0 <= a < entries@.len() implies (#[trigger] entries@[a]).1 >= 1 by {
                                if a != i {
                                    assert(entries@[a] == old_entries[a]);
                                }
                            }
                        }
                    },
                    None => {
                        let ghost old_entries = entries@;
                        entries.push((key, 1));
                        proof {
                            assert forall|key2: Seq<char>| fp_count(entries@, key2) == occurrences(seen.push(dv), key2) by {
                                lemma_fp_count_push(old_entries, entries@.last(), key2);
                                lemma_occurrences_push(seen, dv, key2);
                            }
                            assert forall|a: int, b: int| 0 <= a < b < entries@.len() implies (#[trigger] entries@[a]).0@ != (#[trigger] entries@[b]).0@ by {
                                if b == entries@.len() - 1 {
                                    assert(old_entries[a] == entries@[a]);
                                } else {
                                    assert(old_entries[a].0@ != old_entries[b].0@);
                                }
                            }
                            assert forall|a: int| 0 <= a < entries@.len() implies (#[trigger] entries@[a]).1 >= 1 by {
                                if a < entries@.len() - 1 {
                                    assert(entries@[a] == old_entries[a]);
                                }
                            }
                        }
                    },
                }
                proof {
                    assert(report@.stages[s as int].diagnostics.subrange(0, d + 1) =~= report@.stages[s as int].diagnostics.subrange(0, d as int).push(dv));
                    seen = seen.push(dv);
                }
                d = d + 1;
            }
            proof {
                assert(report@.stages[s as int].diagnostics.subrange(0, d as int) =~= report@.stages[s as int].diagnostics);
                assert(flat_diags(report@.stages.subrange(0, s + 1)) == flat_diags(report@.stages.subrange(0, s as int)) + report@.stages[s as int].diagnostics);
            }
            s = s + 1;
        }
        assert(report@.stages.subrange(0, report.stages.len() as int) =~= report@.stages);
        Baseline { fingerprints: entries }
    }

    /// Marks each diagnostic of `report` old while the baseline holds an unmatched copy of its
    /// fingerprint (a multiset match, in stage order), new otherwise; a blocking stage that
    /// failed only with old diagnostics passes. Warnings are kept.
    pub fn match_new(&self, report: GateReport) -> (r: GateReport)
        ensures
            r@ == rematch_report(self.fingerprints@, report@),
    {
        let ghost base = self.fingerprints@;
        let mut remaining: Vec<(String, usize)> = clone_entries(&self.fingerprints);
        let ghost all = report@.stages;
        let target = report.target;
        let warnings = report.warnings;
        let stages = report.stages;
        let mut out: Vec<StageReport> = Vec::new();
        let ghost mut seen: Seq<DiagnosticView> = Seq::empty();
        let mut s: usize = 0;
        assert(remaining@ == base);
        while s < stages.len()
            invariant
                s <= stages.len(),
                all == stages_view(stages@),
                seen == flat_diags(all.subrange(0, s as int)),
                forall|key: Seq<char>| fp_count(remaining@, key) == minus(fp_count(base, key), occurrences(seen, key)),
                stages_view(out@) == rematch_stages(base, all.subrange(0, s as int)),
            decreases stages.len() - s,
        {
            proof {
                assert(all.subrange(0, s + 1).drop_last() =~= all.subrange(0, s as int));
            }
            let stage = &stages[s];
            let ghost sv = all[s as int];
            assert(stage@ == sv);
            let ghost before = seen;
            let mut diagnostics: Vec<Diagnostic> = Vec::new();
            let mut has_new = false;
            let mut d: usize = 0;
            while d < stage.diagnostics.len()
                invariant
                    s < stages.len(),
                    stage == stages@[s as int],
                    sv == stage@,
                    d <= stage.diagnostics.len(),
                    seen == before + sv.diagnostics.subrange(0, d as int),
                    forall|key: Seq<char>| fp_count(remaining@, key) == minus(fp_count(base, key), occurrences(seen, key)),
                    diagnostics_view(diagnostics@) == rematch_diags(base, before, sv.diagnostics).subrange(0, d as int),
                    has_new == exists|j: int| 0 <= j < d && (#[trigger] rematch_diags(base, before, sv.diagnostics)[j]).is_new,
                decreases stage.diagnostics.len() - d,
            {
                let ghost dv = sv.diagnostics[d as int];
                assert(stage.diagnostics@[d as int]@ == dv);
                let key = fingerprint(&stage.diagnostics[d]);
                let mut diagnostic = stage.diagnostics[d].duplicate();
                let is_new = match find_positive(&remaining, key.as_str()) {
                    Some(i) => {
                        let ghost old_rem = remaining@;
                        proof {
                            lemma_fp_count_ge(old_rem, i as int, key@);
                        }
                        let c = remaining[i].1;
                        let k = remaining[i].0.clone();
                        remaining.set(i, (k, c - 1));
                        proof {
                            assert(remaining@ == old_rem.update(i as int, (old_rem[i as int].0, (c - 1) as usize)));
                            assert forall|key2: Seq<char>| fp_count(remaining@, key2) == minus(fp_count(base, key2), occurrences(seen.push(dv), key2)) by {
                                lemma_fp_count_update(old_rem, i as int, (c - 1) as usize, key2);
                                lemma_occurrences_push(seen, dv, key2);
                            }
                        }
                        false
                    },
                    None => {
                        proof {
                            assert forall|key2: Seq<char>| fp_count(remaining@, key2) == minus(fp_count(base, key2), occurrences(seen.push(dv), key2)) by {
                                lemma_occurrences_push(seen, dv, key2);
                            }
                        }
                        true
                    },
                };
                diagnostic.is_new = is_new;
                proof {
                    assert(sv.diagnostics.subrange(0, d as int) =~= (before + sv.diagnostics.subrange(0, d as int)).subrange(before.len() as int, seen.len() as int));
                    assert(before + sv.diagnostics.subrange(0, d as int) == seen);
                    assert(rematch_diags(base, before, sv.diagnostics)[d as int] == rematched(base, seen, dv));
                }
                let ghost old_diags = diagnostics@;
                diagnostics.push(diagnostic);
                proof {
                    assert(diagnostics_view(diagnostics@) =~= diagnostics_view(old_diags).push(diagnostic@));
                    assert(diagnostic@ == rematched(base, seen, dv)) by {
                        assert(diagnostic@.is_new == rematched(base, seen, dv).is_new);
                        assert(diagnostic@ =~= rematched(base, seen, dv));
                    }
                    assert(diagnostics_view(diagnostics@) =~= rematch_diags(base, before, sv.diagnostics).subrange(0, d + 1));
                    assert(sv.diagnostics.subrange(0, d + 1) =~= sv.diagnostics.subrange(0, d as int).push(dv));
                    seen = seen.push(dv);
                }
                if is_new {
                    has_new = true;
                }
                d = d + 1;
            }
            proof {
                assert(sv.diagnostics.subrange(0, d as int) =~= sv.diagnostics);
                assert(rematch_diags(base, before, sv.diagnostics).subrange(0, d as int) =~= rematch_diags(base, before, sv.diagnostics));
            }
            let status = if stage.kind == GateKind::Blocking && stage.status == StageStatus::Failed && !has_new {
                StageStatus::Passed
            } else {
                stage.status
            };
            let new_stage = StageReport {
                id: stage.id.clone(),
                kind: stage.kind,
                status,
                duration_ms: stage.duration_ms,
                diagnostics,
                skipped_reason: clone_opt(&stage.skipped_reason),
            };
            proof {
                assert(new_stage@ =~= rematch_stage(base, before, sv));
                assert(flat_diags(all.subrange(0, s + 1)) == flat_diags(all.subrange(0, s as int)) + sv.diagnostics);
            }
            let ghost old_out = out@;
            out.push(new_stage);
            proof {
                assert(stages_view(out@) =~= stages_view(old_out).push(new_stage@));
                assert(rematch_stages(base, all.subrange(0, s + 1)) == rematch_stages(base, all.subrange(0, s as int)).push(rematch_stage(base, flat_diags(all.subrange(0, s as int)), sv)));
            }
            s = s + 1;
        }
        assert(all.subrange(0, stages.len() as int) =~= all);
        let mut updated = GateReport::from_stages(target.as_str(), out);
        updated.warnings = warnings;
        updated
    }
}

proof fn lemma_flat_prefix(stages: Seq<StageReportView>, k: int)
    requires
        0 <= k <= stages.len(),
    ensures
        flat_diags(stages.subrange(0, k)).len() <= flat_diags(stages).len(),
    decreases stages.len(),
{
    if k < stages.len() {
        assert(stages.drop_last().subrange(0, k) =~= stages.subrange(0, k));
        lemma_flat_prefix(stages.drop_last(), k);
    } else {
        assert(stages.subrange(0, k) =~= stages);
    }
}


proof fn lemma_occurrences_prefix(s: Seq<DiagnosticView>, t: Seq<DiagnosticView>, key: Seq<char>)
    requires
        s.len() <= t.len(),
        s == t.subrange(0, s.len() as int),
    ensures
        occurrences(s, key) <= occurrences(t, key),
    decreases t.len(),
{
    if s.len() < t.len() {
        assert(s == t.drop_last().subrange(0, s.len() as int));
        lemma_occurrences_prefix(s, t.drop_last(), key);
    } else {
        assert(s =~= t);
    }
}

proof fn lemma_flat_has_prefix(stages: Seq<StageReportView>, k: int)
    requires
        0 <= k <= stages.len(),
    ensures
        flat_diags(stages.subrange(0, k)) == flat_diags(stages).subrange(0, flat_diags(stages.subrange(0, k)).len() as int),
        flat_diags(stages.subrange(0, k)).len() <= flat_diags(stages).len(),
    decreases stages.len(),
{
    if k < stages.len() {
        assert(stages.drop_last().subrange(0, k) =~= stages.subrange(0, k));
        lemma_flat_has_prefix(stages.drop_last(), k);
        let a = flat_diags(stages.subrange(0, k));
        let b = flat_diags(stages.drop_last());
        assert(flat_diags(stages) == b + stages.last().diagnostics);
        assert((b + stages.last().diagnostics).subrange(0, a.len() as int) =~= b.subrange(0, a.len() as int));
    } else {
        assert(stages.subrange(0, k) =~= stages);
    }
}

proof fn lemma_rematch_stages_index(base: Seq<(String, usize)>, stages: Seq<StageReportView>, i: int)
    requires
        0 <= i < stages.len(),
    ensures
        rematch_stages(base, stages).len() == stages.len(),
        rematch_stages(base, stages)[i] == rematch_stage(base, flat_diags(stages.subrange(0, i)), stages[i]),
    decreases stages.len(),
{
    lemma_rematch_stages_len(base, stages);
    if i < stages.len() - 1 {
        assert(stages.drop_last().subrange(0, i) =~= stages.subrange(0, i));
        lemma_rematch_stages_index(base, stages.drop_last(), i);
    } else {
        assert(stages.drop_last() =~= stages.subrange(0, i));
    }
}

proof fn lemma_rematch_stages_len(base: Seq<(String, usize)>, stages: Seq<StageReportView>)
    ensures
        rematch_stages(base, stages).len() == stages.len(),
    decreases stages.len(),
{
    if stages.len() > 0 {
        lemma_rematch_stages_len(base, stages.drop_last());
    }
}

proof fn lemma_count_new_zero(ds: Seq<DiagnosticView>)
    requires
        forall|j: int| 0 <= j < ds.len() ==> !(#[trigger] ds[j]).is_new,
    ensures
        count_new(ds) == 0,
    decreases ds.len(),
{
    if ds.len() > 0 {
        assert forall|j: int| 0 <= j < ds.drop_last().len() implies !(#[trigger] ds.drop_last()[j]).is_new by {
            assert(ds.drop_last()[j] == ds[j]);
        }
        lemma_count_new_zero(ds.drop_last());
    }
}

/// A report matched against a baseline that counts exactly its own diagnostics keeps no new
/// diagnostic and passes: pre-existing findings never fail a run.
pub proof fn law_own_baseline_passes(base: Seq<(String, usize)>, r: GateReportView)
    requires
        forall|key: Seq<char>| fp_count(base, key) == occurrences(flat_diags(r.stages), key),
    ensures
        rematch_report(base, r).passed,
        rematch_report(base, r).blocking_failures == 0,
        rematch_report(base, r).stages.len() == r.stages.len(),
        total_new(rematch_report(base, r).stages) == 0,
        forall|i: int, j: int|
            0 <= i < r.stages.len() && 0 <= j < r.stages[i].diagnostics.len() ==> !(#[trigger] rematch_report(base, r).stages[i].diagnostics[j]).is_new,
{
    let all = flat_diags(r.stages);
    let out = rematch_stages(base, r.stages);
    lemma_rematch_stages_len(base, r.stages);
    assert forall|i: int, j: int|
        0 <= i < r.stages.len() && 0 <= j < r.stages[i].diagnostics.len() implies !(#[trigger] out[i].diagnostics[j]).is_new by {
        lemma_rematch_stages_index(base, r.stages, i);
        let before = flat_diags(r.stages.subrange(0, i));
        let ds = r.stages[i].diagnostics;
        let d = ds[j];
        let seen = before + ds.subrange(0, j);
        lemma_flat_has_prefix(r.stages, i + 1);
        assert(r.stages.subrange(0, i + 1).drop_last() =~= r.stages.subrange(0, i));
        let upto = flat_diags(r.stages.subrange(0, i + 1));
        assert(upto == before + ds);
        assert(seen.push(d) =~= upto.subrange(0, seen.len() as int + 1));
        assert(upto.subrange(0, seen.len() as int + 1) =~= all.subrange(0, seen.len() as int + 1));
        lemma_occurrences_push(seen, d, fingerprint_spec(d));
        lemma_occurrences_prefix(seen.push(d), all, fingerprint_spec(d));
    }
    assert forall|i: int| 0 <= i < out.len() implies !crate::report::is_blocking_failure(#[trigger] out[i]) by {
        lemma_rematch_stages_index(base, r.stages, i);
        assert forall|j: int| 0 <= j < out[i].diagnostics.len() implies !(#[trigger] out[i].diagnostics[j]).is_new by {
            assert(out[i].diagnostics[j] == out[i].diagnostics[j]);
        }
        lemma_count_new_zero(out[i].diagnostics);
    }
    crate::report::lemma_count_blocking_bound(out);
    assert forall|i: int| 0 <= i < out.len() implies count_new((#[trigger] out[i]).diagnostics) == 0 by {
        lemma_rematch_stages_index(base, r.stages, i);
        assert forall|j: int| 0 <= j < out[i].diagnostics.len() implies !(#[trigger] out[i].diagnostics[j]).is_new by {
            assert(out[i].diagnostics[j] == out[i].diagnostics[j]);
        }
        lemma_count_new_zero(out[i].diagnostics);
    }
    lemma_total_new_zero(out);
}

proof fn lemma_total_new_zero(stages: Seq<StageReportView>)
    requires
        forall|i: int| 0 <= i < stages.len() ==> count_new((#[trigger] stages[i]).diagnostics) == 0,
    ensures
        total_new(stages) == 0,
    decreases stages.len(),
{
    if stages.len() > 0 {
        assert forall|i: int| 0 <= i < stages.drop_last().len() implies count_new((#[trigger] stages.drop_last()[i]).diagnostics) == 0 by {
            assert(stages.drop_last()[i] == stages[i]);
        }
        lemma_total_new_zero(stages.drop_last());
        assert(count_new(stages[stages.len() - 1].diagnostics) == 0);
    }
}

proof fn lemma_count_new_concat(a: Seq<DiagnosticView>, b: Seq<DiagnosticView>)
    ensures
        count_new(a + b) == count_new(a) + count_new(b),
    decreases b.len(),
{
    if b.len() == 0 {
        assert(a + b =~= a);
    } else {
        lemma_count_new_concat(a, b.drop_last());
        assert((a + b).drop_last() =~= a + b.drop_last());
    }
}

/// The new findings of a report, counted stage by stage, are its new findings counted over
/// all its diagnostics in one list.
pub proof fn law_new_count_is_flat_count(stages: Seq<StageReportView>)
    ensures
        total_new(stages) == count_new(flat_diags(stages)),
    decreases stages.len(),
{
    if stages.len() > 0 {
        law_new_count_is_flat_count(stages.drop_last());
        lemma_count_new_concat(flat_diags(stages.drop_last()), stages.last().diagnostics);
    }
}

/// Number of diagnostics in `ds` with fingerprint `key` that are not new.
pub open spec fn old_occurrences(ds: Seq<DiagnosticView>, key: Seq<char>) -> nat
    decreases ds.len(),
{
    if ds.len() == 0 {
        0
    } else {
        old_occurrences(ds.drop_last(), key) + if fingerprint_spec(ds.last()) == key && !ds.last().is_new {
            1nat
        } else {
            0nat
        }
    }
}

/// All diagnostics of a run after matching, each judged by the ones before it.
pub open spec fn rematch_all(base: Seq<(String, usize)>, all: Seq<DiagnosticView>) -> Seq<DiagnosticView> {
    Seq::new(all.len(), |k: int| rematched(base, all.take(k), all[k]))
}

proof fn lemma_flat_rematch(base: Seq<(String, usize)>, stages: Seq<StageReportView>)
    ensures
        flat_diags(rematch_stages(base, stages)) == rematch_all(base, flat_diags(stages)),
    decreases stages.len(),
{
    if stages.len() == 0 {
        assert(rematch_all(base, flat_diags(stages)) =~= Seq::<DiagnosticView>::empty());
    } else {
        lemma_flat_rematch(base, stages.drop_last());
        let a = flat_diags(stages.drop_last());
        let d = stages.last().diagnostics;
        let out = rematch_stages(base, stages);
        assert(out.drop_last() =~= rematch_stages(base, stages.drop_last()));
        let all = a + d;
        assert forall|k: int| 0 <= k < all.len() implies #[trigger] rematch_all(base, all)[k]
            == (rematch_all(base, a) + rematch_diags(base, a, d))[k] by {
            if k < a.len() {
                assert(all.take(k) =~= a.take(k));
            } else {
                assert(all.take(k) =~= a + d.subrange(0, k - a.len()));
            }
        }
        assert(rematch_all(base, all) =~= rematch_all(base, a) + rematch_diags(base, a, d));
    }
}

proof fn lemma_old_count(base: Seq<(String, usize)>, all: Seq<DiagnosticView>, key: Seq<char>, n: int)
    requires
        0 <= n <= all.len(),
    ensures
        old_occurrences(rematch_all(base, all).take(n), key) == (if fp_count(base, key) <= occurrences(all.take(n), key) {
            fp_count(base, key)
        } else {
            occurrences(all.take(n), key)
        }),
        occurrences(rematch_all(base, all).take(n), key) == occurrences(all.take(n), key),
    decreases n,
{
    let m = rematch_all(base, all);
    if n == 0 {
        assert(m.take(0) =~= Seq::<DiagnosticView>::empty());
        assert(all.take(0) =~= Seq::<DiagnosticView>::empty());
    } else {
        lemma_old_count(base, all, key, n - 1);
        assert(m.take(n).drop_last() =~= m.take(n - 1));
        assert(all.take(n).drop_last() =~= all.take(n - 1));
        assert(m.take(n).last() == rematched(base, all.take(n - 1), all[n - 1]));
        assert(all.take(n).last() == all[n - 1]);
    }
}

/// The baseline is matched as a multiset: of the diagnostics with one fingerprint, as many
/// stay old as the baseline holds copies of it (all of them when the run has no more than
/// that), the others are new, and none is added or lost.
pub proof fn law_baseline_matches_as_multiset(base: Seq<(String, usize)>, r: GateReportView, key: Seq<char>)
    ensures
        old_occurrences(flat_diags(rematch_report(base, r).stages), key) == (if fp_count(base, key) <= occurrences(
            flat_diags(r.stages),
            key,
        ) {
            fp_count(base, key)
        } else {
            occurrences(flat_diags(r.stages), key)
        }),
        occurrences(flat_diags(rematch_report(base, r).stages), key) == occurrences(flat_diags(r.stages), key),
{
    lemma_flat_rematch(base, r.stages);
    let all = flat_diags(r.stages);
    lemma_old_count(base, all, key, all.len() as int);
    assert(rematch_all(base, all).take(all.len() as int) =~= rematch_all(base, all));
    assert(all.take(all.len() as int) =~= all);
}

} // verus!
