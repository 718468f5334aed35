use vstd::prelude::*;

use crate::diagnostic::{clone_opt, clone_strings, diagnostics_view, strings_view, opt_view, Diagnostic, DiagnosticView, GateKind};

verus! {

/// Schema tag carried by every gate report.
pub const REPORT_SCHEMA: &'static str = "heretek.report/1";

#[derive(Debug, Clone, Copy, PartialEq, Eq, Structural)]
pub enum StageStatus {
    Passed,
    Failed,
    Skipped,
}

/// What one stage reported.
#[derive(Debug, Clone)]
pub struct StageReport {
    pub id: String,
    pub kind: GateKind,
    pub status: StageStatus,
    pub duration_ms: u64,
    pub diagnostics: Vec<Diagnostic>,
    pub skipped_reason: Option<String>,
}

pub struct StageReportView {
    pub id: Seq<char>,
    pub kind: GateKind,
    pub status: StageStatus,
    pub duration_ms: u64,
    pub diagnostics: Seq<DiagnosticView>,
    pub skipped_reason: Option<Seq<char>>,
}

impl View for StageReport {
    type V = StageReportView;

    open spec fn view(&self) -> StageReportView {
        StageReportView {
            id: self.id@,
            kind: self.kind,
            status: self.status,
            duration_ms: self.duration_ms,
            diagnostics: diagnostics_view(self.diagnostics@),
            skipped_reason: opt_view(self.skipped_reason),
        }
    }
}

pub open spec fn stages_view(v: Seq<StageReport>) -> Seq<StageReportView> {
    v.map_values(|s: StageReport| s@)
}

/// Number of diagnostics that are new (not matched by a baseline).
pub open spec fn count_new(ds: Seq<DiagnosticView>) -> nat
    decreases ds.len(),
{
    if ds.len() == 0 {
        0
    } else {
        count_new(ds.drop_last()) + if ds.last().is_new {
            1nat
        } else {
            0nat
        }
    }
}

pub proof fn lemma_count_new_bound(ds: Seq<DiagnosticView>)
    ensures
        count_new(ds) <= ds.len(),
    decreases ds.len(),
{
    if ds.len() > 0 {
        lemma_count_new_bound(ds.drop_last());
    }
}

/// A stage that fails the run: blocking, failed, and with at least one new diagnostic.
pub open spec fn is_blocking_failure(s: StageReportView) -> bool {
    s.kind == GateKind::Blocking && s.status == StageStatus::Failed && count_new(s.diagnostics) > 0
}

pub open spec fn count_blocking_failures(stages: Seq<StageReportView>) -> nat
    decreases stages.len(),
{
    if stages.len() == 0 {
        0
    } else {
        count_blocking_failures(stages.drop_last()) + if is_blocking_failure(stages.last()) {
            1nat
        } else {
            0nat
        }
    }
}

pub proof fn lemma_count_blocking_bound(stages: Seq<StageReportView>)
    ensures
        count_blocking_failures(stages) <= stages.len(),
        count_blocking_failures(stages) == 0 <==> forall|i: int|
            0 <= i < stages.len() ==> !is_blocking_failure(#[trigger] stages[i]),
    decreases stages.len(),
{
    if stages.len() > 0 {
        lemma_count_blocking_bound(stages.drop_last());
        assert forall|i: int| 0 <= i < stages.len() - 1 implies #[trigger] stages[i]
            == stages.drop_last()[i] by {}
    }
}

/// Total number of new diagnostics over all stages.
pub open spec fn total_new(stages: Seq<StageReportView>) -> nat
    decreases stages.len(),
{
    if stages.len() == 0 {
        0
    } else {
        total_new(stages.drop_last()) + count_new(stages.last().diagnostics)
    }
}

fn count_new_exec(ds: &Vec<Diagnostic>) -> (r: usize)
    ensures
        r == count_new(diagnostics_view(ds@)),
{
    let mut n: usize = 0;
    let mut i: usize = 0;
    while i < ds.len()
        invariant
            i <= ds.len(),
            n == count_new(diagnostics_view(ds@.subrange(0, i as int))),
            n <= i,
        decreases ds.len() - i,
    {
        let ghost before = diagnostics_view(ds@.subrange(0, i as int));
        let ghost after = diagnostics_view(ds@.subrange(0, i + 1));
        assert(after.drop_last() =~= before);
        if ds[i].is_new {
            n = n + 1;
        }
        i = i + 1;
    }
    assert(ds@.subrange(0, ds.len() as int) =~= ds@);
    n
}

/// A copy of a list of diagnostics, each copied field by field.
pub fn duplicate_diagnostics(v: &Vec<Diagnostic>) -> (r: Vec<Diagnostic>)
    ensures
        diagnostics_view(r@) == diagnostics_view(v@),
{
    let mut out: Vec<Diagnostic> = Vec::new();
    let mut i: usize = 0;
    while i < v.len()
        invariant
            i <= v.len(),
            diagnostics_view(out@) == diagnostics_view(v@.take(i as int)),
        decreases v.len() - i,
    {
        let d = v[i].duplicate();
        let ghost before = out@;
        out.push(d);
        assert(diagnostics_view(out@) =~= diagnostics_view(before).push(v@[i as int]@));
        assert(v@.take(i + 1) =~= v@.take(i as int).push(v@[i as int]));
        assert(diagnostics_view(v@.take(i + 1)) =~= diagnostics_view(v@.take(i as int)).push(v@[i as int]@));
        i = i + 1;
    }
    assert(v@.take(v.len() as int) =~= v@);
    out
}

impl StageReport {
    /// A field-by-field copy.
    pub fn duplicate(&self) -> (r: Self)
        ensures
            r@ == self@,
    {
        StageReport {
            id: self.id.clone(),
            kind: self.kind,
            status: self.status,
            duration_ms: self.duration_ms,
            diagnostics: duplicate_diagnostics(&self.diagnostics),
            skipped_reason: clone_opt(&self.skipped_reason),
        }
    }

    /// A passed stage with no diagnostics.
    pub fn passed(id: &str, kind: GateKind, duration_ms: u64) -> (r: Self)
        ensures
            r@ == (StageReportView {
                id: id@,
                kind,
                status: StageStatus::Passed,
                duration_ms,
                diagnostics: Seq::empty(),
                skipped_reason: None,
            }),
    {
        let r = StageReport {
            id: id.to_owned(),
            kind,
            status: StageStatus::Passed,
            duration_ms,
            diagnostics: Vec::new(),
            skipped_reason: None,
        };
        assert(diagnostics_view(r.diagnostics@) =~= Seq::<DiagnosticView>::empty());
        r
    }

    /// A failed stage carrying the given diagnostics.
    pub fn failed(id: &str, kind: GateKind, duration_ms: u64, diagnostics: Vec<Diagnostic>) -> (r:
        Self)
        ensures
            r@ == (StageReportView {
                id: id@,
                kind,
                status: StageStatus::Failed,
                duration_ms,
                diagnostics: diagnostics_view(diagnostics@),
                skipped_reason: None,
            }),
    {
        StageReport {
            id: id.to_owned(),
            kind,
            status: StageStatus::Failed,
            duration_ms,
            diagnostics,
            skipped_reason: None,
        }
    }

    /// A skipped stage with its reason and zero duration.
    pub fn skipped(id: &str, kind: GateKind, reason: &str) -> (r: Self)
        ensures
            r@ == (StageReportView {
                id: id@,
                kind,
                status: StageStatus::Skipped,
                duration_ms: 0,
                diagnostics: Seq::empty(),
                skipped_reason: Some(reason@),
            }),
    {
        let r = StageReport {
            id: id.to_owned(),
            kind,
            status: StageStatus::Skipped,
            duration_ms: 0,
            diagnostics: Vec::new(),
            skipped_reason: Some(reason.to_owned()),
        };
        assert(diagnostics_view(r.diagnostics@) =~= Seq::<DiagnosticView>::empty());
        r
    }

    /// How many of this stage's diagnostics are new.
    pub fn new_diagnostic_count(&self) -> (r: usize)
        ensures
            r == count_new(self@.diagnostics),
    {
        count_new_exec(&self.diagnostics)
    }
}

/// The outcome of one gate run.
#[derive(Debug, Clone)]
pub struct GateReport {
    pub schema: String,
    pub target: String,
    pub stages: Vec<StageReport>,
    pub passed: bool,
    pub blocking_failures: usize,
    pub warnings: Vec<String>,
}

pub struct GateReportView {
    pub schema: Seq<char>,
    pub target: Seq<char>,
    pub stages: Seq<StageReportView>,
    pub passed: bool,
    pub blocking_failures: nat,
    pub warnings: Seq<Seq<char>>,
}

impl View for GateReport {
    type V = GateReportView;

    open spec fn view(&self) -> GateReportView {
        GateReportView {
            schema: self.schema@,
            target: self.target@,
            stages: stages_view(self.stages@),
            passed: self.passed,
            blocking_failures: self.blocking_failures as nat,
            warnings: strings_view(self.warnings@),
        }
    }
}

/// The report that `GateReport::from_stages` builds.
pub open spec fn report_from_stages(target: Seq<char>, stages: Seq<StageReportView>) -> GateReportView {
    GateReportView {
        schema: REPORT_SCHEMA@,
        target,
        stages,
        passed: count_blocking_failures(stages) == 0,
        blocking_failures: count_blocking_failures(stages),
        warnings: Seq::empty(),
    }
}

impl GateReport {
    /// A field-by-field copy.
    pub fn duplicate(&self) -> (r: Self)
        ensures
            r@ == self@,
    {
        let mut stages: Vec<StageReport> = Vec::new();
        let mut i: usize = 0;
        while i < self.stages.len()
            invariant
                i <= self.stages.len(),
                stages_view(stages@) == stages_view(self.stages@.take(i as int)),
            decreases self.stages.len() - i,
        {
            let st = self.stages[i].duplicate();
            let ghost before = stages@;
            stages.push(st);
            assert(stages_view(stages@) =~= stages_view(before).push(self.stages@[i as int]@));
            assert(self.stages@.take(i + 1) =~= self.stages@.take(i as int).push(self.stages@[i as int]));
            assert(stages_view(self.stages@.take(i + 1)) =~= stages_view(self.stages@.take(i as int)).push(self.stages@[i as int]@));
            i = i + 1;
        }
        assert(self.stages@.take(self.stages.len() as int) =~= self.stages@);
        let warnings = clone_strings(&self.warnings);
        assert(strings_view(warnings@) =~= strings_view(self.warnings@));
        GateReport {
            schema: self.schema.clone(),
            target: self.target.clone(),
            stages,
            passed: self.passed,
            blocking_failures: self.blocking_failures,
            warnings,
        }
    }

    /// Builds a report: the run passes exactly when no blocking stage failed with a new diagnostic.
    pub fn from_stages(target: &str, stages: Vec<StageReport>) -> (r: Self)
        ensures
            r@ == report_from_stages(target@, stages_view(stages@)),
    {
        let mut n: usize = 0;
        let mut i: usize = 0;
        while i < stages.len()
            invariant
                i <= stages.len(),
                n == count_blocking_failures(stages_view(stages@.subrange(0, i as int))),
                n <= i,
            decreases stages.len() - i,
        {
            let ghost before = stages_view(stages@.subrange(0, i as int));
            let ghost after = stages_view(stages@.subrange(0, i + 1));
            assert(after.drop_last() =~= before);
            let stage = &stages[i];
            if stage.kind == GateKind::Blocking && stage.status == StageStatus::Failed
                && stage.new_diagnostic_count() > 0 {
                n = n + 1;
            }
            i = i + 1;
        }
        assert(stages@.subrange(0, stages.len() as int) =~= stages@);
        let r = GateReport {
            schema: REPORT_SCHEMA.to_owned(),
            target: target.to_owned(),
            stages,
            passed: n == 0,
            blocking_failures: n,
            warnings: Vec::new(),
        };
        assert(strings_view(r.warnings@) =~= Seq::<Seq<char>>::empty());
        r
    }

    /// Total number of new diagnostics across all stages.
    pub fn new_diagnostic_count(&self) -> (r: usize)
        requires
            total_new(self@.stages) <= usize::MAX,
        ensures
            r == total_new(self@.stages),
    {
        let mut n: usize = 0;
        let mut i: usize = 0;
        while i < self.stages.len()
            invariant
                i <= self.stages.len(),
                total_new(self@.stages) <= usize::MAX,
                n == total_new(stages_view(self.stages@.subrange(0, i as int))),
            decreases self.stages.len() - i,
        {
            let ghost before = stages_view(self.stages@.subrange(0, i as int));
            let ghost after = stages_view(self.stages@.subrange(0, i + 1));
            assert(after.drop_last() =~= before);
            proof {
                lemma_total_new_prefix(self@.stages, i + 1);
                assert(after =~= self@.stages.subrange(0, i + 1));
            }
            let c = self.stages[i].new_diagnostic_count();
            n = n + c;
            i = i + 1;
        }
        assert(self.stages@.subrange(0, self.stages.len() as int) =~= self.stages@);
        n
    }
}

/// The total over a prefix never exceeds the total over the whole sequence.
pub proof fn lemma_total_new_prefix(stages: Seq<StageReportView>, k: int)
    requires
        0 <= k <= stages.len(),
    ensures
        total_new(stages.subrange(0, k)) <= total_new(stages),
    decreases stages.len(),
{
    if k < stages.len() {
        lemma_total_new_prefix(stages.drop_last(), k);
        assert(stages.drop_last().subrange(0, k) =~= stages.subrange(0, k));
    } else {
        assert(stages.subrange(0, k) =~= stages);
    }
}

/// A report passes exactly when no blocking stage failed, and an advisory stage never
/// counts against it.
pub proof fn law_passes_without_blocking_failures(target: Seq<char>, stages: Seq<StageReportView>)
    ensures
        report_from_stages(target, stages).passed <==> report_from_stages(target, stages).blocking_failures == 0,
        report_from_stages(target, stages).blocking_failures
            == count_blocking_failures(stages.filter(|s: StageReportView| s.kind == GateKind::Blocking)),
    decreases stages.len(),
{
    lemma_blocking_only(stages);
}

proof fn lemma_blocking_only(stages: Seq<StageReportView>)
    ensures
        count_blocking_failures(stages) == count_blocking_failures(stages.filter(|s: StageReportView| s.kind == GateKind::Blocking)),
    decreases stages.len(),
{
    reveal_with_fuel(Seq::<StageReportView>::filter, 1);
    if stages.len() > 0 {
        lemma_blocking_only(stages.drop_last());
        let f = stages.drop_last().filter(|s: StageReportView| s.kind == GateKind::Blocking);
        if stages.last().kind == GateKind::Blocking {
            assert(stages.filter(|s: StageReportView| s.kind == GateKind::Blocking) == f.push(stages.last()));
            assert(f.push(stages.last()).drop_last() =~= f);
        }
    }
}

} // verus!
