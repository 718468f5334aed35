use vstd::prelude::*;

use crate::config::git_ref_problem;
use crate::diagnostic::{
    diagnostics_view, new_diagnostic_view, opt_view, strings_view, Diagnostic, DiagnosticView,
    GateKind, Severity,
};
use crate::report::{
    count_blocking_failures, count_new, is_blocking_failure, report_from_stages, stages_view, GateReport,
    GateReportView, StageReport, StageReportView, StageStatus,
};
use crate::stage::{describe_target, gate_error_text, GateContext, GateError, Stage, StageOutcome};
use crate::text::cat;

verus! {

#[verifier::external_type_specification]
#[verifier::external_body]
pub struct ExInstant(std::time::Instant);

/// `Instant::now`.
#[verifier::external_body]
fn now() -> std::time::Instant {
    std::time::Instant::now()
}

/// Whole milliseconds since `started` (`Instant::elapsed`, read in milliseconds).
#[verifier::external_body]
fn elapsed_ms(started: &std::time::Instant) -> u64 {
    started.elapsed().as_millis() as u64
}

/// Warning added when a pipeline has no stages at all.
pub const EMPTY_PIPELINE_WARNING: &'static str = "pipeline contains no stages; nothing was verified";

/// The report of a stage that produced an outcome.
pub open spec fn outcome_report(id: Seq<char>, kind: GateKind, duration_ms: u64, o: StageOutcome) -> StageReportView {
    StageReportView {
        id,
        kind,
        status: o.status,
        duration_ms,
        diagnostics: diagnostics_view(o.diagnostics@),
        skipped_reason: opt_view(o.skipped_reason),
    }
}

/// The report of a stage that failed with an error: a failure carrying one error frame.
pub open spec fn error_report(id: Seq<char>, kind: GateKind, duration_ms: u64, e: GateError) -> StageReportView {
    StageReportView {
        id,
        kind,
        status: StageStatus::Failed,
        duration_ms,
        diagnostics: seq![
            new_diagnostic_view(id, Severity::Error, ""@, 0, 0, "stage error: "@ + gate_error_text(e)),
        ],
        skipped_reason: None,
    }
}

pub open spec fn skip_warning(s: StageReportView) -> Seq<char> {
    "blocking stage '"@ + s.id + "' was skipped: "@ + match s.skipped_reason {
        Some(r) => r,
        None => "no reason given"@,
    }
}

/// One warning per blocking stage that was skipped, in stage order.
pub open spec fn skip_warnings(stages: Seq<StageReportView>) -> Seq<Seq<char>>
    decreases stages.len(),
{
    if stages.len() == 0 {
        Seq::empty()
    } else {
        let last = stages.last();
        let rest = skip_warnings(stages.drop_last());
        if last.kind == GateKind::Blocking && last.status == StageStatus::Skipped {
            rest.push(skip_warning(last))
        } else {
            rest
        }
    }
}

/// The report a pipeline run ends with, given the stage reports.
pub open spec fn finished_report(target: Seq<char>, stages: Seq<StageReportView>, empty: bool) -> GateReportView {
    GateReportView {
        warnings: (if empty {
            seq![EMPTY_PIPELINE_WARNING@]
        } else {
            Seq::empty()
        }) + skip_warnings(stages),
        ..report_from_stages(target, stages)
    }
}

/// The report of a run whose target could not be prepared.
pub open spec fn setup_failure_report(target: Seq<char>, error_text: Seq<char>) -> GateReportView {
    report_from_stages(
        target,
        seq![
            StageReportView {
                id: "setup"@,
                kind: GateKind::Blocking,
                status: StageStatus::Failed,
                duration_ms: 0,
                diagnostics: seq![
                    new_diagnostic_view(
                        "setup"@,
                        Severity::Error,
                        ""@,
                        0,
                        0,
                        "could not prepare gate target: "@ + error_text,
                    ),
                ],
                skipped_reason: None,
            },
        ],
    )
}

/// The report of one stage from what its run gave: its outcome, or a failure carrying the
/// error.
pub open spec fn stage_report_of(id: &'static str, kind: GateKind, duration_ms: u64, result: Result<StageOutcome, GateError>) -> StageReportView {
    match result {
        Ok(o) => outcome_report(id@, kind, duration_ms, o),
        Err(e) => error_report(id@, kind, duration_ms, e),
    }
}

/// The stage reports of a run, stage `i` from the `i`-th id, kind, duration and result.
pub open spec fn stage_reports(
    ids: Seq<&'static str>,
    kinds: Seq<GateKind>,
    durations: Seq<u64>,
    results: Seq<Result<StageOutcome, GateError>>,
) -> Seq<StageReportView> {
    Seq::new(results.len(), |i: int| stage_report_of(ids[i], kinds[i], durations[i], results[i]))
}

/// The report of a run from what each stage gave, in order (see `stage_reports` and
/// `finished_report`).
pub fn assemble(
    target: &str,
    ids: &Vec<&'static str>,
    kinds: &Vec<GateKind>,
    durations: Vec<u64>,
    results: Vec<Result<StageOutcome, GateError>>,
) -> (r: GateReport)
    requires
        ids@.len() == results@.len(),
        kinds@.len() == results@.len(),
        durations@.len() == results@.len(),
    ensures
        r@ == finished_report(target@, stage_reports(ids@, kinds@, durations@, results@), results@.len() == 0),
{
    let ghost all = results@;
    let n = results.len();
    let mut rest = results;
    let mut reports: Vec<StageReport> = Vec::new();
    let mut i: usize = 0;
    while i < n
        invariant
            n == all.len(),
            i <= n,
            ids@.len() == n && kinds@.len() == n && durations@.len() == n,
            rest@ == all.skip(i as int),
            stages_view(reports@) == stage_reports(ids@, kinds@, durations@, all).take(i as int),
        decreases n - i,
    {
        let result = rest.remove(0);
        assert(all.skip(i as int).drop_first() =~= all.skip(i + 1));
        assert(result == all[i as int]);
        let ghost expected = stage_report_of(ids@[i as int], kinds@[i as int], durations@[i as int], all[i as int]);
        let report = match result {
            Ok(outcome) => record_outcome(ids[i], kinds[i], durations[i], outcome),
            Err(error) => record_error(ids[i], kinds[i], durations[i], &error),
        };
        assert(report@ == expected);
        let ghost before = reports@;
        reports.push(report);
        assert(stages_view(reports@) =~= stages_view(before).push(report@));
        assert(stages_view(reports@) =~= stage_reports(ids@, kinds@, durations@, all).take(i + 1));
        i = i + 1;
    }
    assert(stage_reports(ids@, kinds@, durations@, all).take(n as int) =~= stage_reports(ids@, kinds@, durations@, all));
    finish_report(target, reports, n == 0)
}

/// An ordered list of stages, with the id and kind of each as recorded when the pipeline was
/// built.
pub struct Pipeline {
    stages: Vec<Box<dyn Stage>>,
    ids: Vec<&'static str>,
    kinds: Vec<GateKind>,
}

impl Pipeline {
    pub closed spec fn len(&self) -> nat {
        self.stages@.len()
    }

    /// The stages, in run order.
    pub closed spec fn stage_list(&self) -> Seq<Box<dyn Stage>> {
        self.stages@
    }

    /// The stage ids, in run order.
    pub closed spec fn ids(&self) -> Seq<&'static str> {
        self.ids@
    }

    /// The stage kinds, in run order.
    pub closed spec fn kinds(&self) -> Seq<GateKind> {
        self.kinds@
    }

    #[verifier::type_invariant]
    closed spec fn recorded(&self) -> bool {
        self.ids@.len() == self.stages@.len() && self.kinds@.len() == self.stages@.len()
    }

    /// A pipeline of `stages`, recording each one's id and kind.
    pub fn new(stages: Vec<Box<dyn Stage>>) -> (r: Self)
        ensures
            r.len() == stages@.len(),
            r.stage_list() == stages@,
            r.ids().len() == r.len() && r.kinds().len() == r.len(),
            forall|i: int| 0 <= i < r.len() ==> (#[trigger] r.ids()[i]) == stages@[i].stage_id()
                && r.kinds()[i] == stages@[i].stage_kind(),
    {
        let mut ids: Vec<&'static str> = Vec::new();
        let mut kinds: Vec<GateKind> = Vec::new();
        let mut i: usize = 0;
        while i < stages.len()
            invariant
                i <= stages.len(),
                ids@.len() == i && kinds@.len() == i,
                forall|k: int| 0 <= k < i ==> (#[trigger] ids@[k]) == stages@[k].stage_id()
                    && kinds@[k] == stages@[k].stage_kind(),
            decreases stages.len() - i,
        {
            ids.push(stages[i].id());
            kinds.push(stages[i].kind());
            i = i + 1;
        }
        Pipeline { stages, ids, kinds }
    }

    pub fn empty() -> (r: Self)
        ensures
            r.len() == 0,
            r.stage_list().len() == 0,
            r.ids().len() == 0 && r.kinds().len() == 0,
    {
        Pipeline { stages: Vec::new(), ids: Vec::new(), kinds: Vec::new() }
    }

    /// The stage ids, in run order.
    pub fn stage_ids(&self) -> (r: Vec<&'static str>)
        ensures
            r@ == self.ids(),
            r@.len() == self.len(),
    {
        proof {
            use_type_invariant(self);
        }
        let mut ids: Vec<&'static str> = Vec::new();
        let mut i: usize = 0;
        while i < self.ids.len()
            invariant
                i <= self.ids.len(),
                ids@ == self.ids@.take(i as int),
            decreases self.ids.len() - i,
        {
            ids.push(self.ids[i]);
            assert(ids@ =~= self.ids@.take(i + 1));
            i = i + 1;
        }
        assert(self.ids@.take(self.ids.len() as int) =~= self.ids@);
        ids
    }

    /// The stage ids with their kinds, in run order.
    pub fn stage_kinds(&self) -> (r: Vec<(&'static str, GateKind)>)
        ensures
            r@.len() == self.len(),
            forall|i: int| 0 <= i < r@.len() ==> (#[trigger] r@[i]).0 == self.ids()[i] && r@[i].1 == self.kinds()[i],
    {
        proof {
            use_type_invariant(self);
        }
        let mut kinds: Vec<(&'static str, GateKind)> = Vec::new();
        let mut i: usize = 0;
        while i < self.ids.len()
            invariant
                i <= self.ids.len(),
                self.ids@.len() == self.kinds@.len(),
                kinds@.len() == i,
                forall|k: int| 0 <= k < i ==> (#[trigger] kinds@[k]).0 == self.ids@[k] && kinds@[k].1 == self.kinds@[k],
            decreases self.ids.len() - i,
        {
            kinds.push((self.ids[i], self.kinds[i]));
            i = i + 1;
        }
        kinds
    }

    /// Runs every stage in order and reports each one from what it gave (see `assemble`): its
    /// outcome, or, for an error, a failed stage with one error frame. The report passes
    /// exactly when no blocking stage failed with a new diagnostic; an empty pipeline and every
    /// skipped blocking stage leave a warning.
    pub fn run(&self, ctx: &GateContext) -> (r: GateReport)
        ensures
            ctx.baseline is Some && git_ref_problem(ctx.baseline->0@) is Some ==> r@
                == setup_failure_report(
                describe_target(ctx.target),
                "stage failed: "@ + git_ref_problem(ctx.baseline->0@)->0,
            ),
            !(ctx.baseline is Some && git_ref_problem(ctx.baseline->0@) is Some) ==> {
                &&& r@.stages.len() == self.len()
                &&& exists|durations: Seq<u64>, results: Seq<Result<StageOutcome, GateError>>|
                    durations.len() == self.len() && results.len() == self.len()
                    && (forall|i: int| 0 <= i < self.len() ==> self.stage_list()[i].gives(*ctx, #[trigger] results[i]))
                    && r@ == finished_report(
                        describe_target(ctx.target),
                        #[trigger] stage_reports(self.ids(), self.kinds(), durations, results),
                        self.len() == 0,
                    )
            },
    {
        proof {
            use_type_invariant(self);
        }
        match ctx.validate() {
            Ok(()) => {},
            Err(error) => {
                return setup_failure(ctx, error);
            },
        }
        let mut durations: Vec<u64> = Vec::new();
        let mut results: Vec<Result<StageOutcome, GateError>> = Vec::new();
        let mut i: usize = 0;
        while i < self.stages.len()
            invariant
                i <= self.stages.len(),
                durations@.len() == i && results@.len() == i,
                forall|k: int| 0 <= k < i ==> self.stages@[k].gives(*ctx, #[trigger] results@[k]),
            decreases self.stages.len() - i,
        {
            let started = now();
            let result = self.stages[i].run(ctx);
            durations.push(elapsed_ms(&started));
            results.push(result);
            i = i + 1;
        }
        let target = ctx.target.describe();
        let ghost ds = durations@;
        let ghost rs = results@;
        let r = assemble(target.as_str(), &self.ids, &self.kinds, durations, results);
        proof {
            assert(stage_reports(self.ids(), self.kinds(), ds, rs).len() == self.len());
        }
        r
    }
}

impl Default for Pipeline {
    fn default() -> (r: Self)
        ensures
            r.len() == 0,
    {
        Pipeline::empty()
    }
}

/// The report of a stage that produced an outcome.
pub fn record_outcome(id: &str, kind: GateKind, duration_ms: u64, outcome: StageOutcome) -> (r: StageReport)
    ensures
        r@ == outcome_report(id@, kind, duration_ms, outcome),
{
    StageReport {
        id: id.to_owned(),
        kind,
        status: outcome.status,
        duration_ms,
        diagnostics: outcome.diagnostics,
        skipped_reason: outcome.skipped_reason,
    }
}

/// The report of a stage that failed with an error.
pub fn record_error(id: &str, kind: GateKind, duration_ms: u64, error: &GateError) -> (r: StageReport)
    ensures
        r@ == error_report(id@, kind, duration_ms, *error),
{
    let message = cat("stage error: ", error.text().as_str());
    let diagnostic = Diagnostic::new(id, Severity::Error, "", 0, 0, message.as_str());
    let mut diagnostics: Vec<Diagnostic> = Vec::new();
    diagnostics.push(diagnostic);
    let r = StageReport::failed(id, kind, duration_ms, diagnostics);
    assert(r@.diagnostics =~= error_report(id@, kind, duration_ms, *error).diagnostics);
    r
}

/// The report of a run whose target could not be prepared: one failed blocking `setup` stage.
pub fn setup_failure(ctx: &GateContext, error: GateError) -> (r: GateReport)
    ensures
        r@ == setup_failure_report(describe_target(ctx.target), gate_error_text(error)),
{
    let message = cat("could not prepare gate target: ", error.text().as_str());
    let diagnostic = Diagnostic::new("setup", Severity::Error, "", 0, 0, message.as_str());
    let mut diagnostics: Vec<Diagnostic> = Vec::new();
    let ghost dv = diagnostic@;
    diagnostics.push(diagnostic);
    assert(diagnostics_view(diagnostics@) =~= seq![dv]);
    let stage = StageReport::failed("setup", GateKind::Blocking, 0, diagnostics);
    let ghost sv = stage@;
    let mut stages: Vec<StageReport> = Vec::new();
    stages.push(stage);
    assert(stages_view(stages@) =~= seq![sv]);
    let target = ctx.target.describe();
    let r = GateReport::from_stages(target.as_str(), stages);
    assert(stages_view(stages@) =~= setup_failure_report(describe_target(ctx.target), gate_error_text(error)).stages);
    r
}

fn finish_report(target: &str, reports: Vec<StageReport>, empty: bool) -> (r: GateReport)
    ensures
        r@ == finished_report(target@, stages_view(reports@), empty),
{
    let mut report = GateReport::from_stages(target, reports);
    if empty {
        report.warnings.push(EMPTY_PIPELINE_WARNING.to_owned());
    }
    let ghost head = strings_view(report.warnings@);
    assert(head =~= (if empty { seq![EMPTY_PIPELINE_WARNING@] } else { Seq::<Seq<char>>::empty() }));
    let mut i: usize = 0;
    while i < report.stages.len()
        invariant
            i <= report.stages.len(),
            report@ == (GateReportView {
                warnings: head + skip_warnings(report@.stages.subrange(0, i as int)),
                ..report_from_stages(target@, stages_view(reports@))
            }),
        decreases report.stages.len() - i,
    {
        let ghost pre = report@.stages.subrange(0, i as int);
        assert(report@.stages.subrange(0, i + 1).drop_last() =~= pre);
        let stage = &report.stages[i];
        if stage.kind == GateKind::Blocking && stage.status == StageStatus::Skipped {
            let reason = match &stage.skipped_reason {
                Some(r) => r.clone(),
                None => "no reason given".to_owned(),
            };
            let a = cat("blocking stage '", stage.id.as_str());
            let b = cat(a.as_str(), "' was skipped: ");
            let w = cat(b.as_str(), reason.as_str());
            let ghost old_w = report.warnings@;
            report.warnings.push(w);
            assert(strings_view(report.warnings@) =~= strings_view(old_w).push(w@));
            assert(w@ == skip_warning(report@.stages[i as int]));
            assert(head + skip_warnings(report@.stages.subrange(0, i + 1)) =~= head + skip_warnings(pre).push(w@));
        } else {
            assert(skip_warnings(report@.stages.subrange(0, i + 1)) == skip_warnings(pre));
        }
        i = i + 1;
    }
    assert(report@.stages.subrange(0, report.stages.len() as int) =~= report@.stages);
    report
}

proof fn lemma_skip_warned(stages: Seq<StageReportView>, i: int)
    requires
        0 <= i < stages.len(),
        stages[i].kind == GateKind::Blocking,
        stages[i].status == StageStatus::Skipped,
    ensures
        skip_warnings(stages).contains(skip_warning(stages[i])),
    decreases stages.len(),
{
    let w = skip_warning(stages[i]);
    if i == stages.len() - 1 {
        assert(skip_warnings(stages) == skip_warnings(stages.drop_last()).push(w));
        assert(skip_warnings(stages)[skip_warnings(stages).len() - 1] == w);
    } else {
        assert(stages.drop_last()[i] == stages[i]);
        lemma_skip_warned(stages.drop_last(), i);
        let rest = skip_warnings(stages.drop_last());
        let k = choose|k: int| 0 <= k < rest.len() && rest[k] == w;
        if stages.last().kind == GateKind::Blocking && stages.last().status == StageStatus::Skipped {
            assert(skip_warnings(stages) == rest.push(skip_warning(stages.last())));
            assert(skip_warnings(stages)[k] == w);
        } else {
            assert(skip_warnings(stages) == rest);
        }
    }
}

/// Missing tools are loud: every blocking stage that was skipped leaves a warning naming it
/// and the reason in the finished report.
pub proof fn law_skipped_blocking_stages_warn(target: Seq<char>, stages: Seq<StageReportView>, empty: bool, i: int)
    requires
        0 <= i < stages.len(),
        stages[i].kind == GateKind::Blocking,
        stages[i].status == StageStatus::Skipped,
    ensures
        finished_report(target, stages, empty).warnings.contains(skip_warning(stages[i])),
{
    lemma_skip_warned(stages, i);
    let head: Seq<Seq<char>> = if empty { seq![EMPTY_PIPELINE_WARNING@] } else { Seq::empty() };
    let rest = skip_warnings(stages);
    let k = choose|k: int| 0 <= k < rest.len() && rest[k] == skip_warning(stages[i]);
    assert((head + rest)[head.len() + k] == skip_warning(stages[i]));
}

proof fn lemma_one_failure_counts(stages: Seq<StageReportView>, i: int)
    requires
        0 <= i < stages.len(),
        is_blocking_failure(stages[i]),
    ensures
        count_blocking_failures(stages) > 0,
    decreases stages.len(),
{
    if i < stages.len() - 1 {
        assert(stages.drop_last()[i] == stages[i]);
        lemma_one_failure_counts(stages.drop_last(), i);
    }
}

proof fn lemma_advisory_only_counts_none(stages: Seq<StageReportView>)
    requires
        forall|j: int| 0 <= j < stages.len() ==> (#[trigger] stages[j]).kind == GateKind::Advisory,
    ensures
        count_blocking_failures(stages) == 0,
    decreases stages.len(),
{
    if stages.len() > 0 {
        assert forall|j: int| 0 <= j < stages.drop_last().len() implies (#[trigger] stages.drop_last()[j]).kind
            == GateKind::Advisory by {
            assert(stages.drop_last()[j] == stages[j]);
        }
        lemma_advisory_only_counts_none(stages.drop_last());
    }
}

/// What each stage gave decides the run: a stage that fails with an error is reported as a
/// failure with one new error frame, and fails the run when the stage is blocking; a blocking
/// stage whose outcome failed with a new diagnostic fails the run; and a run whose stages are
/// all advisory passes, whatever they found.
pub proof fn law_stage_results_decide_the_run(
    target: Seq<char>,
    ids: Seq<&'static str>,
    kinds: Seq<GateKind>,
    durations: Seq<u64>,
    results: Seq<Result<StageOutcome, GateError>>,
    empty: bool,
    i: int,
)
    requires
        0 <= i < results.len(),
        ids.len() == results.len() && kinds.len() == results.len() && durations.len() == results.len(),
    ensures
        results[i] is Err ==> stage_reports(ids, kinds, durations, results)[i].status == StageStatus::Failed
            && stage_reports(ids, kinds, durations, results)[i].diagnostics.len() == 1
            && stage_reports(ids, kinds, durations, results)[i].diagnostics[0].is_new
            && stage_reports(ids, kinds, durations, results)[i].diagnostics[0].severity == Severity::Error,
        results[i] is Err && kinds[i] == GateKind::Blocking
            ==> !finished_report(target, stage_reports(ids, kinds, durations, results), empty).passed,
        (results[i] matches Ok(o) && o.status == StageStatus::Failed && kinds[i] == GateKind::Blocking
            && count_new(diagnostics_view(o.diagnostics@)) > 0)
            ==> !finished_report(target, stage_reports(ids, kinds, durations, results), empty).passed,
        (forall|j: int| 0 <= j < kinds.len() ==> #[trigger] kinds[j] == GateKind::Advisory)
            ==> finished_report(target, stage_reports(ids, kinds, durations, results), empty).passed,
{
    let reports = stage_reports(ids, kinds, durations, results);
    let r = reports[i];
    if results[i] is Err {
        assert(r.diagnostics.drop_last() =~= Seq::<DiagnosticView>::empty());
        assert(count_new(r.diagnostics.drop_last()) == 0);
        assert(count_new(r.diagnostics) == 1);
        if kinds[i] == GateKind::Blocking {
            assert(is_blocking_failure(r));
            lemma_one_failure_counts(reports, i);
        }
    }
    match results[i] {
        Ok(o) => {
            if o.status == StageStatus::Failed && kinds[i] == GateKind::Blocking && count_new(diagnostics_view(o.diagnostics@)) > 0 {
                assert(is_blocking_failure(r));
                lemma_one_failure_counts(reports, i);
            }
        },
        Err(_) => {},
    }
    if forall|j: int| 0 <= j < kinds.len() ==> #[trigger] kinds[j] == GateKind::Advisory {
        assert forall|j: int| 0 <= j < reports.len() implies (#[trigger] reports[j]).kind == GateKind::Advisory by {
            assert(kinds[j] == GateKind::Advisory);
        }
        lemma_advisory_only_counts_none(reports);
    }
}

} // verus!
