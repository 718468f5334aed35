use vstd::prelude::*;

use crate::diagnostic::GateKind;
use crate::report::{GateReport, StageStatus, StageReportView, GateReportView};
use crate::stages::util::{is_ts, is_ts_spec};

verus! {

/// Whether a gate run counts as evidence.
#[derive(Debug, Clone, Copy, PartialEq, Eq, Structural)]
pub enum Verification {
    Verified,
    Unverified,
    NotApplicable,
}

/// A run is verified when a blocking stage ran; when none ran it is not applicable if it
/// passed and no gateable file changed, and unverified otherwise.
pub open spec fn verification_of(report: GateReportView, files: Seq<String>) -> Verification {
    if exists|i: int|
        0 <= i < report.stages.len() && (#[trigger] report.stages[i]).kind == GateKind::Blocking
            && report.stages[i].status != StageStatus::Skipped {
        Verification::Verified
    } else if report.passed && (!(exists|j: int| 0 <= j < files.len() && is_ts_spec(#[trigger] files[j]@))
        || files.len() == 0) {
        Verification::NotApplicable
    } else {
        Verification::Unverified
    }
}

pub fn verification(report: &GateReport, changed_files: &Vec<String>) -> (r: Verification)
    ensures
        r == verification_of(report@, changed_files@),
{
    let mut i: usize = 0;
    while i < report.stages.len()
        invariant
            i <= report.stages.len(),
            forall|k: int|
                0 <= k < i ==> !((#[trigger] report@.stages[k]).kind == GateKind::Blocking
                    && report@.stages[k].status != StageStatus::Skipped),
        decreases report.stages.len() - i,
    {
        let stage = &report.stages[i];
        if stage.kind == GateKind::Blocking && stage.status != StageStatus::Skipped {
            assert(report@.stages[i as int].kind == GateKind::Blocking);
            return Verification::Verified;
        }
        i = i + 1;
    }
    let mut gateable = false;
    let mut j: usize = 0;
    while j < changed_files.len()
        invariant
            j <= changed_files.len(),
            gateable == exists|k: int| 0 <= k < j && is_ts_spec(#[trigger] changed_files@[k]@),
        decreases changed_files.len() - j,
    {
        if is_ts(changed_files[j].as_str()) {
            gateable = true;
        }
        j = j + 1;
    }
    if report.passed && (!gateable || changed_files.len() == 0) {
        Verification::NotApplicable
    } else {
        Verification::Unverified
    }
}

pub fn is_verified(report: &GateReport, changed_files: &Vec<String>) -> (r: bool)
    ensures
        r == (verification_of(report@, changed_files@) != Verification::Unverified),
{
    verification(report, changed_files) != Verification::Unverified
}

} // verus!
