//! Correction Pipeline decisions: what to do about an untrustworthy
//! document, and what each attempt's outcome means downstream.
//!
//! The outside work itself (probing the scratch area, running the OCR tool)
//! stays with the caller, which feeds the observed facts in as plain values.

use vstd::prelude::*;

verus! {

/// The action to take for a document that failed quality triage.
#[derive(Clone, Copy, PartialEq, Eq, Structural, Debug)]
pub enum CorrectionAction {
    UseExisting,
    RunOcr,
    Skip,
}

/// Terminal classification of one document's correction attempt.
#[derive(Clone, Copy, PartialEq, Eq, Structural, Debug)]
pub enum CorrectionOutcome {
    AlreadyCorrected,
    Corrected,
    Failed,
    Skipped,
}

/// Decides the correction step: an existing corrected artifact is reused
/// without invoking the OCR collaborator again; otherwise OCR runs once,
/// unless correction is disabled.
pub fn plan_correction(artifact_exists: bool, ocr_enabled: bool) -> (r: CorrectionAction)
    ensures
        artifact_exists ==> r == CorrectionAction::UseExisting,
        !artifact_exists && ocr_enabled ==> r == CorrectionAction::RunOcr,
        !artifact_exists && !ocr_enabled ==> r == CorrectionAction::Skip,
{
    if artifact_exists {
        CorrectionAction::UseExisting
    } else if ocr_enabled {
        CorrectionAction::RunOcr
    } else {
        CorrectionAction::Skip
    }
}

/// Classifies the attempt once the planned action ran; `ocr_succeeded` is
/// the collaborator's success signal and is read only when OCR was run.
pub fn correction_outcome(artifact_exists: bool, ocr_enabled: bool, ocr_succeeded: bool) -> (r:
    CorrectionOutcome)
    ensures
        artifact_exists ==> r == CorrectionOutcome::AlreadyCorrected,
        !artifact_exists && ocr_enabled && ocr_succeeded ==> r == CorrectionOutcome::Corrected,
        !artifact_exists && ocr_enabled && !ocr_succeeded ==> r == CorrectionOutcome::Failed,
        !artifact_exists && !ocr_enabled ==> r == CorrectionOutcome::Skipped,
{
    if artifact_exists {
        CorrectionOutcome::AlreadyCorrected
    } else if !ocr_enabled {
        CorrectionOutcome::Skipped
    } else if ocr_succeeded {
        CorrectionOutcome::Corrected
    } else {
        CorrectionOutcome::Failed
    }
}

/// Whether the corrected artifact is what downstream parsing reads; on a
/// failed or skipped attempt the original document is the best-effort
/// fallback.
pub fn corrected_artifact_used(r: CorrectionOutcome) -> (b: bool)
    ensures
        b == (r == CorrectionOutcome::AlreadyCorrected || r == CorrectionOutcome::Corrected),
{
    match r {
        CorrectionOutcome::AlreadyCorrected => true,
        CorrectionOutcome::Corrected => true,
        CorrectionOutcome::Failed => false,
        CorrectionOutcome::Skipped => false,
    }
}

} // verus!
