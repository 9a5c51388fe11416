//! The Investigation lifecycle: Created, Collecting, Understanding,
//! Evaluating, Verifying, Recommending, Learning, Completed.

use vstd::prelude::*;
use crate::error::RivoraError;
use crate::ids::ObjectId;
use crate::model::Recommendation;
use crate::vocab::{InvestigationStatus, OutcomeDisposition, RecommendationStatus};

verus! {

/// Position of a status along the lifecycle, from 0.
pub open spec fn status_rank(s: InvestigationStatus) -> nat {
    match s {
        InvestigationStatus::Created => 0,
        InvestigationStatus::Collecting => 1,
        InvestigationStatus::Understanding => 2,
        InvestigationStatus::Evaluating => 3,
        InvestigationStatus::Verifying => 4,
        InvestigationStatus::Recommending => 5,
        InvestigationStatus::Learning => 6,
        InvestigationStatus::Completed => 7,
    }
}

/// The later of two statuses along the lifecycle.
pub open spec fn later_status(a: InvestigationStatus, b: InvestigationStatus) -> InvestigationStatus {
    if status_rank(a) >= status_rank(b) { a } else { b }
}

/// Position of a status along the lifecycle.
pub fn rank_of(s: InvestigationStatus) -> (r: u8)
    ensures
        r == status_rank(s),
{
    match s {
        InvestigationStatus::Created => 0,
        InvestigationStatus::Collecting => 1,
        InvestigationStatus::Understanding => 2,
        InvestigationStatus::Evaluating => 3,
        InvestigationStatus::Verifying => 4,
        InvestigationStatus::Recommending => 5,
        InvestigationStatus::Learning => 6,
        InvestigationStatus::Completed => 7,
    }
}

/// Advances an Investigation at least to `target`, one lifecycle step at a
/// time; a status already past it is kept. A completed Investigation must be
/// reopened first.
pub fn ensure_status_at_least(current: InvestigationStatus, target: InvestigationStatus) -> (r: Result<InvestigationStatus, RivoraError>)
    ensures
        current == InvestigationStatus::Completed <==> r is Err,
        r matches Err(e) ==> e matches RivoraError::OperationNotAllowed { message } && message@
            == "investigation is completed; reopen before continuing"@,
        r matches Ok(s) ==> s == later_status(current, target),
{
    if current == InvestigationStatus::Completed {
        return Err(RivoraError::not_allowed("investigation is completed; reopen before continuing"));
    }
    if rank_of(current) >= rank_of(target) {
        Ok(current)
    } else {
        Ok(target)
    }
}

/// Completes an Investigation; only one in Learning can be completed.
pub fn complete_status(current: InvestigationStatus) -> (r: Result<InvestigationStatus, RivoraError>)
    ensures
        current == InvestigationStatus::Learning <==> r is Ok,
        r matches Ok(s) ==> s == InvestigationStatus::Completed,
        r matches Err(e) ==> e matches RivoraError::OperationNotAllowed { message } && message@ == "complete requires Learning status"@,
{
    if current != InvestigationStatus::Learning {
        return Err(RivoraError::not_allowed("complete requires Learning status"));
    }
    Ok(InvestigationStatus::Completed)
}

/// Reopens a completed Investigation into Collecting.
pub fn reopen_status(current: InvestigationStatus) -> (r: Result<InvestigationStatus, RivoraError>)
    ensures
        current == InvestigationStatus::Completed <==> r is Ok,
        r matches Ok(s) ==> s == InvestigationStatus::Collecting,
        r matches Err(e) ==> e matches RivoraError::OperationNotAllowed { message } && message@
            == "only completed investigations can be reopened"@,
{
    if current != InvestigationStatus::Completed {
        return Err(RivoraError::not_allowed("only completed investigations can be reopened"));
    }
    Ok(InvestigationStatus::Collecting)
}

/// The status of an Investigation once an Observation is ingested into it:
/// a completed Investigation refuses new evidence, and the first Observation
/// moves a created one to Collecting.
pub fn status_for_observation(current: InvestigationStatus) -> (r: Result<InvestigationStatus, RivoraError>)
    ensures
        current == InvestigationStatus::Completed <==> r is Err,
        r matches Err(e) ==> e matches RivoraError::OperationNotAllowed { message } && message@
            == "cannot ingest into completed investigation; reopen first"@,
        r matches Ok(s) ==> s == if current == InvestigationStatus::Created { InvestigationStatus::Collecting } else { current },
{
    if current == InvestigationStatus::Completed {
        return Err(RivoraError::not_allowed("cannot ingest into completed investigation; reopen first"));
    }
    if current == InvestigationStatus::Created {
        Ok(InvestigationStatus::Collecting)
    } else {
        Ok(current)
    }
}

/// Collecting through Recommending: the statuses an outcome advances to Learning.
pub open spec fn advances_to_learning(s: InvestigationStatus) -> bool {
    s == InvestigationStatus::Collecting || s == InvestigationStatus::Understanding || s == InvestigationStatus::Evaluating
        || s == InvestigationStatus::Verifying || s == InvestigationStatus::Recommending
}

/// The status of an Investigation once an outcome is recorded on it.
///
/// A completed Investigation refuses outcomes; one outside Learning with no
/// Recommendation refuses an outcome that names one. Collecting through
/// Recommending advance to Learning; Created and Learning stay as they are.
pub fn status_for_outcome(
    current: InvestigationStatus,
    has_recommendations: bool,
    recommendation_id: Option<ObjectId>,
) -> (r: Result<InvestigationStatus, RivoraError>)
    ensures
        r is Err <==> (current == InvestigationStatus::Completed || (current != InvestigationStatus::Learning && !has_recommendations
            && recommendation_id is Some)),
        current == InvestigationStatus::Completed ==> (r matches Err(RivoraError::OperationNotAllowed { message }) && message@
            == "cannot record outcome on completed investigation; reopen first"@),
        current != InvestigationStatus::Completed && r is Err ==> (r matches Err(RivoraError::Precondition { message }) && message@
            == "recommendation not found for learning"@),
        r matches Ok(s) ==> s == if advances_to_learning(current) { InvestigationStatus::Learning } else { current },
{
    if current == InvestigationStatus::Completed {
        return Err(RivoraError::not_allowed("cannot record outcome on completed investigation; reopen first"));
    }
    if current != InvestigationStatus::Learning && !has_recommendations && recommendation_id.is_some() {
        return Err(RivoraError::precondition("recommendation not found for learning"));
    }
    match current {
        InvestigationStatus::Collecting | InvestigationStatus::Understanding | InvestigationStatus::Evaluating
        | InvestigationStatus::Verifying | InvestigationStatus::Recommending => Ok(InvestigationStatus::Learning),
        _ => Ok(current),
    }
}

/// The review status an outcome gives its Recommendation: accepted for an
/// accepted, successful or unsuccessful outcome; rejected or ignored as the
/// outcome says.
pub open spec fn status_after_outcome(d: OutcomeDisposition) -> RecommendationStatus {
    match d {
        OutcomeDisposition::Accepted | OutcomeDisposition::Successful | OutcomeDisposition::Unsuccessful => RecommendationStatus::Accepted,
        OutcomeDisposition::Rejected => RecommendationStatus::Rejected,
        OutcomeDisposition::Ignored => RecommendationStatus::Ignored,
    }
}

/// Records an outcome's disposition on its Recommendation: only the review
/// status changes.
pub fn apply_outcome_to_recommendation(recommendation: &mut Recommendation, disposition: OutcomeDisposition)
    ensures
        *final(recommendation) == (Recommendation { status: status_after_outcome(disposition), ..*old(recommendation) }),
{
    recommendation.status = match disposition {
        OutcomeDisposition::Accepted | OutcomeDisposition::Successful | OutcomeDisposition::Unsuccessful => RecommendationStatus::Accepted,
        OutcomeDisposition::Rejected => RecommendationStatus::Rejected,
        OutcomeDisposition::Ignored => RecommendationStatus::Ignored,
    };
}

/// Advancing is idempotent, and never moves an Investigation backwards.
pub proof fn lemma_ensure_status_idempotent(current: InvestigationStatus, target: InvestigationStatus)
    requires
        current != InvestigationStatus::Completed,
    ensures
        status_rank(later_status(current, target)) >= status_rank(current),
        status_rank(later_status(current, target)) >= status_rank(target),
        later_status(later_status(current, target), target) == later_status(current, target),
{
}

} // verus!
