//! The lifecycle decisions of Measured Learning Outcomes: creating one for
//! an implemented Proposal, and the status an evaluation leaves it in.

use vstd::prelude::*;
use crate::error::RivoraError;
use crate::ids::{InvestigationId, ObjectId};
use crate::model::Provenance;
use crate::outcome::{proposal_criteria, seed_criteria, seed_expected_results, seeded_from, ImplementationRecord, MeasuredLearningOutcome};
use crate::proposal::ImprovementProposal;
use crate::text::{chars_of, to_string, trim_chars, trimmed};
use crate::vocab::{ImplementationStatus, MeasuredOutcomeStatus, OutcomeClassification};

verus! {

/// Why a Measured Learning Outcome cannot be created, if it cannot: a blank
/// actor, an implementation of another Investigation or Proposal lineage, a
/// withdrawn or superseded implementation, or no criteria to seed from.
pub open spec fn creation_refusal(
    investigation_id: InvestigationId,
    proposal: ImprovementProposal,
    implementation: ImplementationRecord,
    actor: Seq<char>,
) -> Option<Seq<char>> {
    if trimmed(actor).len() == 0 {
        Some("measured outcome creator actor is required"@)
    } else if implementation.investigation_id != investigation_id {
        Some("implementation record does not belong to the Investigation"@)
    } else if implementation.proposal_lineage_id != proposal.lineage_id {
        Some("implementation record is not linked to the same Proposal lineage"@)
    } else if implementation.status == ImplementationStatus::Withdrawn || implementation.status == ImplementationStatus::Superseded {
        Some("cannot create outcome for withdrawn or superseded implementation"@)
    } else if seed_criteria(proposal_criteria(proposal)).len() == 0 {
        Some("proposal has no success criteria or verification plan success criteria to seed expected results"@)
    } else {
        None
    }
}

/// Creates the Draft Measured Learning Outcome of an implemented Proposal,
/// its expected results seeded from the Proposal's success criteria.
pub fn create_measured_learning_outcome(
    investigation_id: InvestigationId,
    proposal: &ImprovementProposal,
    implementation: &ImplementationRecord,
    actor: &str,
    now: i64,
) -> (r: Result<MeasuredLearningOutcome, RivoraError>)
    ensures
        creation_refusal(investigation_id, *proposal, *implementation, actor@) is Some <==> r is Err,
        r matches Err(e) ==> e matches RivoraError::Validation { message } && message@ == creation_refusal(
            investigation_id,
            *proposal,
            *implementation,
            actor@,
        )->0,
        r matches Ok(o) ==> {
            let criteria = seed_criteria(proposal_criteria(*proposal));
            &&& o.lineage_id == o.id
            &&& o.revision_number == 1
            &&& o.investigation_id == investigation_id
            &&& o.proposal_id == proposal.id
            &&& o.proposal_lineage_id == proposal.lineage_id
            &&& o.proposal_revision == proposal.revision_number
            &&& o.implementation_record_id == implementation.id
            &&& o.implementation_lineage_id == implementation.lineage_id
            &&& o.status == MeasuredOutcomeStatus::Draft
            &&& o.classification == OutcomeClassification::Pending
            &&& o.expected_results@.len() == criteria.len()
            &&& forall|i: int| 0 <= i < criteria.len() ==> seeded_from(#[trigger] o.expected_results@[i], criteria[i])
            &&& o.evidence_links@.len() == 0
            &&& o.provenance.actor@ == trimmed(actor@)
            &&& o.provenance.capability is Some && o.provenance.capability->0@ == "create_measured_learning_outcome"@
            &&& o.provenance.evidence_ids@ == seq![proposal.id, implementation.id]
        },
{
    let who = trim_chars(&chars_of(actor));
    if who.len() == 0 {
        return Err(RivoraError::validation("measured outcome creator actor is required"));
    }
    if implementation.investigation_id != investigation_id {
        return Err(RivoraError::validation("implementation record does not belong to the Investigation"));
    }
    if implementation.proposal_lineage_id != proposal.lineage_id {
        return Err(RivoraError::validation("implementation record is not linked to the same Proposal lineage"));
    }
    if implementation.status == ImplementationStatus::Withdrawn || implementation.status == ImplementationStatus::Superseded {
        return Err(RivoraError::validation("cannot create outcome for withdrawn or superseded implementation"));
    }
    let expected = seed_expected_results(proposal);
    if expected.len() == 0 {
        return Err(
            RivoraError::validation("proposal has no success criteria or verification plan success criteria to seed expected results"),
        );
    }
    let ghost seeded = expected@;
    let name = to_string(&who);
    let mut evidence: Vec<ObjectId> = Vec::new();
    evidence.push(proposal.id);
    evidence.push(implementation.id);
    let provenance = Provenance::now(name.as_str(), "runtime", now).with_capability("create_measured_learning_outcome").with_evidence(evidence);
    MeasuredLearningOutcome::draft(
        investigation_id,
        proposal.id,
        proposal.lineage_id,
        proposal.revision_number,
        implementation.id,
        implementation.lineage_id,
        expected,
        provenance,
    )
}

/// The status a deterministic evaluation leaves an outcome in: still under
/// evaluation while blockers remain, evaluated otherwise. Verified,
/// archived, withdrawn and superseded outcomes cannot be evaluated.
pub fn status_after_evaluation(current: MeasuredOutcomeStatus, blocked: bool) -> (r: Result<MeasuredOutcomeStatus, RivoraError>)
    ensures
        (current == MeasuredOutcomeStatus::Verified || current == MeasuredOutcomeStatus::Archived || current
            == MeasuredOutcomeStatus::Withdrawn || current == MeasuredOutcomeStatus::Superseded) <==> r is Err,
        r matches Err(e) ==> e matches RivoraError::Validation { message } && message@ == "cannot evaluate measured outcome in status "@
            + current.text(),
        r matches Ok(s) ==> s == if blocked { MeasuredOutcomeStatus::UnderEvaluation } else { MeasuredOutcomeStatus::Evaluated },
{
    match current {
        MeasuredOutcomeStatus::Verified | MeasuredOutcomeStatus::Archived | MeasuredOutcomeStatus::Withdrawn
        | MeasuredOutcomeStatus::Superseded => {
            let mut t: Vec<char> = Vec::new();
            crate::text::push_str(&mut t, "cannot evaluate measured outcome in status ");
            crate::text::push_str(&mut t, current.as_str());
            let message = to_string(&t);
            Err(RivoraError::Validation { message })
        },
        _ => if blocked {
            Ok(MeasuredOutcomeStatus::UnderEvaluation)
        } else {
            Ok(MeasuredOutcomeStatus::Evaluated)
        },
    }
}

} // verus!
