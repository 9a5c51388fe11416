//! Improvement Proposals: deterministic generation, comparison and the
//! evidence bookkeeping behind them.

use vstd::prelude::*;
use crate::error::RivoraError;
use crate::ids::{fresh_object_id, InvestigationId, ObjectId};
use crate::text::{chars_of, to_string, trim_chars, trimmed};
use crate::model::{Confidence, Provenance};
use crate::vocab::{EvidenceScope, ProposalCategory, ProposalEffort, ProposalGenerationMethod, ProposalPriority, ProposalStatus, Severity};

verus! {

/// A reference to evidence with its temporal scope.
#[derive(Clone, Copy, PartialEq, Eq, Debug, Structural)]
pub struct EvidenceReference {
    pub object_id: ObjectId,
    pub scope: EvidenceScope,
}

/// A risk of a Proposal.
pub struct ProposalRisk {
    pub description: String,
    pub severity: Severity,
    pub mitigation: String,
}

/// A summarized alternative to a Proposal.
pub struct ProposalAlternative {
    pub title: String,
    pub expected_benefit: String,
    pub effort: ProposalEffort,
    pub implementation_risk: String,
    pub verification_complexity: String,
    pub reversibility: String,
    pub architectural_fit: String,
    pub evidence_strength: String,
    pub drawbacks: Vec<String>,
}

/// The proposed (never executed) verification plan of a Proposal.
pub struct ProposalVerificationPlan {
    pub claims: Vec<String>,
    pub preconditions: Vec<String>,
    pub tests: Vec<String>,
    pub checks: Vec<String>,
    pub manual_workflows: Vec<String>,
    pub expected_evidence: Vec<String>,
    pub success_criteria: Vec<String>,
    pub failure_criteria: Vec<String>,
    pub inconclusive_conditions: Vec<String>,
    pub recovery_checks: Vec<String>,
}

/// An immutable Improvement Proposal snapshot.
pub struct ImprovementProposal {
    pub id: ObjectId,
    pub investigation_id: InvestigationId,
    pub lineage_id: ObjectId,
    pub revision_number: u32,
    pub title: String,
    pub summary: String,
    pub rationale: String,
    pub category: ProposalCategory,
    pub priority: ProposalPriority,
    pub confidence: Confidence,
    pub status: ProposalStatus,
    pub generation_method: ProposalGenerationMethod,
    pub derivation_method: String,
    pub alternative_group_id: Option<ObjectId>,
    pub priority_explanation: String,
    pub expected_impact: String,
    pub affected_components: Vec<String>,
    pub supporting_evidence: Vec<EvidenceReference>,
    pub contradicting_evidence: Vec<EvidenceReference>,
    pub generation_inputs: Vec<EvidenceReference>,
    pub hypothesis_ids: Vec<ObjectId>,
    pub evaluation_ids: Vec<ObjectId>,
    pub verification_ids: Vec<ObjectId>,
    pub source_recommendation_ids: Vec<ObjectId>,
    pub related_investigation_ids: Vec<InvestigationId>,
    pub assumptions: Vec<String>,
    pub constraints: Vec<String>,
    pub risks: Vec<ProposalRisk>,
    pub alternatives: Vec<ProposalAlternative>,
    pub implementation_outline: Vec<String>,
    pub test_strategy: Vec<String>,
    pub verification_plan: ProposalVerificationPlan,
    pub success_criteria: Vec<String>,
    pub reversibility: String,
    pub estimated_effort: ProposalEffort,
    pub provenance: Provenance,
    pub created_at: i64,
}

impl ProposalVerificationPlan {
    /// A plan with nothing in it yet.
    pub fn empty() -> (p: ProposalVerificationPlan)
        ensures
            p.claims@.len() == 0,
            p.preconditions@.len() == 0,
            p.tests@.len() == 0,
            p.checks@.len() == 0,
            p.manual_workflows@.len() == 0,
            p.expected_evidence@.len() == 0,
            p.success_criteria@.len() == 0,
            p.failure_criteria@.len() == 0,
            p.inconclusive_conditions@.len() == 0,
            p.recovery_checks@.len() == 0,
    {
        ProposalVerificationPlan {
            claims: Vec::new(),
            preconditions: Vec::new(),
            tests: Vec::new(),
            checks: Vec::new(),
            manual_workflows: Vec::new(),
            expected_evidence: Vec::new(),
            success_criteria: Vec::new(),
            failure_criteria: Vec::new(),
            inconclusive_conditions: Vec::new(),
            recovery_checks: Vec::new(),
        }
    }
}

impl ImprovementProposal {
    /// A new Draft Proposal (first revision of a new lineage) with trimmed
    /// title, summary and rationale and nothing else filled in; the title
    /// and summary must not be blank.
    pub fn generated(
        investigation_id: InvestigationId,
        title: &str,
        summary: &str,
        rationale: &str,
        category: ProposalCategory,
        priority: ProposalPriority,
        confidence: Confidence,
        generation_method: ProposalGenerationMethod,
        provenance: Provenance,
    ) -> (res: Result<ImprovementProposal, RivoraError>)
        ensures
            trimmed(title@).len() == 0 || trimmed(summary@).len() == 0 <==> res is Err,
            res matches Err(e) ==> e is Validation,
            res matches Ok(p) ==> {
                &&& p.investigation_id == investigation_id
                &&& p.lineage_id == p.id
                &&& p.revision_number == 1
                &&& p.title@ == trimmed(title@)
                &&& p.summary@ == trimmed(summary@)
                &&& p.rationale@ == trimmed(rationale@)
                &&& p.category == category
                &&& p.priority == priority
                &&& p.confidence == confidence
                &&& p.status == ProposalStatus::Draft
                &&& p.generation_method == generation_method
                &&& p.supporting_evidence@.len() == 0
                &&& p.contradicting_evidence@.len() == 0
                &&& p.success_criteria@.len() == 0
                &&& p.verification_plan.success_criteria@.len() == 0
                &&& p.created_at == provenance.recorded_at
                &&& p.provenance == provenance
            },
    {
        let t = trim_chars(&chars_of(title));
        if t.len() == 0 {
            return Err(RivoraError::validation("proposal title is required"));
        }
        let s = trim_chars(&chars_of(summary));
        if s.len() == 0 {
            return Err(RivoraError::validation("proposal summary is required"));
        }
        let id = fresh_object_id();
        let created_at = provenance.recorded_at;
        Ok(ImprovementProposal {
            id,
            investigation_id,
            lineage_id: id,
            revision_number: 1,
            title: to_string(&t),
            summary: to_string(&s),
            rationale: to_string(&trim_chars(&chars_of(rationale))),
            category,
            priority,
            confidence,
            status: ProposalStatus::Draft,
            generation_method,
            derivation_method: String::new(),
            alternative_group_id: None,
            priority_explanation: String::new(),
            expected_impact: String::new(),
            affected_components: Vec::new(),
            supporting_evidence: Vec::new(),
            contradicting_evidence: Vec::new(),
            generation_inputs: Vec::new(),
            hypothesis_ids: Vec::new(),
            evaluation_ids: Vec::new(),
            verification_ids: Vec::new(),
            source_recommendation_ids: Vec::new(),
            related_investigation_ids: Vec::new(),
            assumptions: Vec::new(),
            constraints: Vec::new(),
            risks: Vec::new(),
            alternatives: Vec::new(),
            implementation_outline: Vec::new(),
            test_strategy: Vec::new(),
            verification_plan: ProposalVerificationPlan::empty(),
            success_criteria: Vec::new(),
            reversibility: String::new(),
            estimated_effort: ProposalEffort::Small,
            provenance,
            created_at,
        })
    }
}

} // verus!
