//! Requests and results exchanged with callers of the Runtime.

use vstd::prelude::*;
use crate::ids::{InvestigationId, ObjectId};
use crate::model::{Confidence, InvestigationRelationship, Investigation, MemoryRecord, Observation};
use crate::vocab::{CausalLanguage, MeasuredOutcomeStatus, OutcomeClassification, OutcomeDisposition, OutcomeEvidenceRelation, ProposalCategory, ProposalPriority};

verus! {

/// Result of observation ingestion.
pub struct IngestObservationResult {
    /// The Observation (new, or the existing one on an idempotent replay).
    pub observation: Observation,
    /// The Memory record created (or the existing one).
    pub memory: MemoryRecord,
    /// Whether this was an idempotent replay.
    pub idempotent_replay: bool,
}

/// Request to record an observed outcome of a Recommendation.
pub struct RecordOutcomeRequest {
    pub investigation_id: InvestigationId,
    pub recommendation_id: Option<ObjectId>,
    pub disposition: OutcomeDisposition,
    pub notes: String,
    pub impact: Option<String>,
    pub actor: String,
}

/// Request to collect evidence on a Measured Learning Outcome.
pub struct CollectOutcomeEvidenceRequest {
    pub object_id: ObjectId,
    pub relation: OutcomeEvidenceRelation,
    pub expected_result_id: Option<ObjectId>,
    /// Required (non-empty) for dismissal.
    pub reason: Option<String>,
}

/// An observed result summary attached to a Measured Learning Outcome.
pub struct ObservedResultSummary {
    pub expected_result_id: Option<ObjectId>,
    pub summary: String,
}

/// Content revision request for a Measured Learning Outcome.
pub struct ReviseMeasuredOutcomeRequest {
    pub observed_results: Option<Vec<ObservedResultSummary>>,
    pub unresolved_questions: Option<Vec<String>>,
    pub recommended_follow_up: Option<Vec<String>>,
    pub causal_language: Option<CausalLanguage>,
}

/// Trace from Proposal through Implementation to Measured Learning Outcome.
pub struct MeasuredOutcomeTrace {
    pub investigation_id: InvestigationId,
    pub proposal_id: ObjectId,
    pub implementation_record_id: ObjectId,
    pub outcome_id: ObjectId,
    pub classification: OutcomeClassification,
    pub status: MeasuredOutcomeStatus,
    pub explanation: String,
}

/// Explicit caller request to create a concrete Proposal.
pub struct CreateProposalRequest {
    pub title: String,
    pub summary: String,
    pub rationale: String,
    pub category: ProposalCategory,
    pub priority: ProposalPriority,
    pub confidence: Confidence,
}

/// Explicit content changes for a preserved Proposal revision.
pub struct RefineProposalRequest {
    pub title: Option<String>,
    pub summary: Option<String>,
    pub rationale: Option<String>,
    pub affected_components: Option<Vec<String>>,
    pub test_strategy: Option<Vec<String>>,
}

/// A relationship plus the fully loaded Investigation on the other side.
pub struct RelatedInvestigation {
    pub relationship: InvestigationRelationship,
    pub related: Investigation,
}

/// A relationship plus a human-readable explanation of why it exists.
pub struct RelationshipExplanation {
    pub relationship: InvestigationRelationship,
    pub explanation: String,
}

} // verus!
