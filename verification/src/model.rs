//! Engineering Objects as the library reasons about them.
//!
//! Timestamps are milliseconds since the Unix epoch; confidences and scores
//! are fixed-point fractions in thousandths (permille).

use vstd::prelude::*;
use crate::ids::{InvestigationId, ObjectId};
use crate::json::{json_string, json_text, JsonValue};
use crate::vocab::{AssessmentType, ConfirmationState, HypothesisStatus, InvestigationStatus, KnowledgeKind, ObservationKind, OutcomeDisposition, RecommendationStatus, RelationshipKind, Severity, VerificationResult};

verus! {

/// A confidence in `[0, 1]`, held in thousandths.
#[derive(Clone, Copy, PartialEq, Eq, Debug, Structural)]
pub struct Confidence {
    pub permille: u32,
}

impl Confidence {
    /// In range.
    pub open spec fn wf(self) -> bool {
        self.permille <= 1000
    }

    /// A confidence clamped to `[0, 1000]` thousandths.
    pub fn new(permille: u64) -> (c: Confidence)
        ensures
            c.wf(),
            c.permille == if permille > 1000 { 1000 } else { permille },
    {
        if permille > 1000 {
            Confidence { permille: 1000 }
        } else {
            Confidence { permille: permille as u32 }
        }
    }

    /// The value in thousandths.
    pub fn value(&self) -> (v: u32)
        ensures
            v == self.permille,
    {
        self.permille
    }
}

/// Who produced an Engineering Object, through which capability, citing
/// which evidence.
pub struct Provenance {
    pub actor: String,
    pub source: String,
    pub capability: Option<String>,
    pub evidence_ids: Vec<ObjectId>,
    pub recorded_at: i64,
}

impl Provenance {
    /// Provenance recorded at `recorded_at` (the current time, in
    /// milliseconds since the Unix epoch) for `actor` through `source`, with
    /// no capability and no cited evidence.
    pub fn now(actor: &str, source: &str, recorded_at: i64) -> (p: Provenance)
        ensures
            p.recorded_at == recorded_at,
            p.actor@ == actor@,
            p.source@ == source@,
            p.capability is None,
            p.evidence_ids@.len() == 0,
    {
        Provenance {
            actor: actor.to_owned(),
            source: source.to_owned(),
            capability: None,
            evidence_ids: Vec::new(),
            recorded_at,
        }
    }

    /// The same provenance, naming the capability used.
    pub fn with_capability(self, capability: &str) -> (p: Provenance)
        ensures
            p.actor == self.actor,
            p.source == self.source,
            p.capability is Some && p.capability->0@ == capability@,
            p.evidence_ids == self.evidence_ids,
            p.recorded_at == self.recorded_at,
    {
        Provenance { capability: Some(capability.to_owned()), ..self }
    }

    /// The same provenance, citing this evidence.
    pub fn with_evidence(self, evidence_ids: Vec<ObjectId>) -> (p: Provenance)
        ensures
            p.actor == self.actor,
            p.source == self.source,
            p.capability == self.capability,
            p.evidence_ids == evidence_ids,
            p.recorded_at == self.recorded_at,
    {
        Provenance { evidence_ids, ..self }
    }
}

/// A raw engineering fact collected from a connector or a person.
pub struct Observation {
    pub id: ObjectId,
    pub investigation_id: InvestigationId,
    pub kind: ObservationKind,
    pub summary: String,
    /// Structured payload.
    pub payload: JsonValue,
    /// The payload printed as compact JSON text.
    pub payload_text: String,
    /// Connector source name.
    pub source: String,
    pub observed_at: i64,
    pub idempotency_key: Option<String>,
}

impl Observation {
    /// The payload text is the payload printed as compact JSON.
    pub open spec fn payload_consistent(self) -> bool {
        self.payload_text@ == json_text(self.payload)
    }

    /// An Observation of `payload`, whose payload text is that payload
    /// printed as compact JSON.
    pub fn new(
        id: ObjectId,
        investigation_id: InvestigationId,
        kind: ObservationKind,
        summary: String,
        payload: JsonValue,
        source: String,
        observed_at: i64,
        idempotency_key: Option<String>,
    ) -> (o: Observation)
        ensures
            o.payload_consistent(),
            o.id == id,
            o.investigation_id == investigation_id,
            o.kind == kind,
            o.summary == summary,
            o.payload == payload,
            o.source == source,
            o.observed_at == observed_at,
            o.idempotency_key == idempotency_key,
    {
        let payload_text = json_string(&payload);
        Observation { id, investigation_id, kind, summary, payload, payload_text, source, observed_at, idempotency_key }
    }
}

/// An append-only Memory record derived from one Observation.
pub struct MemoryRecord {
    pub id: ObjectId,
    pub investigation_id: InvestigationId,
    /// The Observation the record was derived from.
    pub observation_id: ObjectId,
    pub summary: String,
    /// The earlier record this one corrects, when it is a correction.
    pub corrects: Option<ObjectId>,
    pub recorded_at: i64,
}

/// A derived Knowledge object.
pub struct KnowledgeObject {
    pub id: ObjectId,
    pub investigation_id: InvestigationId,
    pub kind: KnowledgeKind,
    pub summary: String,
    /// The Memory records the Knowledge was derived from.
    pub memory_ids: Vec<ObjectId>,
    pub confidence: Confidence,
    /// Derivation method.
    pub method: String,
    /// How the derivation works.
    pub explanation: String,
    pub provenance: Provenance,
}

/// Which recalled historical context influenced an Engineering Object
/// (labeled as historical, never as current fact).
pub struct HistoryNote {
    /// Whether recalled context influenced the object.
    pub influenced: bool,
    pub recalled_context_ids: Vec<ObjectId>,
    pub source_investigation_ids: Vec<InvestigationId>,
    /// Warnings from prior outcomes (unsuccessful or rejected).
    pub warnings: Vec<String>,
    /// Successes from prior outcomes.
    pub successes: Vec<String>,
}

impl HistoryNote {
    /// No historical influence.
    pub fn none() -> (h: HistoryNote)
        ensures
            !h.influenced,
            h.recalled_context_ids@.len() == 0,
            h.source_investigation_ids@.len() == 0,
            h.warnings@.len() == 0,
            h.successes@.len() == 0,
    {
        HistoryNote {
            influenced: false,
            recalled_context_ids: Vec::new(),
            source_investigation_ids: Vec::new(),
            warnings: Vec::new(),
            successes: Vec::new(),
        }
    }
}

/// An Evaluation of the current understanding.
pub struct Evaluation {
    pub id: ObjectId,
    pub investigation_id: InvestigationId,
    pub assessment_type: AssessmentType,
    pub summary: String,
    pub severity: Severity,
    pub confidence: Confidence,
    pub knowledge_ids: Vec<ObjectId>,
    /// The Memory records the Evaluation cites.
    pub memory_ids: Vec<ObjectId>,
    pub explanation: String,
    pub provenance: Provenance,
    /// Historical influence annotations.
    pub history: HistoryNote,
}

/// A Verification Receipt.
pub struct VerificationReceipt {
    pub id: ObjectId,
    pub investigation_id: InvestigationId,
    /// The Evaluation verified.
    pub evaluation_id: ObjectId,
    /// The claim verified (the Evaluation's summary).
    pub claim: String,
    pub result: VerificationResult,
    pub confidence: Confidence,
    pub evidence_ids: Vec<ObjectId>,
    pub conflicting_ids: Vec<ObjectId>,
    pub reason: String,
    pub provenance: Provenance,
}

/// A Recommendation: a proposal, never applied automatically.
pub struct Recommendation {
    pub id: ObjectId,
    pub investigation_id: InvestigationId,
    pub summary: String,
    pub rationale: String,
    /// Review status; a new Recommendation is only proposed.
    pub status: RecommendationStatus,
    pub evaluation_ids: Vec<ObjectId>,
    pub verification_ids: Vec<ObjectId>,
    pub confidence: Confidence,
    pub provenance: Provenance,
    /// Historical influence annotations.
    pub history: HistoryNote,
}

/// A Learning Outcome recorded against a Recommendation.
pub struct LearningOutcome {
    pub id: ObjectId,
    pub disposition: OutcomeDisposition,
    pub recommendation_id: Option<ObjectId>,
    pub notes: String,
    pub observed_at: i64,
}

/// An Investigation.
pub struct Investigation {
    pub id: InvestigationId,
    pub title: String,
    pub description: Option<String>,
    pub status: InvestigationStatus,
    pub created_at: i64,
    pub updated_at: i64,
}

/// A ranked, explainable Hypothesis about an Investigation.
pub struct Hypothesis {
    pub id: ObjectId,
    pub investigation_id: InvestigationId,
    pub statement: String,
    pub status: HypothesisStatus,
    pub confidence: Confidence,
    pub supporting_evidence: Vec<ObjectId>,
    pub contradicting_evidence: Vec<ObjectId>,
    pub related_investigations: Vec<InvestigationId>,
    pub method: String,
    pub verification_summary: String,
    pub rank: u32,
    pub provenance: Provenance,
}

/// The durable Engineering Object context of one Investigation.
pub struct ContextBundle {
    pub observations: Vec<Observation>,
    pub memory: Vec<MemoryRecord>,
    pub knowledge: Vec<KnowledgeObject>,
    pub evaluations: Vec<Evaluation>,
    pub verifications: Vec<VerificationReceipt>,
    pub recommendations: Vec<Recommendation>,
    pub learning: Vec<LearningOutcome>,
}

/// One evidence item of a relationship.
pub struct RelationshipEvidence {
    pub description: String,
    pub object_ids: Vec<ObjectId>,
}

/// Human confirmation of a relationship.
pub struct RelationshipConfirmation {
    pub state: ConfirmationState,
    pub actor: Option<String>,
    pub at: Option<i64>,
}

/// A stored relationship between two Investigations.
pub struct InvestigationRelationship {
    pub id: ObjectId,
    pub kind: RelationshipKind,
    pub source_investigation_id: InvestigationId,
    pub target_investigation_id: InvestigationId,
    pub confidence: Confidence,
    pub evidence: Vec<RelationshipEvidence>,
    pub method: String,
    pub explanation: String,
    pub confirmation: RelationshipConfirmation,
    pub created_at: i64,
    /// Stable identity of a derived relationship: its kind and shared keys.
    pub identity_key: String,
}

impl InvestigationRelationship {
    /// The relationship has `id` on one of its ends.
    pub open spec fn touches_spec(self, id: InvestigationId) -> bool {
        self.source_investigation_id == id || self.target_investigation_id == id
    }

    /// Whether the relationship has `id` on one of its ends.
    pub fn touches(&self, id: InvestigationId) -> (b: bool)
        ensures
            b == self.touches_spec(id),
    {
        self.source_investigation_id == id || self.target_investigation_id == id
    }

    /// The end opposite `id`, when the relationship touches it.
    pub fn other_end(&self, id: InvestigationId) -> (r: Option<InvestigationId>)
        ensures
            r == if self.source_investigation_id == id {
                Some(self.target_investigation_id)
            } else if self.target_investigation_id == id {
                Some(self.source_investigation_id)
            } else {
                None
            },
    {
        if self.source_investigation_id == id {
            Some(self.target_investigation_id)
        } else if self.target_investigation_id == id {
            Some(self.source_investigation_id)
        } else {
            None
        }
    }
}

} // verus!
