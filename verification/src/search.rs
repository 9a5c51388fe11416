//! Search and recall across Investigations: deterministic, explainable
//! ranking factors.

use vstd::prelude::*;
use crate::graph::{fixed2, push_fixed2};
use crate::ids::{InvestigationId, ObjectId};
use crate::model::{ContextBundle, Investigation, InvestigationRelationship, LearningOutcome, RelationshipEvidence};
use crate::text::{push_chars, push_str, to_string};
use crate::vocab::{InvestigationStatus, OutcomeDisposition, RelationshipKind, VerificationResult};

verus! {

/// Exact Investigation id match weight (thousandths; short-circuits ranking).
pub const WEIGHT_EXACT_ID: u32 = 1000;
/// Explicit relationship to the context Investigation.
pub const WEIGHT_EXPLICIT_RELATIONSHIP: u32 = 900;
/// Shared commit, pull request or file path.
pub const WEIGHT_SHARED_ARTIFACT: u32 = 600;
/// Matching failure signature.
pub const WEIGHT_FAILURE_SIGNATURE: u32 = 550;
/// Shared repository.
pub const WEIGHT_SHARED_REPOSITORY: u32 = 500;
/// Derived relationship to the context Investigation.
pub const WEIGHT_DERIVED_RELATIONSHIP: u32 = 450;
/// Learning Outcome disposition match.
pub const WEIGHT_OUTCOME_MATCH: u32 = 400;
/// Knowledge overlap maximum (scaled by kind-set jaccard).
pub const WEIGHT_KNOWLEDGE_OVERLAP: u32 = 350;
/// Text token overlap maximum (scaled by token coverage).
pub const WEIGHT_TEXT_OVERLAP: u32 = 350;
/// Semantic similarity maximum (scaled by cosine).
pub const WEIGHT_SEMANTIC_SIMILARITY: u32 = 300;
/// Evaluation category overlap.
pub const WEIGHT_EVALUATION_OVERLAP: u32 = 250;
/// Verification result overlap.
pub const WEIGHT_VERIFICATION_OVERLAP: u32 = 200;
/// Recency maximum (dataset-relative).
pub const WEIGHT_RECENCY: u32 = 100;
/// A structured filter that passed.
pub const WEIGHT_FILTER_MATCH: u32 = 100;
/// Minimum cosine (thousandths) for the semantic factor to fire.
pub const SEMANTIC_MIN_SIMILARITY: u32 = 150;

/// One ranking factor that fired for a search result.
#[derive(Clone, Copy, PartialEq, Eq, Debug, Structural)]
pub enum RankingFactor {
    ExactId,
    ExplicitRelationship,
    DerivedRelationship,
    SharedArtifact,
    FailureSignatureMatch,
    SharedRepository,
    OutcomeMatch,
    KnowledgeOverlap,
    TextOverlap,
    SemanticSimilarity,
    EvaluationOverlap,
    VerificationOverlap,
    FilterMatch,
    Recency,
}

impl RankingFactor {
    /// Stable string form.
    pub open spec fn text(self) -> Seq<char> {
        match self {
            RankingFactor::ExactId => "exact_id"@,
            RankingFactor::ExplicitRelationship => "explicit_relationship"@,
            RankingFactor::DerivedRelationship => "derived_relationship"@,
            RankingFactor::SharedArtifact => "shared_artifact"@,
            RankingFactor::FailureSignatureMatch => "failure_signature_match"@,
            RankingFactor::SharedRepository => "shared_repository"@,
            RankingFactor::OutcomeMatch => "outcome_match"@,
            RankingFactor::KnowledgeOverlap => "knowledge_overlap"@,
            RankingFactor::TextOverlap => "text_overlap"@,
            RankingFactor::SemanticSimilarity => "semantic_similarity"@,
            RankingFactor::EvaluationOverlap => "evaluation_overlap"@,
            RankingFactor::VerificationOverlap => "verification_overlap"@,
            RankingFactor::FilterMatch => "filter_match"@,
            RankingFactor::Recency => "recency"@,
        }
    }

    /// Stable string form for explanations and tests.
    pub fn as_str(self) -> (r: &'static str)
        ensures
            r@ == self.text(),
    {
        match self {
            RankingFactor::ExactId => "exact_id",
            RankingFactor::ExplicitRelationship => "explicit_relationship",
            RankingFactor::DerivedRelationship => "derived_relationship",
            RankingFactor::SharedArtifact => "shared_artifact",
            RankingFactor::FailureSignatureMatch => "failure_signature_match",
            RankingFactor::SharedRepository => "shared_repository",
            RankingFactor::OutcomeMatch => "outcome_match",
            RankingFactor::KnowledgeOverlap => "knowledge_overlap",
            RankingFactor::TextOverlap => "text_overlap",
            RankingFactor::SemanticSimilarity => "semantic_similarity",
            RankingFactor::EvaluationOverlap => "evaluation_overlap",
            RankingFactor::VerificationOverlap => "verification_overlap",
            RankingFactor::FilterMatch => "filter_match",
            RankingFactor::Recency => "recency",
        }
    }
}

/// Evidence for one fired ranking factor.
pub struct MatchedEvidence {
    pub factor: RankingFactor,
    /// Human-readable detail (e.g. "repository `acme/app`").
    pub detail: String,
    /// Engineering Objects that fired the factor.
    pub object_ids: Vec<ObjectId>,
}

/// A structured and/or free-text search over Investigations. Structured
/// fields are conjunctive filters; `text` drives lexical scoring.
pub struct SearchQuery {
    pub text: Option<String>,
    pub investigation_id: Option<InvestigationId>,
    pub repository: Option<String>,
    pub status: Option<InvestigationStatus>,
    pub connector_source: Option<String>,
    pub verification_result: Option<VerificationResult>,
    pub outcome: Option<OutcomeDisposition>,
    pub relationship_kind: Option<RelationshipKind>,
    pub file: Option<String>,
    /// Only Investigations created at or after this time (ms).
    pub created_after: Option<i64>,
    /// Only Investigations created at or before this time (ms).
    pub created_before: Option<i64>,
    pub limit: Option<usize>,
}

impl SearchQuery {
    /// No text and no filter is set (`limit` does not count).
    pub open spec fn empty_spec(self) -> bool {
        self.text is None && self.investigation_id is None && self.repository is None && self.status is None
            && self.connector_source is None && self.verification_result is None && self.outcome is None
            && self.relationship_kind is None && self.file is None && self.created_after is None
            && self.created_before is None
    }

    /// Whether no text and no filter is set.
    pub fn is_empty(&self) -> (b: bool)
        ensures
            b == self.empty_spec(),
    {
        self.text.is_none() && self.investigation_id.is_none() && self.repository.is_none() && self.status.is_none()
            && self.connector_source.is_none() && self.verification_result.is_none() && self.outcome.is_none()
            && self.relationship_kind.is_none() && self.file.is_none() && self.created_after.is_none()
            && self.created_before.is_none()
    }
}

/// One explained search result.
pub struct SearchResult {
    pub investigation_id: InvestigationId,
    pub title: String,
    pub status: InvestigationStatus,
    /// Rank score in thousandths, at most 1000.
    pub score: u32,
    pub explanation: String,
    pub matched_evidence: Vec<MatchedEvidence>,
    pub relationship: Option<InvestigationRelationship>,
    pub outcomes: Vec<OutcomeDisposition>,
    pub created_at: i64,
    pub updated_at: i64,
}

/// Historical evidence recalled from a related Investigation.
pub struct RecalledEvidence {
    pub investigation_id: InvestigationId,
    pub relationship_id: ObjectId,
    pub relationship_kind: RelationshipKind,
    pub explanation: String,
    pub evidence: Vec<RelationshipEvidence>,
}

/// Filters for recalling prior Learning Outcomes.
pub struct OutcomeFilter {
    pub repository: Option<String>,
    pub similar_to: Option<InvestigationId>,
    pub disposition: Option<OutcomeDisposition>,
}

/// One prior Learning Outcome with its Investigation context.
pub struct PriorOutcome {
    pub investigation_id: InvestigationId,
    pub investigation_title: String,
    pub outcome: LearningOutcome,
    pub recommendation_summary: Option<String>,
}

/// Texts each preceded by a space.
pub open spec fn spaced(parts: Seq<Seq<char>>) -> Seq<char>
    decreases parts.len(),
{
    if parts.len() == 0 {
        Seq::empty()
    } else {
        spaced(parts.drop_last()) + " "@ + parts.last()
    }
}

/// The human-readable corpus of an Investigation: title, description, then
/// the summaries of its observations, memory, knowledge and
/// recommendations, separated by spaces.
pub open spec fn corpus_spec(inv: Investigation, bundle: ContextBundle) -> Seq<char> {
    let head = match inv.description {
        Some(d) => inv.title@ + " "@ + d@,
        None => inv.title@,
    };
    head + spaced(bundle.observations@.map_values(|o: crate::model::Observation| o.summary@))
        + spaced(bundle.memory@.map_values(|m: crate::model::MemoryRecord| m.summary@))
        + spaced(bundle.knowledge@.map_values(|k: crate::model::KnowledgeObject| k.summary@))
        + spaced(bundle.recommendations@.map_values(|r: crate::model::Recommendation| r.summary@))
}

/// Appends each text preceded by a space.
fn push_spaced(out: &mut Vec<char>, parts: &Vec<String>)
    ensures
        final(out)@ == old(out)@ + spaced(parts@.map_values(|s: String| s@)),
{
    let ghost views = parts@.map_values(|s: String| s@);
    let mut i: usize = 0;
    while i < parts.len()
        invariant
            i <= parts@.len(),
            views == parts@.map_values(|s: String| s@),
            out@ == old(out)@ + spaced(views.subrange(0, i as int)),
        decreases parts.len() - i,
    {
        push_str(out, " ");
        push_str(out, parts[i].as_str());
        proof {
            assert(views.subrange(0, i + 1).drop_last() =~= views.subrange(0, i as int));
            assert(views.subrange(0, i + 1).last() == parts@[i as int]@);
        }
        i = i + 1;
        assert(out@ =~= old(out)@ + spaced(views.subrange(0, i as int)));
    }
    assert(views.subrange(0, parts@.len() as int) =~= views);
}

/// The human-readable corpus used for text matching.
pub fn search_corpus(inv: &Investigation, bundle: &ContextBundle) -> (s: String)
    ensures
        s@ == corpus_spec(*inv, *bundle),
{
    let mut out: Vec<char> = Vec::new();
    push_str(&mut out, inv.title.as_str());
    match &inv.description {
        Some(d) => {
            push_str(&mut out, " ");
            push_str(&mut out, d.as_str());
        },
        None => {},
    }
    let mut obs: Vec<String> = Vec::new();
    let mut i: usize = 0;
    while i < bundle.observations.len()
        invariant
            i <= bundle.observations@.len(),
            obs@.len() == i,
            forall|q: int| 0 <= q < i ==> #[trigger] obs@[q]@ == bundle.observations@[q].summary@,
        decreases bundle.observations.len() - i,
    {
        obs.push(bundle.observations[i].summary.clone());
        i = i + 1;
    }
    assert(obs@.map_values(|s: String| s@) =~= bundle.observations@.map_values(|o: crate::model::Observation| o.summary@));
    let mut mem: Vec<String> = Vec::new();
    let mut j: usize = 0;
    while j < bundle.memory.len()
        invariant
            j <= bundle.memory@.len(),
            mem@.len() == j,
            forall|q: int| 0 <= q < j ==> #[trigger] mem@[q]@ == bundle.memory@[q].summary@,
        decreases bundle.memory.len() - j,
    {
        mem.push(bundle.memory[j].summary.clone());
        j = j + 1;
    }
    assert(mem@.map_values(|s: String| s@) =~= bundle.memory@.map_values(|m: crate::model::MemoryRecord| m.summary@));
    let mut kn: Vec<String> = Vec::new();
    let mut k: usize = 0;
    while k < bundle.knowledge.len()
        invariant
            k <= bundle.knowledge@.len(),
            kn@.len() == k,
            forall|q: int| 0 <= q < k ==> #[trigger] kn@[q]@ == bundle.knowledge@[q].summary@,
        decreases bundle.knowledge.len() - k,
    {
        kn.push(bundle.knowledge[k].summary.clone());
        k = k + 1;
    }
    assert(kn@.map_values(|s: String| s@) =~= bundle.knowledge@.map_values(|x: crate::model::KnowledgeObject| x.summary@));
    let mut rec: Vec<String> = Vec::new();
    let mut r: usize = 0;
    while r < bundle.recommendations.len()
        invariant
            r <= bundle.recommendations@.len(),
            rec@.len() == r,
            forall|q: int| 0 <= q < r ==> #[trigger] rec@[q]@ == bundle.recommendations@[q].summary@,
        decreases bundle.recommendations.len() - r,
    {
        rec.push(bundle.recommendations[r].summary.clone());
        r = r + 1;
    }
    assert(rec@.map_values(|s: String| s@) =~= bundle.recommendations@.map_values(|x: crate::model::Recommendation| x.summary@));
    push_spaced(&mut out, &obs);
    push_spaced(&mut out, &mem);
    push_spaced(&mut out, &kn);
    push_spaced(&mut out, &rec);
    to_string(&out)
}

/// The details of fired factors joined with `"; "`.
pub open spec fn details_joined(fired: Seq<MatchedEvidence>) -> Seq<char>
    decreases fired.len(),
{
    if fired.len() == 0 {
        Seq::empty()
    } else if fired.len() == 1 {
        fired[0].detail@
    } else {
        details_joined(fired.drop_last()) + "; "@ + fired.last().detail@
    }
}

/// `Matched: <details>. Score <score with two decimals>.`
pub open spec fn explanation_spec(score: nat, fired: Seq<MatchedEvidence>) -> Seq<char> {
    "Matched: "@ + details_joined(fired) + ". Score "@ + fixed2(score, 1000) + "."@
}

/// Composes the human-readable explanation from the fired factors; the
/// score (thousandths) is printed with two decimals.
pub fn compose_explanation(score: u32, fired: &Vec<MatchedEvidence>) -> (s: String)
    requires
        score <= 1000,
    ensures
        s@ == explanation_spec(score as nat, fired@),
{
    let mut out: Vec<char> = Vec::new();
    push_str(&mut out, "Matched: ");
    let ghost start = out@;
    let mut i: usize = 0;
    while i < fired.len()
        invariant
            i <= fired@.len(),
            out@ == start + details_joined(fired@.subrange(0, i as int)),
        decreases fired.len() - i,
    {
        if i > 0 {
            push_str(&mut out, "; ");
        }
        push_str(&mut out, fired[i].detail.as_str());
        proof {
            let sub = fired@.subrange(0, i + 1);
            assert(sub.drop_last() =~= fired@.subrange(0, i as int));
            assert(sub.last() == fired@[i as int]);
            if i == 0 {
                assert(details_joined(sub) == sub[0].detail@);
            }
        }
        i = i + 1;
        assert(out@ =~= start + details_joined(fired@.subrange(0, i as int)));
    }
    assert(fired@.subrange(0, fired@.len() as int) =~= fired@);
    push_str(&mut out, ". Score ");
    push_fixed2(&mut out, score as u128, 1000);
    push_str(&mut out, ".");
    to_string(&out)
}

} // verus!
