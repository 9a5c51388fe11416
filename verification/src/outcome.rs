//! Implementation Records, Measured Learning Outcomes and their
//! deterministic evaluation.

use vstd::prelude::*;
use vstd::string::*;
use crate::error::RivoraError;
use crate::ids::{fresh_object_id, InvestigationId, ObjectId};
use crate::model::{Confidence, Provenance};
use crate::proposal::ImprovementProposal;
use crate::keymap::TextSet;
use crate::text::{chars_of, contains_seq, contains_str, lower_chars, lower_of, lowercase_of, to_string, trim_chars, trimmed};
use crate::vocab::{CausalLanguage, ExpectedResultKind, ImplementationSource, ImplementationStatus, MaterialitySeverity, MeasuredOutcomeStatus, OutcomeClassification, OutcomeEvidenceRelation, RegressionType, ResultAssessmentKind};

verus! {

/// A typed reference to where an implementation can be observed.
pub enum ImplementationReference {
    CommitSha { sha: String },
    PullRequest { reference: String },
    Deployment { reference: String },
    Patch { reference: String },
    Other { reference: String },
}

/// A record that external work associated with a Proposal was performed.
pub struct ImplementationRecord {
    pub id: ObjectId,
    pub lineage_id: ObjectId,
    pub revision_number: u32,
    pub investigation_id: InvestigationId,
    pub proposal_id: ObjectId,
    pub proposal_lineage_id: ObjectId,
    pub proposal_revision: u32,
    pub reporter: String,
    pub source: ImplementationSource,
    pub summary: String,
    pub status: ImplementationStatus,
    pub references: Vec<ImplementationReference>,
    pub evidence_ids: Vec<ObjectId>,
    pub observed_files: Vec<String>,
    pub observed_components: Vec<String>,
    pub declared_scope: String,
    pub implemented_at: Option<i64>,
    pub provenance: Provenance,
}

impl ImplementationRecord {
    /// A freshly reported implementation (status `Reported`, new lineage);
    /// the reporter must not be blank.
    pub fn reported(
        investigation_id: InvestigationId,
        proposal_id: ObjectId,
        proposal_lineage_id: ObjectId,
        proposal_revision: u32,
        reporter: &str,
        source: ImplementationSource,
        summary: &str,
        provenance: Provenance,
    ) -> (res: Result<ImplementationRecord, RivoraError>)
        ensures
            trimmed(reporter@).len() == 0 <==> res is Err,
            res matches Err(e) ==> e is Validation,
            res matches Ok(r) ==> implementation_reported(r, investigation_id, proposal_id, proposal_lineage_id,
                proposal_revision, reporter@, source, summary@),
    {
        let who = trim_chars(&chars_of(reporter));
        if who.len() == 0 {
            return Err(RivoraError::validation("implementation reporter is required"));
        }
        let id = fresh_object_id();
        Ok(ImplementationRecord {
            id,
            lineage_id: id,
            revision_number: 1,
            investigation_id,
            proposal_id,
            proposal_lineage_id,
            proposal_revision,
            reporter: to_string(&who),
            source,
            summary: to_string(&trim_chars(&chars_of(summary))),
            status: ImplementationStatus::Reported,
            references: Vec::new(),
            evidence_ids: Vec::new(),
            observed_files: Vec::new(),
            observed_components: Vec::new(),
            declared_scope: String::new(),
            implemented_at: None,
            provenance,
        })
    }
}

/// `r` is a freshly reported implementation with these inputs.
pub open spec fn implementation_reported(
    r: ImplementationRecord,
    investigation_id: InvestigationId,
    proposal_id: ObjectId,
    proposal_lineage_id: ObjectId,
    proposal_revision: u32,
    reporter: Seq<char>,
    source: ImplementationSource,
    summary: Seq<char>,
) -> bool {
    &&& r.lineage_id == r.id
    &&& r.revision_number == 1
    &&& r.investigation_id == investigation_id
    &&& r.proposal_id == proposal_id
    &&& r.proposal_lineage_id == proposal_lineage_id
    &&& r.proposal_revision == proposal_revision
    &&& r.reporter@ == trimmed(reporter)
    &&& r.source == source
    &&& r.summary@ == trimmed(summary)
    &&& r.status == ImplementationStatus::Reported
    &&& r.references@.len() == 0
    &&& r.evidence_ids@.len() == 0
    &&& r.implemented_at is None
}

/// One expected result of a Measured Learning Outcome.
pub struct ExpectedResultSpec {
    pub id: ObjectId,
    pub description: String,
    pub kind: ExpectedResultKind,
    pub metric: Option<String>,
    pub target: Option<String>,
    pub tolerance: Option<String>,
    pub requires_baseline: bool,
    /// Weight in thousandths.
    pub weight: u32,
    pub required: bool,
    pub verification_method: Option<String>,
    pub source_text: String,
}

/// A typed link between an Engineering Object and a Measured Learning Outcome.
pub struct OutcomeEvidenceLink {
    pub object_id: ObjectId,
    pub relation: OutcomeEvidenceRelation,
    pub expected_result_id: Option<ObjectId>,
    pub reason: Option<String>,
    pub linked_at: i64,
    pub actor: String,
}

/// A Measured Learning Outcome snapshot.
pub struct MeasuredLearningOutcome {
    pub id: ObjectId,
    pub lineage_id: ObjectId,
    pub revision_number: u32,
    pub investigation_id: InvestigationId,
    pub proposal_id: ObjectId,
    pub proposal_lineage_id: ObjectId,
    pub proposal_revision: u32,
    pub implementation_record_id: ObjectId,
    pub implementation_lineage_id: ObjectId,
    pub status: MeasuredOutcomeStatus,
    pub classification: OutcomeClassification,
    pub expected_results: Vec<ExpectedResultSpec>,
    pub evidence_links: Vec<OutcomeEvidenceLink>,
    /// Whether a verified outcome may inform historical Learning Patterns.
    pub historical_learning_eligible: bool,
    pub created_at: i64,
    pub updated_at: i64,
    pub provenance: Provenance,
}

impl MeasuredLearningOutcome {
    /// A Draft outcome (classification `Pending`, no evidence yet); at least
    /// one expected result is required.
    pub fn draft(
        investigation_id: InvestigationId,
        proposal_id: ObjectId,
        proposal_lineage_id: ObjectId,
        proposal_revision: u32,
        implementation_record_id: ObjectId,
        implementation_lineage_id: ObjectId,
        expected_results: Vec<ExpectedResultSpec>,
        provenance: Provenance,
    ) -> (res: Result<MeasuredLearningOutcome, RivoraError>)
        ensures
            expected_results@.len() == 0 <==> res is Err,
            res matches Err(e) ==> e is Validation,
            res matches Ok(o) ==> {
                &&& o.lineage_id == o.id
                &&& o.revision_number == 1
                &&& o.investigation_id == investigation_id
                &&& o.proposal_id == proposal_id
                &&& o.proposal_lineage_id == proposal_lineage_id
                &&& o.proposal_revision == proposal_revision
                &&& o.implementation_record_id == implementation_record_id
                &&& o.implementation_lineage_id == implementation_lineage_id
                &&& o.status == MeasuredOutcomeStatus::Draft
                &&& o.classification == OutcomeClassification::Pending
                &&& o.expected_results@ == expected_results@
                &&& o.evidence_links@.len() == 0
                &&& !o.historical_learning_eligible
                &&& o.provenance == provenance
                &&& o.created_at == provenance.recorded_at
                &&& o.updated_at == provenance.recorded_at
            },
    {
        if expected_results.len() == 0 {
            return Err(RivoraError::validation("measured outcome requires at least one expected result"));
        }
        let id = fresh_object_id();
        let now = provenance.recorded_at;
        Ok(MeasuredLearningOutcome {
            id,
            lineage_id: id,
            revision_number: 1,
            investigation_id,
            proposal_id,
            proposal_lineage_id,
            proposal_revision,
            implementation_record_id,
            implementation_lineage_id,
            status: MeasuredOutcomeStatus::Draft,
            classification: OutcomeClassification::Pending,
            expected_results,
            evidence_links: Vec::new(),
            historical_learning_eligible: false,
            created_at: now,
            updated_at: now,
            provenance,
        })
    }
}

/// Expected-result kind inferred from criterion text.
pub open spec fn infer_result_kind_spec(text: Seq<char>) -> ExpectedResultKind {
    let lower = lowercase_of(text);
    if contains_seq(lower, "latency"@) || contains_seq(lower, "duration"@) || contains_seq(lower, "p99"@) {
        ExpectedResultKind::LatencyDuration
    } else if contains_seq(lower, "error rate"@) || contains_seq(lower, "reliability"@) {
        ExpectedResultKind::ReliabilityRate
    } else if contains_seq(lower, "test"@) {
        ExpectedResultKind::TestResult
    } else if contains_seq(lower, "count"@) || contains_seq(lower, "frequency"@) {
        ExpectedResultKind::CountFrequency
    } else if contains_seq(lower, "threshold"@) || contains_seq(lower, "%"@) || contains_seq(lower, "percent"@) {
        ExpectedResultKind::NumericThreshold
    } else if contains_seq(lower, "improve"@) || contains_seq(lower, "reduce"@) || contains_seq(lower, "increase"@) {
        ExpectedResultKind::DirectionalImprovement
    } else {
        ExpectedResultKind::HumanAssessment
    }
}

/// Infers the kind of an expected result from its criterion text.
pub fn infer_result_kind(text: &str) -> (k: ExpectedResultKind)
    ensures
        k == infer_result_kind_spec(text@),
{
    let lower = lower_chars(text);
    if contains_str(&lower, "latency") || contains_str(&lower, "duration") || contains_str(&lower, "p99") {
        ExpectedResultKind::LatencyDuration
    } else if contains_str(&lower, "error rate") || contains_str(&lower, "reliability") {
        ExpectedResultKind::ReliabilityRate
    } else if contains_str(&lower, "test") {
        ExpectedResultKind::TestResult
    } else if contains_str(&lower, "count") || contains_str(&lower, "frequency") {
        ExpectedResultKind::CountFrequency
    } else if contains_str(&lower, "threshold") || contains_str(&lower, "%") || contains_str(&lower, "percent") {
        ExpectedResultKind::NumericThreshold
    } else if contains_str(&lower, "improve") || contains_str(&lower, "reduce") || contains_str(&lower, "increase") {
        ExpectedResultKind::DirectionalImprovement
    } else {
        ExpectedResultKind::HumanAssessment
    }
}

/// Kinds whose measurement needs a baseline.
pub open spec fn requires_baseline_spec(kind: ExpectedResultKind) -> bool {
    kind == ExpectedResultKind::DirectionalImprovement || kind == ExpectedResultKind::LatencyDuration
        || kind == ExpectedResultKind::ReliabilityRate || kind == ExpectedResultKind::CountFrequency
        || kind == ExpectedResultKind::NumericThreshold
}

/// Whether measuring `kind` needs baseline evidence.
pub fn requires_baseline_for(kind: ExpectedResultKind) -> (b: bool)
    ensures
        b == requires_baseline_spec(kind),
{
    match kind {
        ExpectedResultKind::DirectionalImprovement | ExpectedResultKind::LatencyDuration
        | ExpectedResultKind::ReliabilityRate | ExpectedResultKind::CountFrequency
        | ExpectedResultKind::NumericThreshold => true,
        _ => false,
    }
}

/// The criteria seeded into expected results: success criteria then the
/// verification plan's success criteria, keeping the first of each
/// trimmed-lowercase key and dropping the blank ones.
pub open spec fn seed_criteria(criteria: Seq<Seq<char>>) -> Seq<Seq<char>>
    decreases criteria.len(),
{
    if criteria.len() == 0 {
        Seq::empty()
    } else {
        let prev = seed_criteria(criteria.drop_last());
        let c = criteria.last();
        let key = lowercase_of(trimmed(c));
        if trimmed(c).len() == 0 || exists|j: int| 0 <= j < criteria.len() - 1 && trimmed(criteria[j]).len() > 0
            && #[trigger] lowercase_of(trimmed(criteria[j])) == key {
            prev
        } else {
            prev.push(c)
        }
    }
}

/// All criteria of a Proposal, in seeding order.
pub open spec fn proposal_criteria(p: ImprovementProposal) -> Seq<Seq<char>> {
    p.success_criteria@.map_values(|s: String| s@) + p.verification_plan.success_criteria@.map_values(|s: String| s@)
}

/// An expected result seeded from criterion `c`.
pub open spec fn seeded_from(e: ExpectedResultSpec, c: Seq<char>) -> bool {
    &&& e.description@ == trimmed(c)
    &&& e.source_text@ == trimmed(c)
    &&& e.kind == infer_result_kind_spec(c)
    &&& e.requires_baseline == requires_baseline_spec(e.kind)
    &&& e.metric is None
    &&& e.target is None
    &&& e.tolerance is None
    &&& e.weight == 1000
    &&& e.required
    &&& e.verification_method is None
}

/// The dedup key of a criterion: trimmed, then lowercased.
pub open spec fn criterion_key(c: Seq<char>) -> Seq<char> {
    lowercase_of(trimmed(c))
}

/// Seeds one expected result per distinct success criterion of the Proposal
/// (its own criteria, then its verification plan's), in order: the first
/// criterion of each trimmed-lowercase key wins and empty ones are skipped.
pub fn seed_expected_results(proposal: &ImprovementProposal) -> (results: Vec<ExpectedResultSpec>)
    ensures
        results@.len() == seed_criteria(proposal_criteria(*proposal)).len(),
        forall|i: int| 0 <= i < results@.len() ==> seeded_from(#[trigger] results@[i], seed_criteria(proposal_criteria(*proposal))[i]),
{
    let mut all: Vec<String> = Vec::new();
    let mut i: usize = 0;
    while i < proposal.success_criteria.len()
        invariant
            i <= proposal.success_criteria@.len(),
            all@ == proposal.success_criteria@.subrange(0, i as int),
        decreases proposal.success_criteria.len() - i,
    {
        all.push(proposal.success_criteria[i].clone());
        i = i + 1;
        assert(all@ =~= proposal.success_criteria@.subrange(0, i as int));
    }
    let mut j: usize = 0;
    let n = proposal.success_criteria.len();
    while j < proposal.verification_plan.success_criteria.len()
        invariant
            n == proposal.success_criteria@.len(),
            j <= proposal.verification_plan.success_criteria@.len(),
            all@ == proposal.success_criteria@ + proposal.verification_plan.success_criteria@.subrange(0, j as int),
        decreases proposal.verification_plan.success_criteria.len() - j,
    {
        all.push(proposal.verification_plan.success_criteria[j].clone());
        j = j + 1;
        assert(all@ =~= proposal.success_criteria@ + proposal.verification_plan.success_criteria@.subrange(0, j as int));
    }
    assert(proposal.verification_plan.success_criteria@.subrange(0, j as int) =~= proposal.verification_plan.success_criteria@);
    let ghost crit = all@.map_values(|s: String| s@);
    assert(crit =~= proposal_criteria(*proposal));
    let mut results: Vec<ExpectedResultSpec> = Vec::new();
    let mut seen = TextSet::new();
    let mut k: usize = 0;
    while k < all.len()
        invariant
            k <= all@.len(),
            crit == all@.map_values(|s: String| s@),
            seen.wf(),
            forall|x: Seq<char>| #[trigger] seen.has(x) <==> (exists|q: int| 0 <= q < k && trimmed(crit[q]).len() > 0
                && #[trigger] criterion_key(crit[q]) == x),
            results@.len() == seed_criteria(crit.subrange(0, k as int)).len(),
            forall|q: int| 0 <= q < results@.len() ==> seeded_from(#[trigger] results@[q], seed_criteria(crit.subrange(0, k as int))[q]),
        decreases all.len() - k,
    {
        let c = &all[k];
        let trimmed_c = trim_chars(&chars_of(c.as_str()));
        let key = lower_of(&trimmed_c);
        let ghost pre = crit.subrange(0, k as int);
        let ghost next = crit.subrange(0, k + 1);
        assert(next.drop_last() =~= pre);
        assert(next.last() == c@);
        assert(key@ == criterion_key(c@));
        let fresh = trimmed_c.len() > 0 && !seen.contains(&key);
        proof {
            assert forall|q: int| 0 <= q < next.len() - 1 implies #[trigger] next[q] == crit[q] by {}
            if trimmed_c@.len() > 0 {
                if seen.has(key@) {
                    let q = choose|q: int| 0 <= q < k && trimmed(crit[q]).len() > 0 && #[trigger] criterion_key(crit[q]) == key@;
                    assert(lowercase_of(trimmed(next[q])) == key@);
                } else {
                    assert forall|q: int| 0 <= q < next.len() - 1 && trimmed(next[q]).len() > 0
                        implies #[trigger] lowercase_of(trimmed(next[q])) != key@ by {
                        assert(criterion_key(crit[q]) == lowercase_of(trimmed(next[q])));
                    }
                }
            }
        }
        if fresh {
            let kind = infer_result_kind(c.as_str());
            let text = to_string(&trimmed_c);
            results.push(ExpectedResultSpec {
                id: fresh_object_id(),
                description: text.clone(),
                kind,
                metric: None,
                target: None,
                tolerance: None,
                requires_baseline: requires_baseline_for(kind),
                weight: 1000,
                required: true,
                verification_method: None,
                source_text: text,
            });
            let ghost old_seen = seen;
            seen.insert(key);
            proof {
                assert forall|x: Seq<char>| #[trigger] seen.has(x) <==> (exists|q: int| 0 <= q < k + 1 && trimmed(crit[q]).len() > 0
                    && #[trigger] criterion_key(crit[q]) == x) by {
                    if exists|q: int| 0 <= q < k + 1 && trimmed(crit[q]).len() > 0 && #[trigger] criterion_key(crit[q]) == x {
                        let q = choose|q: int| 0 <= q < k + 1 && trimmed(crit[q]).len() > 0 && #[trigger] criterion_key(crit[q]) == x;
                        if q < k {
                            assert(old_seen.has(x));
                        }
                    }
                }
            }
        } else {
            proof {
                assert forall|x: Seq<char>| #[trigger] seen.has(x) <==> (exists|q: int| 0 <= q < k + 1 && trimmed(crit[q]).len() > 0
                    && #[trigger] criterion_key(crit[q]) == x) by {
                    if exists|q: int| 0 <= q < k + 1 && trimmed(crit[q]).len() > 0 && #[trigger] criterion_key(crit[q]) == x {
                        let q = choose|q: int| 0 <= q < k + 1 && trimmed(crit[q]).len() > 0 && #[trigger] criterion_key(crit[q]) == x;
                        if q == k {
                            assert(seen.has(key@));
                        }
                    }
                }
            }
        }
        k = k + 1;
    }
    assert(crit.subrange(0, all@.len() as int) =~= crit);
    results
}


/// Seeding keeps no blank criterion and no two criteria of the same
/// trimmed-lowercase key, and seeds only given criteria.
pub proof fn lemma_seed_criteria_clean(criteria: Seq<Seq<char>>)
    ensures
        forall|i: int| 0 <= i < seed_criteria(criteria).len() ==> trimmed(#[trigger] seed_criteria(criteria)[i]).len() > 0,
        forall|i: int, j: int| 0 <= i < j < seed_criteria(criteria).len() ==> criterion_key(#[trigger] seed_criteria(criteria)[i])
            != criterion_key(#[trigger] seed_criteria(criteria)[j]),
        forall|i: int| 0 <= i < seed_criteria(criteria).len() ==> exists|j: int| 0 <= j < criteria.len() && criteria[j]
            == #[trigger] seed_criteria(criteria)[i],
    decreases criteria.len(),
{
    if criteria.len() > 0 {
        let init = criteria.drop_last();
        lemma_seed_criteria_clean(init);
        let prev = seed_criteria(init);
        let all = seed_criteria(criteria);
        assert forall|i: int| 0 <= i < prev.len() implies exists|j: int| 0 <= j < criteria.len() && criteria[j] == #[trigger] prev[i] by {
            let j = choose|j: int| 0 <= j < init.len() && init[j] == prev[i];
            assert(criteria[j] == init[j]);
        }
        if all.len() > prev.len() {
            let c = criteria.last();
            assert(all == prev.push(c));
            assert forall|i: int| 0 <= i < prev.len() implies criterion_key(#[trigger] all[i]) != criterion_key(c) by {
                assert(all[i] == prev[i]);
                let j = choose|j: int| 0 <= j < init.len() && init[j] == prev[i];
                assert(criteria[j] == prev[i]);
                assert(trimmed(criteria[j]).len() > 0);
            }
            assert(criteria[criteria.len() - 1] == all[prev.len() as int]);
        }
    }
}

} // verus!
