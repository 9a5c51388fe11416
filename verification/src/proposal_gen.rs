//! Generating the two alternative Improvement Proposals of an Investigation:
//! a targeted validation (small effort) and a shared validation boundary
//! (medium effort), built from the same evidence.

use vstd::prelude::*;
use crate::error::RivoraError;
use crate::ids::{fresh_object_id, InvestigationId, ObjectId};
use crate::model::{
    Confidence, ContextBundle, Evaluation, Hypothesis, Investigation, KnowledgeObject, LearningOutcome, MemoryRecord, Observation,
    Provenance, Recommendation, VerificationReceipt,
};
use crate::pipeline::{
    evaluation_ids, evaluation_ids_of, knowledge_object_ids, knowledge_object_ids_of, memory_record_ids, memory_record_ids_of,
};
use crate::proposal::{EvidenceReference, ImprovementProposal};
use crate::proposal_content::{
    alternative_summaries, infer_components, infer_priority, max_severity, failure_signal_count, populate_generated,
    priority_spec, sanitize_spec, sanitize_text,
};
use crate::proposal_rules::{ascending_ids, ascending_refs, dedupe_ids, dedupe_refs, infer_category, infer_category_spec, scoped_refs};
use crate::readiness::{receipt_ids, receipt_ids_of};
use crate::recall::{RecalledContext, RecalledContextState};
use crate::text::{chars_of, contains_seq, join_seqs, join_strings, lemma_trimmed_keeps_head, push_chars, push_decimal, push_str,
    to_string, trim_chars, trimmed, decimal, whitespace, contains_str};
use crate::vocab::{EvidenceScope, ProposalEffort, ProposalGenerationMethod, VerificationResult};

verus! {

/// Identifiers of observations.
pub open spec fn observation_ids(os: Seq<Observation>) -> Seq<ObjectId> {
    os.map_values(|o: Observation| o.id)
}

/// Identifiers of hypotheses.
pub open spec fn hypothesis_id_list(hs: Seq<Hypothesis>) -> Seq<ObjectId> {
    hs.map_values(|h: Hypothesis| h.id)
}

/// Identifiers of recommendations.
pub open spec fn recommendation_id_list(rs: Seq<Recommendation>) -> Seq<ObjectId> {
    rs.map_values(|r: Recommendation| r.id)
}

/// Identifiers of learning outcomes.
pub open spec fn learning_ids(ls: Seq<LearningOutcome>) -> Seq<ObjectId> {
    ls.map_values(|l: LearningOutcome| l.id)
}

/// Every current Engineering Object of the Investigation: observations,
/// memory, knowledge, evaluations, verifications, hypotheses,
/// recommendations, learning outcomes and workflow runs.
pub open spec fn current_pool(b: ContextBundle, hs: Seq<Hypothesis>, workflows: Seq<ObjectId>) -> Seq<ObjectId> {
    observation_ids(b.observations@) + memory_record_ids(b.memory@) + knowledge_object_ids(b.knowledge@)
        + evaluation_ids(b.evaluations@) + receipt_ids(b.verifications@) + hypothesis_id_list(hs)
        + recommendation_id_list(b.recommendations@) + learning_ids(b.learning@) + workflows
}

/// The evidence the hypotheses cite for themselves.
pub open spec fn hypothesis_support(hs: Seq<Hypothesis>) -> Seq<ObjectId>
    decreases hs.len(),
{
    if hs.len() == 0 { seq![] } else { hypothesis_support(hs.drop_last()) + hs.last().supporting_evidence@ }
}

/// The evidence the hypotheses cite against themselves.
pub open spec fn hypothesis_contradiction(hs: Seq<Hypothesis>) -> Seq<ObjectId>
    decreases hs.len(),
{
    if hs.len() == 0 { seq![] } else { hypothesis_contradiction(hs.drop_last()) + hs.last().contradicting_evidence@ }
}

/// The evidence the verification receipts cite.
pub open spec fn receipt_evidence(rs: Seq<VerificationReceipt>) -> Seq<ObjectId>
    decreases rs.len(),
{
    if rs.len() == 0 { seq![] } else { receipt_evidence(rs.drop_last()) + rs.last().evidence_ids@ }
}

/// The evidence the verification receipts found in conflict.
pub open spec fn receipt_conflicts(rs: Seq<VerificationReceipt>) -> Seq<ObjectId>
    decreases rs.len(),
{
    if rs.len() == 0 { seq![] } else { receipt_conflicts(rs.drop_last()) + rs.last().conflicting_ids@ }
}

/// The objects of the attached recalled contexts (historical evidence).
pub open spec fn historical_pool(cs: Seq<RecalledContext>) -> Seq<ObjectId>
    decreases cs.len(),
{
    if cs.len() == 0 {
        seq![]
    } else {
        historical_pool(cs.drop_last()) + if cs.last().state == RecalledContextState::Attached {
            cs.last().object_ids@
        } else {
            seq![]
        }
    }
}

/// The source Investigations of the attached recalled contexts.
pub open spec fn related_pool(cs: Seq<RecalledContext>) -> Seq<InvestigationId>
    decreases cs.len(),
{
    if cs.len() == 0 {
        seq![]
    } else {
        related_pool(cs.drop_last()) + if cs.last().state == RecalledContextState::Attached {
            seq![cs.last().source_investigation_id]
        } else {
            seq![]
        }
    }
}

/// Supporting evidence: every current object, what hypotheses cite for
/// themselves and what receipts cite.
pub open spec fn supporting_pool(b: ContextBundle, hs: Seq<Hypothesis>, workflows: Seq<ObjectId>) -> Seq<ObjectId> {
    current_pool(b, hs, workflows) + hypothesis_support(hs) + receipt_evidence(b.verifications@)
}

/// Contradicting evidence: what hypotheses cite against themselves and what
/// receipts found in conflict.
pub open spec fn contradicting_pool(b: ContextBundle, hs: Seq<Hypothesis>) -> Seq<ObjectId> {
    hypothesis_contradiction(hs) + receipt_conflicts(b.verifications@)
}

/// The same members.
pub open spec fn same_members<A>(x: Seq<A>, y: Seq<A>) -> bool {
    forall|a: A| #[trigger] x.contains(a) <==> y.contains(a)
}

/// The identifiers of references.
pub open spec fn ref_ids(rs: Seq<EvidenceReference>) -> Seq<ObjectId> {
    rs.map_values(|r: EvidenceReference| r.object_id)
}

/// References of one scope for exactly the members of `pool`, by ascending
/// identifier.
pub open spec fn scoped_set(rs: Seq<EvidenceReference>, pool: Seq<ObjectId>, scope: EvidenceScope) -> bool {
    &&& ascending_ids(ref_ids(rs))
    &&& same_members(ref_ids(rs), pool)
    &&& forall|i: int| 0 <= i < rs.len() ==> (#[trigger] rs[i]).scope == scope
}

/// Generation inputs: current references for the supporting and
/// contradicting evidence, historical ones for the recalled objects, sorted
/// and without repeats.
pub open spec fn inputs_set(rs: Seq<EvidenceReference>, current: Seq<ObjectId>, historical: Seq<ObjectId>) -> bool {
    &&& ascending_refs(rs)
    &&& forall|r: EvidenceReference| #[trigger] rs.contains(r) <==> (
        (r.scope == EvidenceScope::Current && current.contains(r.object_id))
        || (r.scope == EvidenceScope::Historical && historical.contains(r.object_id)))
}

/// Confidence (thousandths) of the targeted Proposal: 800 when some receipt
/// passed, 550 without receipts, 650 otherwise.
pub open spec fn generated_confidence(rs: Seq<VerificationReceipt>) -> nat {
    if exists|i: int| 0 <= i < rs.len() && (#[trigger] rs[i]).result == VerificationResult::Pass {
        800
    } else if rs.len() == 0 {
        550
    } else {
        650
    }
}

/// The shared alternative is eight hundredths less confident, never below
/// zero.
pub open spec fn shared_confidence(c: nat) -> nat {
    if c >= 80 { (c - 80) as nat } else { 0 }
}

/// Summaries of observations and recommendations.
pub open spec fn observation_summaries(os: Seq<Observation>) -> Seq<Seq<char>> {
    os.map_values(|o: Observation| o.summary@)
}

/// Summaries of recommendations.
pub open spec fn recommendation_summaries(rs: Seq<Recommendation>) -> Seq<Seq<char>> {
    rs.map_values(|r: Recommendation| r.summary@)
}

/// The text the category is inferred from: the title, the observation
/// summaries and the recommendation summaries.
pub open spec fn combined_text(inv: Investigation, b: ContextBundle) -> Seq<char> {
    inv.title@ + " "@ + join_seqs(observation_summaries(b.observations@), " "@) + " "@
        + join_seqs(recommendation_summaries(b.recommendations@), " "@)
}

/// The subject: the latest recommendation's summary, else the title.
pub open spec fn subject_of(inv: Investigation, b: ContextBundle) -> Seq<char> {
    if b.recommendations@.len() > 0 { b.recommendations@.last().summary@ } else { inv.title@ }
}

/// The rationale of the targeted Proposal.
pub open spec fn targeted_rationale(supporting: nat, contradicting: nat) -> Seq<char> {
    "Current evidence contains "@ + decimal(supporting) + " supporting and "@ + decimal(contradicting)
        + " contradicting reference(s). The smallest useful change should validate the observed boundary without broad migration."@
}

/// What the generation promises of both Proposals, `k` being 0 (targeted)
/// or 1 (shared).
pub open spec fn generated_as(
    p: ImprovementProposal,
    k: int,
    inv: Investigation,
    b: ContextBundle,
    hs: Seq<Hypothesis>,
    workflows: Seq<ObjectId>,
    contexts: Seq<RecalledContext>,
    actor: Seq<char>,
) -> bool {
    let conf = generated_confidence(b.verifications@);
    &&& p.investigation_id == inv.id
    &&& p.title@ == trimmed(if k == 0 { "Add targeted validation for "@ } else { "Introduce a shared validation boundary for "@ } + inv.title@)
    &&& p.summary@ == trimmed(if k == 0 {
        "Add a bounded validation path addressing: "@
    } else {
        "Centralize validation for the affected component while preserving existing interfaces: "@
    } + sanitize_spec(subject_of(inv, b)))
    &&& p.category == infer_category_spec(combined_text(inv, b))
    &&& p.priority == priority_spec(max_severity(b.evaluations@), failure_signal_count(b.observations@))
    &&& p.confidence.permille == if k == 0 { conf } else { shared_confidence(conf) }
    &&& p.estimated_effort == if k == 0 { ProposalEffort::Small } else { ProposalEffort::Medium }
    &&& p.generation_method == ProposalGenerationMethod::Deterministic
    &&& scoped_set(p.supporting_evidence@, supporting_pool(b, hs, workflows), EvidenceScope::Current)
    &&& scoped_set(p.contradicting_evidence@, contradicting_pool(b, hs), EvidenceScope::Current)
    &&& inputs_set(p.generation_inputs@, supporting_pool(b, hs, workflows) + contradicting_pool(b, hs), historical_pool(contexts))
    &&& p.related_investigation_ids@ == related_pool(contexts)
    &&& p.provenance.actor@ == trimmed(actor)
    &&& p.provenance.capability is Some && p.provenance.capability->0@ == "generate_improvement_proposals"@
    &&& ascending_ids(p.provenance.evidence_ids@)
    &&& same_members(p.provenance.evidence_ids@, current_pool(b, hs, workflows))
}

pub fn push_ids(out: &mut Vec<ObjectId>, ids: &Vec<ObjectId>)
    ensures
        final(out)@ == old(out)@ + ids@,
{
    let mut i: usize = 0;
    while i < ids.len()
        invariant
            i <= ids@.len(),
            out@ == old(out)@ + ids@.subrange(0, i as int),
        decreases ids.len() - i,
    {
        out.push(ids[i]);
        i = i + 1;
        assert(out@ =~= old(out)@ + ids@.subrange(0, i as int));
    }
    assert(ids@.subrange(0, ids@.len() as int) =~= ids@);
}

pub fn observation_ids_of(os: &Vec<Observation>) -> (r: Vec<ObjectId>)
    ensures
        r@ == observation_ids(os@),
{
    let mut r: Vec<ObjectId> = Vec::new();
    let mut i: usize = 0;
    while i < os.len()
        invariant
            i <= os@.len(),
            r@ == observation_ids(os@.subrange(0, i as int)),
        decreases os.len() - i,
    {
        r.push(os[i].id);
        i = i + 1;
        assert(r@ =~= observation_ids(os@.subrange(0, i as int)));
    }
    assert(os@.subrange(0, os@.len() as int) =~= os@);
    r
}

fn hypothesis_ids_of(hs: &Vec<Hypothesis>) -> (r: Vec<ObjectId>)
    ensures
        r@ == hypothesis_id_list(hs@),
{
    let mut r: Vec<ObjectId> = Vec::new();
    let mut i: usize = 0;
    while i < hs.len()
        invariant
            i <= hs@.len(),
            r@ == hypothesis_id_list(hs@.subrange(0, i as int)),
        decreases hs.len() - i,
    {
        r.push(hs[i].id);
        i = i + 1;
        assert(r@ =~= hypothesis_id_list(hs@.subrange(0, i as int)));
    }
    assert(hs@.subrange(0, hs@.len() as int) =~= hs@);
    r
}

fn recommendation_ids_of(rs: &Vec<Recommendation>) -> (r: Vec<ObjectId>)
    ensures
        r@ == recommendation_id_list(rs@),
{
    let mut r: Vec<ObjectId> = Vec::new();
    let mut i: usize = 0;
    while i < rs.len()
        invariant
            i <= rs@.len(),
            r@ == recommendation_id_list(rs@.subrange(0, i as int)),
        decreases rs.len() - i,
    {
        r.push(rs[i].id);
        i = i + 1;
        assert(r@ =~= recommendation_id_list(rs@.subrange(0, i as int)));
    }
    assert(rs@.subrange(0, rs@.len() as int) =~= rs@);
    r
}

fn learning_ids_of(ls: &Vec<LearningOutcome>) -> (r: Vec<ObjectId>)
    ensures
        r@ == learning_ids(ls@),
{
    let mut r: Vec<ObjectId> = Vec::new();
    let mut i: usize = 0;
    while i < ls.len()
        invariant
            i <= ls@.len(),
            r@ == learning_ids(ls@.subrange(0, i as int)),
        decreases ls.len() - i,
    {
        r.push(ls[i].id);
        i = i + 1;
        assert(r@ =~= learning_ids(ls@.subrange(0, i as int)));
    }
    assert(ls@.subrange(0, ls@.len() as int) =~= ls@);
    r
}

/// Every current object identifier, in pool order.
fn current_ids_of(b: &ContextBundle, hs: &Vec<Hypothesis>, workflows: &Vec<ObjectId>) -> (r: Vec<ObjectId>)
    ensures
        r@ == current_pool(*b, hs@, workflows@),
{
    let mut r = observation_ids_of(&b.observations);
    push_ids(&mut r, &memory_record_ids_of(&b.memory));
    push_ids(&mut r, &knowledge_object_ids_of(&b.knowledge));
    push_ids(&mut r, &evaluation_ids_of(&b.evaluations));
    push_ids(&mut r, &receipt_ids_of(&b.verifications));
    push_ids(&mut r, &hypothesis_ids_of(hs));
    push_ids(&mut r, &recommendation_ids_of(&b.recommendations));
    push_ids(&mut r, &learning_ids_of(&b.learning));
    push_ids(&mut r, workflows);
    r
}

/// Appends the support (or contradiction) cited by the hypotheses.
fn push_hypothesis_evidence(out: &mut Vec<ObjectId>, hs: &Vec<Hypothesis>, supporting: bool)
    ensures
        final(out)@ == old(out)@ + if supporting { hypothesis_support(hs@) } else { hypothesis_contradiction(hs@) },
{
    let mut i: usize = 0;
    while i < hs.len()
        invariant
            i <= hs@.len(),
            out@ == old(out)@ + if supporting {
                hypothesis_support(hs@.subrange(0, i as int))
            } else {
                hypothesis_contradiction(hs@.subrange(0, i as int))
            },
        decreases hs.len() - i,
    {
        let ghost sub = hs@.subrange(0, i + 1);
        assert(sub.drop_last() =~= hs@.subrange(0, i as int));
        if supporting {
            push_ids(out, &hs[i].supporting_evidence);
        } else {
            push_ids(out, &hs[i].contradicting_evidence);
        }
        i = i + 1;
        assert(out@ =~= old(out)@ + if supporting {
            hypothesis_support(hs@.subrange(0, i as int))
        } else {
            hypothesis_contradiction(hs@.subrange(0, i as int))
        });
    }
    assert(hs@.subrange(0, hs@.len() as int) =~= hs@);
}

/// Appends the evidence (or conflicts) cited by the receipts.
fn push_receipt_evidence(out: &mut Vec<ObjectId>, rs: &Vec<VerificationReceipt>, evidence: bool)
    ensures
        final(out)@ == old(out)@ + if evidence { receipt_evidence(rs@) } else { receipt_conflicts(rs@) },
{
    let mut i: usize = 0;
    while i < rs.len()
        invariant
            i <= rs@.len(),
            out@ == old(out)@ + if evidence {
                receipt_evidence(rs@.subrange(0, i as int))
            } else {
                receipt_conflicts(rs@.subrange(0, i as int))
            },
        decreases rs.len() - i,
    {
        let ghost sub = rs@.subrange(0, i + 1);
        assert(sub.drop_last() =~= rs@.subrange(0, i as int));
        if evidence {
            push_ids(out, &rs[i].evidence_ids);
        } else {
            push_ids(out, &rs[i].conflicting_ids);
        }
        i = i + 1;
        assert(out@ =~= old(out)@ + if evidence {
            receipt_evidence(rs@.subrange(0, i as int))
        } else {
            receipt_conflicts(rs@.subrange(0, i as int))
        });
    }
    assert(rs@.subrange(0, rs@.len() as int) =~= rs@);
}

/// The historical objects and source Investigations of the attached
/// contexts.
fn attached_sources(cs: &Vec<RecalledContext>) -> (r: (Vec<ObjectId>, Vec<InvestigationId>))
    ensures
        r.0@ == historical_pool(cs@),
        r.1@ == related_pool(cs@),
{
    let mut objects: Vec<ObjectId> = Vec::new();
    let mut related: Vec<InvestigationId> = Vec::new();
    let mut i: usize = 0;
    while i < cs.len()
        invariant
            i <= cs@.len(),
            objects@ == historical_pool(cs@.subrange(0, i as int)),
            related@ == related_pool(cs@.subrange(0, i as int)),
        decreases cs.len() - i,
    {
        let ghost sub = cs@.subrange(0, i + 1);
        assert(sub.drop_last() =~= cs@.subrange(0, i as int));
        if cs[i].state == RecalledContextState::Attached {
            push_ids(&mut objects, &cs[i].object_ids);
            related.push(cs[i].source_investigation_id);
        }
        i = i + 1;
        assert(objects@ =~= historical_pool(cs@.subrange(0, i as int)));
        assert(related@ =~= related_pool(cs@.subrange(0, i as int)));
    }
    assert(cs@.subrange(0, cs@.len() as int) =~= cs@);
    (objects, related)
}

/// The references for `ids` in one scope form a scoped set of `pool`.
proof fn lemma_scoped(rs: Seq<EvidenceReference>, ids: Seq<ObjectId>, pool: Seq<ObjectId>, scope: EvidenceScope)
    requires
        rs.len() == ids.len(),
        forall|i: int| 0 <= i < rs.len() ==> #[trigger] rs[i] == (EvidenceReference { object_id: ids[i], scope }),
        ascending_ids(ids),
        forall|y: ObjectId| #[trigger] ids.contains(y) <==> pool.contains(y),
    ensures
        scoped_set(rs, pool, scope),
        ref_ids(rs) == ids,
{
    assert(ref_ids(rs) =~= ids);
}

/// Confidence of the targeted Proposal (thousandths).
fn receipts_confidence(rs: &Vec<VerificationReceipt>) -> (c: u64)
    ensures
        c == generated_confidence(rs@),
{
    let mut i: usize = 0;
    while i < rs.len()
        invariant
            i <= rs@.len(),
            forall|q: int| 0 <= q < i ==> (#[trigger] rs@[q]).result != VerificationResult::Pass,
        decreases rs.len() - i,
    {
        if rs[i].result == VerificationResult::Pass {
            return 800;
        }
        i = i + 1;
    }
    if rs.len() == 0 { 550 } else { 650 }
}

/// `prefix` followed by `rest`, as text.
fn prefixed(prefix: &str, rest: &Vec<char>) -> (s: String)
    ensures
        s@ == prefix@ + rest@,
{
    let mut out: Vec<char> = Vec::new();
    push_str(&mut out, prefix);
    push_chars(&mut out, rest);
    to_string(&out)
}

/// The summaries of observations, as strings.
fn observation_summary_list(os: &Vec<Observation>) -> (r: Vec<String>)
    ensures
        r@.map_values(|s: String| s@) == observation_summaries(os@),
{
    let mut r: Vec<String> = Vec::new();
    let mut i: usize = 0;
    while i < os.len()
        invariant
            i <= os@.len(),
            r@.len() == i,
            forall|k: int| 0 <= k < i ==> (#[trigger] r@[k])@ == os@[k].summary@,
        decreases os.len() - i,
    {
        r.push(to_string(&chars_of(os[i].summary.as_str())));
        i = i + 1;
    }
    assert(r@.map_values(|s: String| s@) =~= observation_summaries(os@));
    r
}

/// The summaries of recommendations, as strings.
fn recommendation_summary_list(rs: &Vec<Recommendation>) -> (r: Vec<String>)
    ensures
        r@.map_values(|s: String| s@) == recommendation_summaries(rs@),
{
    let mut r: Vec<String> = Vec::new();
    let mut i: usize = 0;
    while i < rs.len()
        invariant
            i <= rs@.len(),
            r@.len() == i,
            forall|k: int| 0 <= k < i ==> (#[trigger] r@[k])@ == rs@[k].summary@,
        decreases rs.len() - i,
    {
        r.push(to_string(&chars_of(rs[i].summary.as_str())));
        i = i + 1;
    }
    assert(r@.map_values(|s: String| s@) =~= recommendation_summaries(rs@));
    r
}

/// The category text of the Investigation.
fn combined_text_of(inv: &Investigation, b: &ContextBundle) -> (s: String)
    ensures
        s@ == combined_text(*inv, *b),
{
    let mut out: Vec<char> = Vec::new();
    push_str(&mut out, inv.title.as_str());
    push_str(&mut out, " ");
    push_chars(&mut out, &join_strings(&observation_summary_list(&b.observations), " "));
    push_str(&mut out, " ");
    push_chars(&mut out, &join_strings(&recommendation_summary_list(&b.recommendations), " "));
    to_string(&out)
}

/// Assumptions from the unverified hypotheses.
fn unverified_assumptions(hs: &Vec<Hypothesis>) -> (r: Vec<String>) {
    let mut r: Vec<String> = Vec::new();
    let mut i: usize = 0;
    while i < hs.len()
        invariant
            i <= hs@.len(),
        decreases hs.len() - i,
    {
        if contains_str(&chars_of(hs[i].verification_summary.as_str()), "unverified") {
            r.push(prefixed("Unverified hypothesis: ", &chars_of(hs[i].statement.as_str())));
        }
        i = i + 1;
    }
    r
}

/// A generated title or summary never trims to nothing: it starts with a
/// capital letter.
proof fn lemma_head_kept(prefix: Seq<char>, rest: Seq<char>)
    requires
        prefix.len() > 0,
        !whitespace(prefix[0]),
    ensures
        trimmed(prefix + rest).len() > 0,
{
    assert((prefix + rest)[0] == prefix[0]);
    lemma_trimmed_keeps_head(prefix + rest);
}

/// Generates the two alternative Improvement Proposals of Investigation
/// `inv` from its durable context `b`, its hypotheses, the identifiers of
/// its workflow runs and its recalled contexts (only attached ones count as
/// historical evidence). Refused when the trimmed actor is empty. Otherwise
/// a targeted Proposal (small effort) then a shared one (medium effort), in
/// one new alternative group, citing the same current, contradicting and
/// historical evidence; the shared one is eight hundredths less confident.
pub fn generate_improvement_proposals(
    inv: &Investigation,
    b: &ContextBundle,
    hypotheses: &Vec<Hypothesis>,
    workflow_ids: &Vec<ObjectId>,
    contexts: &Vec<RecalledContext>,
    actor: &str,
    now: i64,
) -> (r: Result<Vec<ImprovementProposal>, RivoraError>)
    ensures
        r is Err <==> trimmed(actor@).len() == 0,
        r matches Err(e) ==> e matches RivoraError::Validation { message } && message@ == "proposal generator actor is required"@,
        r matches Ok(ps) ==> {
            &&& ps@.len() == 2
            &&& ps@[0].alternative_group_id is Some
            &&& ps@[1].alternative_group_id == ps@[0].alternative_group_id
            &&& generated_as(ps@[0], 0, *inv, *b, hypotheses@, workflow_ids@, contexts@, actor@)
            &&& generated_as(ps@[1], 1, *inv, *b, hypotheses@, workflow_ids@, contexts@, actor@)
            &&& ps@[0].supporting_evidence@ == ps@[1].supporting_evidence@
            &&& ps@[0].contradicting_evidence@ == ps@[1].contradicting_evidence@
            &&& ps@[0].generation_inputs@ == ps@[1].generation_inputs@
            &&& ps@[0].provenance.recorded_at == now
            &&& ps@[1].provenance.recorded_at == now
        },
{
    let name = trim_chars(&chars_of(actor));
    if name.len() == 0 {
        return Err(RivoraError::validation("proposal generator actor is required"));
    }
    let name = to_string(&name);
    let ghost pool_cur = current_pool(*b, hypotheses@, workflow_ids@);
    let ghost pool_sup = supporting_pool(*b, hypotheses@, workflow_ids@);
    let ghost pool_con = contradicting_pool(*b, hypotheses@);
    let mut current = current_ids_of(b, hypotheses, workflow_ids);
    let mut supporting = current_ids_of(b, hypotheses, workflow_ids);
    dedupe_ids(&mut current);
    push_hypothesis_evidence(&mut supporting, hypotheses, true);
    push_receipt_evidence(&mut supporting, &b.verifications, true);
    assert(supporting@ == pool_sup);
    dedupe_ids(&mut supporting);
    let mut contradicting: Vec<ObjectId> = Vec::new();
    push_hypothesis_evidence(&mut contradicting, hypotheses, false);
    push_receipt_evidence(&mut contradicting, &b.verifications, false);
    assert(contradicting@ =~= pool_con);
    dedupe_ids(&mut contradicting);
    let (historical, related) = attached_sources(contexts);
    let mut input_ids: Vec<ObjectId> = Vec::new();
    push_ids(&mut input_ids, &current);
    push_ids(&mut input_ids, &supporting);
    push_ids(&mut input_ids, &contradicting);
    let ghost raw_inputs = input_ids@;
    dedupe_ids(&mut input_ids);
    let mut inputs = scoped_refs(&input_ids, EvidenceScope::Current);
    let hist_refs = scoped_refs(&historical, EvidenceScope::Historical);
    let mut hi: usize = 0;
    let ghost cur_refs = inputs@;
    while hi < hist_refs.len()
        invariant
            hi <= hist_refs@.len(),
            inputs@ == cur_refs + hist_refs@.subrange(0, hi as int),
        decreases hist_refs.len() - hi,
    {
        inputs.push(hist_refs[hi]);
        hi = hi + 1;
        assert(inputs@ =~= cur_refs + hist_refs@.subrange(0, hi as int));
    }
    assert(hist_refs@.subrange(0, hist_refs@.len() as int) =~= hist_refs@);
    let ghost before_dedupe = inputs@;
    dedupe_refs(&mut inputs);
    proof {
        assert forall|rr: EvidenceReference| #[trigger] inputs@.contains(rr) <==> (
            (rr.scope == EvidenceScope::Current && (pool_sup + pool_con).contains(rr.object_id))
            || (rr.scope == EvidenceScope::Historical && historical_pool(contexts@).contains(rr.object_id))) by {
            if before_dedupe.contains(rr) {
                let q = choose|q: int| 0 <= q < before_dedupe.len() && before_dedupe[q] == rr;
                if q < cur_refs.len() {
                    assert(cur_refs[q] == rr);
                    assert(input_ids@.contains(input_ids@[q]));
                    assert(raw_inputs.contains(rr.object_id));
                    let w = choose|w: int| 0 <= w < raw_inputs.len() && raw_inputs[w] == rr.object_id;
                    if w < current@.len() {
                        assert(current@.contains(current@[w]));
                        assert(pool_cur.contains(rr.object_id));
                        let z = choose|z: int| 0 <= z < pool_cur.len() && pool_cur[z] == rr.object_id;
                        assert(pool_sup[z] == rr.object_id);
                    } else if w < current@.len() + supporting@.len() {
                        assert(supporting@.contains(supporting@[w - current@.len()]));
                        assert(pool_sup.contains(rr.object_id));
                    } else {
                        assert(contradicting@.contains(contradicting@[w - current@.len() - supporting@.len()]));
                        assert(pool_con.contains(rr.object_id));
                    }
                    let ps2 = pool_sup + pool_con;
                    if pool_sup.contains(rr.object_id) {
                        let z = choose|z: int| 0 <= z < pool_sup.len() && pool_sup[z] == rr.object_id;
                        assert(ps2[z] == rr.object_id);
                    } else {
                        let z = choose|z: int| 0 <= z < pool_con.len() && pool_con[z] == rr.object_id;
                        assert(ps2[pool_sup.len() + z] == rr.object_id);
                    }
                } else {
                    assert(hist_refs@[q - cur_refs.len()] == rr);
                    assert(historical@[q - cur_refs.len()] == rr.object_id);
                }
            }
            if rr.scope == EvidenceScope::Current && (pool_sup + pool_con).contains(rr.object_id) {
                let ps2 = pool_sup + pool_con;
                let z = choose|z: int| 0 <= z < ps2.len() && ps2[z] == rr.object_id;
                if z < pool_sup.len() {
                    assert(supporting@.contains(rr.object_id));
                    let w = choose|w: int| 0 <= w < supporting@.len() && supporting@[w] == rr.object_id;
                    assert(raw_inputs[current@.len() + w] == rr.object_id);
                } else {
                    assert(pool_con[z - pool_sup.len()] == rr.object_id);
                    assert(contradicting@.contains(rr.object_id));
                    let w = choose|w: int| 0 <= w < contradicting@.len() && contradicting@[w] == rr.object_id;
                    assert(raw_inputs[current@.len() + supporting@.len() + w] == rr.object_id);
                }
                assert(raw_inputs.contains(rr.object_id));
                assert(input_ids@.contains(rr.object_id));
                let v = choose|v: int| 0 <= v < input_ids@.len() && input_ids@[v] == rr.object_id;
                assert(cur_refs[v] == rr);
                assert(before_dedupe[v] == rr);
            }
            if rr.scope == EvidenceScope::Historical && historical_pool(contexts@).contains(rr.object_id) {
                let v = choose|v: int| 0 <= v < historical@.len() && historical@[v] == rr.object_id;
                assert(hist_refs@[v] == rr);
                assert(before_dedupe[cur_refs.len() + v] == rr);
            }
        }
    }
    let supporting_refs = scoped_refs(&supporting, EvidenceScope::Current);
    let contradicting_refs = scoped_refs(&contradicting, EvidenceScope::Current);
    proof {
        lemma_scoped(supporting_refs@, supporting@, pool_sup, EvidenceScope::Current);
        lemma_scoped(contradicting_refs@, contradicting@, pool_con, EvidenceScope::Current);
    }
    let combined = combined_text_of(inv, b);
    let category = infer_category(combined.as_str());
    let (priority, priority_explanation) = infer_priority(&b.evaluations, &b.observations);
    let subject: String = if b.recommendations.len() > 0 {
        b.recommendations[b.recommendations.len() - 1].summary.clone()
    } else {
        inv.title.clone()
    };
    let clean_subject = chars_of(sanitize_text(subject.as_str()).as_str());
    let confidence = receipts_confidence(&b.verifications);
    let shared_permille: u64 = if confidence >= 80 { confidence - 80 } else { 0 };
    let components = infer_components(&b.observations);
    let assumptions = unverified_assumptions(hypotheses);
    let group_id = fresh_object_id();

    let t_title = prefixed("Add targeted validation for ", &chars_of(inv.title.as_str()));
    let t_summary = prefixed("Add a bounded validation path addressing: ", &clean_subject);
    let mut rationale: Vec<char> = Vec::new();
    push_str(&mut rationale, "Current evidence contains ");
    push_decimal(&mut rationale, supporting_refs.len() as u128);
    push_str(&mut rationale, " supporting and ");
    push_decimal(&mut rationale, contradicting_refs.len() as u128);
    push_str(&mut rationale,
        " contradicting reference(s). The smallest useful change should validate the observed boundary without broad migration.");
    let s_title = prefixed("Introduce a shared validation boundary for ", &chars_of(inv.title.as_str()));
    let s_summary = prefixed("Centralize validation for the affected component while preserving existing interfaces: ", &clean_subject);
    proof {
        reveal_strlit("Add targeted validation for ");
        reveal_strlit("Add a bounded validation path addressing: ");
        reveal_strlit("Introduce a shared validation boundary for ");
        reveal_strlit("Centralize validation for the affected component while preserving existing interfaces: ");
        lemma_head_kept("Add targeted validation for "@, inv.title@);
        lemma_head_kept("Add a bounded validation path addressing: "@, clean_subject@);
        lemma_head_kept("Introduce a shared validation boundary for "@, inv.title@);
        lemma_head_kept("Centralize validation for the affected component while preserving existing interfaces: "@, clean_subject@);
    }
    let t_prov = Provenance::now(name.as_str(), "runtime", now).with_capability("generate_improvement_proposals")
        .with_evidence(crate::ids::copy_object_ids(&current));
    let s_prov = Provenance::now(name.as_str(), "runtime", now).with_capability("generate_improvement_proposals")
        .with_evidence(crate::ids::copy_object_ids(&current));
    let targeted = ImprovementProposal::generated(inv.id, t_title.as_str(), t_summary.as_str(), to_string(&rationale).as_str(),
        category, priority, Confidence::new(confidence), ProposalGenerationMethod::Deterministic, t_prov);
    let shared = ImprovementProposal::generated(inv.id, s_title.as_str(), s_summary.as_str(),
        "A shared boundary may reduce recurrence but has broader scope and verification cost. Evidence and contradictions remain identical to the targeted alternative.",
        category, priority, Confidence::new(shared_permille), ProposalGenerationMethod::Deterministic, s_prov);
    let (mut targeted, mut shared) = match (targeted, shared) {
        (Ok(t), Ok(s)) => (t, s),
        _ => {
            assert(false);
            return Err(RivoraError::validation("proposal generator actor is required"));
        },
    };
    populate_generated(&mut targeted, group_id, priority_explanation.clone(), components.clone(),
        copy_refs(&supporting_refs), copy_refs(&contradicting_refs), copy_refs(&inputs), hypotheses, &b.evaluations,
        &b.verifications, &b.recommendations, copy_investigation_ids(&related), &assumptions, alternative_summaries(),
        ProposalEffort::Small, "targeted_validation_proposal_v1", true);
    populate_generated(&mut shared, group_id, priority_explanation, components, supporting_refs, contradicting_refs,
        inputs, hypotheses, &b.evaluations, &b.verifications, &b.recommendations, related, &assumptions,
        alternative_summaries(), ProposalEffort::Medium, "shared_validation_proposal_v1", false);
    let mut out: Vec<ImprovementProposal> = Vec::new();
    out.push(targeted);
    out.push(shared);
    Ok(out)
}

fn copy_refs(v: &Vec<EvidenceReference>) -> (r: Vec<EvidenceReference>)
    ensures
        r@ == v@,
{
    let mut r: Vec<EvidenceReference> = Vec::new();
    let mut i: usize = 0;
    while i < v.len()
        invariant
            i <= v@.len(),
            r@ == v@.subrange(0, i as int),
        decreases v.len() - i,
    {
        r.push(v[i]);
        i = i + 1;
        assert(r@ =~= v@.subrange(0, i as int));
    }
    assert(v@.subrange(0, v@.len() as int) =~= v@);
    r
}

fn copy_investigation_ids(v: &Vec<InvestigationId>) -> (r: Vec<InvestigationId>)
    ensures
        r@ == v@,
{
    let mut r: Vec<InvestigationId> = Vec::new();
    let mut i: usize = 0;
    while i < v.len()
        invariant
            i <= v@.len(),
            r@ == v@.subrange(0, i as int),
        decreases v.len() - i,
    {
        r.push(v[i]);
        i = i + 1;
        assert(r@ =~= v@.subrange(0, i as int));
    }
    assert(v@.subrange(0, v@.len() as int) =~= v@);
    r
}

} // verus!
