//! The core reasoning pipeline of one Investigation: Knowledge from Memory,
//! Evaluations from Knowledge, Verification Receipts for Evaluations, and a
//! Recommendation from verified Evaluations.

use vstd::prelude::*;
use crate::assess::texts;
use crate::error::RivoraError;
use crate::graph::{lowered_observation_text, observation_text};
use crate::ids::{fresh_object_id, uuid_text, InvestigationId, ObjectId};
use crate::readiness::{any_result, first_risk, first_risk_index, has_result};
use crate::proposal_content::severity_rank;
use crate::trend::receipts_with;
use crate::model::{Confidence, Evaluation, HistoryNote, KnowledgeObject, MemoryRecord, Observation, Provenance, Recommendation, VerificationReceipt};
use crate::text::{contains_seq, contains_str, decimal, join_seqs, push_chars, push_decimal, push_str, to_string};
use crate::vocab::{AssessmentType, KnowledgeKind, ObservationKind, RecommendationStatus, Severity, VerificationResult};

verus! {

/// A Knowledge object as plain values: kind, summary, Memory ids,
/// confidence (thousandths), method, explanation.
pub type KnowledgeView = (KnowledgeKind, Seq<char>, Seq<ObjectId>, u32, Seq<char>, Seq<char>);

/// The plain values of a Knowledge object.
pub open spec fn knowledge_view(k: KnowledgeObject) -> KnowledgeView {
    (k.kind, k.summary@, k.memory_ids@, k.confidence.permille, k.method@, k.explanation@)
}

/// The plain values of Knowledge objects.
pub open spec fn knowledge_views(ks: Seq<KnowledgeObject>) -> Seq<KnowledgeView> {
    ks.map_values(|k: KnowledgeObject| knowledge_view(k))
}

/// The identifiers of Memory records.
pub open spec fn memory_record_ids(ms: Seq<MemoryRecord>) -> Seq<ObjectId> {
    ms.map_values(|m: MemoryRecord| m.id)
}

/// The Observation kinds in alphabetical order of their names.
pub open spec fn activity_order() -> Seq<ObservationKind> {
    seq![
        ObservationKind::ChangedFiles,
        ObservationKind::CheckResult,
        ObservationKind::Commit,
        ObservationKind::Event,
        ObservationKind::Infrastructure,
        ObservationKind::Observability,
        ObservationKind::PullRequest,
        ObservationKind::Repository,
        ObservationKind::TestOutput,
        ObservationKind::UserInput,
        ObservationKind::WorkflowRun,
    ]
}

/// How many observations have a kind.
pub open spec fn kind_count(obs: Seq<Observation>, k: ObservationKind) -> nat
    decreases obs.len(),
{
    if obs.len() == 0 {
        0
    } else {
        kind_count(obs.drop_last(), k) + if obs.last().kind == k { 1nat } else { 0nat }
    }
}

/// `kind×count` for each kind of `order` that occurs, in order.
pub open spec fn activity_parts(obs: Seq<Observation>, order: Seq<ObservationKind>) -> Seq<Seq<char>>
    decreases order.len(),
{
    if order.len() == 0 {
        seq![]
    } else {
        let k = order.last();
        activity_parts(obs, order.drop_last()) + if kind_count(obs, k) > 0 {
            seq![k.text() + "×"@ + decimal(kind_count(obs, k))]
        } else {
            seq![]
        }
    }
}

/// An observation whose lowercased text mentions a failure, an error or a rollback.
pub open spec fn knowledge_failure(o: Observation) -> bool {
    let t = observation_text(o);
    contains_seq(t, "fail"@) || contains_seq(t, "error"@) || contains_seq(t, "rollback"@)
}

/// The identifiers of the failure-related observations, in order.
pub open spec fn failure_ids(obs: Seq<Observation>) -> Seq<ObjectId>
    decreases obs.len(),
{
    if obs.len() == 0 {
        seq![]
    } else if knowledge_failure(obs.last()) {
        failure_ids(obs.drop_last()).push(obs.last().id)
    } else {
        failure_ids(obs.drop_last())
    }
}

/// The Memory records derived from one of these observations, in order.
pub open spec fn memory_from(ms: Seq<MemoryRecord>, obs_ids: Seq<ObjectId>) -> Seq<ObjectId>
    decreases ms.len(),
{
    if ms.len() == 0 {
        seq![]
    } else if obs_ids.contains(ms.last().observation_id) {
        memory_from(ms.drop_last(), obs_ids).push(ms.last().id)
    } else {
        memory_from(ms.drop_last(), obs_ids)
    }
}

/// The correction records, in order.
pub open spec fn correction_ids(ms: Seq<MemoryRecord>) -> Seq<ObjectId>
    decreases ms.len(),
{
    if ms.len() == 0 {
        seq![]
    } else if ms.last().corrects is Some {
        correction_ids(ms.drop_last()).push(ms.last().id)
    } else {
        correction_ids(ms.drop_last())
    }
}

/// The derived Knowledge, in order: summary; activity mix when there are
/// observations; risk signal when some observation mentions a failure;
/// correction pattern when some Memory record is a correction.
pub open spec fn knowledge_spec(ms: Seq<MemoryRecord>, obs: Seq<Observation>) -> Seq<KnowledgeView> {
    let all = memory_record_ids(ms);
    let fails = failure_ids(obs);
    let corrections = correction_ids(ms);
    seq![(
        KnowledgeKind::Summary,
        "Investigation has "@ + decimal(ms.len()) + " memory record(s) from "@ + decimal(obs.len()) + " observation(s)."@,
        all,
        900u32,
        "deterministic_summary_v1"@,
        "Counts Memory and Observations for the Investigation."@,
    )] + (if obs.len() > 0 {
        seq![(
            KnowledgeKind::Activity,
            "Observed activity mix: "@ + join_seqs(activity_parts(obs, activity_order()), ", "@) + "."@,
            all,
            850u32,
            "activity_histogram_v1"@,
            "Histogram of Observation kinds in the Investigation."@,
        )]
    } else {
        seq![]
    }) + (if fails.len() > 0 {
        seq![(
            KnowledgeKind::RiskSignal,
            "Detected "@ + decimal(fails.len()) + " potential failure-related observation(s)."@,
            memory_from(ms, fails),
            750u32,
            "failure_keyword_scan_v1"@,
            "Scans Observation summaries/payloads for failure indicators."@,
        )]
    } else {
        seq![]
    }) + (if corrections.len() > 0 {
        seq![(
            KnowledgeKind::Pattern,
            decimal(corrections.len()) + " correction record(s) refine earlier Memory without rewriting history."@,
            corrections,
            1000u32,
            "correction_scan_v1"@,
            "Identifies append-only correction Memory records."@,
        )]
    } else {
        seq![]
    })
}

/// The provenance of a derivation step.
pub open spec fn step_provenance(p: Provenance, actor: Seq<char>, capability: Seq<char>, evidence: Seq<ObjectId>) -> bool {
    &&& p.actor@ == actor
    &&& p.source@ == "runtime"@
    &&& p.capability is Some
    &&& p.capability->0@ == capability
    &&& p.evidence_ids@ == evidence
}


fn text_string(s: &str) -> (r: String)
    ensures
        r@ == s@,
{
    s.to_owned()
}

/// The identifiers of Memory records.
pub fn memory_record_ids_of(ms: &Vec<MemoryRecord>) -> (r: Vec<ObjectId>)
    ensures
        r@ == memory_record_ids(ms@),
{
    let mut r: Vec<ObjectId> = Vec::new();
    let mut i: usize = 0;
    while i < ms.len()
        invariant
            i <= ms@.len(),
            r@ == memory_record_ids(ms@.subrange(0, i as int)),
        decreases ms.len() - i,
    {
        r.push(ms[i].id);
        i = i + 1;
        assert(r@ =~= memory_record_ids(ms@.subrange(0, i as int)));
    }
    assert(ms@.subrange(0, ms@.len() as int) =~= ms@);
    r
}

/// How many observations have a kind.
fn count_kind(obs: &Vec<Observation>, k: ObservationKind) -> (n: usize)
    ensures
        n == kind_count(obs@, k),
{
    let mut n: usize = 0;
    let mut i: usize = 0;
    while i < obs.len()
        invariant
            i <= obs@.len(),
            n <= i,
            n == kind_count(obs@.subrange(0, i as int), k),
        decreases obs.len() - i,
    {
        assert(obs@.subrange(0, i + 1).drop_last() =~= obs@.subrange(0, i as int));
        if obs[i].kind == k {
            n = n + 1;
        }
        i = i + 1;
    }
    assert(obs@.subrange(0, obs@.len() as int) =~= obs@);
    n
}

/// The activity summary of the observations.
fn activity_summary(obs: &Vec<Observation>) -> (s: String)
    ensures
        s@ == "Observed activity mix: "@ + join_seqs(activity_parts(obs@, activity_order()), ", "@) + "."@,
{
    let order = vec![
        ObservationKind::ChangedFiles,
        ObservationKind::CheckResult,
        ObservationKind::Commit,
        ObservationKind::Event,
        ObservationKind::Infrastructure,
        ObservationKind::Observability,
        ObservationKind::PullRequest,
        ObservationKind::Repository,
        ObservationKind::TestOutput,
        ObservationKind::UserInput,
        ObservationKind::WorkflowRun,
    ];
    assert(order@ == activity_order());
    let mut parts: Vec<Vec<char>> = Vec::new();
    let mut i: usize = 0;
    while i < order.len()
        invariant
            i <= order@.len(),
            order@ == activity_order(),
            parts@.map_values(|p: Vec<char>| p@) == activity_parts(obs@, order@.subrange(0, i as int)),
        decreases order.len() - i,
    {
        let ghost sub = order@.subrange(0, i + 1);
        assert(sub.drop_last() =~= order@.subrange(0, i as int));
        let ghost before = parts@.map_values(|p: Vec<char>| p@);
        let k = order[i];
        let n = count_kind(obs, k);
        if n > 0 {
            let mut part: Vec<char> = Vec::new();
            push_str(&mut part, k.as_str());
            push_str(&mut part, "×");
            push_decimal(&mut part, n as u128);
            parts.push(part);
            assert(parts@.map_values(|p: Vec<char>| p@) =~= before.push(part@));
        }
        i = i + 1;
        assert(parts@.map_values(|p: Vec<char>| p@) =~= activity_parts(obs@, order@.subrange(0, i as int)));
    }
    assert(order@.subrange(0, order@.len() as int) =~= order@);
    let mut out: Vec<char> = Vec::new();
    push_str(&mut out, "Observed activity mix: ");
    let joined = crate::text::join_chars(&parts, ", ");
    push_chars(&mut out, &joined);
    push_str(&mut out, ".");
    to_string(&out)
}

/// Whether an observation mentions a failure, an error or a rollback.
pub fn is_knowledge_failure(o: &Observation) -> (b: bool)
    ensures
        b == knowledge_failure(*o),
{
    let t = lowered_observation_text(o);
    contains_str(&t, "fail") || contains_str(&t, "error") || contains_str(&t, "rollback")
}

/// The identifiers of the failure-related observations.
fn failure_ids_of(obs: &Vec<Observation>) -> (r: Vec<ObjectId>)
    ensures
        r@ == failure_ids(obs@),
{
    let mut r: Vec<ObjectId> = Vec::new();
    let mut i: usize = 0;
    while i < obs.len()
        invariant
            i <= obs@.len(),
            r@ == failure_ids(obs@.subrange(0, i as int)),
        decreases obs.len() - i,
    {
        assert(obs@.subrange(0, i + 1).drop_last() =~= obs@.subrange(0, i as int));
        if is_knowledge_failure(&obs[i]) {
            r.push(obs[i].id);
        }
        i = i + 1;
    }
    assert(obs@.subrange(0, obs@.len() as int) =~= obs@);
    r
}

/// Whether an identifier is in the list.
fn has_id(ids: &Vec<ObjectId>, id: ObjectId) -> (b: bool)
    ensures
        b == ids@.contains(id),
{
    let mut i: usize = 0;
    while i < ids.len()
        invariant
            i <= ids@.len(),
            forall|j: int| 0 <= j < i ==> ids@[j] != id,
        decreases ids.len() - i,
    {
        if ids[i] == id {
            assert(ids@[i as int] == id);
            return true;
        }
        i = i + 1;
    }
    false
}

/// The Memory records derived from these observations.
fn memory_from_of(ms: &Vec<MemoryRecord>, obs_ids: &Vec<ObjectId>) -> (r: Vec<ObjectId>)
    ensures
        r@ == memory_from(ms@, obs_ids@),
{
    let mut r: Vec<ObjectId> = Vec::new();
    let mut i: usize = 0;
    while i < ms.len()
        invariant
            i <= ms@.len(),
            r@ == memory_from(ms@.subrange(0, i as int), obs_ids@),
        decreases ms.len() - i,
    {
        assert(ms@.subrange(0, i + 1).drop_last() =~= ms@.subrange(0, i as int));
        if has_id(obs_ids, ms[i].observation_id) {
            r.push(ms[i].id);
        }
        i = i + 1;
    }
    assert(ms@.subrange(0, ms@.len() as int) =~= ms@);
    r
}

/// The correction records.
fn correction_ids_of(ms: &Vec<MemoryRecord>) -> (r: Vec<ObjectId>)
    ensures
        r@ == correction_ids(ms@),
{
    let mut r: Vec<ObjectId> = Vec::new();
    let mut i: usize = 0;
    while i < ms.len()
        invariant
            i <= ms@.len(),
            r@ == correction_ids(ms@.subrange(0, i as int)),
        decreases ms.len() - i,
    {
        assert(ms@.subrange(0, i + 1).drop_last() =~= ms@.subrange(0, i as int));
        if ms[i].corrects.is_some() {
            r.push(ms[i].id);
        }
        i = i + 1;
    }
    assert(ms@.subrange(0, ms@.len() as int) =~= ms@);
    r
}

fn copy_ids(v: &Vec<ObjectId>) -> (r: Vec<ObjectId>)
    ensures
        r@ == v@,
{
    let mut r: Vec<ObjectId> = Vec::new();
    let mut i: usize = 0;
    while i < v.len()
        invariant
            i <= v@.len(),
            r@ == v@.subrange(0, i as int),
        decreases v.len() - i,
    {
        r.push(v[i]);
        i = i + 1;
        assert(r@ =~= v@.subrange(0, i as int));
    }
    assert(v@.subrange(0, v@.len() as int) =~= v@);
    r
}

/// A provenance for one derivation step.
fn step(actor: &str, capability: &str, evidence: &Vec<ObjectId>, now: i64) -> (p: Provenance)
    ensures
        p.recorded_at == now,
        step_provenance(p, actor@, capability@, evidence@),
{
    Provenance::now(actor, "runtime", now).with_capability(capability).with_evidence(copy_ids(evidence))
}

fn copy_provenance_of(p: &Provenance, Ghost(actor): Ghost<Seq<char>>, Ghost(cap): Ghost<Seq<char>>) -> (q: Provenance)
    requires
        step_provenance(*p, actor, cap, p.evidence_ids@),
    ensures
        step_provenance(q, actor, cap, p.evidence_ids@),
{
    crate::hypotheses::copy_provenance(p)
}

/// Appends one Knowledge object.
fn push_knowledge(
    out: &mut Vec<KnowledgeObject>,
    investigation_id: InvestigationId,
    kind: KnowledgeKind,
    summary: String,
    memory_ids: Vec<ObjectId>,
    permille: u64,
    method: &str,
    explanation: &str,
    provenance: Provenance,
)
    requires
        permille <= 1000,
    ensures
        knowledge_views(final(out)@) == knowledge_views(old(out)@).push(
            (kind, summary@, memory_ids@, permille as u32, method@, explanation@),
        ),
        final(out)@.len() == old(out)@.len() + 1,
        forall|i: int| 0 <= i < old(out)@.len() ==> final(out)@[i] == old(out)@[i],
        final(out)@[old(out)@.len() as int].investigation_id == investigation_id,
        final(out)@[old(out)@.len() as int].provenance == provenance,
{
    let k = KnowledgeObject {
        id: fresh_object_id(),
        investigation_id,
        kind,
        summary,
        memory_ids,
        confidence: Confidence::new(permille),
        method: text_string(method),
        explanation: text_string(explanation),
        provenance,
    };
    out.push(k);
    assert(knowledge_views(out@) =~= knowledge_views(old(out)@).push(knowledge_view(k)));
}

/// Derives Knowledge from the Memory and Observations of an Investigation.
///
/// Fails when there is no Memory. Otherwise returns the summary, then the
/// activity mix (when there are observations), the risk signal (when some
/// observation mentions a failure, an error or a rollback; it cites the
/// Memory records derived from those observations) and the correction
/// pattern (when some Memory record is a correction).
pub fn derive_knowledge(
    investigation_id: InvestigationId,
    memory: &Vec<MemoryRecord>,
    observations: &Vec<Observation>,
    actor: &str,
    now: i64,
) -> (r: Result<Vec<KnowledgeObject>, RivoraError>)
    ensures
        memory@.len() == 0 <==> r is Err,
        r matches Err(e) ==> e matches RivoraError::Precondition { message } && message@
            == "cannot derive knowledge without memory"@,
        r matches Ok(ks) ==> {
            &&& knowledge_views(ks@) == knowledge_spec(memory@, observations@)
            &&& forall|i: int| 0 <= i < ks@.len() ==> (#[trigger] ks@[i]).investigation_id == investigation_id
                && step_provenance(ks@[i].provenance, actor@, "derive_knowledge"@, memory_record_ids(memory@))
        },
{
    if memory.len() == 0 {
        return Err(RivoraError::precondition("cannot derive knowledge without memory"));
    }
    let all = memory_record_ids_of(memory);
    let provenance = step(actor, "derive_knowledge", &all, now);
    let ghost cap = "derive_knowledge"@;
    let mut ks: Vec<KnowledgeObject> = Vec::new();
    let mut summary: Vec<char> = Vec::new();
    push_str(&mut summary, "Investigation has ");
    push_decimal(&mut summary, memory.len() as u128);
    push_str(&mut summary, " memory record(s) from ");
    push_decimal(&mut summary, observations.len() as u128);
    push_str(&mut summary, " observation(s).");
    push_knowledge(
        &mut ks,
        investigation_id,
        KnowledgeKind::Summary,
        to_string(&summary),
        copy_ids(&all),
        900,
        "deterministic_summary_v1",
        "Counts Memory and Observations for the Investigation.",
        copy_provenance_of(&provenance, Ghost(actor@), Ghost(cap)),
    );
    let ghost v1 = knowledge_views(ks@);
    if observations.len() > 0 {
        push_knowledge(
            &mut ks,
            investigation_id,
            KnowledgeKind::Activity,
            activity_summary(observations),
            copy_ids(&all),
            850,
            "activity_histogram_v1",
            "Histogram of Observation kinds in the Investigation.",
            copy_provenance_of(&provenance, Ghost(actor@), Ghost(cap)),
        );
    }
    let ghost v2 = knowledge_views(ks@);
    let fails = failure_ids_of(observations);
    if fails.len() > 0 {
        let mut text: Vec<char> = Vec::new();
        push_str(&mut text, "Detected ");
        push_decimal(&mut text, fails.len() as u128);
        push_str(&mut text, " potential failure-related observation(s).");
        push_knowledge(
            &mut ks,
            investigation_id,
            KnowledgeKind::RiskSignal,
            to_string(&text),
            memory_from_of(memory, &fails),
            750,
            "failure_keyword_scan_v1",
            "Scans Observation summaries/payloads for failure indicators.",
            copy_provenance_of(&provenance, Ghost(actor@), Ghost(cap)),
        );
    }
    let ghost v3 = knowledge_views(ks@);
    let corrections = correction_ids_of(memory);
    if corrections.len() > 0 {
        let mut text: Vec<char> = Vec::new();
        push_decimal(&mut text, corrections.len() as u128);
        push_str(&mut text, " correction record(s) refine earlier Memory without rewriting history.");
        push_knowledge(
            &mut ks,
            investigation_id,
            KnowledgeKind::Pattern,
            to_string(&text),
            corrections,
            1000,
            "correction_scan_v1",
            "Identifies append-only correction Memory records.",
            copy_provenance_of(&provenance, Ghost(actor@), Ghost(cap)),
        );
    }
    assert(knowledge_views(ks@) =~= knowledge_spec(memory@, observations@));
    Ok(ks)
}


/// An Evaluation as plain values: type, summary, severity, confidence
/// (thousandths), Knowledge ids, Memory ids, explanation.
pub type EvaluationView = (AssessmentType, Seq<char>, Severity, u32, Seq<ObjectId>, Seq<ObjectId>, Seq<char>);

/// The plain values of an Evaluation.
pub open spec fn evaluation_view(e: Evaluation) -> EvaluationView {
    (e.assessment_type, e.summary@, e.severity, e.confidence.permille, e.knowledge_ids@, e.memory_ids@, e.explanation@)
}

/// The plain values of Evaluations.
pub open spec fn evaluation_views(es: Seq<Evaluation>) -> Seq<EvaluationView> {
    es.map_values(|e: Evaluation| evaluation_view(e))
}

/// The identifiers of Knowledge objects.
pub open spec fn knowledge_object_ids(ks: Seq<KnowledgeObject>) -> Seq<ObjectId> {
    ks.map_values(|k: KnowledgeObject| k.id)
}

/// Some Knowledge object is a RiskSignal.
pub open spec fn any_risk_signal(ks: Seq<KnowledgeObject>) -> bool {
    exists|i: int| 0 <= i < ks.len() && #[trigger] ks[i].kind == KnowledgeKind::RiskSignal
}

/// The Evaluations of the current Knowledge and Memory, in order: risk,
/// health, confidence, readiness.
pub open spec fn evaluations_spec(ks: Seq<KnowledgeObject>, ms: Seq<MemoryRecord>) -> Seq<EvaluationView> {
    let kids = knowledge_object_ids(ks);
    let mids = memory_record_ids(ms);
    let risk = any_risk_signal(ks);
    let n = ms.len();
    seq![
        if risk {
            (AssessmentType::Risk, "Elevated risk: failure-related signals present in Memory."@, Severity::High, 800u32, kids, mids,
                "Knowledge contains RiskSignal derived from failure indicators in Observations."@)
        } else if n == 0 {
            (AssessmentType::Risk, "Insufficient Memory to assess risk confidently."@, Severity::Medium, 300u32, kids, mids,
                "No Memory records available."@)
        } else {
            (AssessmentType::Risk, "No strong failure signals detected in current Knowledge."@, Severity::Low, 700u32, kids, mids,
                "Activity Knowledge present without RiskSignal objects."@)
        },
        (
            AssessmentType::Health,
            "Investigation health based on "@ + decimal(n) + " Memory record(s) and "@ + decimal(ks.len()) + " Knowledge object(s)."@,
            if n == 0 { Severity::Medium } else if n <= 2 { Severity::Low } else if risk { Severity::Medium } else { Severity::Info },
            750u32,
            kids,
            mids,
            "Health is derived from Memory volume and presence of risk signals."@,
        ),
        (
            AssessmentType::Confidence,
            "Understanding confidence is "@ + (if n >= 3 { "85"@ } else if n >= 1 { "60"@ } else { "20"@ })
                + "% based on available evidence volume."@,
            Severity::Info,
            if n >= 3 { 850u32 } else if n >= 1 { 600u32 } else { 200u32 },
            kids,
            mids,
            "Confidence scales with the number of Memory records supporting Knowledge."@,
        ),
        (
            AssessmentType::Readiness,
            if risk { "Ready for verification of failure-related conclusions."@ } else { "Ready for routine verification of current understanding."@ },
            if risk { Severity::Medium } else { Severity::Low },
            700u32,
            kids,
            mids,
            "Readiness indicates whether Evaluation outputs are prepared for Verification."@,
        ),
    ]
}

/// The identifiers of Knowledge objects (exec).
pub fn knowledge_object_ids_of(ks: &Vec<KnowledgeObject>) -> (r: Vec<ObjectId>)
    ensures
        r@ == knowledge_object_ids(ks@),
{
    let mut r: Vec<ObjectId> = Vec::new();
    let mut i: usize = 0;
    while i < ks.len()
        invariant
            i <= ks@.len(),
            r@ == knowledge_object_ids(ks@.subrange(0, i as int)),
        decreases ks.len() - i,
    {
        r.push(ks[i].id);
        i = i + 1;
        assert(r@ =~= knowledge_object_ids(ks@.subrange(0, i as int)));
    }
    assert(ks@.subrange(0, ks@.len() as int) =~= ks@);
    r
}

/// Whether some Knowledge object is a RiskSignal (exec).
fn has_risk_signal_of(ks: &Vec<KnowledgeObject>) -> (b: bool)
    ensures
        b == any_risk_signal(ks@),
{
    let mut i: usize = 0;
    while i < ks.len()
        invariant
            i <= ks@.len(),
            forall|j: int| 0 <= j < i ==> #[trigger] ks@[j].kind != KnowledgeKind::RiskSignal,
        decreases ks.len() - i,
    {
        if ks[i].kind == KnowledgeKind::RiskSignal {
            return true;
        }
        i = i + 1;
    }
    false
}

/// Appends one Evaluation.
fn push_evaluation(
    out: &mut Vec<Evaluation>,
    investigation_id: InvestigationId,
    assessment_type: AssessmentType,
    summary: String,
    severity: Severity,
    permille: u64,
    knowledge_ids: &Vec<ObjectId>,
    memory_ids: &Vec<ObjectId>,
    explanation: &str,
    provenance: Provenance,
)
    requires
        permille <= 1000,
    ensures
        evaluation_views(final(out)@) == evaluation_views(old(out)@).push(
            (assessment_type, summary@, severity, permille as u32, knowledge_ids@, memory_ids@, explanation@),
        ),
        final(out)@.len() == old(out)@.len() + 1,
        forall|i: int| 0 <= i < old(out)@.len() ==> final(out)@[i] == old(out)@[i],
        final(out)@[old(out)@.len() as int].investigation_id == investigation_id,
        final(out)@[old(out)@.len() as int].provenance == provenance,
        !final(out)@[old(out)@.len() as int].history.influenced,
{
    let e = Evaluation {
        id: fresh_object_id(),
        investigation_id,
        assessment_type,
        summary,
        severity,
        confidence: Confidence::new(permille),
        knowledge_ids: copy_ids(knowledge_ids),
        memory_ids: copy_ids(memory_ids),
        explanation: text_string(explanation),
        provenance,
        history: HistoryNote::none(),
    };
    out.push(e);
    assert(evaluation_views(out@) =~= evaluation_views(old(out)@).push(evaluation_view(e)));
}

/// Evaluates the Knowledge and Memory of an Investigation: risk, health,
/// confidence and readiness, each citing every Knowledge object and Memory
/// record. Fails when there is no Knowledge.
pub fn evaluate_investigation(
    investigation_id: InvestigationId,
    knowledge: &Vec<KnowledgeObject>,
    memory: &Vec<MemoryRecord>,
    actor: &str,
    now: i64,
) -> (r: Result<Vec<Evaluation>, RivoraError>)
    ensures
        knowledge@.len() == 0 <==> r is Err,
        r matches Err(e) ==> e matches RivoraError::Precondition { message } && message@ == "cannot evaluate without knowledge"@,
        r matches Ok(es) ==> {
            &&& evaluation_views(es@) == evaluations_spec(knowledge@, memory@)
            &&& forall|i: int| 0 <= i < es@.len() ==> (#[trigger] es@[i]).investigation_id == investigation_id
                && step_provenance(es@[i].provenance, actor@, "evaluate_investigation"@, knowledge_object_ids(knowledge@))
                && !es@[i].history.influenced
        },
{
    if knowledge.len() == 0 {
        return Err(RivoraError::precondition("cannot evaluate without knowledge"));
    }
    let kids = knowledge_object_ids_of(knowledge);
    let mids = memory_record_ids_of(memory);
    let risk = has_risk_signal_of(knowledge);
    let n = memory.len();
    let provenance = step(actor, "evaluate_investigation", &kids, now);
    let ghost cap = "evaluate_investigation"@;
    let mut es: Vec<Evaluation> = Vec::new();
    if risk {
        push_evaluation(&mut es, investigation_id, AssessmentType::Risk, text_string("Elevated risk: failure-related signals present in Memory."),
            Severity::High, 800, &kids, &mids, "Knowledge contains RiskSignal derived from failure indicators in Observations.",
            copy_provenance_of(&provenance, Ghost(actor@), Ghost(cap)));
    } else if n == 0 {
        push_evaluation(&mut es, investigation_id, AssessmentType::Risk, text_string("Insufficient Memory to assess risk confidently."),
            Severity::Medium, 300, &kids, &mids, "No Memory records available.", copy_provenance_of(&provenance, Ghost(actor@), Ghost(cap)));
    } else {
        push_evaluation(&mut es, investigation_id, AssessmentType::Risk, text_string("No strong failure signals detected in current Knowledge."),
            Severity::Low, 700, &kids, &mids, "Activity Knowledge present without RiskSignal objects.",
            copy_provenance_of(&provenance, Ghost(actor@), Ghost(cap)));
    }
    let mut health: Vec<char> = Vec::new();
    push_str(&mut health, "Investigation health based on ");
    push_decimal(&mut health, n as u128);
    push_str(&mut health, " Memory record(s) and ");
    push_decimal(&mut health, knowledge.len() as u128);
    push_str(&mut health, " Knowledge object(s).");
    let health_severity = if n == 0 {
        Severity::Medium
    } else if n <= 2 {
        Severity::Low
    } else if risk {
        Severity::Medium
    } else {
        Severity::Info
    };
    push_evaluation(&mut es, investigation_id, AssessmentType::Health, to_string(&health), health_severity, 750, &kids, &mids,
        "Health is derived from Memory volume and presence of risk signals.", copy_provenance_of(&provenance, Ghost(actor@), Ghost(cap)));
    let mut conf: Vec<char> = Vec::new();
    push_str(&mut conf, "Understanding confidence is ");
    push_str(&mut conf, if n >= 3 { "85" } else if n >= 1 { "60" } else { "20" });
    push_str(&mut conf, "% based on available evidence volume.");
    let conf_value: u64 = if n >= 3 { 850 } else if n >= 1 { 600 } else { 200 };
    push_evaluation(&mut es, investigation_id, AssessmentType::Confidence, to_string(&conf), Severity::Info, conf_value, &kids, &mids,
        "Confidence scales with the number of Memory records supporting Knowledge.", copy_provenance_of(&provenance, Ghost(actor@), Ghost(cap)));
    let readiness = if risk {
        text_string("Ready for verification of failure-related conclusions.")
    } else {
        text_string("Ready for routine verification of current understanding.")
    };
    push_evaluation(&mut es, investigation_id, AssessmentType::Readiness, readiness, if risk { Severity::Medium } else { Severity::Low }, 700,
        &kids, &mids, "Readiness indicates whether Evaluation outputs are prepared for Verification.", provenance);
    assert(evaluation_views(es@) =~= evaluations_spec(knowledge@, memory@));
    Ok(es)
}


/// `i` is the first Evaluation with this identifier.
pub open spec fn first_with_id_at(es: Seq<Evaluation>, id: ObjectId, i: int) -> bool {
    &&& 0 <= i < es.len()
    &&& es[i].id == id
    &&& forall|j: int| 0 <= j < i ==> #[trigger] es[j].id != id
}

/// The first Evaluation with this identifier, if any.
pub open spec fn evaluation_with_id(es: Seq<Evaluation>, id: ObjectId) -> Option<Evaluation> {
    if exists|i: int| first_with_id_at(es, id, i) {
        Some(es[choose|i: int| first_with_id_at(es, id, i)])
    } else {
        None
    }
}

/// The Evaluation a verification checks: the one named, else the first Risk
/// Evaluation, else the last.
pub open spec fn selected_evaluation(es: Seq<Evaluation>, id: Option<ObjectId>) -> Option<Evaluation> {
    match id {
        Some(x) => evaluation_with_id(es, x),
        None => if es.len() == 0 {
            None
        } else {
            match first_risk(es) {
                Some(e) => Some(e),
                None => Some(es.last()),
            }
        },
    }
}

/// Every Memory record the Evaluation cites exists, and it cites at least one.
pub open spec fn evidence_present(e: Evaluation, ms: Seq<MemoryRecord>) -> bool {
    e.memory_ids@.len() > 0 && forall|j: int| 0 <= j < e.memory_ids@.len() ==> memory_record_ids(ms).contains(#[trigger] e.memory_ids@[j])
}

/// The verification outcome of an Evaluation: result, confidence
/// (thousandths) and reason.
pub open spec fn verification_outcome(e: Evaluation, ms: Seq<MemoryRecord>) -> (VerificationResult, u32, Seq<char>) {
    if evidence_present(e, ms) {
        (
            VerificationResult::Pass,
            if e.confidence.permille * 95 / 100 > 1000 { 1000u32 } else { (e.confidence.permille * 95 / 100) as u32 },
            "Verified evaluation '"@ + e.summary@ + "': all "@ + decimal(e.memory_ids@.len())
                + " cited Memory record(s) exist in Investigation."@,
        )
    } else if ms.len() == 0 {
        (VerificationResult::Fail, 900, "Verification failed: no Memory evidence available."@)
    } else {
        (VerificationResult::Inconclusive, 400, "Verification inconclusive: evaluation lacks resolvable Memory evidence links."@)
    }
}

/// Position of the first Evaluation with this identifier.
fn find_evaluation(es: &Vec<Evaluation>, id: ObjectId) -> (r: Option<usize>)
    ensures
        match r {
            Some(i) => first_with_id_at(es@, id, i as int) && evaluation_with_id(es@, id) == Some(es@[i as int]),
            None => evaluation_with_id(es@, id) is None,
        },
{
    let mut i: usize = 0;
    while i < es.len()
        invariant
            i <= es@.len(),
            forall|j: int| 0 <= j < i ==> #[trigger] es@[j].id != id,
        decreases es.len() - i,
    {
        if es[i].id == id {
            assert(first_with_id_at(es@, id, i as int));
            let ghost c = choose|x: int| first_with_id_at(es@, id, x);
            assert(c == i as int) by {
                if c < i {
                    assert(es@[c].id != id);
                } else if c > i {
                    assert(es@[i as int].id != id);
                }
            }
            return Some(i);
        }
        i = i + 1;
    }
    assert(!exists|x: int| first_with_id_at(es@, id, x)) by {
        if exists|x: int| first_with_id_at(es@, id, x) {
            let x = choose|x: int| first_with_id_at(es@, id, x);
            assert(es@[x].id != id);
        }
    }
    None
}

/// Whether every cited Memory record exists (and one is cited).
fn evidence_present_of(e: &Evaluation, ms: &Vec<MemoryRecord>) -> (b: bool)
    ensures
        b == evidence_present(*e, ms@),
{
    if e.memory_ids.len() == 0 {
        return false;
    }
    let all = memory_record_ids_of(ms);
    let mut j: usize = 0;
    while j < e.memory_ids.len()
        invariant
            j <= e.memory_ids@.len(),
            all@ == memory_record_ids(ms@),
            forall|q: int| 0 <= q < j ==> all@.contains(#[trigger] e.memory_ids@[q]),
        decreases e.memory_ids.len() - j,
    {
        if !has_id(&all, e.memory_ids[j]) {
            return false;
        }
        j = j + 1;
    }
    true
}

/// Verifies an Evaluation against the Memory of its Investigation: the one
/// named by `evaluation_id`, else the first Risk Evaluation, else the last.
///
/// It passes when every Memory record the Evaluation cites exists (at 95% of
/// the Evaluation's confidence), fails when there is no Memory at all, and is
/// inconclusive otherwise. Errors: no Evaluations; the named one is unknown.
pub fn verify_conclusion(
    investigation_id: InvestigationId,
    evaluations: &Vec<Evaluation>,
    evaluation_id: Option<ObjectId>,
    memory: &Vec<MemoryRecord>,
    actor: &str,
    now: i64,
) -> (r: Result<VerificationReceipt, RivoraError>)
    ensures
        evaluations@.len() == 0 ==> (r matches Err(RivoraError::Precondition { message }) && message@ == "cannot verify without evaluations"@),
        evaluations@.len() > 0 && selected_evaluation(evaluations@, evaluation_id) is None ==> (r matches Err(
            RivoraError::ObjectNotFound { kind, id },
        ) && kind@ == "evaluation"@ && id@ == uuid_text(evaluation_id->0.value)),
        r is Ok <==> selected_evaluation(evaluations@, evaluation_id) is Some,
        r matches Ok(receipt) ==> {
            let e = selected_evaluation(evaluations@, evaluation_id)->0;
            let outcome = verification_outcome(e, memory@);
            &&& receipt.investigation_id == investigation_id
            &&& receipt.evaluation_id == e.id
            &&& receipt.claim@ == e.summary@
            &&& receipt.result == outcome.0
            &&& receipt.confidence.permille == outcome.1
            &&& receipt.reason@ == outcome.2
            &&& receipt.evidence_ids@ == e.memory_ids@
            &&& receipt.conflicting_ids@.len() == 0
            &&& step_provenance(receipt.provenance, actor@, "verify_conclusion"@, e.memory_ids@)
        },
{
    if evaluations.len() == 0 {
        return Err(RivoraError::precondition("cannot verify without evaluations"));
    }
    let index = match evaluation_id {
        Some(id) => match find_evaluation(evaluations, id) {
            Some(i) => i,
            None => {
                return Err(RivoraError::not_found("evaluation", id));
            },
        },
        None => match first_risk_index(evaluations) {
            Some(i) => i,
            None => evaluations.len() - 1,
        },
    };
    let e = &evaluations[index];
    assert(selected_evaluation(evaluations@, evaluation_id) == Some(*e));
    let present = evidence_present_of(e, memory);
    let (result, permille, reason): (VerificationResult, u64, String) = if present {
        let mut text: Vec<char> = Vec::new();
        push_str(&mut text, "Verified evaluation '");
        push_str(&mut text, e.summary.as_str());
        push_str(&mut text, "': all ");
        push_decimal(&mut text, e.memory_ids.len() as u128);
        push_str(&mut text, " cited Memory record(s) exist in Investigation.");
        (VerificationResult::Pass, e.confidence.permille as u64 * 95 / 100, to_string(&text))
    } else if memory.len() == 0 {
        (VerificationResult::Fail, 900, text_string("Verification failed: no Memory evidence available."))
    } else {
        (VerificationResult::Inconclusive, 400, text_string("Verification inconclusive: evaluation lacks resolvable Memory evidence links."))
    };
    let confidence = Confidence::new(permille);
    assert(confidence.permille == verification_outcome(*e, memory@).1);
    let evidence = copy_ids(&e.memory_ids);
    let provenance = step(actor, "verify_conclusion", &evidence, now);
    Ok(VerificationReceipt {
        id: fresh_object_id(),
        investigation_id,
        evaluation_id: e.id,
        claim: text_string(e.summary.as_str()),
        result,
        confidence,
        evidence_ids: evidence,
        conflicting_ids: Vec::new(),
        reason,
        provenance,
    })
}


/// Historical context attached to an Investigation, summarized for
/// reasoning: which recalled contexts and source Investigations, and the
/// notes, warnings and successes they carry (labeled historical).
pub struct HistoricalInfluence {
    pub context_ids: Vec<ObjectId>,
    pub source_investigation_ids: Vec<InvestigationId>,
    pub notes: Vec<String>,
    pub warnings: Vec<String>,
    pub successes: Vec<String>,
}

/// Each item preceded by `prefix`, concatenated.
pub open spec fn prefixed(prefix: Seq<char>, items: Seq<Seq<char>>) -> Seq<char>
    decreases items.len(),
{
    if items.len() == 0 {
        seq![]
    } else {
        prefixed(prefix, items.drop_last()) + prefix + items.last()
    }
}

/// What historical influence appends to a Recommendation's rationale.
pub open spec fn recommendation_history_text(inf: HistoricalInfluence) -> Seq<char> {
    " Historical intelligence (labeled; prior conclusions are not repeated automatically):"@ + prefixed(" WARNING: "@, texts(inf.warnings@))
        + prefixed(" NOTE: "@, texts(inf.successes@)) + prefixed(" "@, texts(inf.notes@))
}

/// What historical influence appends to an Evaluation's explanation.
pub open spec fn evaluation_history_text(inf: HistoricalInfluence) -> Seq<char> {
    " Historical context (labeled; not current fact): current assessment remains based on this Investigation's Memory and Knowledge."@
        + prefixed(" "@, texts(inf.notes@) + texts(inf.warnings@) + texts(inf.successes@))
}

/// A whole percentage of a confidence in thousandths (half up).
pub open spec fn percent_of(permille: u32) -> nat {
    ((permille + 5) / 10) as nat
}

/// The Recommendation's summary, rationale (before history) and confidence.
pub open spec fn recommendation_base(es: Seq<Evaluation>, rs: Seq<VerificationReceipt>) -> (Seq<char>, Seq<char>, u32) {
    match first_risk(es) {
        Some(risk) => if severity_rank(risk.severity) >= 3 {
            (
                "Investigate and remediate failure signals before promoting changes."@,
                "Risk evaluation reports severity "@ + risk.severity.text() + " with confidence "@ + decimal(percent_of(risk.confidence.permille))
                    + "%. Verification receipts: "@ + decimal(receipts_with(rs, VerificationResult::Pass)) + " pass, "@ + decimal(
                    receipts_with(rs, VerificationResult::Fail),
                ) + " fail, "@ + decimal(receipts_with(rs, VerificationResult::Inconclusive))
                    + " inconclusive. Recommendation is a proposal and must be approved by a human."@,
                if risk.confidence.permille * 9 / 10 > 1000 { 1000u32 } else { (risk.confidence.permille * 9 / 10) as u32 },
            )
        } else {
            (
                "Continue monitoring; no urgent remediation indicated."@,
                "Risk severity is "@ + risk.severity.text()
                    + ". Verified evaluations support a low-urgency posture. This recommendation remains a proposal."@,
                650u32,
            )
        },
        None => (
            "Review Investigation evidence and decide next engineering action."@,
            "No risk evaluation available; generic review recommendation based on verified assessments."@,
            500u32,
        ),
    }
}

/// The identifiers of Evaluations.
pub open spec fn evaluation_ids(es: Seq<Evaluation>) -> Seq<ObjectId> {
    es.map_values(|e: Evaluation| e.id)
}

/// The identifiers of receipts.
pub open spec fn receipt_id_list(rs: Seq<VerificationReceipt>) -> Seq<ObjectId> {
    rs.map_values(|r: VerificationReceipt| r.id)
}

/// `h` records the influence (or none when no context is attached).
pub open spec fn history_of(h: HistoryNote, inf: HistoricalInfluence, with_outcomes: bool) -> bool {
    if inf.context_ids@.len() == 0 {
        !h.influenced && h.recalled_context_ids@.len() == 0 && h.source_investigation_ids@.len() == 0 && h.warnings@.len() == 0
            && h.successes@.len() == 0
    } else {
        &&& h.influenced
        &&& h.recalled_context_ids@ == inf.context_ids@
        &&& h.source_investigation_ids@ == inf.source_investigation_ids@
        &&& texts(h.warnings@) == if with_outcomes { texts(inf.warnings@) } else { seq![] }
        &&& texts(h.successes@) == if with_outcomes { texts(inf.successes@) } else { seq![] }
    }
}

/// Pushes each item preceded by `prefix`.
fn push_prefixed(out: &mut Vec<char>, prefix: &str, items: &Vec<String>)
    ensures
        final(out)@ == old(out)@ + prefixed(prefix@, texts(items@)),
{
    let mut i: usize = 0;
    while i < items.len()
        invariant
            i <= items@.len(),
            out@ == old(out)@ + prefixed(prefix@, texts(items@.subrange(0, i as int))),
        decreases items.len() - i,
    {
        let ghost sub = items@.subrange(0, i + 1);
        assert(texts(sub).drop_last() =~= texts(items@.subrange(0, i as int)));
        push_str(out, prefix);
        push_str(out, items[i].as_str());
        i = i + 1;
        assert(out@ =~= old(out)@ + prefixed(prefix@, texts(items@.subrange(0, i as int))));
    }
    assert(items@.subrange(0, items@.len() as int) =~= items@);
}

fn copy_strings(v: &Vec<String>) -> (r: Vec<String>)
    ensures
        texts(r@) == texts(v@),
{
    let mut r: Vec<String> = Vec::new();
    let mut i: usize = 0;
    while i < v.len()
        invariant
            i <= v@.len(),
            texts(r@) == texts(v@.subrange(0, i as int)),
        decreases v.len() - i,
    {
        let ghost before = texts(r@);
        let t = text_string(v[i].as_str());
        r.push(t);
        assert(texts(r@) =~= before.push(t@));
        assert(v@.subrange(0, i + 1) =~= v@.subrange(0, i as int).push(v@[i as int]));
        assert(texts(v@.subrange(0, i + 1)) =~= texts(v@.subrange(0, i as int)).push(v@[i as int]@));
        i = i + 1;
    }
    assert(v@.subrange(0, v@.len() as int) =~= v@);
    r
}

fn copy_investigation_ids(v: &Vec<InvestigationId>) -> (r: Vec<InvestigationId>)
    ensures
        r@ == v@,
{
    let mut r: Vec<InvestigationId> = Vec::new();
    let mut i: usize = 0;
    while i < v.len()
        invariant
            i <= v@.len(),
            r@ == v@.subrange(0, i as int),
        decreases v.len() - i,
    {
        r.push(v[i]);
        i = i + 1;
        assert(r@ =~= v@.subrange(0, i as int));
    }
    assert(v@.subrange(0, v@.len() as int) =~= v@);
    r
}

/// The history note of an influence.
fn history_note(inf: &HistoricalInfluence, with_outcomes: bool) -> (h: HistoryNote)
    ensures
        history_of(h, *inf, with_outcomes),
{
    if inf.context_ids.len() == 0 {
        return HistoryNote::none();
    }
    let warnings: Vec<String> = if with_outcomes { copy_strings(&inf.warnings) } else { Vec::new() };
    let successes: Vec<String> = if with_outcomes { copy_strings(&inf.successes) } else { Vec::new() };
    assert(texts(warnings@) =~= if with_outcomes { texts(inf.warnings@) } else { seq![] });
    assert(texts(successes@) =~= if with_outcomes { texts(inf.successes@) } else { seq![] });
    HistoryNote {
        influenced: true,
        recalled_context_ids: copy_ids(&inf.context_ids),
        source_investigation_ids: copy_investigation_ids(&inf.source_investigation_ids),
        warnings,
        successes,
    }
}

/// Records historical influence on a Recommendation: when context is
/// attached, the rationale gains the labeled warnings, successes and notes,
/// and the history note names the contexts.
pub fn apply_historical_influence_to_recommendation(recommendation: &mut Recommendation, influence: &HistoricalInfluence)
    ensures
        influence.context_ids@.len() == 0 ==> *final(recommendation) == *old(recommendation),
        influence.context_ids@.len() > 0 ==> {
            &&& final(recommendation).rationale@ == old(recommendation).rationale@ + recommendation_history_text(*influence)
            &&& history_of(final(recommendation).history, *influence, true)
            &&& final(recommendation).id == old(recommendation).id
            &&& final(recommendation).summary == old(recommendation).summary
            &&& final(recommendation).evaluation_ids == old(recommendation).evaluation_ids
            &&& final(recommendation).verification_ids == old(recommendation).verification_ids
            &&& final(recommendation).confidence == old(recommendation).confidence
            &&& final(recommendation).provenance == old(recommendation).provenance
            &&& final(recommendation).investigation_id == old(recommendation).investigation_id
            &&& final(recommendation).status == old(recommendation).status
        },
{
    if influence.context_ids.len() == 0 {
        return;
    }
    recommendation.history = history_note(influence, true);
    let mut text: Vec<char> = Vec::new();
    push_str(&mut text, recommendation.rationale.as_str());
    push_str(&mut text, " Historical intelligence (labeled; prior conclusions are not repeated automatically):");
    push_prefixed(&mut text, " WARNING: ", &influence.warnings);
    push_prefixed(&mut text, " NOTE: ", &influence.successes);
    push_prefixed(&mut text, " ", &influence.notes);
    recommendation.rationale = to_string(&text);
    assert(recommendation.rationale@ =~= old(recommendation).rationale@ + recommendation_history_text(*influence));
}

/// Records historical influence on an Evaluation: when context is attached,
/// the explanation gains the labeled notes, warnings and successes, and the
/// history note names the contexts.
pub fn apply_historical_influence_to_evaluation(evaluation: &mut Evaluation, influence: &HistoricalInfluence)
    ensures
        influence.context_ids@.len() == 0 ==> *final(evaluation) == *old(evaluation),
        influence.context_ids@.len() > 0 ==> {
            &&& final(evaluation).explanation@ == old(evaluation).explanation@ + evaluation_history_text(*influence)
            &&& history_of(final(evaluation).history, *influence, false)
            &&& final(evaluation).id == old(evaluation).id
            &&& final(evaluation).summary == old(evaluation).summary
            &&& final(evaluation).severity == old(evaluation).severity
            &&& final(evaluation).confidence == old(evaluation).confidence
            &&& final(evaluation).assessment_type == old(evaluation).assessment_type
            &&& final(evaluation).memory_ids == old(evaluation).memory_ids
            &&& final(evaluation).knowledge_ids == old(evaluation).knowledge_ids
        },
{
    if influence.context_ids.len() == 0 {
        return;
    }
    evaluation.history = history_note(influence, false);
    let mut text: Vec<char> = Vec::new();
    push_str(&mut text, evaluation.explanation.as_str());
    push_str(
        &mut text,
        " Historical context (labeled; not current fact): current assessment remains based on this Investigation's Memory and Knowledge.",
    );
    let ghost before = text@;
    push_prefixed(&mut text, " ", &influence.notes);
    push_prefixed(&mut text, " ", &influence.warnings);
    push_prefixed(&mut text, " ", &influence.successes);
    proof {
        lemma_prefixed_concat(" "@, texts(influence.notes@), texts(influence.warnings@));
        lemma_prefixed_concat(" "@, texts(influence.notes@) + texts(influence.warnings@), texts(influence.successes@));
    }
    evaluation.explanation = to_string(&text);
    assert(evaluation.explanation@ =~= old(evaluation).explanation@ + evaluation_history_text(*influence));
}

/// Prefixing distributes over concatenation.
proof fn lemma_prefixed_concat(p: Seq<char>, a: Seq<Seq<char>>, b: Seq<Seq<char>>)
    ensures
        prefixed(p, a + b) == prefixed(p, a) + prefixed(p, b),
    decreases b.len(),
{
    if b.len() == 0 {
        assert(a + b =~= a);
    } else {
        lemma_prefixed_concat(p, a, b.drop_last());
        assert((a + b).drop_last() =~= a + b.drop_last());
        assert((a + b).last() == b.last());
    }
}


/// Recommending is refused when no verification passed and one failed.
pub open spec fn recommendation_blocked(rs: Seq<VerificationReceipt>) -> bool {
    !has_result(rs, VerificationResult::Pass) && has_result(rs, VerificationResult::Fail)
}

pub fn evaluation_ids_of(es: &Vec<Evaluation>) -> (r: Vec<ObjectId>)
    ensures
        r@ == evaluation_ids(es@),
{
    let mut r: Vec<ObjectId> = Vec::new();
    let mut i: usize = 0;
    while i < es.len()
        invariant
            i <= es@.len(),
            r@ == evaluation_ids(es@.subrange(0, i as int)),
        decreases es.len() - i,
    {
        r.push(es[i].id);
        i = i + 1;
        assert(r@ =~= evaluation_ids(es@.subrange(0, i as int)));
    }
    assert(es@.subrange(0, es@.len() as int) =~= es@);
    r
}

fn receipt_ids_list(rs: &Vec<VerificationReceipt>) -> (r: Vec<ObjectId>)
    ensures
        r@ == receipt_id_list(rs@),
{
    let mut r: Vec<ObjectId> = Vec::new();
    let mut i: usize = 0;
    while i < rs.len()
        invariant
            i <= rs@.len(),
            r@ == receipt_id_list(rs@.subrange(0, i as int)),
        decreases rs.len() - i,
    {
        r.push(rs[i].id);
        i = i + 1;
        assert(r@ =~= receipt_id_list(rs@.subrange(0, i as int)));
    }
    assert(rs@.subrange(0, rs@.len() as int) =~= rs@);
    r
}

/// The summary, rationale and confidence of the Recommendation (exec).
fn recommendation_parts(es: &Vec<Evaluation>, rs: &Vec<VerificationReceipt>) -> (r: (String, String, u64))
    ensures
        (r.0@, r.1@, r.2 as u32) == recommendation_base(es@, rs@),
        r.2 <= 1000,
{
    match first_risk_index(es) {
        Some(i) => {
            let risk = &es[i];
            match risk.severity {
                Severity::High | Severity::Critical => {
                    let mut text: Vec<char> = Vec::new();
                    push_str(&mut text, "Risk evaluation reports severity ");
                    push_str(&mut text, risk.severity.as_str());
                    push_str(&mut text, " with confidence ");
                    push_decimal(&mut text, (risk.confidence.permille as u128 + 5) / 10);
                    push_str(&mut text, "%. Verification receipts: ");
                    push_decimal(&mut text, crate::trend::count_results(rs, VerificationResult::Pass) as u128);
                    push_str(&mut text, " pass, ");
                    push_decimal(&mut text, crate::trend::count_results(rs, VerificationResult::Fail) as u128);
                    push_str(&mut text, " fail, ");
                    push_decimal(&mut text, crate::trend::count_results(rs, VerificationResult::Inconclusive) as u128);
                    push_str(&mut text, " inconclusive. Recommendation is a proposal and must be approved by a human.");
                    let scaled = risk.confidence.permille as u64 * 9 / 10;
                    let c = if scaled > 1000 { 1000 } else { scaled };
                    (text_string("Investigate and remediate failure signals before promoting changes."), to_string(&text), c)
                },
                _ => {
                    let mut text: Vec<char> = Vec::new();
                    push_str(&mut text, "Risk severity is ");
                    push_str(&mut text, risk.severity.as_str());
                    push_str(&mut text, ". Verified evaluations support a low-urgency posture. This recommendation remains a proposal.");
                    (text_string("Continue monitoring; no urgent remediation indicated."), to_string(&text), 650)
                },
            }
        },
        None => (
            text_string("Review Investigation evidence and decide next engineering action."),
            text_string("No risk evaluation available; generic review recommendation based on verified assessments."),
            500,
        ),
    }
}

/// Generates the evidence-backed Recommendation of an Investigation from its
/// Evaluations and Verification Receipts, noting attached historical
/// context. The Recommendation is a proposal only; it is refused when no
/// verification passed and one failed.
pub fn generate_recommendation(
    investigation_id: InvestigationId,
    evaluations: &Vec<Evaluation>,
    receipts: &Vec<VerificationReceipt>,
    influence: &HistoricalInfluence,
    actor: &str,
    now: i64,
) -> (r: Result<Recommendation, RivoraError>)
    ensures
        recommendation_blocked(receipts@) <==> r is Err,
        r matches Err(e) ==> e matches RivoraError::Precondition { message } && message@
            == "cannot recommend when all verifications failed"@,
        r matches Ok(rec) ==> {
            let base = recommendation_base(evaluations@, receipts@);
            &&& rec.investigation_id == investigation_id
            &&& rec.status == RecommendationStatus::Proposed
            &&& rec.summary@ == base.0
            &&& rec.rationale@ == base.1 + if influence.context_ids@.len() > 0 { recommendation_history_text(*influence) } else { seq![] }
            &&& rec.confidence.permille == base.2
            &&& rec.evaluation_ids@ == evaluation_ids(evaluations@)
            &&& rec.verification_ids@ == receipt_id_list(receipts@)
            &&& step_provenance(rec.provenance, actor@, "generate_recommendation"@, evaluation_ids(evaluations@) + receipt_id_list(receipts@))
            &&& history_of(rec.history, *influence, true)
        },
{
    let passed = any_result(receipts, VerificationResult::Pass);
    let failed = any_result(receipts, VerificationResult::Fail);
    if !passed && failed {
        return Err(RivoraError::precondition("cannot recommend when all verifications failed"));
    }
    let eids = evaluation_ids_of(evaluations);
    let rids = receipt_ids_list(receipts);
    let mut evidence = copy_ids(&eids);
    let mut more = copy_ids(&rids);
    evidence.append(&mut more);
    let provenance = step(actor, "generate_recommendation", &evidence, now);
    let (summary, rationale, permille) = recommendation_parts(evaluations, receipts);
    let mut rec = Recommendation {
        id: fresh_object_id(),
        investigation_id,
        summary,
        rationale,
        status: RecommendationStatus::Proposed,
        evaluation_ids: eids,
        verification_ids: rids,
        confidence: Confidence::new(permille),
        provenance,
        history: HistoryNote::none(),
    };
    apply_historical_influence_to_recommendation(&mut rec, influence);
    proof {
        if influence.context_ids@.len() == 0 {
            assert(rec.rationale@ =~= recommendation_base(evaluations@, receipts@).1 + seq![]);
        }
    }
    Ok(rec)
}


/// Every Evaluation derived from non-empty Memory passes verification
/// against that same Memory: it cites every Memory record, and each exists.
pub proof fn lemma_evaluations_verify(ks: Seq<KnowledgeObject>, ms: Seq<MemoryRecord>, es: Seq<Evaluation>)
    requires
        ms.len() > 0,
        evaluation_views(es) == evaluations_spec(ks, ms),
    ensures
        forall|i: int| 0 <= i < es.len() ==> (#[trigger] verification_outcome(es[i], ms)).0 == VerificationResult::Pass,
{
    let sp = evaluations_spec(ks, ms);
    let mids = memory_record_ids(ms);
    assert(sp.len() == 4);
    assert(sp[0].5 == mids && sp[1].5 == mids && sp[2].5 == mids && sp[3].5 == mids);
    assert(es.len() == 4) by {
        assert(evaluation_views(es).len() == es.len());
    }
    assert forall|i: int| 0 <= i < es.len() implies (#[trigger] verification_outcome(es[i], ms)).0 == VerificationResult::Pass by {
        assert(evaluation_view(es[i]) == evaluation_views(es)[i]);
        assert(evaluation_view(es[i]) == sp[i]);
        assert(es[i].memory_ids@ == sp[i].5);
        assert forall|j: int| 0 <= j < es[i].memory_ids@.len() implies memory_record_ids(ms).contains(#[trigger] es[i].memory_ids@[j]) by {
            assert(memory_record_ids(ms)[j] == es[i].memory_ids@[j]);
        }
    }
}

/// The Memory records derived from some observations are Memory records.
proof fn lemma_memory_from_subset(ms: Seq<MemoryRecord>, ids: Seq<ObjectId>)
    ensures
        forall|x: ObjectId| memory_from(ms, ids).contains(x) ==> #[trigger] memory_record_ids(ms).contains(x),
    decreases ms.len(),
{
    if ms.len() > 0 {
        lemma_memory_from_subset(ms.drop_last(), ids);
        assert forall|x: ObjectId| memory_from(ms, ids).contains(x) implies #[trigger] memory_record_ids(ms).contains(x) by {
            let init = memory_record_ids(ms.drop_last());
            assert(memory_record_ids(ms) =~= init.push(ms.last().id));
            if memory_from(ms.drop_last(), ids).contains(x) {
                assert(init.contains(x));
                let k = choose|k: int| 0 <= k < init.len() && init[k] == x;
                assert(memory_record_ids(ms)[k] == x);
            } else {
                assert(x == ms.last().id);
                assert(memory_record_ids(ms)[ms.len() - 1] == x);
            }
        }
    }
}

/// Correction records are Memory records.
proof fn lemma_corrections_subset(ms: Seq<MemoryRecord>)
    ensures
        forall|x: ObjectId| correction_ids(ms).contains(x) ==> #[trigger] memory_record_ids(ms).contains(x),
    decreases ms.len(),
{
    if ms.len() > 0 {
        lemma_corrections_subset(ms.drop_last());
        assert forall|x: ObjectId| correction_ids(ms).contains(x) implies #[trigger] memory_record_ids(ms).contains(x) by {
            let init = memory_record_ids(ms.drop_last());
            assert(memory_record_ids(ms) =~= init.push(ms.last().id));
            if correction_ids(ms.drop_last()).contains(x) {
                assert(init.contains(x));
                let k = choose|k: int| 0 <= k < init.len() && init[k] == x;
                assert(memory_record_ids(ms)[k] == x);
            } else {
                assert(x == ms.last().id);
                assert(memory_record_ids(ms)[ms.len() - 1] == x);
            }
        }
    }
}

/// Derived Knowledge cites only Memory records of the Investigation.
pub proof fn lemma_knowledge_cites_memory(ms: Seq<MemoryRecord>, obs: Seq<Observation>)
    ensures
        forall|i: int, x: ObjectId| 0 <= i < knowledge_spec(ms, obs).len() && (#[trigger] knowledge_spec(ms, obs)[i]).2.contains(x)
            ==> #[trigger] memory_record_ids(ms).contains(x),
{
    lemma_memory_from_subset(ms, failure_ids(obs));
    lemma_corrections_subset(ms);
}

} // verus!
