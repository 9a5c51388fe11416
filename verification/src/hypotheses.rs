//! Ranked, explainable hypotheses from current and historical evidence.

use vstd::prelude::*;
use crate::forecast::{ci_observation_ids, risk_signal_ids, risk_signal_ids_of, ci_observation_ids_of};
use crate::graph::{lowered_observation_text, observation_text};
use crate::ids::{fresh_object_id, InvestigationId, ObjectId};
use crate::model::{Confidence, Evaluation, Hypothesis, KnowledgeObject, MemoryRecord, Observation, Provenance};
use crate::readiness::{any_risk_signal, has_risk_signal, is_ci_kind, low_risk_ids, low_risk_ids_of, memory_ids, memory_ids_of};
use crate::text::{contains_seq, contains_str};
use crate::vocab::{HypothesisStatus, ObservationKind};

verus! {

/// A hypothesis as plain values: statement, status, confidence (thousandths),
/// supporting and contradicting evidence, related Investigations, method and
/// verification summary.
pub type HypothesisDraft = (
    Seq<char>,
    HypothesisStatus,
    u32,
    Seq<ObjectId>,
    Seq<ObjectId>,
    Seq<InvestigationId>,
    Seq<char>,
    Seq<char>,
);

/// The plain values of a hypothesis, without its identity and rank.
pub open spec fn draft_of(h: Hypothesis) -> HypothesisDraft {
    (
        h.statement@,
        h.status,
        h.confidence.permille,
        h.supporting_evidence@,
        h.contradicting_evidence@,
        h.related_investigations@,
        h.method@,
        h.verification_summary@,
    )
}

/// CheckResult, TestOutput, WorkflowRun or Observability.
pub open spec fn is_signal_kind(k: ObservationKind) -> bool {
    k == ObservationKind::CheckResult || k == ObservationKind::TestOutput || k == ObservationKind::WorkflowRun
        || k == ObservationKind::Observability
}

/// Infrastructure or Observability.
pub open spec fn is_environment_kind(k: ObservationKind) -> bool {
    k == ObservationKind::Infrastructure || k == ObservationKind::Observability
}

/// An observation whose lowercased text signals a failure: it mentions a
/// failure, an error, a crash or a timeout, or it is a check, test, workflow
/// or observability signal that mentions an alert.
pub open spec fn failure_observation(o: Observation) -> bool {
    let t = observation_text(o);
    contains_seq(t, "fail"@) || contains_seq(t, "error"@) || contains_seq(t, "crash"@) || contains_seq(t, "timeout"@)
        || (is_signal_kind(o.kind) && (contains_seq(t, "fail"@) || contains_seq(t, "error"@) || contains_seq(t, "alert"@)))
}

/// The failure-signalling observations, in order.
pub open spec fn failure_observations(obs: Seq<Observation>) -> Seq<Observation>
    decreases obs.len(),
{
    if obs.len() == 0 {
        seq![]
    } else if failure_observation(obs.last()) {
        failure_observations(obs.drop_last()).push(obs.last())
    } else {
        failure_observations(obs.drop_last())
    }
}

/// Ids of the Infrastructure/Observability observations, in order.
pub open spec fn environment_observation_ids(obs: Seq<Observation>) -> Seq<ObjectId>
    decreases obs.len(),
{
    if obs.len() == 0 {
        seq![]
    } else if is_environment_kind(obs.last().kind) {
        environment_observation_ids(obs.drop_last()).push(obs.last().id)
    } else {
        environment_observation_ids(obs.drop_last())
    }
}

/// Ids of a list of observations.
pub open spec fn observation_ids(obs: Seq<Observation>) -> Seq<ObjectId> {
    obs.map_values(|o: Observation| o.id)
}

/// One draft when the condition holds, none otherwise.
pub open spec fn draft_if(c: bool, d: HypothesisDraft) -> Seq<HypothesisDraft> {
    if c { seq![d] } else { seq![] }
}

/// The failure-signal hypothesis, present when there is a RiskSignal or a
/// failure-signalling observation.
pub open spec fn failure_draft(
    k: Seq<KnowledgeObject>,
    obs: Seq<Observation>,
    ms: Seq<MemoryRecord>,
    es: Seq<Evaluation>,
    related: Seq<InvestigationId>,
) -> HypothesisDraft {
    let failures = failure_observations(obs);
    (
        "A recent failure signal (CI, test, or operational error) is central to the problem."@,
        if low_risk_ids(es).len() == 0 { HypothesisStatus::Supported } else { HypothesisStatus::Inconclusive },
        if failures.len() >= 2 { 750u32 } else if failures.len() >= 1 { 600u32 } else { 450u32 },
        risk_signal_ids(k) + observation_ids(failures) + memory_ids(ms, 5),
        low_risk_ids(es),
        related,
        "failure_signal_scan_v1"@,
        "unverified — requires Verification Receipt"@,
    )
}

/// The CI hypothesis, present when there is a CheckResult or WorkflowRun.
pub open spec fn ci_draft(obs: Seq<Observation>, related: Seq<InvestigationId>) -> HypothesisDraft {
    (
        "CI or delivery pipeline state is implicated and should be inspected before promotion."@,
        HypothesisStatus::Proposed,
        550,
        ci_observation_ids(obs),
        seq![],
        related,
        "ci_observation_presence_v1"@,
        "unverified"@,
    )
}

/// The environment hypothesis, present when there is an Infrastructure or
/// Observability observation.
pub open spec fn environment_draft(obs: Seq<Observation>, related: Seq<InvestigationId>) -> HypothesisDraft {
    (
        "Infrastructure or observability signals indicate an environmental contribution."@,
        HypothesisStatus::Proposed,
        500,
        environment_observation_ids(obs),
        seq![],
        related,
        "infra_obs_signal_v1"@,
        "unverified"@,
    )
}

/// The recall hypothesis, present when similar Investigations were found.
pub open spec fn recall_draft(related: Seq<InvestigationId>) -> HypothesisDraft {
    (
        "This situation resembles prior Investigations; historical outcomes may inform verification order."@,
        HypothesisStatus::Proposed,
        400,
        seq![],
        seq![],
        related,
        "similar_investigation_recall_v1"@,
        "historical context only — not current fact"@,
    )
}

/// The evidence-gap hypothesis, used when no other applies.
pub open spec fn gap_draft(ms: Seq<MemoryRecord>) -> HypothesisDraft {
    (
        "Insufficient failure signals; the leading uncertainty is incomplete evidence rather than a known defect."@,
        HypothesisStatus::Inconclusive,
        350,
        memory_ids(ms, 3),
        seq![],
        seq![],
        "evidence_gap_v1"@,
        "unverified"@,
    )
}

/// Some observation is a CheckResult or WorkflowRun.
pub open spec fn has_ci(obs: Seq<Observation>) -> bool {
    exists|i: int| 0 <= i < obs.len() && is_ci_kind(#[trigger] obs[i].kind)
}

/// Some observation is an Infrastructure or Observability one.
pub open spec fn has_environment(obs: Seq<Observation>) -> bool {
    exists|i: int| 0 <= i < obs.len() && is_environment_kind(#[trigger] obs[i].kind)
}

/// The signal-driven hypotheses, in order: failure, CI, environment, recall.
pub open spec fn signal_drafts(
    k: Seq<KnowledgeObject>,
    obs: Seq<Observation>,
    ms: Seq<MemoryRecord>,
    es: Seq<Evaluation>,
    related: Seq<InvestigationId>,
) -> Seq<HypothesisDraft> {
    draft_if(has_risk_signal(k) || failure_observations(obs).len() > 0, failure_draft(k, obs, ms, es, related))
        + draft_if(has_ci(obs), ci_draft(obs, related))
        + draft_if(has_environment(obs), environment_draft(obs, related))
        + draft_if(related.len() > 0, recall_draft(related))
}

/// The hypotheses in rank order: the signal-driven ones, or the evidence-gap
/// hypothesis alone when none applies.
pub open spec fn hypothesis_drafts(
    k: Seq<KnowledgeObject>,
    obs: Seq<Observation>,
    ms: Seq<MemoryRecord>,
    es: Seq<Evaluation>,
    related: Seq<InvestigationId>,
) -> Seq<HypothesisDraft> {
    let s = signal_drafts(k, obs, ms, es, related);
    if s.len() == 0 { seq![gap_draft(ms)] } else { s }
}

/// The plain values of a list of hypotheses.
pub open spec fn drafts_of(hs: Seq<Hypothesis>) -> Seq<HypothesisDraft> {
    hs.map_values(|h: Hypothesis| draft_of(h))
}

/// Every hypothesis was recorded for `actor` through the runtime by the
/// hypothesis capability.
pub open spec fn recorded_by(hs: Seq<Hypothesis>, actor: Seq<char>) -> bool {
    forall|i: int|
        0 <= i < hs.len() ==> (#[trigger] hs[i]).provenance.actor@ == actor && hs[i].provenance.source@ == "runtime"@
            && hs[i].provenance.capability is Some && hs[i].provenance.capability->0@ == "generate_hypotheses"@
}

/// Every hypothesis belongs to the Investigation and is ranked by position, from 1.
pub open spec fn ranked_for(hs: Seq<Hypothesis>, id: InvestigationId) -> bool {
    forall|i: int| 0 <= i < hs.len() ==> (#[trigger] hs[i]).rank == i + 1 && hs[i].investigation_id == id
}


fn text_string(s: &str) -> (r: String)
    ensures
        r@ == s@,
{
    s.to_owned()
}

/// Whether an observation signals a failure.
pub fn is_failure_observation(o: &Observation) -> (b: bool)
    ensures
        b == failure_observation(*o),
{
    let t = lowered_observation_text(o);
    let fail = contains_str(&t, "fail");
    let error = contains_str(&t, "error");
    let crash = contains_str(&t, "crash");
    let timeout = contains_str(&t, "timeout");
    let k = o.kind;
    let signal = k == ObservationKind::CheckResult || k == ObservationKind::TestOutput || k == ObservationKind::WorkflowRun
        || k == ObservationKind::Observability;
    fail || error || crash || timeout || (signal && (fail || error || contains_str(&t, "alert")))
}

/// Ids and count of the failure-signalling observations.
pub fn failure_observation_ids(obs: &Vec<Observation>) -> (r: Vec<ObjectId>)
    ensures
        r@ == observation_ids(failure_observations(obs@)),
        r@.len() == failure_observations(obs@).len(),
{
    let mut r: Vec<ObjectId> = Vec::new();
    let mut i: usize = 0;
    while i < obs.len()
        invariant
            i <= obs@.len(),
            r@ == observation_ids(failure_observations(obs@.subrange(0, i as int))),
        decreases obs.len() - i,
    {
        let ghost before = failure_observations(obs@.subrange(0, i as int));
        assert(obs@.subrange(0, i + 1).drop_last() =~= obs@.subrange(0, i as int));
        if is_failure_observation(&obs[i]) {
            r.push(obs[i].id);
            assert(observation_ids(before.push(obs@[i as int])) =~= observation_ids(before).push(obs@[i as int].id));
        }
        i = i + 1;
    }
    assert(obs@.subrange(0, obs@.len() as int) =~= obs@);
    r
}

/// Ids of the Infrastructure/Observability observations, in order.
pub fn environment_observation_ids_of(obs: &Vec<Observation>) -> (r: Vec<ObjectId>)
    ensures
        r@ == environment_observation_ids(obs@),
{
    let mut r: Vec<ObjectId> = Vec::new();
    let mut i: usize = 0;
    while i < obs.len()
        invariant
            i <= obs@.len(),
            r@ == environment_observation_ids(obs@.subrange(0, i as int)),
        decreases obs.len() - i,
    {
        assert(obs@.subrange(0, i + 1).drop_last() =~= obs@.subrange(0, i as int));
        if obs[i].kind == ObservationKind::Infrastructure || obs[i].kind == ObservationKind::Observability {
            r.push(obs[i].id);
        }
        i = i + 1;
    }
    assert(obs@.subrange(0, obs@.len() as int) =~= obs@);
    r
}

fn copy_ids(v: &Vec<InvestigationId>) -> (r: Vec<InvestigationId>)
    ensures
        r@ == v@,
{
    let mut r: Vec<InvestigationId> = Vec::new();
    let mut i: usize = 0;
    while i < v.len()
        invariant
            i <= v@.len(),
            r@ == v@.subrange(0, i as int),
        decreases v.len() - i,
    {
        r.push(v[i]);
        i = i + 1;
        assert(r@ =~= v@.subrange(0, i as int));
    }
    assert(v@.subrange(0, v@.len() as int) =~= v@);
    r
}

pub fn copy_provenance(p: &Provenance) -> (q: Provenance)
    ensures
        q.actor@ == p.actor@,
        q.source@ == p.source@,
        q.capability is Some <==> p.capability is Some,
        q.capability is Some ==> q.capability->0@ == p.capability->0@,
        q.evidence_ids@ == p.evidence_ids@,
        q.recorded_at == p.recorded_at,
{
    let mut evidence_ids: Vec<ObjectId> = Vec::new();
    let mut i: usize = 0;
    while i < p.evidence_ids.len()
        invariant
            i <= p.evidence_ids@.len(),
            evidence_ids@ == p.evidence_ids@.subrange(0, i as int),
        decreases p.evidence_ids.len() - i,
    {
        evidence_ids.push(p.evidence_ids[i]);
        i = i + 1;
        assert(evidence_ids@ =~= p.evidence_ids@.subrange(0, i as int));
    }
    assert(p.evidence_ids@.subrange(0, p.evidence_ids@.len() as int) =~= p.evidence_ids@);
    Provenance {
        actor: p.actor.as_str().to_owned(),
        source: p.source.as_str().to_owned(),
        capability: match &p.capability {
            Some(c) => Some(c.as_str().to_owned()),
            None => None,
        },
        evidence_ids,
        recorded_at: p.recorded_at,
    }
}

/// Appends a hypothesis ranked after those already present.
fn add_hypothesis(
    hs: &mut Vec<Hypothesis>,
    investigation_id: InvestigationId,
    statement: &str,
    status: HypothesisStatus,
    permille: u64,
    supporting_evidence: Vec<ObjectId>,
    contradicting_evidence: Vec<ObjectId>,
    related_investigations: Vec<InvestigationId>,
    method: &str,
    verification_summary: &str,
    provenance: &Provenance,
)
    requires
        old(hs)@.len() < 8,
        permille <= 1000,
        ranked_for(old(hs)@, investigation_id),
        recorded_by(old(hs)@, provenance.actor@),
        provenance.source@ == "runtime"@,
        provenance.capability is Some && provenance.capability->0@ == "generate_hypotheses"@,
    ensures
        drafts_of(final(hs)@) == drafts_of(old(hs)@).push(
            (statement@, status, permille as u32, supporting_evidence@, contradicting_evidence@, related_investigations@,
                method@, verification_summary@),
        ),
        ranked_for(final(hs)@, investigation_id),
        recorded_by(final(hs)@, provenance.actor@),
{
    let rank = (hs.len() + 1) as u32;
    let h = Hypothesis {
        id: fresh_object_id(),
        investigation_id,
        statement: text_string(statement),
        status,
        confidence: Confidence::new(permille),
        supporting_evidence,
        contradicting_evidence,
        related_investigations,
        method: text_string(method),
        verification_summary: text_string(verification_summary),
        rank,
        provenance: copy_provenance(provenance),
    };
    hs.push(h);
    assert(drafts_of(hs@) =~= drafts_of(old(hs)@).push(draft_of(h)));
}


/// Generates ranked hypotheses for one Investigation from its Knowledge,
/// Memory, Observations and Evaluations, and the similar Investigations
/// found for it (`related`).
///
/// The failure-signal hypothesis comes first when there is a RiskSignal or a
/// failure-signalling observation; then the CI, environment and recall
/// hypotheses when their evidence exists. When none applies, the single
/// hypothesis names the evidence gap. Ranks run from 1 in that order.
pub fn generate_hypotheses(
    investigation_id: InvestigationId,
    knowledge: &Vec<KnowledgeObject>,
    memory: &Vec<MemoryRecord>,
    observations: &Vec<Observation>,
    evaluations: &Vec<Evaluation>,
    related: &Vec<InvestigationId>,
    actor: &str,
    now: i64,
) -> (hs: Vec<Hypothesis>)
    ensures
        drafts_of(hs@) == hypothesis_drafts(knowledge@, observations@, memory@, evaluations@, related@),
        ranked_for(hs@, investigation_id),
        recorded_by(hs@, actor@),
        1 <= hs@.len() <= 4,
{
    let provenance = Provenance::now(actor, "runtime", now).with_capability("generate_hypotheses");
    let mut hs: Vec<Hypothesis> = Vec::new();
    assert(drafts_of(hs@) =~= Seq::<HypothesisDraft>::empty());
    let has_risk = any_risk_signal(knowledge);
    let failure_ids = failure_observation_ids(observations);
    if has_risk || failure_ids.len() > 0 {
        let mut supporting = risk_signal_ids_of(knowledge);
        let mut f = failure_ids;
        let failures = f.len();
        supporting.append(&mut f);
        let mut m = memory_ids_of(memory, 5);
        supporting.append(&mut m);
        let contradicting = low_risk_ids_of(evaluations);
        let permille: u64 = if failures >= 2 { 750 } else if failures >= 1 { 600 } else { 450 };
        let status = if contradicting.len() == 0 { HypothesisStatus::Supported } else { HypothesisStatus::Inconclusive };
        add_hypothesis(
            &mut hs,
            investigation_id,
            "A recent failure signal (CI, test, or operational error) is central to the problem.",
            status,
            permille,
            supporting,
            contradicting,
            copy_ids(related),
            "failure_signal_scan_v1",
            "unverified — requires Verification Receipt",
            &provenance,
        );
    }
    let ghost d1 = drafts_of(hs@);
    assert(d1 =~= draft_if(
        has_risk_signal(knowledge@) || failure_observations(observations@).len() > 0,
        failure_draft(knowledge@, observations@, memory@, evaluations@, related@),
    ));
    let ci_ids = ci_observation_ids_of(observations);
    if ci_ids.len() > 0 {
        add_hypothesis(
            &mut hs,
            investigation_id,
            "CI or delivery pipeline state is implicated and should be inspected before promotion.",
            HypothesisStatus::Proposed,
            550,
            ci_ids,
            Vec::new(),
            copy_ids(related),
            "ci_observation_presence_v1",
            "unverified",
            &provenance,
        );
    }
    let ghost d2 = drafts_of(hs@);
    proof {
        lemma_ci_ids_nonempty(observations@);
    }
    assert(d2 =~= d1 + draft_if(has_ci(observations@), ci_draft(observations@, related@)));
    let env_ids = environment_observation_ids_of(observations);
    if env_ids.len() > 0 {
        add_hypothesis(
            &mut hs,
            investigation_id,
            "Infrastructure or observability signals indicate an environmental contribution.",
            HypothesisStatus::Proposed,
            500,
            env_ids,
            Vec::new(),
            copy_ids(related),
            "infra_obs_signal_v1",
            "unverified",
            &provenance,
        );
    }
    let ghost d3 = drafts_of(hs@);
    proof {
        lemma_environment_ids_nonempty(observations@);
    }
    assert(d3 =~= d2 + draft_if(has_environment(observations@), environment_draft(observations@, related@)));
    if related.len() > 0 {
        add_hypothesis(
            &mut hs,
            investigation_id,
            "This situation resembles prior Investigations; historical outcomes may inform verification order.",
            HypothesisStatus::Proposed,
            400,
            Vec::new(),
            Vec::new(),
            copy_ids(related),
            "similar_investigation_recall_v1",
            "historical context only — not current fact",
            &provenance,
        );
    }
    assert(drafts_of(hs@) =~= d3 + draft_if(related@.len() > 0, recall_draft(related@)));
    assert(drafts_of(hs@) == signal_drafts(knowledge@, observations@, memory@, evaluations@, related@));
    if hs.len() == 0 {
        add_hypothesis(
            &mut hs,
            investigation_id,
            "Insufficient failure signals; the leading uncertainty is incomplete evidence rather than a known defect.",
            HypothesisStatus::Inconclusive,
            350,
            memory_ids_of(memory, 3),
            Vec::new(),
            Vec::new(),
            "evidence_gap_v1",
            "unverified",
            &provenance,
        );
        assert(drafts_of(hs@) =~= seq![gap_draft(memory@)]);
    }
    hs
}

/// The CI ids are empty exactly when there is no CI observation.
proof fn lemma_ci_ids_nonempty(obs: Seq<Observation>)
    ensures
        ci_observation_ids(obs).len() > 0 <==> has_ci(obs),
    decreases obs.len(),
{
    if obs.len() > 0 {
        lemma_ci_ids_nonempty(obs.drop_last());
        if has_ci(obs.drop_last()) {
            let i = choose|i: int| 0 <= i < obs.drop_last().len() && is_ci_kind(#[trigger] obs.drop_last()[i].kind);
            assert(is_ci_kind(obs[i].kind));
        }
        if has_ci(obs) && !is_ci_kind(obs.last().kind) {
            let i = choose|i: int| 0 <= i < obs.len() && is_ci_kind(#[trigger] obs[i].kind);
            assert(is_ci_kind(obs.drop_last()[i].kind));
        }
        if is_ci_kind(obs.last().kind) {
            assert(is_ci_kind(obs[obs.len() - 1].kind));
        }
    }
}

/// The environment ids are empty exactly when there is no such observation.
proof fn lemma_environment_ids_nonempty(obs: Seq<Observation>)
    ensures
        environment_observation_ids(obs).len() > 0 <==> has_environment(obs),
    decreases obs.len(),
{
    if obs.len() > 0 {
        lemma_environment_ids_nonempty(obs.drop_last());
        if has_environment(obs.drop_last()) {
            let i = choose|i: int| 0 <= i < obs.drop_last().len() && is_environment_kind(#[trigger] obs.drop_last()[i].kind);
            assert(is_environment_kind(obs[i].kind));
        }
        if has_environment(obs) && !is_environment_kind(obs.last().kind) {
            let i = choose|i: int| 0 <= i < obs.len() && is_environment_kind(#[trigger] obs[i].kind);
            assert(is_environment_kind(obs.drop_last()[i].kind));
        }
        if is_environment_kind(obs.last().kind) {
            assert(is_environment_kind(obs[obs.len() - 1].kind));
        }
    }
}


/// Without any risk signal, failure, CI, environment observation or related
/// Investigation there is exactly one hypothesis: the inconclusive
/// evidence-gap one.
pub proof fn lemma_no_signal_single_gap_hypothesis(
    k: Seq<KnowledgeObject>,
    obs: Seq<Observation>,
    ms: Seq<MemoryRecord>,
    es: Seq<Evaluation>,
    related: Seq<InvestigationId>,
)
    requires
        !has_risk_signal(k),
        failure_observations(obs).len() == 0,
        !has_ci(obs),
        !has_environment(obs),
        related.len() == 0,
    ensures
        hypothesis_drafts(k, obs, ms, es, related).len() == 1,
        hypothesis_drafts(k, obs, ms, es, related)[0] == gap_draft(ms),
        hypothesis_drafts(k, obs, ms, es, related)[0].1 == HypothesisStatus::Inconclusive,
{
    assert(signal_drafts(k, obs, ms, es, related) =~= seq![]);
}

} // verus!
