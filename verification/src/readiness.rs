//! Deployment readiness: an explainable verdict over the current evidence of
//! one Investigation (failing checks, risk, verification coverage, evidence
//! volume and open hypotheses).

use vstd::prelude::*;
use crate::assess::texts;
use crate::evaluation::bool_text;
use crate::graph::{lowered_observation_text, observation_text};
use crate::ids::{fresh_object_id, InvestigationId, ObjectId};
use crate::model::{Confidence, Evaluation, Hypothesis, KnowledgeObject, MemoryRecord, Observation, Provenance, VerificationReceipt};
use crate::proposal_content::severity_rank;
use crate::text::{contains_seq, contains_str, decimal, push_decimal, push_str, to_string};
use crate::vocab::{AssessmentType, HypothesisStatus, KnowledgeKind, ObservationKind, ReadinessStatus, Severity, VerificationResult};

verus! {

/// One dimension of a readiness assessment.
pub struct ReadinessDimension {
    pub name: String,
    pub status: String,
    pub severity: Severity,
    pub explanation: String,
    pub evidence_ids: Vec<ObjectId>,
}

/// A deployment readiness assessment.
pub struct DeploymentReadiness {
    pub id: ObjectId,
    pub investigation_id: InvestigationId,
    pub status: ReadinessStatus,
    pub confidence: Confidence,
    pub dimensions: Vec<ReadinessDimension>,
    pub blockers: Vec<String>,
    pub warnings: Vec<String>,
    pub supporting_evidence: Vec<ObjectId>,
    pub contradicting_evidence: Vec<ObjectId>,
    pub required_verifications: Vec<String>,
    pub recommendation_summary: String,
    pub assessed_at: i64,
    pub provenance: Provenance,
}

/// A dimension as plain values: name, status, severity, explanation, evidence.
pub open spec fn dimension_view(d: ReadinessDimension) -> (Seq<char>, Seq<char>, Severity, Seq<char>, Seq<ObjectId>) {
    (d.name@, d.status@, d.severity, d.explanation@, d.evidence_ids@)
}

/// CheckResult or WorkflowRun.
pub open spec fn is_ci_kind(k: ObservationKind) -> bool {
    k == ObservationKind::CheckResult || k == ObservationKind::WorkflowRun
}

/// CheckResult, WorkflowRun or TestOutput.
pub open spec fn is_check_kind(k: ObservationKind) -> bool {
    is_ci_kind(k) || k == ObservationKind::TestOutput
}

/// A CI/test observation whose text mentions a failure, an error or a cancellation.
pub open spec fn failed_check(o: Observation) -> bool {
    is_check_kind(o.kind) && (contains_seq(observation_text(o), "fail"@) || contains_seq(observation_text(o), "error"@)
        || contains_seq(observation_text(o), "cancelled"@))
}

/// How many observations are failed checks.
pub open spec fn failed_check_count(obs: Seq<Observation>) -> nat
    decreases obs.len(),
{
    if obs.len() == 0 {
        0
    } else {
        failed_check_count(obs.drop_last()) + if failed_check(obs.last()) { 1nat } else { 0nat }
    }
}

/// Some observation is a CheckResult or WorkflowRun.
pub open spec fn has_ci_observation(obs: Seq<Observation>) -> bool {
    exists|i: int| 0 <= i < obs.len() && is_ci_kind(#[trigger] obs[i].kind)
}

/// Ids of the CI/test observations, in order.
pub open spec fn check_observation_ids(obs: Seq<Observation>) -> Seq<ObjectId>
    decreases obs.len(),
{
    if obs.len() == 0 {
        seq![]
    } else if is_check_kind(obs.last().kind) {
        check_observation_ids(obs.drop_last()).push(obs.last().id)
    } else {
        check_observation_ids(obs.drop_last())
    }
}

/// Some Knowledge object is a RiskSignal.
pub open spec fn has_risk_signal(k: Seq<KnowledgeObject>) -> bool {
    exists|i: int| 0 <= i < k.len() && #[trigger] k[i].kind == KnowledgeKind::RiskSignal
}

/// `i` is the position of the first Risk Evaluation.
pub open spec fn first_risk_at(es: Seq<Evaluation>, i: int) -> bool {
    &&& 0 <= i < es.len()
    &&& es[i].assessment_type == AssessmentType::Risk
    &&& forall|j: int| 0 <= j < i ==> #[trigger] es[j].assessment_type != AssessmentType::Risk
}

/// The first Risk Evaluation, if any.
pub open spec fn first_risk(es: Seq<Evaluation>) -> Option<Evaluation> {
    if exists|i: int| first_risk_at(es, i) {
        Some(es[choose|i: int| first_risk_at(es, i)])
    } else {
        None
    }
}

/// Severity of the first Risk Evaluation, medium when there is none.
pub open spec fn risk_severity(es: Seq<Evaluation>) -> Severity {
    match first_risk(es) {
        Some(e) => e.severity,
        None => Severity::Medium,
    }
}

/// Ids of the Risk Evaluations, in order.
pub open spec fn risk_evaluation_ids(es: Seq<Evaluation>) -> Seq<ObjectId>
    decreases es.len(),
{
    if es.len() == 0 {
        seq![]
    } else if es.last().assessment_type == AssessmentType::Risk {
        risk_evaluation_ids(es.drop_last()).push(es.last().id)
    } else {
        risk_evaluation_ids(es.drop_last())
    }
}

/// A Risk Evaluation of low or informational severity.
pub open spec fn is_low_risk(e: Evaluation) -> bool {
    e.assessment_type == AssessmentType::Risk && (e.severity == Severity::Low || e.severity == Severity::Info)
}

/// Ids of the low-severity Risk Evaluations, in order.
pub open spec fn low_risk_ids(es: Seq<Evaluation>) -> Seq<ObjectId>
    decreases es.len(),
{
    if es.len() == 0 {
        seq![]
    } else if is_low_risk(es.last()) {
        low_risk_ids(es.drop_last()).push(es.last().id)
    } else {
        low_risk_ids(es.drop_last())
    }
}

/// Some receipt has this result.
pub open spec fn has_result(rs: Seq<VerificationReceipt>, v: VerificationResult) -> bool {
    exists|i: int| 0 <= i < rs.len() && #[trigger] rs[i].result == v
}

/// Ids of the receipts, in order.
pub open spec fn receipt_ids(rs: Seq<VerificationReceipt>) -> Seq<ObjectId> {
    rs.map_values(|r: VerificationReceipt| r.id)
}

/// Ids of the first `n` Memory records.
pub open spec fn memory_ids(ms: Seq<MemoryRecord>, n: nat) -> Seq<ObjectId> {
    ms.take(if n < ms.len() { n as int } else { ms.len() as int }).map_values(|m: MemoryRecord| m.id)
}

/// A hypothesis still open (proposed or supported) at confidence 0.6 or more.
pub open spec fn open_high_confidence(h: Hypothesis) -> bool {
    h.confidence.permille >= 600 && (h.status == HypothesisStatus::Supported || h.status == HypothesisStatus::Proposed)
}

/// Some hypothesis is open at high confidence.
pub open spec fn has_open_high_confidence(hs: Seq<Hypothesis>) -> bool {
    exists|i: int| 0 <= i < hs.len() && #[trigger] open_high_confidence(hs[i])
}

/// The risk dimension blocks deployment: a high or critical first Risk
/// Evaluation, or a RiskSignal Knowledge object.
pub open spec fn risk_blocks(k: Seq<KnowledgeObject>, es: Seq<Evaluation>) -> bool {
    severity_rank(risk_severity(es)) >= 3 || has_risk_signal(k)
}

/// The readiness dimensions, in order: CI status, risk evaluation,
/// verification coverage, evidence volume.
pub open spec fn readiness_dimensions(
    es: Seq<Evaluation>,
    rs: Seq<VerificationReceipt>,
    obs: Seq<Observation>,
    ms: Seq<MemoryRecord>,
) -> Seq<(Seq<char>, Seq<char>, Severity, Seq<char>, Seq<ObjectId>)> {
    let failed = failed_check_count(obs);
    let pass = has_result(rs, VerificationResult::Pass);
    let fail = has_result(rs, VerificationResult::Fail);
    let ci_severity = if failed > 0 {
        Severity::High
    } else if has_ci_observation(obs) {
        Severity::Low
    } else {
        Severity::Medium
    };
    let ci_status = if failed > 0 {
        "failing"@
    } else if has_ci_observation(obs) {
        "passing_or_present"@
    } else {
        "unknown"@
    };
    let verification_status = if pass && !fail {
        "passing"@
    } else if fail {
        "failing"@
    } else if rs.len() == 0 {
        "missing"@
    } else {
        "mixed"@
    };
    let verification_severity = if fail {
        Severity::High
    } else if rs.len() == 0 {
        Severity::Medium
    } else {
        Severity::Low
    };
    seq![
        ("ci_status"@, ci_status, ci_severity, decimal(failed) + " failed CI/test observation(s) detected."@,
            check_observation_ids(obs)),
        ("risk_evaluation"@, risk_severity(es).text(), risk_severity(es), "Derived from current Risk Evaluation."@,
            risk_evaluation_ids(es)),
        ("verification_coverage"@, verification_status, verification_severity,
            decimal(rs.len()) + " Verification Receipt(s); pass present="@ + bool_text(pass) + "; fail present="@
                + bool_text(fail) + "."@, receipt_ids(rs)),
        ("evidence_volume"@, decimal(ms.len()) + " memory records"@, if ms.len() == 0 { Severity::Medium } else { Severity::Info },
            "Readiness confidence scales with evidence volume."@, memory_ids(ms, 5)),
    ]
}

/// The blockers, in order: failing checks, elevated risk, failed verification.
pub open spec fn readiness_blockers(
    k: Seq<KnowledgeObject>,
    es: Seq<Evaluation>,
    rs: Seq<VerificationReceipt>,
    obs: Seq<Observation>,
) -> Seq<Seq<char>> {
    (if failed_check_count(obs) > 0 {
        seq![decimal(failed_check_count(obs)) + " CI/test failure observation(s)"@]
    } else {
        seq![]
    }) + (if risk_blocks(k, es) {
        seq!["Elevated risk evaluation or RiskSignal knowledge present"@]
    } else {
        seq![]
    }) + (if has_result(rs, VerificationResult::Fail) {
        seq!["Verification Failure receipts present"@]
    } else {
        seq![]
    })
}

/// The warnings, in order: no receipts, no Memory, open high-confidence hypotheses.
pub open spec fn readiness_warnings(rs: Seq<VerificationReceipt>, ms: Seq<MemoryRecord>, hs: Seq<Hypothesis>) -> Seq<Seq<char>> {
    (if !has_result(rs, VerificationResult::Fail) && rs.len() == 0 {
        seq!["No Verification Receipts yet"@]
    } else {
        seq![]
    }) + (if ms.len() == 0 {
        seq!["No Memory records"@]
    } else {
        seq![]
    }) + (if has_open_high_confidence(hs) {
        seq!["Unresolved high-confidence hypotheses remain"@]
    } else {
        seq![]
    })
}

/// The readiness status: hold on any blocker; inspect on any warning or fewer than two
/// Memory records; ready otherwise.
pub open spec fn readiness_status(blockers: nat, warnings: nat, memory: nat) -> ReadinessStatus {
    if blockers > 0 {
        ReadinessStatus::Hold
    } else if warnings > 0 || memory < 2 {
        ReadinessStatus::Inspect
    } else if memory == 0 {
        ReadinessStatus::Unknown
    } else {
        ReadinessStatus::Ready
    }
}

/// Confidence of each verdict, in thousandths.
pub open spec fn readiness_permille(s: ReadinessStatus) -> u32 {
    match s {
        ReadinessStatus::Ready => 700,
        ReadinessStatus::Hold => 750,
        ReadinessStatus::Inspect => 550,
        ReadinessStatus::Unknown => 300,
    }
}

/// The recommendation that accompanies each verdict.
pub open spec fn readiness_recommendation(s: ReadinessStatus) -> Seq<char> {
    match s {
        ReadinessStatus::Ready => "Proceed with caution; continue monitoring after deployment."@,
        ReadinessStatus::Hold => "Hold deployment until blockers are resolved and re-verified."@,
        ReadinessStatus::Inspect => "Inspect warnings and collect missing evidence before proceeding."@,
        ReadinessStatus::Unknown => "Insufficient evidence to assess readiness."@,
    }
}

/// Evidence that supports the status: the first Risk Evaluation when risk
/// blocks, the first three Memory records, then every receipt.
pub open spec fn readiness_supporting(
    k: Seq<KnowledgeObject>,
    es: Seq<Evaluation>,
    rs: Seq<VerificationReceipt>,
    ms: Seq<MemoryRecord>,
) -> Seq<ObjectId> {
    (if risk_blocks(k, es) && first_risk(es) is Some {
        seq![first_risk(es)->0.id]
    } else {
        seq![]
    }) + memory_ids(ms, 3) + receipt_ids(rs)
}

/// Evidence against holding: low-severity Risk Evaluations, counted only when
/// there is no RiskSignal and no failing check.
pub open spec fn readiness_contradicting(k: Seq<KnowledgeObject>, es: Seq<Evaluation>, obs: Seq<Observation>) -> Seq<ObjectId> {
    if !has_risk_signal(k) && failed_check_count(obs) == 0 {
        low_risk_ids(es)
    } else {
        seq![]
    }
}

/// The verifications still required.
pub open spec fn readiness_required(rs: Seq<VerificationReceipt>) -> Seq<Seq<char>> {
    if rs.len() == 0 {
        seq!["Run verify_all"@]
    } else if has_result(rs, VerificationResult::Fail) {
        seq!["Resolve failed verifications and re-verify"@]
    } else {
        seq![]
    }
}


/// Whether an observation is a failed check.
pub fn is_failed_check(o: &Observation) -> (b: bool)
    ensures
        b == failed_check(*o),
{
    if o.kind == ObservationKind::CheckResult || o.kind == ObservationKind::WorkflowRun
        || o.kind == ObservationKind::TestOutput {
        let t = lowered_observation_text(o);
        contains_str(&t, "fail") || contains_str(&t, "error") || contains_str(&t, "cancelled")
    } else {
        false
    }
}

/// How many observations are failed checks.
pub fn count_failed_checks(obs: &Vec<Observation>) -> (n: usize)
    ensures
        n == failed_check_count(obs@),
        n <= obs@.len(),
{
    let mut n: usize = 0;
    let mut i: usize = 0;
    while i < obs.len()
        invariant
            i <= obs@.len(),
            n <= i,
            n == failed_check_count(obs@.subrange(0, i as int)),
        decreases obs.len() - i,
    {
        assert(obs@.subrange(0, i + 1).drop_last() =~= obs@.subrange(0, i as int));
        if is_failed_check(&obs[i]) {
            n = n + 1;
        }
        i = i + 1;
    }
    assert(obs@.subrange(0, obs@.len() as int) =~= obs@);
    n
}

/// Whether some observation is a CheckResult or WorkflowRun.
pub fn any_ci_observation(obs: &Vec<Observation>) -> (b: bool)
    ensures
        b == has_ci_observation(obs@),
{
    let mut i: usize = 0;
    while i < obs.len()
        invariant
            i <= obs@.len(),
            forall|j: int| 0 <= j < i ==> !is_ci_kind(#[trigger] obs@[j].kind),
        decreases obs.len() - i,
    {
        if obs[i].kind == ObservationKind::CheckResult || obs[i].kind == ObservationKind::WorkflowRun {
            return true;
        }
        i = i + 1;
    }
    false
}

/// Ids of the CI/test observations, in order.
pub fn check_observation_ids_of(obs: &Vec<Observation>) -> (r: Vec<ObjectId>)
    ensures
        r@ == check_observation_ids(obs@),
{
    let mut r: Vec<ObjectId> = Vec::new();
    let mut i: usize = 0;
    while i < obs.len()
        invariant
            i <= obs@.len(),
            r@ == check_observation_ids(obs@.subrange(0, i as int)),
        decreases obs.len() - i,
    {
        assert(obs@.subrange(0, i + 1).drop_last() =~= obs@.subrange(0, i as int));
        let k = obs[i].kind;
        if k == ObservationKind::CheckResult || k == ObservationKind::WorkflowRun || k == ObservationKind::TestOutput {
            r.push(obs[i].id);
        }
        i = i + 1;
    }
    assert(obs@.subrange(0, obs@.len() as int) =~= obs@);
    r
}

/// Whether some Knowledge object is a RiskSignal.
pub fn any_risk_signal(k: &Vec<KnowledgeObject>) -> (b: bool)
    ensures
        b == has_risk_signal(k@),
{
    let mut i: usize = 0;
    while i < k.len()
        invariant
            i <= k@.len(),
            forall|j: int| 0 <= j < i ==> #[trigger] k@[j].kind != KnowledgeKind::RiskSignal,
        decreases k.len() - i,
    {
        if k[i].kind == KnowledgeKind::RiskSignal {
            return true;
        }
        i = i + 1;
    }
    false
}

/// Position of the first Risk Evaluation, if any.
pub fn first_risk_index(es: &Vec<Evaluation>) -> (r: Option<usize>)
    ensures
        match r {
            Some(i) => first_risk_at(es@, i as int) && first_risk(es@) == Some(es@[i as int]),
            None => first_risk(es@) is None,
        },
{
    let mut i: usize = 0;
    while i < es.len()
        invariant
            i <= es@.len(),
            forall|j: int| 0 <= j < i ==> #[trigger] es@[j].assessment_type != AssessmentType::Risk,
        decreases es.len() - i,
    {
        if es[i].assessment_type == AssessmentType::Risk {
            assert(first_risk_at(es@, i as int));
            let ghost c = choose|x: int| first_risk_at(es@, x);
            assert(c == i as int) by {
                if c < i {
                    assert(es@[c].assessment_type != AssessmentType::Risk);
                } else if c > i {
                    assert(es@[i as int].assessment_type != AssessmentType::Risk);
                }
            }
            return Some(i);
        }
        i = i + 1;
    }
    assert(!exists|x: int| first_risk_at(es@, x)) by {
        if exists|x: int| first_risk_at(es@, x) {
            let x = choose|x: int| first_risk_at(es@, x);
            assert(es@[x].assessment_type != AssessmentType::Risk);
        }
    }
    None
}

/// Ids of the Risk Evaluations, in order.
pub fn risk_evaluation_ids_of(es: &Vec<Evaluation>) -> (r: Vec<ObjectId>)
    ensures
        r@ == risk_evaluation_ids(es@),
{
    let mut r: Vec<ObjectId> = Vec::new();
    let mut i: usize = 0;
    while i < es.len()
        invariant
            i <= es@.len(),
            r@ == risk_evaluation_ids(es@.subrange(0, i as int)),
        decreases es.len() - i,
    {
        assert(es@.subrange(0, i + 1).drop_last() =~= es@.subrange(0, i as int));
        if es[i].assessment_type == AssessmentType::Risk {
            r.push(es[i].id);
        }
        i = i + 1;
    }
    assert(es@.subrange(0, es@.len() as int) =~= es@);
    r
}

/// Ids of the low-severity Risk Evaluations, in order.
pub fn low_risk_ids_of(es: &Vec<Evaluation>) -> (r: Vec<ObjectId>)
    ensures
        r@ == low_risk_ids(es@),
{
    let mut r: Vec<ObjectId> = Vec::new();
    let mut i: usize = 0;
    while i < es.len()
        invariant
            i <= es@.len(),
            r@ == low_risk_ids(es@.subrange(0, i as int)),
        decreases es.len() - i,
    {
        assert(es@.subrange(0, i + 1).drop_last() =~= es@.subrange(0, i as int));
        let e = &es[i];
        if e.assessment_type == AssessmentType::Risk && (e.severity == Severity::Low || e.severity == Severity::Info) {
            r.push(e.id);
        }
        i = i + 1;
    }
    assert(es@.subrange(0, es@.len() as int) =~= es@);
    r
}

/// Whether some receipt has this result.
pub fn any_result(rs: &Vec<VerificationReceipt>, v: VerificationResult) -> (b: bool)
    ensures
        b == has_result(rs@, v),
{
    let mut i: usize = 0;
    while i < rs.len()
        invariant
            i <= rs@.len(),
            forall|j: int| 0 <= j < i ==> #[trigger] rs@[j].result != v,
        decreases rs.len() - i,
    {
        if rs[i].result == v {
            return true;
        }
        i = i + 1;
    }
    false
}

/// Ids of the receipts, in order.
pub fn receipt_ids_of(rs: &Vec<VerificationReceipt>) -> (r: Vec<ObjectId>)
    ensures
        r@ == receipt_ids(rs@),
{
    let mut r: Vec<ObjectId> = Vec::new();
    let mut i: usize = 0;
    while i < rs.len()
        invariant
            i <= rs@.len(),
            r@ == receipt_ids(rs@.subrange(0, i as int)),
        decreases rs.len() - i,
    {
        r.push(rs[i].id);
        i = i + 1;
        assert(r@ =~= receipt_ids(rs@.subrange(0, i as int)));
    }
    assert(rs@.subrange(0, rs@.len() as int) =~= rs@);
    r
}

/// Ids of the first `n` Memory records.
pub fn memory_ids_of(ms: &Vec<MemoryRecord>, n: usize) -> (r: Vec<ObjectId>)
    ensures
        r@ == memory_ids(ms@, n as nat),
{
    let limit = if n < ms.len() { n } else { ms.len() };
    let mut r: Vec<ObjectId> = Vec::new();
    let mut i: usize = 0;
    while i < limit
        invariant
            limit <= ms@.len(),
            limit == (if n < ms@.len() { n as int } else { ms@.len() as int }),
            i <= limit,
            r@ == ms@.take(i as int).map_values(|m: MemoryRecord| m.id),
        decreases limit - i,
    {
        r.push(ms[i].id);
        i = i + 1;
        assert(r@ =~= ms@.take(i as int).map_values(|m: MemoryRecord| m.id));
    }
    r
}

/// Whether some hypothesis is open at high confidence.
pub fn any_open_high_confidence(hs: &Vec<Hypothesis>) -> (b: bool)
    ensures
        b == has_open_high_confidence(hs@),
{
    let mut i: usize = 0;
    while i < hs.len()
        invariant
            i <= hs@.len(),
            forall|j: int| 0 <= j < i ==> !#[trigger] open_high_confidence(hs@[j]),
        decreases hs.len() - i,
    {
        let h = &hs[i];
        if h.confidence.permille >= 600 && (h.status == HypothesisStatus::Supported || h.status == HypothesisStatus::Proposed) {
            assert(open_high_confidence(hs@[i as int]));
            return true;
        }
        i = i + 1;
    }
    false
}


fn text_string(s: &str) -> (r: String)
    ensures
        r@ == s@,
{
    s.to_owned()
}

fn dimension(name: &str, status: String, severity: Severity, explanation: String, evidence_ids: Vec<ObjectId>) -> (d: ReadinessDimension)
    ensures
        dimension_view(d) == (name@, status@, severity, explanation@, evidence_ids@),
{
    ReadinessDimension { name: text_string(name), status, severity, explanation, evidence_ids }
}

/// The CI status dimension.
fn ci_dimension(obs: &Vec<Observation>, failed: usize) -> (d: ReadinessDimension)
    requires
        failed == failed_check_count(obs@),
    ensures
        dimension_view(d) == readiness_dimensions(seq![], seq![], obs@, seq![])[0],
{
    let ci_present = any_ci_observation(obs);
    let severity = if failed > 0 {
        Severity::High
    } else if ci_present {
        Severity::Low
    } else {
        Severity::Medium
    };
    let status = if failed > 0 {
        "failing"
    } else if ci_present {
        "passing_or_present"
    } else {
        "unknown"
    };
    let mut explanation: Vec<char> = Vec::new();
    push_decimal(&mut explanation, failed as u128);
    push_str(&mut explanation, " failed CI/test observation(s) detected.");
    dimension("ci_status", text_string(status), severity, to_string(&explanation), check_observation_ids_of(obs))
}

/// The verification coverage dimension.
fn verification_dimension(rs: &Vec<VerificationReceipt>, pass: bool, fail: bool) -> (d: ReadinessDimension)
    requires
        pass == has_result(rs@, VerificationResult::Pass),
        fail == has_result(rs@, VerificationResult::Fail),
    ensures
        dimension_view(d) == readiness_dimensions(seq![], rs@, seq![], seq![])[2],
{
    let status = if pass && !fail {
        "passing"
    } else if fail {
        "failing"
    } else if rs.len() == 0 {
        "missing"
    } else {
        "mixed"
    };
    let severity = if fail {
        Severity::High
    } else if rs.len() == 0 {
        Severity::Medium
    } else {
        Severity::Low
    };
    let mut explanation: Vec<char> = Vec::new();
    push_decimal(&mut explanation, rs.len() as u128);
    push_str(&mut explanation, " Verification Receipt(s); pass present=");
    push_str(&mut explanation, if pass { "true" } else { "false" });
    push_str(&mut explanation, "; fail present=");
    push_str(&mut explanation, if fail { "true" } else { "false" });
    push_str(&mut explanation, ".");
    dimension("verification_coverage", text_string(status), severity, to_string(&explanation), receipt_ids_of(rs))
}

/// The evidence volume dimension.
fn evidence_dimension(ms: &Vec<MemoryRecord>) -> (d: ReadinessDimension)
    ensures
        dimension_view(d) == readiness_dimensions(seq![], seq![], seq![], ms@)[3],
{
    let mut status: Vec<char> = Vec::new();
    push_decimal(&mut status, ms.len() as u128);
    push_str(&mut status, " memory records");
    let severity = if ms.len() == 0 { Severity::Medium } else { Severity::Info };
    dimension(
        "evidence_volume",
        to_string(&status),
        severity,
        text_string("Readiness confidence scales with evidence volume."),
        memory_ids_of(ms, 5),
    )
}

/// Pushes a string and keeps track of the texts.
fn push_text(v: &mut Vec<String>, s: String)
    ensures
        texts(final(v)@) == texts(old(v)@).push(s@),
{
    v.push(s);
    assert(texts(v@) =~= texts(old(v)@).push(s@));
}


/// Assesses deployment readiness from the evidence of one Investigation.
///
/// Blockers come from failed CI/test observations, an elevated first Risk
/// Evaluation or RiskSignal Knowledge, and failed Verification Receipts.
/// Any blocker holds deployment; otherwise any warning (no receipts, no
/// Memory, an open high-confidence hypothesis) or fewer than two Memory
/// records asks for inspection; otherwise the Investigation is ready.
pub fn assess_deployment_readiness(
    investigation_id: InvestigationId,
    knowledge: &Vec<KnowledgeObject>,
    evaluations: &Vec<Evaluation>,
    receipts: &Vec<VerificationReceipt>,
    observations: &Vec<Observation>,
    memory: &Vec<MemoryRecord>,
    hypotheses: &Vec<Hypothesis>,
    actor: &str,
    now: i64,
) -> (r: DeploymentReadiness)
    ensures
        r.investigation_id == investigation_id,
        r.dimensions@.map_values(|d: ReadinessDimension| dimension_view(d)) == readiness_dimensions(
            evaluations@,
            receipts@,
            observations@,
            memory@,
        ),
        texts(r.blockers@) == readiness_blockers(knowledge@, evaluations@, receipts@, observations@),
        texts(r.warnings@) == readiness_warnings(receipts@, memory@, hypotheses@),
        r.status == readiness_status(r.blockers@.len(), r.warnings@.len(), memory@.len()),
        r.confidence.permille == readiness_permille(r.status),
        r.recommendation_summary@ == readiness_recommendation(r.status),
        r.supporting_evidence@ == readiness_supporting(knowledge@, evaluations@, receipts@, memory@),
        r.contradicting_evidence@ == readiness_contradicting(knowledge@, evaluations@, observations@),
        texts(r.required_verifications@) == readiness_required(receipts@),
        r.provenance.actor@ == actor@,
        r.provenance.recorded_at == now,
        r.provenance.source@ == "runtime"@,
        r.provenance.capability is Some && r.provenance.capability->0@ == "assess_deployment_readiness"@,
        r.provenance.evidence_ids@.len() == 0,
        r.status == ReadinessStatus::Hold <==> r.blockers@.len() > 0,
        r.status == ReadinessStatus::Ready ==> r.warnings@.len() == 0 && memory@.len() >= 2,
        r.status != ReadinessStatus::Unknown,
{
    let has_risk = any_risk_signal(knowledge);
    let failed = count_failed_checks(observations);
    let verify_fail = any_result(receipts, VerificationResult::Fail);
    let verify_pass = any_result(receipts, VerificationResult::Pass);
    let open_hypotheses = any_open_high_confidence(hypotheses);
    let first_risk_eval = first_risk_index(evaluations);
    let risk_sev = match first_risk_eval {
        Some(i) => evaluations[i].severity,
        None => Severity::Medium,
    };

    let mut dimensions: Vec<ReadinessDimension> = Vec::new();
    dimensions.push(ci_dimension(observations, failed));
    dimensions.push(dimension(
        "risk_evaluation",
        text_string(risk_sev.as_str()),
        risk_sev,
        text_string("Derived from current Risk Evaluation."),
        risk_evaluation_ids_of(evaluations),
    ));
    dimensions.push(verification_dimension(receipts, verify_pass, verify_fail));
    dimensions.push(evidence_dimension(memory));
    assert(dimensions@.map_values(|d: ReadinessDimension| dimension_view(d)) =~= readiness_dimensions(
        evaluations@,
        receipts@,
        observations@,
        memory@,
    ));

    let risk_high = match risk_sev {
        Severity::High | Severity::Critical => true,
        _ => false,
    };
    let risk_blocking = risk_high || has_risk;
    assert(risk_blocking == risk_blocks(knowledge@, evaluations@));

    let mut blockers: Vec<String> = Vec::new();
    if failed > 0 {
        let mut b: Vec<char> = Vec::new();
        push_decimal(&mut b, failed as u128);
        push_str(&mut b, " CI/test failure observation(s)");
        push_text(&mut blockers, to_string(&b));
    }
    let mut supporting: Vec<ObjectId> = Vec::new();
    if risk_blocking {
        push_text(&mut blockers, text_string("Elevated risk evaluation or RiskSignal knowledge present"));
        match first_risk_eval {
            Some(i) => supporting.push(evaluations[i].id),
            None => {},
        }
    }
    if verify_fail {
        push_text(&mut blockers, text_string("Verification Failure receipts present"));
    }
    assert(texts(blockers@) =~= readiness_blockers(knowledge@, evaluations@, receipts@, observations@));

    let mut warnings: Vec<String> = Vec::new();
    if verify_fail {
    } else if receipts.len() == 0 {
        push_text(&mut warnings, text_string("No Verification Receipts yet"));
    }
    if memory.len() == 0 {
        push_text(&mut warnings, text_string("No Memory records"));
    }
    if open_hypotheses {
        push_text(&mut warnings, text_string("Unresolved high-confidence hypotheses remain"));
    }
    assert(texts(warnings@) =~= readiness_warnings(receipts@, memory@, hypotheses@));

    let status = if blockers.len() > 0 {
        ReadinessStatus::Hold
    } else if warnings.len() > 0 || memory.len() < 2 {
        ReadinessStatus::Inspect
    } else if memory.len() == 0 {
        ReadinessStatus::Unknown
    } else {
        ReadinessStatus::Ready
    };
    let confidence = match status {
        ReadinessStatus::Ready => Confidence::new(700),
        ReadinessStatus::Hold => Confidence::new(750),
        ReadinessStatus::Inspect => Confidence::new(550),
        ReadinessStatus::Unknown => Confidence::new(300),
    };

    let contradicting = if !has_risk && failed == 0 {
        low_risk_ids_of(evaluations)
    } else {
        Vec::new()
    };
    let mut first_memory = memory_ids_of(memory, 3);
    supporting.append(&mut first_memory);
    let mut receipt_list = receipt_ids_of(receipts);
    supporting.append(&mut receipt_list);
    assert(supporting@ =~= readiness_supporting(knowledge@, evaluations@, receipts@, memory@));

    let recommendation_summary = match status {
        ReadinessStatus::Ready => text_string("Proceed with caution; continue monitoring after deployment."),
        ReadinessStatus::Hold => text_string("Hold deployment until blockers are resolved and re-verified."),
        ReadinessStatus::Inspect => text_string("Inspect warnings and collect missing evidence before proceeding."),
        ReadinessStatus::Unknown => text_string("Insufficient evidence to assess readiness."),
    };

    let mut required_verifications: Vec<String> = Vec::new();
    if receipts.len() == 0 {
        push_text(&mut required_verifications, text_string("Run verify_all"));
    } else if verify_fail {
        push_text(&mut required_verifications, text_string("Resolve failed verifications and re-verify"));
    }
    assert(texts(required_verifications@) =~= readiness_required(receipts@));

    let provenance = Provenance::now(actor, "runtime", now).with_capability("assess_deployment_readiness");
    let assessed_at = provenance.recorded_at;
    DeploymentReadiness {
        id: fresh_object_id(),
        investigation_id,
        status,
        confidence,
        dimensions,
        blockers,
        warnings,
        supporting_evidence: supporting,
        contradicting_evidence: contradicting,
        required_verifications,
        recommendation_summary,
        assessed_at,
        provenance,
    }
}

} // verus!
