//! Evidence-backed risk forecasting for one Investigation.

use vstd::prelude::*;
use crate::ids::{fresh_object_id, InvestigationId, ObjectId};
use crate::model::{Confidence, Evaluation, KnowledgeObject, MemoryRecord, Observation, Provenance, VerificationReceipt};
use crate::proposal_content::severity_rank;
use crate::readiness::{
    any_result, first_risk, first_risk_index, has_result, is_ci_kind, memory_ids, memory_ids_of, receipt_ids,
    receipt_ids_of, risk_blocks,
};
use crate::search::PriorOutcome;
use crate::text::{chars_of, contains_seq, contains_str, decimal, lower_of, lowercase_of, push_chars, push_decimal, push_str, to_string};
use crate::vocab::{KnowledgeKind, ObservationKind, OutcomeDisposition, RiskCategory, Severity, VerificationResult};

verus! {

/// One forecast risk with its evidence and mitigation.
pub struct RiskItem {
    pub category: RiskCategory,
    pub severity: Severity,
    pub confidence: Confidence,
    pub supporting_evidence: Vec<ObjectId>,
    pub historical_comparison: String,
    pub mitigation: String,
    pub explanation: String,
}

/// A risk forecast.
pub struct RiskForecast {
    pub id: ObjectId,
    pub investigation_id: InvestigationId,
    pub items: Vec<RiskItem>,
    pub summary: String,
    pub forecasted_at: i64,
    pub provenance: Provenance,
}

/// A risk item as plain values.
pub type RiskItemView = (RiskCategory, Severity, u32, Seq<ObjectId>, Seq<char>, Seq<char>, Seq<char>);

/// A risk item as plain values: category, severity, confidence (thousandths),
/// evidence, historical comparison, mitigation, explanation.
pub open spec fn risk_item_view(i: RiskItem) -> RiskItemView {
    (i.category, i.severity, i.confidence.permille, i.supporting_evidence@, i.historical_comparison@, i.mitigation@, i.explanation@)
}

/// Ids of the RiskSignal Knowledge objects, in order.
pub open spec fn risk_signal_ids(k: Seq<KnowledgeObject>) -> Seq<ObjectId>
    decreases k.len(),
{
    if k.len() == 0 {
        seq![]
    } else if k.last().kind == KnowledgeKind::RiskSignal {
        risk_signal_ids(k.drop_last()).push(k.last().id)
    } else {
        risk_signal_ids(k.drop_last())
    }
}

/// Ids of the CheckResult/WorkflowRun observations, in order.
pub open spec fn ci_observation_ids(obs: Seq<Observation>) -> Seq<ObjectId>
    decreases obs.len(),
{
    if obs.len() == 0 {
        seq![]
    } else if is_ci_kind(obs.last().kind) {
        ci_observation_ids(obs.drop_last()).push(obs.last().id)
    } else {
        ci_observation_ids(obs.drop_last())
    }
}

/// A CheckResult/WorkflowRun whose lowercased `summary payload` text mentions a failure.
pub open spec fn failing_ci(o: Observation) -> bool {
    is_ci_kind(o.kind) && contains_seq(lowercase_of(o.summary@ + seq![' '] + o.payload_text@), "fail"@)
}

/// Some observation is a failing CheckResult/WorkflowRun.
pub open spec fn has_failing_ci(obs: Seq<Observation>) -> bool {
    exists|i: int| 0 <= i < obs.len() && #[trigger] failing_ci(obs[i])
}

/// Some recalled prior outcome was unsuccessful.
pub open spec fn has_unsuccessful_prior(prior: Seq<PriorOutcome>) -> bool {
    exists|i: int| 0 <= i < prior.len() && #[trigger] prior[i].outcome.disposition == OutcomeDisposition::Unsuccessful
}

/// The regression item, present when risk is elevated.
pub open spec fn regression_item(k: Seq<KnowledgeObject>, es: Seq<Evaluation>, prior: Seq<PriorOutcome>) -> RiskItemView {
    (
        RiskCategory::Regression,
        Severity::High,
        700,
        risk_signal_ids(k) + match first_risk(es) {
            Some(e) => seq![e.id],
            None => seq![],
        },
        if has_unsuccessful_prior(prior) {
            "Similar prior Investigations had unsuccessful outcomes."@
        } else {
            "No unsuccessful prior outcomes recalled for similar Investigations."@
        },
        "Investigate failure signals and re-verify before promoting changes."@,
        "Failure-related Knowledge or high Risk Evaluation elevates regression risk."@,
    )
}

/// The deployment item, present when a CI/workflow observation is failing.
pub open spec fn deployment_item(obs: Seq<Observation>, trend_sample: Option<usize>) -> RiskItemView {
    (
        RiskCategory::Deployment,
        Severity::High,
        650,
        ci_observation_ids(obs),
        match trend_sample {
            Some(n) => "Historical sample covers "@ + decimal(n as nat) + " Investigation(s)."@,
            None => "No trend sample available."@,
        },
        "Hold deployment until CI/workflow failures are green."@,
        "Failing CI/workflow observations increase deployment risk."@,
    )
}

/// The verification item, present when a receipt failed or none exists.
pub open spec fn verification_item(rs: Seq<VerificationReceipt>) -> RiskItemView {
    (
        RiskCategory::Verification,
        if has_result(rs, VerificationResult::Fail) { Severity::High } else { Severity::Medium },
        600,
        receipt_ids(rs),
        "Verification risk is based on current receipts only."@,
        "Run or re-run verification after addressing gaps."@,
        "Missing or failed verification leaves conclusions unvalidated."@,
    )
}

/// The evidence-quality item, present with fewer than two Memory records.
pub open spec fn evidence_item(ms: Seq<MemoryRecord>) -> RiskItemView {
    (
        RiskCategory::EvidenceQuality,
        Severity::Medium,
        550,
        memory_ids(ms, ms.len()),
        "Evidence quality risk is local to this Investigation."@,
        "Collect more Observations via connectors before concluding."@,
        "Low Memory volume reduces confidence in all assistance outputs."@,
    )
}

/// The recurrence item, present when a prior outcome was unsuccessful.
pub open spec fn recurrence_item(prior: Seq<PriorOutcome>) -> RiskItemView {
    (
        RiskCategory::Recurrence,
        Severity::Medium,
        450,
        seq![],
        decimal(prior.len()) + " prior related outcome(s) include unsuccessful dispositions."@,
        "Review prior unsuccessful mitigations; do not auto-repeat them."@,
        "Historical unsuccessful outcomes raise recurrence risk (labeled historical, not current fact)."@,
    )
}

/// The baseline item, present when nothing else is.
pub open spec fn operational_item(ms: Seq<MemoryRecord>) -> RiskItemView {
    (
        RiskCategory::Operational,
        Severity::Low,
        500,
        memory_ids(ms, 3),
        "No elevated risk signals detected."@,
        "Continue monitoring and keep verification current."@,
        "Baseline operational risk with no strong elevating evidence."@,
    )
}

/// One item when the condition holds, none otherwise.
pub open spec fn item_if(c: bool, i: RiskItemView) -> Seq<RiskItemView> {
    if c { seq![i] } else { seq![] }
}

/// The elevated items, in order: regression, deployment, verification,
/// evidence quality, recurrence.
pub open spec fn elevated_items(
    k: Seq<KnowledgeObject>,
    es: Seq<Evaluation>,
    rs: Seq<VerificationReceipt>,
    obs: Seq<Observation>,
    ms: Seq<MemoryRecord>,
    trend_sample: Option<usize>,
    prior: Seq<PriorOutcome>,
) -> Seq<RiskItemView> {
    item_if(risk_blocks(k, es), regression_item(k, es, prior))
        + item_if(has_failing_ci(obs), deployment_item(obs, trend_sample))
        + item_if(has_result(rs, VerificationResult::Fail) || rs.len() == 0, verification_item(rs))
        + item_if(ms.len() < 2, evidence_item(ms))
        + item_if(has_unsuccessful_prior(prior), recurrence_item(prior))
}

/// The forecast items: the elevated ones, or the baseline item when none is.
pub open spec fn forecast_items(
    k: Seq<KnowledgeObject>,
    es: Seq<Evaluation>,
    rs: Seq<VerificationReceipt>,
    obs: Seq<Observation>,
    ms: Seq<MemoryRecord>,
    trend_sample: Option<usize>,
    prior: Seq<PriorOutcome>,
) -> Seq<RiskItemView> {
    let e = elevated_items(k, es, rs, obs, ms, trend_sample, prior);
    if e.len() == 0 { seq![operational_item(ms)] } else { e }
}

/// The highest severity of a list of items (info for none).
pub open spec fn highest_severity(items: Seq<RiskItemView>) -> Severity
    decreases items.len(),
{
    if items.len() == 0 {
        Severity::Info
    } else {
        let rest = highest_severity(items.drop_last());
        if severity_rank(items.last().1) >= severity_rank(rest) { items.last().1 } else { rest }
    }
}

/// The forecast summary line.
pub open spec fn forecast_summary(items: Seq<RiskItemView>) -> Seq<char> {
    "Forecasted "@ + decimal(items.len()) + " risk item(s); highest severity="@ + highest_severity(items).text() + "."@
}


fn text_string(s: &str) -> (r: String)
    ensures
        r@ == s@,
{
    s.to_owned()
}

fn risk_item(
    category: RiskCategory,
    severity: Severity,
    permille: u64,
    supporting_evidence: Vec<ObjectId>,
    historical_comparison: String,
    mitigation: &str,
    explanation: &str,
) -> (i: RiskItem)
    requires
        permille <= 1000,
    ensures
        risk_item_view(i) == (category, severity, permille as u32, supporting_evidence@, historical_comparison@, mitigation@, explanation@),
{
    RiskItem {
        category,
        severity,
        confidence: Confidence::new(permille),
        supporting_evidence,
        historical_comparison,
        mitigation: text_string(mitigation),
        explanation: text_string(explanation),
    }
}

/// Ids of the RiskSignal Knowledge objects, in order.
pub fn risk_signal_ids_of(k: &Vec<KnowledgeObject>) -> (r: Vec<ObjectId>)
    ensures
        r@ == risk_signal_ids(k@),
{
    let mut r: Vec<ObjectId> = Vec::new();
    let mut i: usize = 0;
    while i < k.len()
        invariant
            i <= k@.len(),
            r@ == risk_signal_ids(k@.subrange(0, i as int)),
        decreases k.len() - i,
    {
        assert(k@.subrange(0, i + 1).drop_last() =~= k@.subrange(0, i as int));
        if k[i].kind == KnowledgeKind::RiskSignal {
            r.push(k[i].id);
        }
        i = i + 1;
    }
    assert(k@.subrange(0, k@.len() as int) =~= k@);
    r
}

/// Ids of the CheckResult/WorkflowRun observations, in order.
pub fn ci_observation_ids_of(obs: &Vec<Observation>) -> (r: Vec<ObjectId>)
    ensures
        r@ == ci_observation_ids(obs@),
{
    let mut r: Vec<ObjectId> = Vec::new();
    let mut i: usize = 0;
    while i < obs.len()
        invariant
            i <= obs@.len(),
            r@ == ci_observation_ids(obs@.subrange(0, i as int)),
        decreases obs.len() - i,
    {
        assert(obs@.subrange(0, i + 1).drop_last() =~= obs@.subrange(0, i as int));
        if obs[i].kind == ObservationKind::CheckResult || obs[i].kind == ObservationKind::WorkflowRun {
            r.push(obs[i].id);
        }
        i = i + 1;
    }
    assert(obs@.subrange(0, obs@.len() as int) =~= obs@);
    r
}

/// Whether an observation is a failing CheckResult/WorkflowRun.
pub fn is_failing_ci(o: &Observation) -> (b: bool)
    ensures
        b == failing_ci(*o),
{
    if o.kind == ObservationKind::CheckResult || o.kind == ObservationKind::WorkflowRun {
        let mut t = chars_of(o.summary.as_str());
        t.push(' ');
        let p = chars_of(o.payload_text.as_str());
        push_chars(&mut t, &p);
        assert(t@ =~= o.summary@ + seq![' '] + o.payload_text@);
        let l = lower_of(&t);
        contains_str(&l, "fail")
    } else {
        false
    }
}

/// Whether some observation is a failing CheckResult/WorkflowRun.
pub fn any_failing_ci(obs: &Vec<Observation>) -> (b: bool)
    ensures
        b == has_failing_ci(obs@),
{
    let mut i: usize = 0;
    while i < obs.len()
        invariant
            i <= obs@.len(),
            forall|j: int| 0 <= j < i ==> !#[trigger] failing_ci(obs@[j]),
        decreases obs.len() - i,
    {
        if is_failing_ci(&obs[i]) {
            return true;
        }
        i = i + 1;
    }
    false
}

/// Whether some recalled prior outcome was unsuccessful.
pub fn any_unsuccessful_prior(prior: &Vec<PriorOutcome>) -> (b: bool)
    ensures
        b == has_unsuccessful_prior(prior@),
{
    let mut i: usize = 0;
    while i < prior.len()
        invariant
            i <= prior@.len(),
            forall|j: int| 0 <= j < i ==> #[trigger] prior@[j].outcome.disposition != OutcomeDisposition::Unsuccessful,
        decreases prior.len() - i,
    {
        if prior[i].outcome.disposition == OutcomeDisposition::Unsuccessful {
            return true;
        }
        i = i + 1;
    }
    false
}

fn rank_of(x: Severity) -> (r: u8)
    ensures
        r as int == severity_rank(x),
{
    match x {
        Severity::Info => 0,
        Severity::Low => 1,
        Severity::Medium => 2,
        Severity::High => 3,
        Severity::Critical => 4,
    }
}

/// The highest severity among the items.
fn highest_of(items: &Vec<RiskItem>) -> (s: Severity)
    ensures
        s == highest_severity(item_views(items@)),
{
    let ghost views = item_views(items@);
    let mut best = Severity::Info;
    let mut i: usize = 0;
    while i < items.len()
        invariant
            i <= items@.len(),
            views == item_views(items@),
            best == highest_severity(views.subrange(0, i as int)),
        decreases items.len() - i,
    {
        assert(views.subrange(0, i + 1).drop_last() =~= views.subrange(0, i as int));
        let s = items[i].severity;
        if rank_of(s) >= rank_of(best) {
            best = s;
        }
        i = i + 1;
    }
    assert(views.subrange(0, views.len() as int) =~= views);
    best
}


/// The views of a list of items.
pub open spec fn item_views(v: Seq<RiskItem>) -> Seq<RiskItemView> {
    v.map_values(|x: RiskItem| risk_item_view(x))
}

fn one_item(c: bool, i: RiskItem) -> (v: Vec<RiskItem>)
    ensures
        item_views(v@) == item_if(c, risk_item_view(i)),
{
    let mut v: Vec<RiskItem> = Vec::new();
    if c {
        v.push(i);
    }
    assert(item_views(v@) =~= item_if(c, risk_item_view(i)));
    v
}

fn regression_items(knowledge: &Vec<KnowledgeObject>, evaluations: &Vec<Evaluation>, unsuccessful: bool, prior: &Vec<PriorOutcome>) -> (v: Vec<RiskItem>)
    requires
        unsuccessful == has_unsuccessful_prior(prior@),
    ensures
        item_views(v@) == item_if(risk_blocks(knowledge@, evaluations@), regression_item(knowledge@, evaluations@, prior@)),
{
    let has_risk = super::readiness::any_risk_signal(knowledge);
    let first = first_risk_index(evaluations);
    let risk_high = match first {
        Some(i) => match evaluations[i].severity {
            Severity::High | Severity::Critical => true,
            _ => false,
        },
        None => false,
    };
    assert((has_risk || risk_high) == risk_blocks(knowledge@, evaluations@));
    let mut ids = risk_signal_ids_of(knowledge);
    match first {
        Some(i) => ids.push(evaluations[i].id),
        None => {},
    }
    assert(ids@ =~= regression_item(knowledge@, evaluations@, prior@).3);
    let historical = if unsuccessful {
        text_string("Similar prior Investigations had unsuccessful outcomes.")
    } else {
        text_string("No unsuccessful prior outcomes recalled for similar Investigations.")
    };
    one_item(
        has_risk || risk_high,
        risk_item(
            RiskCategory::Regression,
            Severity::High,
            700,
            ids,
            historical,
            "Investigate failure signals and re-verify before promoting changes.",
            "Failure-related Knowledge or high Risk Evaluation elevates regression risk.",
        ),
    )
}

fn deployment_items(observations: &Vec<Observation>, trend_sample: Option<usize>) -> (v: Vec<RiskItem>)
    ensures
        item_views(v@) == item_if(has_failing_ci(observations@), deployment_item(observations@, trend_sample)),
{
    let historical = match trend_sample {
        Some(n) => {
            let mut t: Vec<char> = Vec::new();
            push_str(&mut t, "Historical sample covers ");
            push_decimal(&mut t, n as u128);
            push_str(&mut t, " Investigation(s).");
            to_string(&t)
        },
        None => text_string("No trend sample available."),
    };
    one_item(
        any_failing_ci(observations),
        risk_item(
            RiskCategory::Deployment,
            Severity::High,
            650,
            ci_observation_ids_of(observations),
            historical,
            "Hold deployment until CI/workflow failures are green.",
            "Failing CI/workflow observations increase deployment risk.",
        ),
    )
}

fn verification_items(receipts: &Vec<VerificationReceipt>) -> (v: Vec<RiskItem>)
    ensures
        item_views(v@) == item_if(
            has_result(receipts@, VerificationResult::Fail) || receipts@.len() == 0,
            verification_item(receipts@),
        ),
{
    let verify_fail = any_result(receipts, VerificationResult::Fail);
    one_item(
        verify_fail || receipts.len() == 0,
        risk_item(
            RiskCategory::Verification,
            if verify_fail { Severity::High } else { Severity::Medium },
            600,
            receipt_ids_of(receipts),
            text_string("Verification risk is based on current receipts only."),
            "Run or re-run verification after addressing gaps.",
            "Missing or failed verification leaves conclusions unvalidated.",
        ),
    )
}

fn evidence_items(memory: &Vec<MemoryRecord>) -> (v: Vec<RiskItem>)
    ensures
        item_views(v@) == item_if(memory@.len() < 2, evidence_item(memory@)),
{
    one_item(
        memory.len() < 2,
        risk_item(
            RiskCategory::EvidenceQuality,
            Severity::Medium,
            550,
            memory_ids_of(memory, memory.len()),
            text_string("Evidence quality risk is local to this Investigation."),
            "Collect more Observations via connectors before concluding.",
            "Low Memory volume reduces confidence in all assistance outputs.",
        ),
    )
}

fn recurrence_items(unsuccessful: bool, prior: &Vec<PriorOutcome>) -> (v: Vec<RiskItem>)
    requires
        unsuccessful == has_unsuccessful_prior(prior@),
    ensures
        item_views(v@) == item_if(has_unsuccessful_prior(prior@), recurrence_item(prior@)),
{
    let mut t: Vec<char> = Vec::new();
    push_decimal(&mut t, prior.len() as u128);
    push_str(&mut t, " prior related outcome(s) include unsuccessful dispositions.");
    one_item(
        unsuccessful,
        risk_item(
            RiskCategory::Recurrence,
            Severity::Medium,
            450,
            Vec::new(),
            to_string(&t),
            "Review prior unsuccessful mitigations; do not auto-repeat them.",
            "Historical unsuccessful outcomes raise recurrence risk (labeled historical, not current fact).",
        ),
    )
}

fn append_items(a: &mut Vec<RiskItem>, b: Vec<RiskItem>)
    ensures
        item_views(final(a)@) == item_views(old(a)@) + item_views(b@),
{
    let mut b = b;
    let ghost bv = b@;
    a.append(&mut b);
    assert(item_views(a@) =~= item_views(old(a)@) + item_views(bv));
}

/// Forecasts evidence-backed risks for one Investigation.
///
/// `trend_sample` is the number of Investigations in the historical trend
/// sample, when one is available; `prior` are the recalled outcomes of
/// similar Investigations. Items come in a fixed order (regression,
/// deployment, verification, evidence quality, recurrence), with a baseline
/// operational item when none of them applies.
pub fn forecast_risk(
    investigation_id: InvestigationId,
    knowledge: &Vec<KnowledgeObject>,
    evaluations: &Vec<Evaluation>,
    receipts: &Vec<VerificationReceipt>,
    observations: &Vec<Observation>,
    memory: &Vec<MemoryRecord>,
    trend_sample: Option<usize>,
    prior: &Vec<PriorOutcome>,
    actor: &str,
    now: i64,
) -> (f: RiskForecast)
    ensures
        f.investigation_id == investigation_id,
        item_views(f.items@) == forecast_items(
            knowledge@,
            evaluations@,
            receipts@,
            observations@,
            memory@,
            trend_sample,
            prior@,
        ),
        f.summary@ == forecast_summary(item_views(f.items@)),
        f.items@.len() >= 1,
        f.provenance.actor@ == actor@,
        f.provenance.recorded_at == now,
        f.provenance.source@ == "runtime"@,
        f.provenance.capability is Some && f.provenance.capability->0@ == "forecast_risk"@,
        f.provenance.evidence_ids@.len() == 0,
{
    let unsuccessful = any_unsuccessful_prior(prior);
    let mut items = regression_items(knowledge, evaluations, unsuccessful, prior);
    append_items(&mut items, deployment_items(observations, trend_sample));
    append_items(&mut items, verification_items(receipts));
    append_items(&mut items, evidence_items(memory));
    append_items(&mut items, recurrence_items(unsuccessful, prior));
    assert(item_views(items@) == elevated_items(knowledge@, evaluations@, receipts@, observations@, memory@, trend_sample, prior@));
    if items.len() == 0 {
        let baseline = one_item(
            true,
            risk_item(
                RiskCategory::Operational,
                Severity::Low,
                500,
                memory_ids_of(memory, 3),
                text_string("No elevated risk signals detected."),
                "Continue monitoring and keep verification current.",
                "Baseline operational risk with no strong elevating evidence.",
            ),
        );
        items = baseline;
    }
    let highest = highest_of(&items);
    let mut summary: Vec<char> = Vec::new();
    push_str(&mut summary, "Forecasted ");
    push_decimal(&mut summary, items.len() as u128);
    push_str(&mut summary, " risk item(s); highest severity=");
    push_str(&mut summary, highest.as_str());
    push_str(&mut summary, ".");
    let provenance = Provenance::now(actor, "runtime", now).with_capability("forecast_risk");
    let forecasted_at = provenance.recorded_at;
    RiskForecast {
        id: fresh_object_id(),
        investigation_id,
        items,
        summary: to_string(&summary),
        forecasted_at,
        provenance,
    }
}

} // verus!
