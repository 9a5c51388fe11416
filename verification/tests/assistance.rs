use rivora::forecast::forecast_risk;
use rivora::hypotheses::generate_hypotheses;
use rivora::ids::{InvestigationId, ObjectId};
use rivora::json::JsonValue;
use rivora::model::{
    Confidence, Evaluation, HistoryNote, Hypothesis, KnowledgeObject, LearningOutcome, MemoryRecord, Observation, Provenance,
    VerificationReceipt,
};
use rivora::readiness::assess_deployment_readiness;
use rivora::search::PriorOutcome;
use rivora::vocab::{
    AssessmentType, HypothesisStatus, KnowledgeKind, ObservationKind, OutcomeDisposition, ReadinessStatus, RiskCategory,
    Severity, VerificationResult,
};

const NOW: i64 = 1_700_000_000_000;

fn oid(v: u128) -> ObjectId {
    ObjectId { value: v }
}

fn inv() -> InvestigationId {
    InvestigationId { value: 42 }
}

fn observation(id: u128, kind: ObservationKind, summary: &str) -> Observation {
    Observation {
        id: oid(id),
        investigation_id: inv(),
        kind,
        summary: summary.to_string(),
        payload: JsonValue::Null,
        payload_text: "null".to_string(),
        source: "test".to_string(),
        observed_at: 0,
        idempotency_key: None,
    }
}

fn memory(id: u128) -> MemoryRecord {
    MemoryRecord {
        id: oid(id),
        investigation_id: inv(),
        observation_id: oid(id + 1000),
        summary: format!("memory {id}"),
        corrects: None,
        recorded_at: 0,
    }
}

fn receipt(id: u128, result: VerificationResult) -> VerificationReceipt {
    VerificationReceipt {
        id: oid(id),
        investigation_id: inv(),
        evaluation_id: oid(id + 1000),
        claim: "c".to_string(),
        result,
        confidence: Confidence::new(700),
        evidence_ids: Vec::new(),
        conflicting_ids: Vec::new(),
        reason: "r".to_string(),
        provenance: Provenance::now("tester", "runtime", NOW),
    }
}

fn evaluation(id: u128, assessment_type: AssessmentType, severity: Severity) -> Evaluation {
    Evaluation {
        id: oid(id),
        investigation_id: inv(),
        assessment_type,
        summary: "s".to_string(),
        severity,
        confidence: Confidence::new(600),
        knowledge_ids: Vec::new(),
        memory_ids: Vec::new(),
        explanation: "e".to_string(),
        provenance: Provenance::now("tester", "runtime", NOW),
        history: HistoryNote::none(),
    }
}

fn knowledge(id: u128, kind: KnowledgeKind) -> KnowledgeObject {
    KnowledgeObject {
        id: oid(id),
        investigation_id: inv(),
        kind,
        summary: "k".to_string(),
        memory_ids: Vec::new(),
        confidence: Confidence::new(600),
        method: "m".to_string(),
        explanation: "x".to_string(),
        provenance: Provenance::now("tester", "runtime", NOW),
    }
}

fn hypothesis(permille: u64, status: HypothesisStatus) -> Hypothesis {
    Hypothesis {
        id: oid(900),
        investigation_id: inv(),
        statement: "h".to_string(),
        status,
        confidence: Confidence::new(permille),
        supporting_evidence: Vec::new(),
        contradicting_evidence: Vec::new(),
        related_investigations: Vec::new(),
        method: "m".to_string(),
        verification_summary: "unverified".to_string(),
        rank: 1,
        provenance: Provenance::now("tester", "runtime", NOW),
    }
}

#[test]
fn readiness_holds_on_failing_check() {
    let observations = vec![observation(1, ObservationKind::CheckResult, "CI build FAILED on main")];
    let memory_records = vec![memory(10), memory(11)];
    let receipts = vec![receipt(20, VerificationResult::Pass)];
    let r = assess_deployment_readiness(
        inv(),
        &Vec::new(),
        &Vec::new(),
        &receipts,
        &observations,
        &memory_records,
        &Vec::new(),
        "tester",
        NOW,
    );
    assert_eq!(r.status, ReadinessStatus::Hold);
    assert_eq!(r.confidence.permille, 750);
    assert_eq!(r.blockers, vec!["1 CI/test failure observation(s)".to_string()]);
    assert!(r.warnings.is_empty());
    assert_eq!(r.dimensions.len(), 4);
    assert_eq!(r.dimensions[0].name, "ci_status");
    assert_eq!(r.dimensions[0].status, "failing");
    assert_eq!(r.dimensions[0].explanation, "1 failed CI/test observation(s) detected.");
    assert_eq!(r.dimensions[0].evidence_ids, vec![oid(1)]);
    assert_eq!(r.dimensions[1].status, "medium");
    assert_eq!(r.dimensions[2].status, "passing");
    assert_eq!(
        r.dimensions[2].explanation,
        "1 Verification Receipt(s); pass present=true; fail present=false."
    );
    assert_eq!(r.dimensions[3].status, "2 memory records");
    assert_eq!(r.recommendation_summary, "Hold deployment until blockers are resolved and re-verified.");
    assert_eq!(r.supporting_evidence, vec![oid(10), oid(11), oid(20)]);
    assert!(r.required_verifications.is_empty());
    assert_eq!(r.provenance.capability.as_deref(), Some("assess_deployment_readiness"));
}

#[test]
fn readiness_ready_with_clean_evidence() {
    let memory_records = vec![memory(10), memory(11), memory(12), memory(13)];
    let receipts = vec![receipt(20, VerificationResult::Pass)];
    let evaluations = vec![evaluation(30, AssessmentType::Risk, Severity::Low)];
    let r = assess_deployment_readiness(
        inv(),
        &Vec::new(),
        &evaluations,
        &receipts,
        &Vec::new(),
        &memory_records,
        &Vec::new(),
        "tester",
        NOW,
    );
    assert_eq!(r.status, ReadinessStatus::Ready);
    assert_eq!(r.confidence.permille, 700);
    assert!(r.blockers.is_empty());
    assert_eq!(r.contradicting_evidence, vec![oid(30)]);
    assert_eq!(r.supporting_evidence, vec![oid(10), oid(11), oid(12), oid(20)]);
    assert_eq!(r.dimensions[3].evidence_ids.len(), 4);
}

#[test]
fn readiness_inspects_without_receipts_or_memory() {
    let hyps = vec![hypothesis(700, HypothesisStatus::Supported)];
    let r = assess_deployment_readiness(inv(), &Vec::new(), &Vec::new(), &Vec::new(), &Vec::new(), &Vec::new(), &hyps, "t", NOW);
    assert_eq!(r.status, ReadinessStatus::Inspect);
    assert_eq!(
        r.warnings,
        vec![
            "No Verification Receipts yet".to_string(),
            "No Memory records".to_string(),
            "Unresolved high-confidence hypotheses remain".to_string()
        ]
    );
    assert_eq!(r.required_verifications, vec!["Run verify_all".to_string()]);
    assert_eq!(r.dimensions[0].status, "unknown");
    assert_eq!(r.dimensions[2].status, "missing");
}

#[test]
fn readiness_risk_signal_blocks() {
    let k = vec![knowledge(5, KnowledgeKind::RiskSignal)];
    let evaluations = vec![evaluation(30, AssessmentType::Risk, Severity::High)];
    let receipts = vec![receipt(20, VerificationResult::Fail)];
    let r = assess_deployment_readiness(inv(), &k, &evaluations, &receipts, &Vec::new(), &vec![memory(1), memory(2)], &Vec::new(), "t", NOW);
    assert_eq!(r.status, ReadinessStatus::Hold);
    assert_eq!(
        r.blockers,
        vec![
            "Elevated risk evaluation or RiskSignal knowledge present".to_string(),
            "Verification Failure receipts present".to_string()
        ]
    );
    assert_eq!(r.supporting_evidence[0], oid(30));
    assert_eq!(r.required_verifications, vec!["Resolve failed verifications and re-verify".to_string()]);
}

#[test]
fn forecast_baseline_only_when_nothing_elevated() {
    let memory_records = vec![memory(1), memory(2), memory(3), memory(4)];
    let receipts = vec![receipt(20, VerificationResult::Pass)];
    let f = forecast_risk(inv(), &Vec::new(), &Vec::new(), &receipts, &Vec::new(), &memory_records, None, &Vec::new(), "t", NOW);
    assert_eq!(f.items.len(), 1);
    assert_eq!(f.items[0].category, RiskCategory::Operational);
    assert_eq!(f.items[0].severity, Severity::Low);
    assert_eq!(f.items[0].supporting_evidence, vec![oid(1), oid(2), oid(3)]);
    assert_eq!(f.summary, "Forecasted 1 risk item(s); highest severity=low.");
}

#[test]
fn forecast_lists_elevated_items_in_order() {
    let k = vec![knowledge(5, KnowledgeKind::RiskSignal)];
    let observations = vec![observation(7, ObservationKind::WorkflowRun, "Deploy workflow Failed")];
    let prior = vec![PriorOutcome {
        investigation_id: InvestigationId { value: 3 },
        investigation_title: "older".to_string(),
        outcome: LearningOutcome {
            id: oid(70),
            disposition: OutcomeDisposition::Unsuccessful,
            recommendation_id: None,
            notes: String::new(),
            observed_at: 0,
        },
        recommendation_summary: None,
    }];
    let f = forecast_risk(inv(), &k, &Vec::new(), &Vec::new(), &observations, &Vec::new(), Some(12), &prior, "t", NOW);
    let cats: Vec<RiskCategory> = f.items.iter().map(|i| i.category).collect();
    assert_eq!(
        cats,
        vec![
            RiskCategory::Regression,
            RiskCategory::Deployment,
            RiskCategory::Verification,
            RiskCategory::EvidenceQuality,
            RiskCategory::Recurrence
        ]
    );
    assert_eq!(f.items[0].historical_comparison, "Similar prior Investigations had unsuccessful outcomes.");
    assert_eq!(f.items[0].supporting_evidence, vec![oid(5)]);
    assert_eq!(f.items[1].historical_comparison, "Historical sample covers 12 Investigation(s).");
    assert_eq!(f.items[1].supporting_evidence, vec![oid(7)]);
    assert_eq!(f.items[2].severity, Severity::Medium);
    assert_eq!(f.items[4].historical_comparison, "1 prior related outcome(s) include unsuccessful dispositions.");
    assert_eq!(f.summary, "Forecasted 5 risk item(s); highest severity=high.");
}

#[test]
fn hypotheses_rank_failure_then_ci() {
    let observations = vec![
        observation(1, ObservationKind::CheckResult, "unit tests failed"),
        observation(2, ObservationKind::TestOutput, "timeout in integration"),
    ];
    let memory_records = vec![memory(10)];
    let evaluations = vec![evaluation(30, AssessmentType::Risk, Severity::Info)];
    let related = vec![InvestigationId { value: 9 }];
    let hs = generate_hypotheses(inv(), &Vec::new(), &memory_records, &observations, &evaluations, &related, "t", NOW);
    assert_eq!(hs.len(), 3);
    assert_eq!(hs[0].rank, 1);
    assert_eq!(hs[0].method, "failure_signal_scan_v1");
    assert_eq!(hs[0].status, HypothesisStatus::Inconclusive);
    assert_eq!(hs[0].confidence.permille, 750);
    assert_eq!(hs[0].supporting_evidence, vec![oid(1), oid(2), oid(10)]);
    assert_eq!(hs[0].contradicting_evidence, vec![oid(30)]);
    assert_eq!(hs[1].method, "ci_observation_presence_v1");
    assert_eq!(hs[1].supporting_evidence, vec![oid(1)]);
    assert_eq!(hs[1].rank, 2);
    assert_eq!(hs[2].method, "similar_investigation_recall_v1");
    assert_eq!(hs[2].related_investigations, related);
    assert_eq!(hs[2].rank, 3);
}

#[test]
fn hypotheses_fall_back_to_evidence_gap() {
    let memory_records = vec![memory(1), memory(2), memory(3), memory(4)];
    let hs = generate_hypotheses(inv(), &Vec::new(), &memory_records, &Vec::new(), &Vec::new(), &Vec::new(), "t", NOW);
    assert_eq!(hs.len(), 1);
    assert_eq!(hs[0].method, "evidence_gap_v1");
    assert_eq!(hs[0].status, HypothesisStatus::Inconclusive);
    assert_eq!(hs[0].confidence.permille, 350);
    assert_eq!(hs[0].supporting_evidence, vec![oid(1), oid(2), oid(3)]);
}
