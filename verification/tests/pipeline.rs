use rivora::error::RivoraError;
use rivora::ingest::{decide_ingest, IngestDecision, MAX_PAYLOAD_BYTES};
use rivora::ids::{InvestigationId, ObjectId};
use rivora::json::JsonValue;
use rivora::model::{
    Confidence, Evaluation, HistoryNote, KnowledgeObject, MemoryRecord, Observation, Provenance, VerificationReceipt,
};
use rivora::pipeline::{
    apply_historical_influence_to_evaluation, apply_historical_influence_to_recommendation, derive_knowledge,
    evaluate_investigation, generate_recommendation, verify_conclusion, HistoricalInfluence,
};
use rivora::vocab::{AssessmentType, InvestigationStatus, KnowledgeKind, ObservationKind, Severity, VerificationResult};

const NOW: i64 = 1_700_000_000_000;

fn oid(v: u128) -> ObjectId {
    ObjectId { value: v }
}

fn inv() -> InvestigationId {
    InvestigationId { value: 7 }
}

fn observation(id: u128, kind: ObservationKind, summary: &str) -> Observation {
    Observation {
        id: oid(id),
        investigation_id: inv(),
        kind,
        summary: summary.to_string(),
        payload: JsonValue::Null,
        payload_text: "null".to_string(),
        source: "test".to_string(),
        observed_at: 0,
        idempotency_key: None,
    }
}

fn memory(id: u128, observation_id: u128, corrects: Option<u128>) -> MemoryRecord {
    MemoryRecord {
        id: oid(id),
        investigation_id: inv(),
        observation_id: oid(observation_id),
        summary: format!("memory {id}"),
        corrects: corrects.map(oid),
        recorded_at: 0,
    }
}

fn no_influence() -> HistoricalInfluence {
    HistoricalInfluence {
        context_ids: Vec::new(),
        source_investigation_ids: Vec::new(),
        notes: Vec::new(),
        warnings: Vec::new(),
        successes: Vec::new(),
    }
}

fn receipt(id: u128, result: VerificationResult) -> VerificationReceipt {
    VerificationReceipt {
        id: oid(id),
        investigation_id: inv(),
        evaluation_id: oid(1),
        claim: "c".to_string(),
        result,
        confidence: Confidence::new(700),
        evidence_ids: Vec::new(),
        conflicting_ids: Vec::new(),
        reason: "r".to_string(),
        provenance: Provenance::now("tester", "runtime", NOW),
    }
}

fn evaluation(id: u128, assessment_type: AssessmentType, severity: Severity, permille: u64) -> Evaluation {
    Evaluation {
        id: oid(id),
        investigation_id: inv(),
        assessment_type,
        summary: format!("evaluation {id}"),
        severity,
        confidence: Confidence::new(permille),
        knowledge_ids: Vec::new(),
        memory_ids: vec![oid(10), oid(11)],
        explanation: "e".to_string(),
        provenance: Provenance::now("tester", "runtime", NOW),
        history: HistoryNote::none(),
    }
}

fn kinds(ks: &[KnowledgeObject]) -> Vec<KnowledgeKind> {
    ks.iter().map(|k| k.kind).collect()
}

#[test]
fn knowledge_needs_memory() {
    let r = derive_knowledge(inv(), &Vec::new(), &Vec::new(), "tester", NOW);
    match r {
        Err(RivoraError::Precondition { message }) => assert_eq!(message, "cannot derive knowledge without memory"),
        _ => panic!("expected a precondition error"),
    }
}

#[test]
fn knowledge_summary_activity_risk_and_corrections() {
    let observations = vec![
        observation(1, ObservationKind::CheckResult, "CI build FAILED"),
        observation(2, ObservationKind::Commit, "refactor parser"),
        observation(3, ObservationKind::Commit, "bump version"),
    ];
    let memory_records = vec![memory(10, 1, None), memory(11, 2, None), memory(12, 3, Some(11))];
    let ks = derive_knowledge(inv(), &memory_records, &observations, "tester", NOW).unwrap();
    assert_eq!(
        kinds(&ks),
        vec![KnowledgeKind::Summary, KnowledgeKind::Activity, KnowledgeKind::RiskSignal, KnowledgeKind::Pattern]
    );
    assert_eq!(ks[0].summary, "Investigation has 3 memory record(s) from 3 observation(s).");
    assert_eq!(ks[0].confidence.permille, 900);
    assert_eq!(ks[0].memory_ids, vec![oid(10), oid(11), oid(12)]);
    assert_eq!(ks[1].summary, "Observed activity mix: check_result×1, commit×2.");
    assert_eq!(ks[1].method, "activity_histogram_v1");
    assert_eq!(ks[2].summary, "Detected 1 potential failure-related observation(s).");
    assert_eq!(ks[2].memory_ids, vec![oid(10)]);
    assert_eq!(ks[2].confidence.permille, 750);
    assert_eq!(ks[3].summary, "1 correction record(s) refine earlier Memory without rewriting history.");
    assert_eq!(ks[3].memory_ids, vec![oid(12)]);
    assert_eq!(ks[3].confidence.permille, 1000);
    for k in &ks {
        assert_eq!(k.investigation_id, inv());
        assert_eq!(k.provenance.capability.as_deref(), Some("derive_knowledge"));
        assert_eq!(k.provenance.evidence_ids, vec![oid(10), oid(11), oid(12)]);
    }
}

#[test]
fn knowledge_without_observations_is_summary_only() {
    let ks = derive_knowledge(inv(), &vec![memory(10, 1, None)], &Vec::new(), "t", NOW).unwrap();
    assert_eq!(kinds(&ks), vec![KnowledgeKind::Summary]);
    assert_eq!(ks[0].summary, "Investigation has 1 memory record(s) from 0 observation(s).");
}

#[test]
fn evaluation_needs_knowledge() {
    match evaluate_investigation(inv(), &Vec::new(), &Vec::new(), "t", NOW) {
        Err(RivoraError::Precondition { message }) => assert_eq!(message, "cannot evaluate without knowledge"),
        _ => panic!("expected a precondition error"),
    }
}

#[test]
fn evaluation_with_risk_signal() {
    let observations = vec![observation(1, ObservationKind::TestOutput, "error in test")];
    let memory_records = vec![memory(10, 1, None), memory(11, 1, None), memory(12, 1, None)];
    let ks = derive_knowledge(inv(), &memory_records, &observations, "t", NOW).unwrap();
    let es = evaluate_investigation(inv(), &ks, &memory_records, "t", NOW).unwrap();
    assert_eq!(es.len(), 4);
    assert_eq!(es[0].assessment_type, AssessmentType::Risk);
    assert_eq!(es[0].severity, Severity::High);
    assert_eq!(es[0].confidence.permille, 800);
    assert_eq!(es[0].summary, "Elevated risk: failure-related signals present in Memory.");
    assert_eq!(es[1].assessment_type, AssessmentType::Health);
    assert_eq!(es[1].severity, Severity::Medium);
    assert_eq!(es[1].summary, "Investigation health based on 3 Memory record(s) and 3 Knowledge object(s).");
    assert_eq!(es[2].assessment_type, AssessmentType::Confidence);
    assert_eq!(es[2].confidence.permille, 850);
    assert_eq!(es[2].summary, "Understanding confidence is 85% based on available evidence volume.");
    assert_eq!(es[3].assessment_type, AssessmentType::Readiness);
    assert_eq!(es[3].severity, Severity::Medium);
    assert_eq!(es[3].summary, "Ready for verification of failure-related conclusions.");
    for e in &es {
        assert_eq!(e.memory_ids, vec![oid(10), oid(11), oid(12)]);
        assert_eq!(e.knowledge_ids.len(), 3);
        assert!(!e.history.influenced);
    }
}

#[test]
fn evaluation_without_risk_signal() {
    let memory_records = vec![memory(10, 1, None)];
    let ks = derive_knowledge(inv(), &memory_records, &Vec::new(), "t", NOW).unwrap();
    let es = evaluate_investigation(inv(), &ks, &memory_records, "t", NOW).unwrap();
    assert_eq!(es[0].severity, Severity::Low);
    assert_eq!(es[0].confidence.permille, 700);
    assert_eq!(es[1].severity, Severity::Low);
    assert_eq!(es[2].confidence.permille, 600);
    assert_eq!(es[2].summary, "Understanding confidence is 60% based on available evidence volume.");
    assert_eq!(es[3].severity, Severity::Low);
    assert_eq!(es[3].summary, "Ready for routine verification of current understanding.");
}

#[test]
fn verification_passes_with_cited_memory() {
    let memory_records = vec![memory(10, 1, None), memory(11, 2, None)];
    let evaluations = vec![
        evaluation(30, AssessmentType::Health, Severity::Low, 750),
        evaluation(31, AssessmentType::Risk, Severity::High, 800),
    ];
    let receipt = verify_conclusion(inv(), &evaluations, None, &memory_records, "t", NOW).unwrap();
    assert_eq!(receipt.evaluation_id, oid(31));
    assert_eq!(receipt.result, VerificationResult::Pass);
    assert_eq!(receipt.confidence.permille, 760);
    assert_eq!(receipt.claim, "evaluation 31");
    assert_eq!(receipt.reason, "Verified evaluation 'evaluation 31': all 2 cited Memory record(s) exist in Investigation.");
    assert_eq!(receipt.evidence_ids, vec![oid(10), oid(11)]);
    assert!(receipt.conflicting_ids.is_empty());
    assert_eq!(receipt.provenance.capability.as_deref(), Some("verify_conclusion"));
}

#[test]
fn verification_fails_without_memory_and_is_inconclusive_on_missing_links() {
    let evaluations = vec![evaluation(30, AssessmentType::Health, Severity::Low, 750)];
    let failed = verify_conclusion(inv(), &evaluations, Some(oid(30)), &Vec::new(), "t", NOW).unwrap();
    assert_eq!(failed.result, VerificationResult::Fail);
    assert_eq!(failed.confidence.permille, 900);
    assert_eq!(failed.reason, "Verification failed: no Memory evidence available.");
    let other = vec![memory(99, 1, None)];
    let unsure = verify_conclusion(inv(), &evaluations, None, &other, "t", NOW).unwrap();
    assert_eq!(unsure.evaluation_id, oid(30));
    assert_eq!(unsure.result, VerificationResult::Inconclusive);
    assert_eq!(unsure.confidence.permille, 400);
}

#[test]
fn verification_errors() {
    match verify_conclusion(inv(), &Vec::new(), None, &Vec::new(), "t", NOW) {
        Err(RivoraError::Precondition { message }) => assert_eq!(message, "cannot verify without evaluations"),
        _ => panic!("expected a precondition error"),
    }
    let evaluations = vec![evaluation(30, AssessmentType::Health, Severity::Low, 750)];
    match verify_conclusion(inv(), &evaluations, Some(oid(0xabc)), &Vec::new(), "t", NOW) {
        Err(RivoraError::ObjectNotFound { kind, id }) => {
            assert_eq!(kind, "evaluation");
            assert_eq!(id, "00000000-0000-0000-0000-000000000abc");
        }
        _ => panic!("expected not found"),
    }
}

#[test]
fn recommendation_refused_when_all_failed() {
    let evaluations = vec![evaluation(31, AssessmentType::Risk, Severity::High, 800)];
    let receipts = vec![receipt(40, VerificationResult::Fail)];
    match generate_recommendation(inv(), &evaluations, &receipts, &no_influence(), "t", NOW) {
        Err(RivoraError::Precondition { message }) => {
            assert_eq!(message, "cannot recommend when all verifications failed")
        }
        _ => panic!("expected a precondition error"),
    }
}

#[test]
fn recommendation_for_high_risk() {
    let evaluations = vec![
        evaluation(30, AssessmentType::Health, Severity::Low, 750),
        evaluation(31, AssessmentType::Risk, Severity::High, 800),
    ];
    let receipts = vec![receipt(40, VerificationResult::Pass), receipt(41, VerificationResult::Fail)];
    let rec = generate_recommendation(inv(), &evaluations, &receipts, &no_influence(), "t", NOW).unwrap();
    assert_eq!(rec.summary, "Investigate and remediate failure signals before promoting changes.");
    assert_eq!(
        rec.rationale,
        "Risk evaluation reports severity high with confidence 80%. Verification receipts: 1 pass, 1 fail, 0 inconclusive. Recommendation is a proposal and must be approved by a human."
    );
    assert_eq!(rec.confidence.permille, 720);
    assert_eq!(rec.evaluation_ids, vec![oid(30), oid(31)]);
    assert_eq!(rec.verification_ids, vec![oid(40), oid(41)]);
    assert_eq!(rec.provenance.evidence_ids, vec![oid(30), oid(31), oid(40), oid(41)]);
    assert!(!rec.history.influenced);
}

#[test]
fn recommendation_low_risk_and_generic() {
    let low = vec![evaluation(31, AssessmentType::Risk, Severity::Low, 700)];
    let rec = generate_recommendation(inv(), &low, &Vec::new(), &no_influence(), "t", NOW).unwrap();
    assert_eq!(rec.summary, "Continue monitoring; no urgent remediation indicated.");
    assert_eq!(
        rec.rationale,
        "Risk severity is low. Verified evaluations support a low-urgency posture. This recommendation remains a proposal."
    );
    assert_eq!(rec.confidence.permille, 650);
    let rec = generate_recommendation(inv(), &Vec::new(), &Vec::new(), &no_influence(), "t", NOW).unwrap();
    assert_eq!(rec.summary, "Review Investigation evidence and decide next engineering action.");
    assert_eq!(rec.confidence.permille, 500);
}

#[test]
fn recommendation_cites_attached_history() {
    let influence = HistoricalInfluence {
        context_ids: vec![oid(500)],
        source_investigation_ids: vec![InvestigationId { value: 3 }],
        notes: vec!["note one".to_string()],
        warnings: vec!["warn one".to_string()],
        successes: vec!["good one".to_string()],
    };
    let low = vec![evaluation(31, AssessmentType::Risk, Severity::Low, 700)];
    let rec = generate_recommendation(inv(), &low, &Vec::new(), &influence, "t", NOW).unwrap();
    assert_eq!(
        rec.rationale,
        "Risk severity is low. Verified evaluations support a low-urgency posture. This recommendation remains a proposal. Historical intelligence (labeled; prior conclusions are not repeated automatically): WARNING: warn one NOTE: good one note one"
    );
    assert!(rec.history.influenced);
    assert_eq!(rec.history.recalled_context_ids, vec![oid(500)]);
    assert_eq!(rec.history.source_investigation_ids, vec![InvestigationId { value: 3 }]);
    assert_eq!(rec.history.warnings, vec!["warn one".to_string()]);
    assert_eq!(rec.history.successes, vec!["good one".to_string()]);

    let mut unchanged = generate_recommendation(inv(), &low, &Vec::new(), &no_influence(), "t", NOW).unwrap();
    let before = unchanged.rationale.clone();
    apply_historical_influence_to_recommendation(&mut unchanged, &no_influence());
    assert_eq!(unchanged.rationale, before);

    let mut e = evaluation(31, AssessmentType::Risk, Severity::Low, 700);
    apply_historical_influence_to_evaluation(&mut e, &influence);
    assert_eq!(
        e.explanation,
        "e Historical context (labeled; not current fact): current assessment remains based on this Investigation's Memory and Knowledge. note one warn one good one"
    );
    assert!(e.history.influenced);
    assert!(e.history.warnings.is_empty());
    assert_eq!(e.confidence.permille, 700);
}

#[test]
fn fresh_identifiers_are_version_4_uuids() {
    let a = ObjectId::new();
    let b = ObjectId::new();
    let inv = InvestigationId::new();
    for v in [a.value, b.value, inv.value] {
        assert_eq!((v >> 76) & 0xF, 4);
        assert_eq!((v >> 62) & 0x3, 2);
    }
    assert_ne!(a.value, b.value);
    let text = a.to_text();
    assert_eq!(text.len(), 36);
    assert_eq!(text.chars().nth(14), Some('4'));
}

#[test]
fn ingest_decisions_bound_payload_and_replay_keys() {
    match decide_ingest(InvestigationStatus::Created, MAX_PAYLOAD_BYTES + 1, &None, &Vec::new(), &Vec::new()) {
        Err(RivoraError::PayloadTooLarge { message }) => {
            assert_eq!(message, "observation payload is 1048577 bytes; max is 1048576")
        }
        _ => panic!("oversized payload must be refused"),
    }
    match decide_ingest(InvestigationStatus::Created, 10, &None, &Vec::new(), &Vec::new()) {
        Ok(IngestDecision::Append { status }) => assert_eq!(status, InvestigationStatus::Collecting),
        _ => panic!("first observation moves to collecting"),
    }
    match decide_ingest(InvestigationStatus::Completed, 10, &Some("k".to_string()), &Vec::new(), &Vec::new()) {
        Err(RivoraError::OperationNotAllowed { message }) => {
            assert_eq!(message, "cannot ingest into completed investigation; reopen first")
        }
        _ => panic!("completed investigation refuses"),
    }
}

#[test]
fn repeated_idempotency_key_replays_the_stored_observation() {
    let mut keyed = observation(2, ObservationKind::Event, "ci failed");
    keyed.idempotency_key = Some("evt-1".to_string());
    let observations = vec![observation(1, ObservationKind::Event, "first"), keyed];
    let memory_records = vec![memory(10, 1, None), memory(20, 2, None)];
    match decide_ingest(InvestigationStatus::Collecting, 10, &Some("evt-1".to_string()), &observations, &memory_records) {
        Ok(IngestDecision::Replay { observation, memory }) => {
            assert_eq!(observation, 1);
            assert_eq!(memory, 1);
        }
        _ => panic!("repeated key must replay"),
    }
    match decide_ingest(InvestigationStatus::Collecting, 10, &Some("evt-1".to_string()), &observations, &vec![memory(10, 1, None)]) {
        Err(RivoraError::Precondition { message }) => assert_eq!(message, "idempotent observation missing memory record"),
        _ => panic!("a replay without its memory record is refused"),
    }
}

#[test]
fn workflow_step_notes_and_proposal_inputs() {
    assert_eq!(
        rivora::workflow::capability_count_note("derive_knowledge", 3),
        Some("Derived 3 Knowledge object(s).".to_string())
    );
    assert_eq!(rivora::workflow::capability_count_note("forecast_risk", 3), None);
    let observations = vec![observation(5, ObservationKind::Event, "x"), observation(2, ObservationKind::Event, "y")];
    let memory_records = vec![memory(5, 5, None), memory(9, 2, None)];
    let (ids, note) =
        rivora::workflow::recall_proposal_inputs(&observations, &memory_records, &Vec::new(), &Vec::new(), &Vec::new());
    assert_eq!(ids.iter().map(|i| i.value).collect::<Vec<u128>>(), vec![2, 5, 9]);
    assert_eq!(note, "Read 3 existing durable input(s); no source objects were created or modified.");
}
