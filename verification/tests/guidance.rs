use rivora::error::RivoraError;
use rivora::guidance::generate_root_cause_guidance;
use rivora::ids::{InvestigationId, ObjectId};
use rivora::lifecycle::{apply_outcome_to_recommendation, complete_status, ensure_status_at_least, reopen_status, status_for_outcome};
use rivora::model::{
    Confidence, ContextBundle, Evaluation, HistoryNote, Hypothesis, Investigation, InvestigationRelationship, LearningOutcome,
    MemoryRecord, Provenance, Recommendation, RelationshipConfirmation, RelationshipEvidence, VerificationReceipt,
};
use rivora::prior::{recall_prior_outcomes, recall_related_evidence};
use rivora::priority::prioritize_recommendations;
use rivora::search::{OutcomeFilter, PriorOutcome};
use rivora::suggestions::{recommend_next_verification, VerificationFeasibility};
use rivora::vocab::{
    AssessmentType, ConfirmationState, HypothesisStatus, InvestigationStatus, OutcomeDisposition, RecommendationStatus,
    RelationshipKind, Severity, VerificationResult,
};

const NOW: i64 = 1_700_000_000_000;

fn oid(v: u128) -> ObjectId {
    ObjectId { value: v }
}

fn iid(v: u128) -> InvestigationId {
    InvestigationId { value: v }
}

fn hypothesis(id: u128, statement: &str, status: HypothesisStatus, permille: u64, rank: u32, supporting: Vec<u128>) -> Hypothesis {
    Hypothesis {
        id: oid(id),
        investigation_id: iid(1),
        statement: statement.to_string(),
        status,
        confidence: Confidence::new(permille),
        supporting_evidence: supporting.into_iter().map(oid).collect(),
        contradicting_evidence: Vec::new(),
        related_investigations: Vec::new(),
        method: "m".to_string(),
        verification_summary: "unverified".to_string(),
        rank,
        provenance: Provenance::now("tester", "runtime", NOW),
    }
}

fn memory(id: u128) -> MemoryRecord {
    MemoryRecord {
        id: oid(id),
        investigation_id: iid(1),
        observation_id: oid(id + 1000),
        summary: format!("memory {id}"),
        corrects: None,
        recorded_at: 0,
    }
}

fn receipt(id: u128, result: VerificationResult) -> VerificationReceipt {
    VerificationReceipt {
        id: oid(id),
        investigation_id: iid(1),
        evaluation_id: oid(1),
        claim: "claim".to_string(),
        result,
        confidence: Confidence::new(700),
        evidence_ids: Vec::new(),
        conflicting_ids: Vec::new(),
        reason: "r".to_string(),
        provenance: Provenance::now("tester", "runtime", NOW),
    }
}

fn recommendation(id: u128, summary: &str, permille: u64, evaluations: usize, verifications: usize) -> Recommendation {
    Recommendation {
        id: oid(id),
        investigation_id: iid(1),
        summary: summary.to_string(),
        rationale: "because".to_string(),
        status: RecommendationStatus::Proposed,
        evaluation_ids: (0..evaluations as u128).map(oid).collect(),
        verification_ids: (0..verifications as u128).map(oid).collect(),
        confidence: Confidence::new(permille),
        provenance: Provenance::now("tester", "runtime", NOW),
        history: HistoryNote::none(),
    }
}

fn risk_evaluation(severity: Severity) -> Evaluation {
    Evaluation {
        id: oid(300),
        investigation_id: iid(1),
        assessment_type: AssessmentType::Risk,
        summary: "risk".to_string(),
        severity,
        confidence: Confidence::new(800),
        knowledge_ids: Vec::new(),
        memory_ids: Vec::new(),
        explanation: "e".to_string(),
        provenance: Provenance::now("tester", "runtime", NOW),
        history: HistoryNote::none(),
    }
}

fn outcome(id: u128, disposition: OutcomeDisposition, rec: Option<u128>, at: i64) -> LearningOutcome {
    LearningOutcome { id: oid(id), disposition, recommendation_id: rec.map(oid), notes: format!("n{id}"), observed_at: at }
}

fn investigation(id: u128, title: &str) -> Investigation {
    Investigation {
        id: iid(id),
        title: title.to_string(),
        description: None,
        status: InvestigationStatus::Learning,
        created_at: 0,
        updated_at: 0,
    }
}

fn bundle() -> ContextBundle {
    ContextBundle {
        observations: Vec::new(),
        memory: Vec::new(),
        knowledge: Vec::new(),
        evaluations: Vec::new(),
        verifications: Vec::new(),
        recommendations: Vec::new(),
        learning: Vec::new(),
    }
}

fn relationship(a: u128, b: u128, state: ConfirmationState) -> InvestigationRelationship {
    InvestigationRelationship {
        id: oid(900 + b),
        kind: RelationshipKind::SharedCommit,
        source_investigation_id: iid(a),
        target_investigation_id: iid(b),
        confidence: Confidence::new(800),
        evidence: vec![RelationshipEvidence { description: "same commit".to_string(), object_ids: vec![oid(77)] }],
        method: "m".to_string(),
        explanation: "e".to_string(),
        confirmation: RelationshipConfirmation { state, actor: None, at: None },
        created_at: 0,
        identity_key: "k".to_string(),
    }
}

#[test]
fn next_verification_without_receipts() {
    let hs = vec![
        hypothesis(10, "CI pipeline is failing", HypothesisStatus::Proposed, 600, 1, vec![5]),
        hypothesis(11, "Something verified", HypothesisStatus::Verified, 900, 2, vec![]),
        hypothesis(12, "Infrastructure drift", HypothesisStatus::Supported, 200, 3, vec![]),
        hypothesis(13, "Fourth", HypothesisStatus::Proposed, 500, 4, vec![]),
    ];
    let memory_records = vec![memory(1), memory(2), memory(3), memory(4)];
    let s = recommend_next_verification(iid(1), &hs, &Vec::new(), &memory_records, "tester", NOW);
    assert_eq!(s.len(), 3);
    assert_eq!(s[0].hypothesis_id, Some(oid(10)));
    assert_eq!(s[0].method, "verify_all Capability");
    assert_eq!(s[0].estimated_confidence_impact, 250);
    assert_eq!(s[0].supporting_evidence, vec![oid(1), oid(2), oid(3)]);
    assert_eq!(s[1].method, "Collect CI / GitHub Actions observations and re-verify");
    assert_eq!(s[1].expected_evidence, "Evidence that supports or contradicts: CI pipeline is failing");
    assert_eq!(
        s[1].reason,
        "Hypothesis rank 1 has confidence 60% and status proposed; reducing uncertainty here has high value."
    );
    assert_eq!(s[1].estimated_confidence_impact, 210);
    assert_eq!(s[1].feasibility, VerificationFeasibility::Feasible);
    assert_eq!(s[1].prerequisites, vec!["Review supporting evidence ids".to_string()]);
    assert_eq!(s[2].method, "Collect infrastructure or observability connector evidence");
    assert_eq!(s[2].estimated_confidence_impact, 100);
    assert_eq!(s[2].feasibility, VerificationFeasibility::RequiresHuman);
    assert_eq!(s[2].rank, 3);
    assert_eq!(s[2].provenance.capability.as_deref(), Some("recommend_next_verification"));
}

#[test]
fn next_verification_coverage_fallback() {
    let hs = vec![hypothesis(11, "done", HypothesisStatus::Rejected, 900, 1, vec![])];
    let s = recommend_next_verification(iid(1), &hs, &vec![receipt(1, VerificationResult::Pass)], &Vec::new(), "t", NOW);
    assert_eq!(s.len(), 1);
    assert_eq!(s[0].claim, "Maintain verification coverage as new Observations arrive.");
    assert_eq!(s[0].hypothesis_id, None);
    assert_eq!(s[0].estimated_confidence_impact, 100);
    assert_eq!(s[0].rank, 1);
}

#[test]
fn root_cause_guidance_cites_leading_hypotheses() {
    let mut h1 = hypothesis(10, "CI broke", HypothesisStatus::Supported, 700, 1, vec![5, 6]);
    h1.related_investigations = vec![iid(9), iid(3), iid(9)];
    let mut h2 = hypothesis(11, "Config drift", HypothesisStatus::Proposed, 500, 2, vec![7]);
    h2.related_investigations = vec![iid(4)];
    h2.contradicting_evidence = vec![oid(8)];
    let prior = vec![PriorOutcome {
        investigation_id: iid(3),
        investigation_title: "older".to_string(),
        outcome: outcome(40, OutcomeDisposition::Successful, None, 0),
        recommendation_summary: None,
    }];
    let g = generate_root_cause_guidance(iid(1), &vec![h1, h2], &Vec::new(), &vec![memory(1)], &prior, "t", NOW);
    assert_eq!(g.leading_hypothesis_ids, vec![oid(10), oid(11)]);
    assert_eq!(
        g.guidance,
        "Leading (probabilistic) hypothesis: CI broke (confidence 70%, status supported). This is not a verified root cause. Supporting and contradicting evidence remain inspectable. Historical mitigations must not be auto-applied."
    );
    assert_eq!(g.supporting_evidence, vec![oid(5), oid(6), oid(7), oid(1)]);
    assert_eq!(g.contradicting_evidence, vec![oid(8)]);
    assert_eq!(g.related_investigation_ids, vec![iid(3), iid(4), iid(9)]);
    assert_eq!(
        g.prior_mitigation_notes,
        vec!["Historical: investigation 00000000-0000-0000-0000-000000000003 disposition=successful note=(no recommendation summary)".to_string()]
    );
    assert_eq!(g.confidence.permille, 595);
    assert_eq!(g.verification_order, vec!["CI broke".to_string(), "Config drift".to_string()]);
    assert_eq!(
        g.known_gaps,
        vec!["Sparse Memory reduces root-cause confidence.".to_string(), "No hypothesis has been verified yet.".to_string()]
    );
}

#[test]
fn root_cause_guidance_without_hypotheses() {
    let g = generate_root_cause_guidance(iid(1), &Vec::new(), &Vec::new(), &vec![memory(1), memory(2)], &Vec::new(), "t", NOW);
    assert_eq!(g.guidance, "No leading hypothesis; collect more evidence.");
    assert_eq!(g.confidence.permille, 300);
    assert_eq!(g.known_gaps, vec!["No hypothesis has been verified yet.".to_string()]);
    assert!(g.verification_order.is_empty());
}

#[test]
fn prioritized_by_score_then_id() {
    let recs = vec![
        recommendation(20, "Investigate failures", 720, 4, 2),
        recommendation(21, "Continue monitoring; nothing urgent", 650, 1, 0),
    ];
    let receipts = vec![receipt(1, VerificationResult::Pass)];
    let evaluations = vec![risk_evaluation(Severity::High)];
    let ranked = prioritize_recommendations(&recs, &receipts, &evaluations, &Vec::new());
    assert_eq!(ranked.len(), 2);
    assert_eq!(ranked[0].recommendation_id, oid(20));
    assert_eq!(ranked[0].rank, 1);
    assert_eq!(ranked[0].score, 250_000 + 180_000 + 170_000 + 108_000 + 50_000 + 55_000);
    assert_eq!(ranked[0].factors[0].explanation, "4 evaluation + 2 verification references");
    assert_eq!(ranked[0].factors[3].explanation, "Recommendation confidence 72%");
    assert_eq!(
        ranked[0].explanation,
        "Score 0.813 from inspectable factors: evidence_strength=0.25 (w=0.25); verification_status=0.18 (w=0.20); urgency=0.17 (w=0.20); confidence=0.11 (w=0.15); prior_outcome_success=0.05 (w=0.10); reversibility=0.06 (w=0.10). Proposal only; never auto-applied."
    );
    assert_eq!(ranked[1].recommendation_id, oid(21));
    assert_eq!(ranked[1].rank, 2);
    assert_eq!(ranked[1].factors[0].contribution, 41_666);
    assert_eq!(ranked[1].factors[5].contribution, 90_000);
}

#[test]
fn prior_outcomes_newest_first_and_filtered() {
    let mut b2 = bundle();
    b2.learning.push(outcome(40, OutcomeDisposition::Unsuccessful, Some(50), 100));
    b2.learning.push(outcome(41, OutcomeDisposition::Successful, None, 300));
    b2.recommendations.push(recommendation(50, "Roll back", 600, 0, 0));
    let mut b3 = bundle();
    b3.learning.push(outcome(42, OutcomeDisposition::Successful, None, 200));
    let mut b4 = bundle();
    b4.learning.push(outcome(43, OutcomeDisposition::Successful, None, 999));
    let rows = vec![
        (investigation(2, "two"), b2),
        (investigation(3, "three"), b3),
        (investigation(4, "four"), b4),
    ];
    let rels = vec![relationship(1, 2, ConfirmationState::Confirmed), relationship(3, 1, ConfirmationState::Unconfirmed), relationship(1, 4, ConfirmationState::Dismissed)];
    let filter = OutcomeFilter { repository: None, similar_to: Some(iid(1)), disposition: None };
    let prior = recall_prior_outcomes(&filter, &rows, &rels);
    let ids: Vec<ObjectId> = prior.iter().map(|p| p.outcome.id).collect();
    assert_eq!(ids, vec![oid(41), oid(42), oid(40)]);
    assert_eq!(prior[2].recommendation_summary.as_deref(), Some("Roll back"));
    assert_eq!(prior[1].investigation_title, "three");
    let only = OutcomeFilter { repository: None, similar_to: None, disposition: Some(OutcomeDisposition::Successful) };
    let all: Vec<ObjectId> = recall_prior_outcomes(&only, &rows, &rels).iter().map(|p| p.outcome.id).collect();
    assert_eq!(all, vec![oid(43), oid(41), oid(42)]);
}

#[test]
fn related_evidence_skips_dismissed() {
    let rels = vec![relationship(1, 2, ConfirmationState::Confirmed), relationship(1, 4, ConfirmationState::Dismissed), relationship(5, 6, ConfirmationState::Confirmed)];
    let explanations = vec!["two".to_string(), "four".to_string(), "other".to_string()];
    let r = recall_related_evidence(iid(1), &rels, &explanations);
    assert_eq!(r.len(), 1);
    assert_eq!(r[0].investigation_id, iid(2));
    assert_eq!(r[0].relationship_id, oid(902));
    assert_eq!(r[0].relationship_kind, RelationshipKind::SharedCommit);
    assert_eq!(r[0].explanation, "two");
    assert_eq!(r[0].evidence[0].object_ids, vec![oid(77)]);
}

#[test]
fn lifecycle_rules() {
    assert_eq!(ensure_status_at_least(InvestigationStatus::Created, InvestigationStatus::Evaluating).unwrap(), InvestigationStatus::Evaluating);
    assert_eq!(ensure_status_at_least(InvestigationStatus::Learning, InvestigationStatus::Evaluating).unwrap(), InvestigationStatus::Learning);
    match ensure_status_at_least(InvestigationStatus::Completed, InvestigationStatus::Learning) {
        Err(RivoraError::OperationNotAllowed { message }) => assert_eq!(message, "investigation is completed; reopen before continuing"),
        _ => panic!("expected refusal"),
    }
    assert_eq!(complete_status(InvestigationStatus::Learning).unwrap(), InvestigationStatus::Completed);
    assert!(complete_status(InvestigationStatus::Verifying).is_err());
    assert_eq!(reopen_status(InvestigationStatus::Completed).unwrap(), InvestigationStatus::Collecting);
    assert!(reopen_status(InvestigationStatus::Learning).is_err());
    assert_eq!(status_for_outcome(InvestigationStatus::Verifying, true, Some(oid(1))).unwrap(), InvestigationStatus::Learning);
    assert_eq!(status_for_outcome(InvestigationStatus::Created, false, None).unwrap(), InvestigationStatus::Created);
    match status_for_outcome(InvestigationStatus::Evaluating, false, Some(oid(1))) {
        Err(RivoraError::Precondition { message }) => assert_eq!(message, "recommendation not found for learning"),
        _ => panic!("expected refusal"),
    }
    assert_eq!(rivora::lifecycle::status_for_observation(InvestigationStatus::Created).unwrap(), InvestigationStatus::Collecting);
    assert_eq!(rivora::lifecycle::status_for_observation(InvestigationStatus::Verifying).unwrap(), InvestigationStatus::Verifying);
    match rivora::lifecycle::status_for_observation(InvestigationStatus::Completed) {
        Err(RivoraError::OperationNotAllowed { message }) => {
            assert_eq!(message, "cannot ingest into completed investigation; reopen first")
        }
        _ => panic!("expected refusal"),
    }
    let mut rec = recommendation(20, "x", 500, 0, 0);
    apply_outcome_to_recommendation(&mut rec, OutcomeDisposition::Unsuccessful);
    assert_eq!(rec.status, RecommendationStatus::Accepted);
    apply_outcome_to_recommendation(&mut rec, OutcomeDisposition::Ignored);
    assert_eq!(rec.status, RecommendationStatus::Ignored);
}

#[test]
fn state_summary_lists_gaps() {
    let inv = investigation(1, "Checkout outage");
    let hs = vec![hypothesis(10, "CI broke", HypothesisStatus::Proposed, 700, 1, vec![])];
    let s = rivora::report::summarize_investigation_state(
        &inv,
        &vec![memory(1)],
        &Vec::new(),
        &Vec::new(),
        &Vec::new(),
        &Vec::new(),
        &hs,
        &Vec::new(),
        "t",
        NOW,
    );
    assert_eq!(s.status, "learning");
    assert_eq!(s.counts.memory, 1);
    assert_eq!(s.counts.hypotheses, 1);
    assert_eq!(
        s.gaps,
        vec![
            "No Knowledge — run derive_knowledge.".to_string(),
            "No Evaluations — run evaluate.".to_string(),
            "No Verification Receipts — run verify.".to_string(),
            "No Recommendations yet.".to_string(),
            "Unverified hypotheses remain.".to_string()
        ]
    );
    assert_eq!(
        s.summary,
        "Investigation `Checkout outage` is learning with 1 memory, 0 knowledge, 0 evaluations, 0 verifications, 0 recommendations, 1 hypotheses. Gaps: No Knowledge — run derive_knowledge. No Evaluations — run evaluate. No Verification Receipts — run verify. No Recommendations yet. Unverified hypotheses remain."
    );
}

#[test]
fn engineering_report_sections_and_markdown() {
    let inv = investigation(1, "Checkout outage");
    let recs = vec![recommendation(20, "Investigate failures", 720, 1, 1)];
    let r = rivora::report::generate_engineering_report(
        &inv,
        &vec![memory(1), memory(2)],
        &Vec::new(),
        &vec![risk_evaluation(Severity::High)],
        &vec![receipt(5, VerificationResult::Pass)],
        &recs,
        &Vec::new(),
        &Vec::new(),
        &Vec::new(),
        &vec![outcome(40, OutcomeDisposition::Successful, None, 0)],
        &Vec::new(),
        "t",
        NOW,
    );
    assert_eq!(r.title, "Engineering Report — Checkout outage");
    let titles: Vec<&str> = r.sections.iter().map(|s| s.title.as_str()).collect();
    assert_eq!(
        titles,
        vec!["Investigation", "Evidence", "Knowledge", "Evaluations", "Verifications", "Hypotheses", "Recommendations", "Historical Context"]
    );
    assert_eq!(r.sections[0].body, "Title: Checkout outage\nStatus: learning\nDescription: (none)");
    assert_eq!(r.sections[1].body, "2 Memory record(s). Latest: memory 2");
    assert_eq!(r.sections[1].object_refs, vec![oid(1), oid(2)]);
    assert_eq!(r.sections[3].body, "- risk severity=high conf=80%: risk");
    assert_eq!(r.sections[4].body, "- pass — claim");
    assert_eq!(r.sections[5].body, "(none generated yet)");
    assert_eq!(r.sections[6].body, "- [proposed conf=72%] Investigate failures — because");
    assert_eq!(
        r.sections[7].body,
        "0 Recalled Context record(s); 1 Learning Outcome(s). Historical context is labeled and never auto-applied."
    );
    assert!(r.markdown.starts_with("# Engineering Report: Checkout outage\n\n## Investigation\n\nTitle: Checkout outage\n"));
    assert!(r.markdown.ends_with("---\nGenerated by Rivora Runtime. Recommendations are proposals only.\n"));
}
