use rivora::error::RivoraError;
use rivora::evaluation::evaluate_outcome_deterministic;
use rivora::learning::{derive_learning_patterns, select_latest};
use rivora::measured::{create_measured_learning_outcome, status_after_evaluation};
use rivora::ids::{InvestigationId, ObjectId};
use rivora::model::{Confidence, Provenance};
use rivora::outcome::{
    seed_expected_results, ExpectedResultSpec, ImplementationRecord, ImplementationReference,
    MeasuredLearningOutcome, OutcomeEvidenceLink,
};
use rivora::proposal::ImprovementProposal;
use rivora::vocab::{
    CausalLanguage, ExpectedResultKind, ImplementationSource, ImplementationStatus, MeasuredOutcomeStatus, OutcomeClassification, PatternStatus,
    OutcomeEvidenceRelation, ProposalCategory, ProposalGenerationMethod, ProposalPriority,
    ResultAssessmentKind,
};

const NOW: i64 = 1_700_000_000_000;

fn sample_proposal(inv: InvestigationId) -> ImprovementProposal {
    let mut p = ImprovementProposal::generated(
        inv,
        "Add config guard",
        "Reject malformed config",
        "Malformed config reaches Runtime",
        ProposalCategory::Configuration,
        ProposalPriority::High,
        Confidence::new(800),
        ProposalGenerationMethod::Deterministic,
        Provenance::now("test", "test", NOW),
    )
    .unwrap();
    p.success_criteria = vec!["Malformed config is rejected".into()];
    p.verification_plan.success_criteria = vec!["Verification observes rejected payloads".into()];
    p
}

fn expected(id: ObjectId, description: &str, kind: ExpectedResultKind, requires_baseline: bool) -> ExpectedResultSpec {
    ExpectedResultSpec {
        id,
        description: description.into(),
        kind,
        metric: None,
        target: None,
        tolerance: None,
        requires_baseline,
        weight: 1000,
        required: true,
        verification_method: None,
        source_text: description.into(),
    }
}

fn link(relation: OutcomeEvidenceRelation, expected_result_id: Option<ObjectId>, reason: Option<&str>) -> OutcomeEvidenceLink {
    OutcomeEvidenceLink {
        object_id: ObjectId::new(),
        relation,
        expected_result_id,
        reason: reason.map(|r| r.to_string()),
        linked_at: 0,
        actor: "eng".into(),
    }
}

#[test]
fn seed_expected_results_from_proposal_criteria() {
    let inv = InvestigationId::new();
    let proposal = sample_proposal(inv);
    let seeded = seed_expected_results(&proposal);
    assert_eq!(seeded.len(), 2);
    assert!(seeded.iter().any(|e| e.source_text.contains("Malformed")));
}

#[test]
fn evaluation_not_implemented_without_proof() {
    let inv = InvestigationId::new();
    let proposal_id = ObjectId::new();
    let impl_id = ObjectId::new();
    let record = ImplementationRecord::reported(
        inv,
        proposal_id,
        proposal_id,
        1,
        "engineer",
        ImplementationSource::HumanDeclared,
        "maybe shipped",
        Provenance::now("engineer", "test", NOW),
    )
    .unwrap();
    let outcome = MeasuredLearningOutcome::draft(
        inv,
        proposal_id,
        proposal_id,
        1,
        impl_id,
        impl_id,
        vec![expected(ObjectId::new(), "works", ExpectedResultKind::Boolean, false)],
        Provenance::now("runtime", "test", NOW),
    )
    .unwrap();
    let result = evaluate_outcome_deterministic(&outcome, &record);
    assert_eq!(result.classification, OutcomeClassification::NotImplemented);
}

#[test]
fn evaluation_successful_with_support_and_baseline() {
    let inv = InvestigationId::new();
    let proposal_id = ObjectId::new();
    let mut record = ImplementationRecord::reported(
        inv,
        proposal_id,
        proposal_id,
        1,
        "engineer",
        ImplementationSource::GitCommit,
        "shipped",
        Provenance::now("engineer", "test", NOW),
    )
    .unwrap();
    record.references.push(ImplementationReference::CommitSha { sha: "abc123".into() });
    record.status = ImplementationStatus::ReadyForEvaluation;

    let expected_id = ObjectId::new();
    let mut spec = expected(expected_id, "latency improves", ExpectedResultKind::DirectionalImprovement, true);
    spec.metric = Some("p99".into());
    spec.target = Some("lower".into());
    let mut outcome = MeasuredLearningOutcome::draft(
        inv,
        proposal_id,
        proposal_id,
        1,
        record.id,
        record.lineage_id,
        vec![spec],
        Provenance::now("runtime", "test", NOW),
    )
    .unwrap();
    outcome.evidence_links = vec![
        link(OutcomeEvidenceRelation::IsBaseline, Some(expected_id), None),
        link(OutcomeEvidenceRelation::IsPostChange, Some(expected_id), None),
        link(OutcomeEvidenceRelation::SupportsExpectedResult, Some(expected_id), Some("p99 down 20%")),
    ];
    let result = evaluate_outcome_deterministic(&outcome, &record);
    assert_eq!(result.classification, OutcomeClassification::Successful);
    assert!(result.verification_ready);
    assert!(!result.blocked);
}

#[test]
fn evaluation_mixed_when_support_and_material_regression() {
    let inv = InvestigationId::new();
    let proposal_id = ObjectId::new();
    let mut record = ImplementationRecord::reported(
        inv,
        proposal_id,
        proposal_id,
        1,
        "engineer",
        ImplementationSource::PullRequest,
        "merged",
        Provenance::now("engineer", "test", NOW),
    )
    .unwrap();
    record.references.push(ImplementationReference::PullRequest { reference: "42".into() });

    let e1 = ObjectId::new();
    let e2 = ObjectId::new();
    let mut outcome = MeasuredLearningOutcome::draft(
        inv,
        proposal_id,
        proposal_id,
        1,
        record.id,
        record.lineage_id,
        vec![
            expected(e1, "feature works", ExpectedResultKind::Boolean, false),
            expected(e2, "no latency regression", ExpectedResultKind::LatencyDuration, true),
        ],
        Provenance::now("runtime", "test", NOW),
    )
    .unwrap();
    outcome.evidence_links = vec![
        link(OutcomeEvidenceRelation::SupportsExpectedResult, Some(e1), None),
        link(OutcomeEvidenceRelation::IndicatesRegression, Some(e2), Some("p99 worse")),
        link(OutcomeEvidenceRelation::IsBaseline, None, None),
        link(OutcomeEvidenceRelation::IsPostChange, None, None),
    ];
    let result = evaluate_outcome_deterministic(&outcome, &record);
    assert_eq!(result.classification, OutcomeClassification::Mixed);
    let again = evaluate_outcome_deterministic(&outcome, &record);
    assert_eq!(result.regressions.len(), 1);
    assert_eq!(result.regressions[0].id, again.regressions[0].id);
    assert_eq!(result.regressions[0].id.value, outcome.id.value ^ (1u128 << 120));
    assert_eq!(result.lessons[0].id, again.lessons[0].id);
    assert_eq!(result.lessons[0].id.value, outcome.id.value ^ (3u128 << 120));
}

#[test]
fn evaluation_successful_confidence_and_trace() {
    let inv = InvestigationId::new();
    let proposal_id = ObjectId::new();
    let mut record = ImplementationRecord::reported(
        inv,
        proposal_id,
        proposal_id,
        1,
        "engineer",
        ImplementationSource::GitCommit,
        "shipped",
        Provenance::now("engineer", "test", NOW),
    )
    .unwrap();
    record.references.push(ImplementationReference::CommitSha { sha: "abc123".into() });
    let expected_id = ObjectId { value: 0x0123_4567_89ab_cdef_0123_4567_89ab_cdef };
    let mut outcome = MeasuredLearningOutcome::draft(
        inv,
        proposal_id,
        proposal_id,
        1,
        record.id,
        record.lineage_id,
        vec![expected(expected_id, "latency improves", ExpectedResultKind::DirectionalImprovement, true)],
        Provenance::now("runtime", "test", NOW),
    )
    .unwrap();
    outcome.evidence_links = vec![
        link(OutcomeEvidenceRelation::IsBaseline, None, None),
        link(OutcomeEvidenceRelation::IsPostChange, None, None),
        link(OutcomeEvidenceRelation::SupportsExpectedResult, Some(expected_id), None),
    ];
    let result = evaluate_outcome_deterministic(&outcome, &record);
    // (700 + 850 + 850 + 1000 + 900 + 800) / 6 = 850, no penalties.
    assert_eq!(result.confidence_breakdown.final_confidence.value(), 850);
    assert_eq!(result.causal_language, CausalLanguage::ConsistentWithExpectedMechanism);
    assert_eq!(result.assessments[0].kind, ResultAssessmentKind::Satisfied);
    assert_eq!(result.assessments[0].confidence.value(), 750);
    assert_eq!(result.steps[2], "Evidence: baseline=true post=true support=1 contradict=0 regression=0");
    assert_eq!(result.steps[3], "Expected 'latency improves': satisfied");
    assert_eq!(result.steps.last().unwrap(), "Verification ready: true (blocked=false)");
    assert_eq!(
        result.lessons[0].conditions,
        vec!["01234567-89ab-cdef-0123-456789abcdef: satisfied".to_string()]
    );
    assert_eq!(result.recommended_follow_up, vec!["Consider archiving after verification".to_string()]);
}

#[test]
fn evaluation_unmeasured_result_is_blocked_and_asks_for_evidence() {
    let inv = InvestigationId::new();
    let proposal_id = ObjectId::new();
    let record = ImplementationRecord::reported(
        inv,
        proposal_id,
        proposal_id,
        1,
        "engineer",
        ImplementationSource::Patch,
        "patched",
        Provenance::now("engineer", "test", NOW),
    )
    .unwrap();
    let outcome = MeasuredLearningOutcome::draft(
        inv,
        proposal_id,
        proposal_id,
        1,
        record.id,
        record.lineage_id,
        vec![expected(ObjectId::new(), "errors drop", ExpectedResultKind::ReliabilityRate, true)],
        Provenance::now("runtime", "test", NOW),
    )
    .unwrap();
    let result = evaluate_outcome_deterministic(&outcome, &record);
    assert_eq!(result.classification, OutcomeClassification::Inconclusive);
    assert!(result.blocked);
    assert!(!result.verification_ready);
    assert_eq!(result.assessments[0].kind, ResultAssessmentKind::NotMeasured);
    assert_eq!(
        result.assessments[0].reason,
        "Missing evidence: baseline evidence, post-change or supporting evidence"
    );
    assert_eq!(
        result.unresolved_questions,
        vec!["Expected result 'errors drop': missing baseline evidence, post-change or supporting evidence".to_string()]
    );
    // (400 + 200 + 250 + 0 + 900 + 800) / 6 = 425, less 300 in penalties.
    assert_eq!(result.confidence_breakdown.final_confidence.value(), 125);
    assert_eq!(result.recommended_follow_up[0], "Collect additional evidence and re-evaluate");
    assert_eq!(
        result.recommended_follow_up[1],
        "Resolve: Expected result 'errors drop': missing baseline evidence, post-change or supporting evidence"
    );
}

#[test]
fn evaluation_invalidated_when_implementation_disputed() {
    let inv = InvestigationId::new();
    let proposal_id = ObjectId::new();
    let mut record = ImplementationRecord::reported(
        inv,
        proposal_id,
        proposal_id,
        1,
        "engineer",
        ImplementationSource::GitCommit,
        "shipped",
        Provenance::now("engineer", "test", NOW),
    )
    .unwrap();
    record.evidence_ids.push(ObjectId::new());
    let mut outcome = MeasuredLearningOutcome::draft(
        inv,
        proposal_id,
        proposal_id,
        1,
        record.id,
        record.lineage_id,
        vec![expected(ObjectId::new(), "works", ExpectedResultKind::Boolean, false)],
        Provenance::now("runtime", "test", NOW),
    )
    .unwrap();
    outcome.evidence_links = vec![link(OutcomeEvidenceRelation::DisputesImplementation, None, None)];
    let result = evaluate_outcome_deterministic(&outcome, &record);
    assert_eq!(result.classification, OutcomeClassification::Invalidated);
    assert_eq!(result.assessments[0].kind, ResultAssessmentKind::Invalid);
    assert_eq!(result.confidence_breakdown.final_confidence.value(), 300);
    assert_eq!(result.steps.len(), 4);
}

#[test]
fn constructors_reject_blank_inputs() {
    let inv = InvestigationId::new();
    let id = ObjectId::new();
    assert!(ImplementationRecord::reported(
        inv,
        id,
        id,
        1,
        "   ",
        ImplementationSource::Patch,
        "x",
        Provenance::now("a", "b", NOW)
    )
    .is_err());
    assert!(MeasuredLearningOutcome::draft(inv, id, id, 1, id, id, vec![], Provenance::now("a", "b", NOW)).is_err());
}

fn reported_record(inv: InvestigationId, p: &ImprovementProposal) -> ImplementationRecord {
    ImplementationRecord::reported(
        inv,
        p.id,
        p.lineage_id,
        p.revision_number,
        "engineer",
        ImplementationSource::GitCommit,
        "shipped",
        Provenance::now("engineer", "test", NOW),
    )
    .unwrap()
}

#[test]
fn measured_outcome_creation_seeds_a_draft() {
    let inv = InvestigationId::new();
    let p = sample_proposal(inv);
    let record = reported_record(inv, &p);
    let o = create_measured_learning_outcome(inv, &p, &record, "engineer", NOW).unwrap();
    assert_eq!(o.status, MeasuredOutcomeStatus::Draft);
    assert_eq!(o.classification, OutcomeClassification::Pending);
    assert!(!o.historical_learning_eligible);
    assert_eq!(o.revision_number, 1);
    assert_eq!(o.lineage_id, o.id);
    assert!(!o.expected_results.is_empty());
}

#[test]
fn measured_outcome_creation_refusals() {
    let inv = InvestigationId::new();
    let p = sample_proposal(inv);
    let record = reported_record(inv, &p);
    match create_measured_learning_outcome(inv, &p, &record, "   ", NOW) {
        Err(RivoraError::Validation { message }) => assert_eq!(message, "measured outcome creator actor is required"),
        _ => panic!("blank actor must be refused"),
    }
    match create_measured_learning_outcome(InvestigationId::new(), &p, &record, "engineer", NOW) {
        Err(RivoraError::Validation { message }) => {
            assert_eq!(message, "implementation record does not belong to the Investigation")
        }
        _ => panic!("foreign record must be refused"),
    }
    let mut withdrawn = reported_record(inv, &p);
    withdrawn.status = ImplementationStatus::Withdrawn;
    match create_measured_learning_outcome(inv, &p, &withdrawn, "engineer", NOW) {
        Err(RivoraError::Validation { message }) => {
            assert_eq!(message, "cannot create outcome for withdrawn or superseded implementation")
        }
        _ => panic!("withdrawn record must be refused"),
    }
}

#[test]
fn measured_status_after_evaluation() {
    assert_eq!(status_after_evaluation(MeasuredOutcomeStatus::Draft, true).unwrap(), MeasuredOutcomeStatus::UnderEvaluation);
    assert_eq!(status_after_evaluation(MeasuredOutcomeStatus::EvidenceCollection, false).unwrap(), MeasuredOutcomeStatus::Evaluated);
    match status_after_evaluation(MeasuredOutcomeStatus::Verified, false) {
        Err(RivoraError::Validation { message }) => assert_eq!(message, "cannot evaluate measured outcome in status verified"),
        _ => panic!("verified outcome cannot be re-evaluated"),
    }
}

#[test]
fn latest_eligible_revision_per_lineage_is_selected() {
    let inv = InvestigationId::new();
    let p = sample_proposal(inv);
    let record = reported_record(inv, &p);
    let verified = |rev: u32, eligible: bool| {
        let mut o = create_measured_learning_outcome(inv, &p, &record, "engineer", NOW).unwrap();
        o.status = MeasuredOutcomeStatus::Verified;
        o.historical_learning_eligible = eligible;
        o.revision_number = rev;
        o
    };
    let a1 = verified(1, true);
    let lineage_a = a1.lineage_id;
    let mut a2 = verified(2, true);
    a2.lineage_id = lineage_a;
    let mut a3 = verified(3, false);
    a3.lineage_id = lineage_a;
    let b1 = verified(1, true);
    let mut draft = create_measured_learning_outcome(inv, &p, &record, "engineer", NOW).unwrap();
    draft.lineage_id = lineage_a;
    draft.revision_number = 4;
    let outs = vec![a1, b1, a2, a3, draft];
    assert_eq!(select_latest(&outs), vec![2, 1]);
    assert_eq!(select_latest(&Vec::new()), Vec::<usize>::new());
}

#[test]
fn comparison_factors_stay_positive_with_many_contradictions() {
    let inv = InvestigationId::new();
    let mut p = sample_proposal(inv);
    p.contradicting_evidence = (0..1000u128)
        .map(|i| rivora::proposal::EvidenceReference { object_id: ObjectId { value: i }, scope: rivora::vocab::EvidenceScope::Current })
        .collect();
    let factors = rivora::proposal_content::comparison_factors(&p);
    assert_eq!(factors.len(), 8);
    let weights: Vec<u32> = factors.iter().map(|f| f.weight).collect();
    assert_eq!(weights, vec![200, 120, 150, 150, 100, 100, 100, 80]);
    assert_eq!(weights.iter().sum::<u32>(), 1000);
    assert_eq!(factors[1].name, "contradiction_level");
    assert_eq!(factors[1].contribution, 1);
    for f in &factors {
        assert!(f.contribution > 0 && f.contribution <= f.weight);
    }
}

#[test]
fn learning_patterns_group_outcomes_by_signature() {
    let inv = InvestigationId::new();
    let mut p = sample_proposal(inv);
    p.affected_components = vec!["api".to_string(), "db".to_string(), "api".to_string()];
    let record = reported_record(inv, &p);
    let verified = |classification: OutcomeClassification, created: i64| {
        let mut o = create_measured_learning_outcome(inv, &p, &record, "engineer", NOW).unwrap();
        o.status = MeasuredOutcomeStatus::Verified;
        o.historical_learning_eligible = true;
        o.classification = classification;
        o.created_at = created;
        o.updated_at = created + 5;
        o
    };
    let good = verified(OutcomeClassification::Successful, 100);
    let bad = verified(OutcomeClassification::Unsuccessful, 50);
    let mut draft = verified(OutcomeClassification::Successful, 10);
    draft.status = MeasuredOutcomeStatus::Draft;
    let outcomes = vec![good, bad, draft];
    assert!(derive_learning_patterns(&outcomes, &vec![p], " ", NOW).is_err());
    let patterns = derive_learning_patterns(&outcomes, &vec![sample_with_components(inv, &outcomes)], "analyst", NOW).unwrap();
    assert_eq!(patterns.len(), 1);
    let pat = &patterns[0];
    assert_eq!(pat.signature, "configuration:malformed config is rejected|verification observes rejected payloads");
    assert_eq!(pat.title, "Historical pattern for configuration (2 outcomes)");
    assert_eq!(pat.proposal_category.as_deref(), Some("configuration"));
    assert_eq!(pat.classification_counts.successful, 1);
    assert_eq!(pat.classification_counts.unsuccessful, 1);
    assert_eq!(pat.supporting_outcome_ids, vec![outcomes[0].id]);
    assert_eq!(pat.contradicting_outcome_ids, vec![outcomes[1].id]);
    assert_eq!(pat.status, PatternStatus::Contested);
    assert_eq!(pat.confidence.permille, 500);
    assert_eq!(pat.first_observed, 50);
    assert_eq!(pat.last_observed, 105);
    assert_eq!(pat.scope, vec!["api".to_string(), "db".to_string()]);
    assert_eq!(pat.provenance.actor, "analyst");
}

fn sample_with_components(inv: InvestigationId, outcomes: &[MeasuredLearningOutcome]) -> ImprovementProposal {
    let mut p = sample_proposal(inv);
    p.id = outcomes[0].proposal_id;
    p.affected_components = vec!["api".to_string(), "db".to_string(), "api".to_string()];
    p
}
