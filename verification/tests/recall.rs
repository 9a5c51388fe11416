use rivora::context::PatternKind;
use rivora::ids::{InvestigationId, ObjectId};
use rivora::json::{JsonMember, JsonNumber, JsonValue};
use rivora::model::{
    Confidence, ContextBundle, Investigation, InvestigationRelationship, LearningOutcome, Observation,
    Provenance, RelationshipConfirmation, RelationshipEvidence, VerificationReceipt,
};
use rivora::patterns::detect_patterns;
use rivora::refresh::refresh_relationships;
use rivora::proposal_gen::generate_improvement_proposals;
use rivora::vocab::ProposalEffort;
use rivora::search::RankingFactor;
use rivora::similarity::find_similar_investigations;
use rivora::trend::summarize_historical_trend;
use rivora::vocab::{
    ConfirmationState, InvestigationStatus, ObservationKind, OutcomeDisposition, RelationshipKind, VerificationResult,
};

const NOW: i64 = 1_700_000_000_000;

fn from_serde(v: &serde_json::Value) -> JsonValue {
    match v {
        serde_json::Value::Null => JsonValue::Null,
        serde_json::Value::Bool(b) => JsonValue::Bool(*b),
        serde_json::Value::Number(n) => JsonValue::Number(JsonNumber { unsigned: n.as_u64(), text: n.to_string() }),
        serde_json::Value::String(s) => JsonValue::Str(s.clone()),
        serde_json::Value::Array(items) => JsonValue::Array(items.iter().map(from_serde).collect()),
        serde_json::Value::Object(map) => JsonValue::Object(
            map.iter().map(|(k, v)| JsonMember { key: k.clone(), value: from_serde(v) }).collect(),
        ),
    }
}

fn obs(id: u128, inv: u128, kind: ObservationKind, summary: &str, payload: &str) -> Observation {
    let value: serde_json::Value = serde_json::from_str(payload).unwrap();
    Observation {
        id: ObjectId { value: id },
        investigation_id: InvestigationId { value: inv },
        kind,
        summary: summary.to_string(),
        payload: from_serde(&value),
        payload_text: value.to_string(),
        source: "github".to_string(),
        observed_at: 0,
        idempotency_key: None,
    }
}

fn bundle(observations: Vec<Observation>) -> ContextBundle {
    ContextBundle {
        observations,
        memory: Vec::new(),
        knowledge: Vec::new(),
        evaluations: Vec::new(),
        verifications: Vec::new(),
        recommendations: Vec::new(),
        learning: Vec::new(),
    }
}

fn investigation(id: u128, title: &str, created_at: i64) -> Investigation {
    Investigation {
        id: InvestigationId { value: id },
        title: title.to_string(),
        description: None,
        status: InvestigationStatus::Created,
        created_at,
        updated_at: created_at,
    }
}

fn repo_obs(id: u128, inv: u128, repo: &str) -> Observation {
    obs(id, inv, ObservationKind::Repository, "r", &format!(r#"{{"full_name": "{repo}"}}"#))
}

#[test]
fn similar_investigations_rank_shared_signals() {
    let a = investigation(1, "Checkout outage", 1000);
    let ab = bundle(vec![repo_obs(11, 1, "acme/app")]);
    let rows = vec![
        (investigation(1, "Checkout outage", 1000), bundle(vec![repo_obs(11, 1, "acme/app")])),
        (investigation(2, "Payment latency", 2000), bundle(vec![repo_obs(21, 2, "acme/app")])),
        (investigation(3, "Unrelated work", 3000), bundle(vec![repo_obs(31, 3, "other/repo")])),
    ];
    let results = find_similar_investigations(&a, &ab, &rows, &Vec::new(), None);
    assert_eq!(results.len(), 1);
    let r = &results[0];
    assert_eq!(r.investigation_id, InvestigationId { value: 2 });
    let factors: Vec<RankingFactor> = r.matched_evidence.iter().map(|m| m.factor).collect();
    assert_eq!(factors, vec![RankingFactor::SharedRepository, RankingFactor::Recency]);
    assert_eq!(r.matched_evidence[0].detail, "shared repository `acme/app`");
    assert_eq!(r.matched_evidence[0].object_ids, vec![ObjectId { value: 11 }]);
    assert_eq!(r.matched_evidence[1].detail, "recency (0.05)");
    assert_eq!(r.score, 550);
    assert_eq!(r.explanation, "Matched: shared repository `acme/app`; recency (0.05). Score 0.55.");
}

#[test]
fn confirmed_relationship_scales_score() {
    let a = investigation(1, "alpha", 1000);
    let rel = InvestigationRelationship {
        id: ObjectId { value: 0x1234 },
        kind: RelationshipKind::ExplicitLink,
        source_investigation_id: InvestigationId { value: 1 },
        target_investigation_id: InvestigationId { value: 2 },
        confidence: Confidence::new(1000),
        evidence: vec![RelationshipEvidence { description: "link".to_string(), object_ids: vec![ObjectId { value: 5 }] }],
        method: "explicit".to_string(),
        explanation: "linked".to_string(),
        confirmation: RelationshipConfirmation { state: ConfirmationState::Confirmed, actor: None, at: None },
        created_at: 0,
        identity_key: "explicit".to_string(),
    };
    let rows = vec![(investigation(1, "alpha", 1000), bundle(Vec::new())), (investigation(2, "beta", 1000), bundle(Vec::new()))];
    let results = find_similar_investigations(&a, &bundle(Vec::new()), &rows, &vec![rel], Some(5));
    assert_eq!(results.len(), 1);
    assert_eq!(results[0].matched_evidence[0].factor, RankingFactor::ExplicitRelationship);
    assert_eq!(
        results[0].matched_evidence[0].detail,
        "explicit_link relationship `00000000-0000-0000-0000-000000001234` (confirmed)"
    );
    assert_eq!(results[0].matched_evidence[0].object_ids, vec![ObjectId { value: 5 }]);
    assert_eq!(results[0].score, 1000);
    assert!(results[0].relationship.is_some());
}

#[test]
fn similar_limit_truncates() {
    let a = investigation(1, "alpha", 0);
    let rows: Vec<(Investigation, ContextBundle)> = (2..6)
        .map(|i| (investigation(i, "x", 0), bundle(vec![repo_obs(100 + i, i as u128, "acme/app")])))
        .collect();
    let ab = bundle(vec![repo_obs(11, 1, "acme/app")]);
    let all = find_similar_investigations(&a, &ab, &rows, &Vec::new(), None);
    assert_eq!(all.len(), 4);
    let ids: Vec<u128> = all.iter().map(|r| r.investigation_id.value).collect();
    assert_eq!(ids, vec![2, 3, 4, 5]);
    let two = find_similar_investigations(&a, &ab, &rows, &Vec::new(), Some(2));
    assert_eq!(two.len(), 2);
}

#[test]
fn patterns_need_two_investigations() {
    let rows = vec![
        (InvestigationId { value: 1 }, bundle(vec![repo_obs(11, 1, "acme/app")])),
        (InvestigationId { value: 2 }, bundle(vec![repo_obs(21, 2, "acme/app")])),
        (InvestigationId { value: 3 }, bundle(vec![repo_obs(31, 3, "solo/repo")])),
    ];
    let patterns = detect_patterns(&rows, &Vec::new(), "tester", NOW);
    let summary: Vec<(PatternKind, String, usize)> =
        patterns.iter().map(|p| (p.kind, p.signature.clone(), p.occurrence_count)).collect();
    assert_eq!(
        summary,
        vec![
            (PatternKind::RecurringConnectorEvidence, "github".to_string(), 3),
            (PatternKind::RepeatedComponent, "acme/app".to_string(), 2),
        ]
    );
    let repo = &patterns[1];
    assert_eq!(repo.description, "Repository `acme/app` appears in 2 Investigations");
    assert_eq!(repo.investigation_ids, vec![InvestigationId { value: 1 }, InvestigationId { value: 2 }]);
    assert_eq!(repo.object_ids, vec![ObjectId { value: 11 }, ObjectId { value: 21 }]);
    assert_eq!(repo.confidence.permille, 750);
    assert_eq!(repo.derivation_method, "repository_component_v1");
    assert_eq!(repo.provenance.capability.as_deref(), Some("detect_patterns"));
}

#[test]
fn patterns_from_outcomes_and_relationships() {
    let mut b1 = bundle(Vec::new());
    b1.learning.push(LearningOutcome {
        id: ObjectId { value: 40 },
        disposition: OutcomeDisposition::Successful,
        recommendation_id: None,
        notes: String::new(),
        observed_at: 0,
    });
    let mut b2 = bundle(Vec::new());
    b2.learning.push(LearningOutcome {
        id: ObjectId { value: 41 },
        disposition: OutcomeDisposition::Successful,
        recommendation_id: None,
        notes: String::new(),
        observed_at: 0,
    });
    let rows = vec![(InvestigationId { value: 1 }, b1), (InvestigationId { value: 2 }, b2)];
    let rel = InvestigationRelationship {
        id: ObjectId { value: 77 },
        kind: RelationshipKind::SharedCommit,
        source_investigation_id: InvestigationId { value: 1 },
        target_investigation_id: InvestigationId { value: 2 },
        confidence: Confidence::new(900),
        evidence: Vec::new(),
        method: "m".to_string(),
        explanation: "e".to_string(),
        confirmation: RelationshipConfirmation { state: ConfirmationState::Unconfirmed, actor: None, at: None },
        created_at: 0,
        identity_key: "k".to_string(),
    };
    let patterns = detect_patterns(&rows, &vec![rel], "tester", NOW);
    let kinds: Vec<PatternKind> = patterns.iter().map(|p| p.kind).collect();
    assert_eq!(kinds, vec![PatternKind::RepeatedRelationship, PatternKind::RepeatedSuccessfulMitigation]);
    assert_eq!(patterns[0].signature, "shared_commit");
    assert_eq!(patterns[0].description, "Relationship kind `shared_commit` touches 2 Investigations");
    assert_eq!(patterns[1].description, "Successful Learning Outcomes appear in 2 Investigations");
    assert_eq!(patterns[1].object_ids, vec![ObjectId { value: 40 }, ObjectId { value: 41 }]);
}

#[test]
fn trend_filters_by_repository() {
    let mut b1 = bundle(vec![repo_obs(11, 1, "acme/app")]);
    b1.verifications.push(VerificationReceipt {
        id: ObjectId { value: 50 },
        investigation_id: InvestigationId { value: 1 },
        evaluation_id: ObjectId { value: 49 },
        claim: String::new(),
        result: VerificationResult::Pass,
        confidence: Confidence::new(700),
        evidence_ids: Vec::new(),
        conflicting_ids: Vec::new(),
        reason: String::new(),
        provenance: Provenance::now("tester", "runtime", NOW),
    });
    b1.learning.push(LearningOutcome {
        id: ObjectId { value: 60 },
        disposition: OutcomeDisposition::Successful,
        recommendation_id: None,
        notes: String::new(),
        observed_at: 0,
    });
    let mut b2 = bundle(vec![repo_obs(21, 2, "acme/app")]);
    b2.learning.push(LearningOutcome {
        id: ObjectId { value: 61 },
        disposition: OutcomeDisposition::Unsuccessful,
        recommendation_id: None,
        notes: String::new(),
        observed_at: 0,
    });
    b2.learning.push(LearningOutcome {
        id: ObjectId { value: 62 },
        disposition: OutcomeDisposition::Successful,
        recommendation_id: None,
        notes: String::new(),
        observed_at: 0,
    });
    let b3 = bundle(vec![repo_obs(31, 3, "other/repo")]);
    let rows = vec![(InvestigationId { value: 1 }, b1), (InvestigationId { value: 2 }, b2), (InvestigationId { value: 3 }, b3)];
    let t = summarize_historical_trend(&rows, Some("ACME/App".to_string()));
    assert_eq!(t.investigation_count, 2);
    assert_eq!(t.repository_filter.as_deref(), Some("acme/app"));
    assert_eq!(t.verification.pass, 1);
    assert_eq!(t.learning.successful, 2);
    assert_eq!(t.learning.unsuccessful, 1);
    assert_eq!(t.learning.success_rate, Some(666));
    assert_eq!(t.top_repositories.len(), 1);
    assert_eq!(t.top_repositories[0].label, "acme/app");
    assert_eq!(t.top_repositories[0].count, 2);
    assert_eq!(
        t.summary,
        "2 Investigations; verification pass/fail/inconclusive 1/0/0; recommendation success rate 67% top repositories: acme/app (2)."
    );
    let all = summarize_historical_trend(&rows, None);
    assert_eq!(all.investigation_count, 3);
    assert_eq!(all.top_repositories.len(), 2);
    assert_eq!(all.top_repositories[0].label, "acme/app");
    assert_eq!(all.top_repositories[1].label, "other/repo");
}

fn empty_query() -> rivora::search::SearchQuery {
    rivora::search::SearchQuery {
        text: None,
        investigation_id: None,
        repository: None,
        status: None,
        connector_source: None,
        verification_result: None,
        outcome: None,
        relationship_kind: None,
        file: None,
        created_after: None,
        created_before: None,
        limit: None,
    }
}

fn search_rows() -> Vec<(Investigation, ContextBundle)> {
    vec![
        (investigation(1, "Checkout outage", 1000), bundle(vec![repo_obs(11, 1, "acme/app")])),
        (investigation(2, "Payment latency", 2000), bundle(vec![repo_obs(21, 2, "acme/app")])),
        (investigation(3, "Unrelated work", 3000), bundle(vec![repo_obs(31, 3, "other/repo")])),
    ]
}

#[test]
fn search_refuses_empty_query() {
    let rows = search_rows();
    match rivora::query::search_investigations(&empty_query(), &rows, &Vec::new(), &vec![None, None, None]) {
        Err(rivora::error::RivoraError::Validation { message }) => {
            assert_eq!(message, "search query is empty: provide text or at least one filter")
        }
        _ => panic!("expected a validation error"),
    }
}

#[test]
fn search_exact_id_short_circuits() {
    let rows = search_rows();
    let mut q = empty_query();
    q.investigation_id = Some(InvestigationId { value: 2 });
    let r = rivora::query::search_investigations(&q, &rows, &Vec::new(), &vec![None, None, None]).unwrap();
    assert_eq!(r.len(), 1);
    assert_eq!(r[0].investigation_id, InvestigationId { value: 2 });
    assert_eq!(r[0].score, 1000);
    assert_eq!(r[0].explanation, "Matched: exact Investigation id `00000000-0000-0000-0000-000000000002`. Score 1.00.");
    q.investigation_id = Some(InvestigationId { value: 99 });
    match rivora::query::search_investigations(&q, &rows, &Vec::new(), &vec![None, None, None]) {
        Err(rivora::error::RivoraError::ObjectNotFound { kind, id }) => {
            assert_eq!(kind, "investigation");
            assert_eq!(id, "00000000-0000-0000-0000-000000000063");
        }
        _ => panic!("expected not found"),
    }
}

#[test]
fn search_repository_filter_ranks_by_score() {
    let rows = search_rows();
    let mut q = empty_query();
    q.repository = Some("ACME/App".to_string());
    let r = rivora::query::search_investigations(&q, &rows, &Vec::new(), &vec![None, None, None]).unwrap();
    let ids: Vec<u128> = r.iter().map(|x| x.investigation_id.value).collect();
    assert_eq!(ids, vec![2, 1]);
    assert_eq!(r[0].score, 600);
    assert_eq!(r[0].explanation, "Matched: repository `acme/app`; recency (0.10). Score 0.60.");
    assert_eq!(r[0].matched_evidence[0].object_ids, vec![ObjectId { value: 21 }]);
    assert_eq!(r[1].score, 500);
    q.limit = Some(1);
    assert_eq!(rivora::query::search_investigations(&q, &rows, &Vec::new(), &vec![None, None, None]).unwrap().len(), 1);
}

#[test]
fn search_text_and_semantic_factors() {
    let rows = search_rows();
    let mut q = empty_query();
    q.text = Some("checkout outage".to_string());
    let r = rivora::query::search_investigations(&q, &rows, &Vec::new(), &vec![Some(500), Some(100), None]).unwrap();
    assert_eq!(r.len(), 1);
    assert_eq!(r[0].investigation_id, InvestigationId { value: 1 });
    let factors: Vec<RankingFactor> = r[0].matched_evidence.iter().map(|m| m.factor).collect();
    assert_eq!(factors, vec![RankingFactor::TextOverlap, RankingFactor::SemanticSimilarity]);
    assert_eq!(r[0].matched_evidence[0].detail, "text tokens [checkout, outage] (0.35)");
    assert_eq!(r[0].matched_evidence[1].detail, "semantic similarity 0.50 (0.15)");
    assert_eq!(r[0].score, 500);
}

fn link(id: u128, kind: RelationshipKind, a: u128, b: u128, key: &str, state: ConfirmationState, created_at: i64) -> InvestigationRelationship {
    InvestigationRelationship {
        id: ObjectId { value: id },
        kind,
        source_investigation_id: InvestigationId { value: a },
        target_investigation_id: InvestigationId { value: b },
        confidence: Confidence::new(1000),
        evidence: Vec::new(),
        method: "m".to_string(),
        explanation: "e".to_string(),
        confirmation: RelationshipConfirmation { state, actor: Some("maintainer".to_string()), at: Some(5) },
        created_at,
        identity_key: key.to_string(),
    }
}

#[test]
fn refresh_keeps_links_and_confirmations_and_drops_stale() {
    let rows = vec![
        (InvestigationId { value: 1 }, bundle(vec![repo_obs(10, 1, "acme/api")])),
        (InvestigationId { value: 2 }, bundle(vec![repo_obs(20, 2, "acme/api")])),
        (InvestigationId { value: 3 }, bundle(vec![repo_obs(30, 3, "acme/web")])),
    ];
    let first = refresh_relationships(InvestigationId { value: 1 }, &rows, &Vec::new(), NOW).unwrap();
    let repo = first
        .iter()
        .find(|r| r.kind == RelationshipKind::SharedRepository)
        .expect("alpha and beta share a repository");
    assert_eq!(repo.target_investigation_id, InvestigationId { value: 2 });
    assert_eq!(repo.created_at, NOW);
    assert!(first.iter().all(|r| r.kind != RelationshipKind::ExplicitLink && r.source_investigation_id == InvestigationId { value: 1 }));
    let key = repo.identity_key.clone();

    let existing = vec![
        link(100, RelationshipKind::ExplicitLink, 1, 3, "explicit", ConfirmationState::Confirmed, 1),
        link(200, RelationshipKind::SharedRepository, 2, 1, &key, ConfirmationState::Confirmed, 2),
        link(300, RelationshipKind::SharedCommit, 1, 3, "shared_commit|x", ConfirmationState::Unconfirmed, 3),
        link(400, RelationshipKind::SharedCommit, 2, 3, "shared_commit|y", ConfirmationState::Unconfirmed, 4),
    ];
    let second = refresh_relationships(InvestigationId { value: 1 }, &rows, &existing, NOW + 10).unwrap();
    assert_eq!(second.len(), 2 + first.len());
    assert_eq!(second[0].id, ObjectId { value: 100 });
    assert_eq!(second[1].id, ObjectId { value: 400 });
    assert!(second.iter().all(|r| r.id != ObjectId { value: 300 }));
    let refreshed = second.iter().find(|r| r.kind == RelationshipKind::SharedRepository).unwrap();
    assert_eq!(refreshed.id, ObjectId { value: 200 });
    assert_eq!(refreshed.confirmation.state, ConfirmationState::Confirmed);
    assert_eq!(refreshed.created_at, 2);
    assert!(second[2..].iter().filter(|r| r.kind != RelationshipKind::SharedRepository).all(|r| r.created_at == NOW + 10));

    assert!(refresh_relationships(InvestigationId { value: 9 }, &rows, &existing, NOW).is_err());
}

#[test]
fn refreshing_twice_keeps_the_same_relationships_elsewhere() {
    let rows = vec![
        (InvestigationId { value: 1 }, bundle(vec![repo_obs(10, 1, "acme/api")])),
        (InvestigationId { value: 2 }, bundle(vec![repo_obs(20, 2, "acme/api")])),
        (InvestigationId { value: 3 }, bundle(vec![repo_obs(30, 3, "acme/web")])),
    ];
    let existing = vec![
        link(100, RelationshipKind::ExplicitLink, 1, 3, "explicit", ConfirmationState::Confirmed, 1),
        link(400, RelationshipKind::SharedCommit, 2, 3, "shared_commit|y", ConfirmationState::Unconfirmed, 4),
    ];
    let once = refresh_relationships(InvestigationId { value: 1 }, &rows, &existing, NOW).unwrap();
    let twice = refresh_relationships(InvestigationId { value: 1 }, &rows, &once, NOW + 10).unwrap();
    assert_eq!(once.len(), twice.len());
    for r in [&twice[0], &twice[1]] {
        let before = once.iter().find(|o| o.id == r.id).unwrap();
        assert_eq!(before.created_at, r.created_at);
        assert_eq!(before.confirmation.state, r.confirmation.state);
    }
    assert_eq!(twice[0].id, ObjectId { value: 100 });
    assert_eq!(twice[1].id, ObjectId { value: 400 });
    let repo_once = once.iter().find(|r| r.kind == RelationshipKind::SharedRepository).unwrap();
    let repo_twice = twice.iter().find(|r| r.kind == RelationshipKind::SharedRepository).unwrap();
    assert_eq!(repo_once.id, repo_twice.id);
    assert_eq!(repo_twice.created_at, NOW);
}

#[test]
fn proposals_are_a_targeted_and_a_shared_alternative() {
    let inv = investigation(1, "Checkout config rejected", 1000);
    let b = bundle(vec![repo_obs(10, 1, "acme/api")]);
    match generate_improvement_proposals(&inv, &b, &Vec::new(), &Vec::new(), &Vec::new(), "  ", NOW) {
        Err(rivora::error::RivoraError::Validation { message }) => assert_eq!(message, "proposal generator actor is required"),
        _ => panic!("blank actor must be refused"),
    }
    let ps = generate_improvement_proposals(&inv, &b, &Vec::new(), &vec![ObjectId { value: 99 }], &Vec::new(), " engineer ", NOW).unwrap();
    assert_eq!(ps.len(), 2);
    assert_eq!(ps[0].estimated_effort, ProposalEffort::Small);
    assert_eq!(ps[1].estimated_effort, ProposalEffort::Medium);
    assert!(ps[0].alternative_group_id.is_some());
    assert_eq!(ps[0].alternative_group_id, ps[1].alternative_group_id);
    assert_eq!(ps[0].title, "Add targeted validation for Checkout config rejected");
    assert_eq!(ps[1].title, "Introduce a shared validation boundary for Checkout config rejected");
    assert_eq!(ps[0].confidence.permille, 550);
    assert_eq!(ps[1].confidence.permille, 470);
    assert_eq!(ps[0].provenance.actor, "engineer");
    let ids: Vec<u128> = ps[0].supporting_evidence.iter().map(|r| r.object_id.value).collect();
    assert_eq!(ids, vec![10, 99]);
    assert_eq!(ps[0].supporting_evidence, ps[1].supporting_evidence);
    assert!(ps[0].contradicting_evidence.is_empty());
    assert_eq!(
        ps[0].rationale,
        "Current evidence contains 2 supporting and 0 contradicting reference(s). The smallest useful change should validate the observed boundary without broad migration."
    );
}

#[test]
fn derived_relationships_keep_their_identity() {
    let a = bundle(vec![repo_obs(10, 1, "acme/api")]);
    let b = bundle(vec![repo_obs(20, 2, "acme/api")]);
    let first = rivora::relationships::derive_pair(InvestigationId { value: 1 }, &a, InvestigationId { value: 2 }, &b, NOW);
    let again = rivora::relationships::derive_pair(InvestigationId { value: 1 }, &a, InvestigationId { value: 2 }, &b, NOW + 1);
    assert!(!first.is_empty());
    assert_eq!(first.len(), again.len());
    for (x, y) in first.iter().zip(again.iter()) {
        assert_eq!(x.id, y.id);
        assert_eq!(x.kind, y.kind);
        assert_eq!(x.identity_key, y.identity_key);
    }
}
