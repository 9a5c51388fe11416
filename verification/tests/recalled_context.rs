use rivora::error::RivoraError;
use rivora::ids::{InvestigationId, ObjectId};
use rivora::model::{
    Confidence, ContextBundle, Investigation, InvestigationRelationship, LearningOutcome, Provenance,
    RelationshipConfirmation, RelationshipEvidence, VerificationReceipt,
};
use rivora::recall::{
    attach_recalled_context, attach_recalled_context_from_source, dismiss_recalled_context, historical_influence,
    suggest_recalled_context, RecallOrigin, RecalledContext, RecalledContextState, SourceHistory,
};
use rivora::search::{MatchedEvidence, RankingFactor, SearchResult};
use rivora::vocab::{ConfirmationState, InvestigationStatus, OutcomeDisposition, RelationshipKind, VerificationResult};

const NOW: i64 = 1_700_000_000_000;

fn oid(v: u128) -> ObjectId {
    ObjectId { value: v }
}

fn iid(v: u128) -> InvestigationId {
    InvestigationId { value: v }
}

fn context(id: u128, source: u128, state: RecalledContextState) -> RecalledContext {
    RecalledContext {
        id: oid(id),
        investigation_id: iid(1),
        source_investigation_id: iid(source),
        object_ids: vec![oid(id + 1)],
        evidence_summary: "shared repo".to_string(),
        reason: "similar".to_string(),
        explanation: "because".to_string(),
        confidence: Confidence::new(600),
        origin: RecallOrigin::Automatic,
        state,
        provenance: Provenance::now("tester", "runtime", NOW),
    }
}

fn outcome(id: u128, disposition: OutcomeDisposition, rec: Option<u128>, notes: &str) -> LearningOutcome {
    LearningOutcome { id: oid(id), disposition, recommendation_id: rec.map(oid), notes: notes.to_string(), observed_at: 0 }
}

fn empty_bundle() -> ContextBundle {
    ContextBundle {
        observations: Vec::new(),
        memory: Vec::new(),
        knowledge: Vec::new(),
        evaluations: Vec::new(),
        verifications: Vec::new(),
        recommendations: Vec::new(),
        learning: Vec::new(),
    }
}

fn inconclusive_receipt(reason: &str) -> VerificationReceipt {
    VerificationReceipt {
        id: oid(90),
        investigation_id: iid(2),
        evaluation_id: oid(91),
        claim: String::new(),
        result: VerificationResult::Inconclusive,
        confidence: Confidence::new(400),
        evidence_ids: Vec::new(),
        conflicting_ids: Vec::new(),
        reason: reason.to_string(),
        provenance: Provenance::now("tester", "runtime", NOW),
    }
}

#[test]
fn dismissed_context_cannot_be_attached() {
    let mut c = context(10, 2, RecalledContextState::Suggested);
    assert!(!c.influences_reasoning());
    attach_recalled_context(&mut c).unwrap();
    assert_eq!(c.state, RecalledContextState::Attached);
    assert!(c.influences_reasoning());
    dismiss_recalled_context(&mut c);
    assert_eq!(c.state, RecalledContextState::Dismissed);
    assert!(!c.influences_reasoning());
    match attach_recalled_context(&mut c) {
        Err(RivoraError::Precondition { message }) => {
            assert_eq!(message, "cannot attach a dismissed recalled context; create a new one")
        }
        _ => panic!("expected a precondition error"),
    }
    assert_eq!(c.state, RecalledContextState::Dismissed);
}

#[test]
fn only_attached_context_influences() {
    let contexts = vec![
        context(10, 2, RecalledContextState::Attached),
        context(20, 3, RecalledContextState::Suggested),
        context(30, 4, RecalledContextState::Dismissed),
    ];
    let histories = vec![
        SourceHistory {
            learning: vec![
                outcome(40, OutcomeDisposition::Unsuccessful, Some(50), "broke prod"),
                outcome(41, OutcomeDisposition::Successful, None, "fixed"),
                outcome(42, OutcomeDisposition::Rejected, None, "too risky"),
            ],
            recommendation_summaries: vec![(oid(50), "Roll back deploy".to_string())],
            receipts: vec![inconclusive_receipt("no memory links")],
        },
        SourceHistory {
            learning: vec![outcome(43, OutcomeDisposition::Successful, None, "ignored")],
            recommendation_summaries: Vec::new(),
            receipts: Vec::new(),
        },
        SourceHistory {
            learning: vec![outcome(44, OutcomeDisposition::Unsuccessful, None, "ignored")],
            recommendation_summaries: Vec::new(),
            receipts: Vec::new(),
        },
    ];
    let inf = historical_influence(&contexts, &histories);
    assert_eq!(inf.context_ids, vec![oid(10)]);
    assert_eq!(inf.source_investigation_ids, vec![iid(2)]);
    let src = "00000000-0000-0000-0000-000000000002";
    assert_eq!(
        inf.notes,
        vec![
            format!("Historical context from Investigation {src} (recalled as `similar`): shared repo"),
            format!("Prior Investigation {src} had inconclusive verification: no memory links"),
        ]
    );
    assert_eq!(
        inf.warnings,
        vec![
            format!(
                "Prior Investigation {src} recorded an unsuccessful outcome for recommendation-like guidance: `Roll back deploy` (broke prod)"
            ),
            format!("Prior Investigation {src} rejected a recommendation: too risky"),
        ]
    );
    assert_eq!(inf.successes, vec![format!("Prior Investigation {src} recorded a successful outcome: fixed")]);
}

#[test]
fn no_attached_context_no_influence() {
    let contexts = vec![context(20, 3, RecalledContextState::Suggested)];
    let histories = vec![SourceHistory {
        learning: vec![outcome(43, OutcomeDisposition::Successful, None, "x")],
        recommendation_summaries: Vec::new(),
        receipts: Vec::new(),
    }];
    let inf = historical_influence(&contexts, &histories);
    assert!(inf.context_ids.is_empty());
    assert!(inf.notes.is_empty());
    assert!(inf.successes.is_empty());
}

#[test]
fn manual_attach_creates_or_upgrades() {
    let source = Investigation {
        id: iid(2),
        title: "Old outage".to_string(),
        description: None,
        status: InvestigationStatus::Created,
        created_at: 0,
        updated_at: 0,
    };
    let mut bundle = empty_bundle();
    bundle.learning.push(outcome(60, OutcomeDisposition::Successful, None, "ok"));
    let mut contexts: Vec<RecalledContext> = vec![context(10, 5, RecalledContextState::Suggested)];
    let i = attach_recalled_context_from_source(iid(1), &source, &bundle, &mut contexts, Some("   ".to_string()), "alice", NOW);
    assert_eq!(i, 1);
    let c = &contexts[1];
    assert_eq!(c.state, RecalledContextState::Attached);
    assert_eq!(c.origin, RecallOrigin::Manual);
    assert_eq!(c.reason, "explicitly selected prior investigation");
    assert_eq!(c.evidence_summary, "Prior Investigation `Old outage` [created]: 0 knowledge, 0 evaluations, 1 outcomes");
    assert_eq!(c.object_ids, vec![oid(60)]);
    assert_eq!(c.confidence.permille, 850);
    assert_eq!(
        c.explanation,
        "Manually attached historical context from Investigation 00000000-0000-0000-0000-000000000002 (`Old outage`). Historical evidence is labeled and remains distinct from current Investigation evidence."
    );
    assert_eq!(c.provenance.capability.as_deref(), Some("attach_recalled_context"));

    let mut suggested = vec![context(10, 2, RecalledContextState::Suggested)];
    let j = attach_recalled_context_from_source(iid(1), &source, &bundle, &mut suggested, Some("reviewed".to_string()), "alice", NOW);
    assert_eq!(j, 0);
    assert_eq!(suggested.len(), 1);
    assert_eq!(suggested[0].state, RecalledContextState::Attached);
    assert_eq!(suggested[0].reason, "reviewed");
    assert_eq!(suggested[0].origin, RecallOrigin::Automatic);
}

fn relationship(source: u128, target: u128, state: ConfirmationState) -> InvestigationRelationship {
    InvestigationRelationship {
        id: oid(700 + target),
        kind: RelationshipKind::SharedRepository,
        source_investigation_id: iid(source),
        target_investigation_id: iid(target),
        confidence: Confidence::new(800),
        evidence: vec![RelationshipEvidence { description: "both touch acme/app".to_string(), object_ids: vec![oid(8)] }],
        method: "m".to_string(),
        explanation: "e".to_string(),
        confirmation: RelationshipConfirmation { state, actor: None, at: None },
        created_at: 0,
        identity_key: "k".to_string(),
    }
}

fn similar(id: u128, score: u32) -> SearchResult {
    SearchResult {
        investigation_id: iid(id),
        title: format!("inv {id}"),
        status: InvestigationStatus::Created,
        score,
        explanation: "similar because".to_string(),
        matched_evidence: vec![MatchedEvidence {
            factor: RankingFactor::SharedRepository,
            detail: "d".to_string(),
            object_ids: vec![oid(id * 10)],
        }],
        relationship: None,
        outcomes: Vec::new(),
        created_at: 0,
        updated_at: 0,
    }
}

#[test]
fn suggestions_from_relationships_then_similar() {
    let existing = vec![context(10, 4, RecalledContextState::Attached)];
    let relationships = vec![
        relationship(1, 2, ConfirmationState::Unconfirmed),
        relationship(1, 3, ConfirmationState::Dismissed),
        relationship(4, 1, ConfirmationState::Confirmed),
    ];
    let explanations = vec!["why two".to_string(), "why three".to_string(), "why four".to_string()];
    let results = vec![similar(2, 500), similar(4, 900), similar(6, 550)];
    let created = suggest_recalled_context(iid(1), &existing, &relationships, &explanations, &results, "bot", NOW).unwrap();
    assert_eq!(created.len(), 2);
    assert_eq!(created[0].source_investigation_id, iid(2));
    assert_eq!(created[0].evidence_summary, "Related via shared_repository: both touch acme/app");
    assert_eq!(created[0].reason, "derived relationship shared_repository");
    assert_eq!(created[0].explanation, "why two");
    assert_eq!(created[0].object_ids, vec![oid(8)]);
    assert_eq!(created[0].confidence.permille, 800);
    assert_eq!(created[0].state, RecalledContextState::Suggested);
    assert_eq!(created[0].origin, RecallOrigin::Automatic);
    assert_eq!(created[1].source_investigation_id, iid(6));
    assert_eq!(created[1].evidence_summary, "Similar Investigation `inv 6` (score 0.55)");
    assert_eq!(created[1].reason, "similar investigation discovery");
    assert_eq!(created[1].object_ids, vec![oid(60)]);
    assert_eq!(created[1].confidence.permille, 550);
    assert_eq!(created[1].provenance.capability.as_deref(), Some("suggest_recalled_context"));
}

#[test]
fn suggestion_fails_on_dangling_relationship() {
    let relationships = vec![relationship(8, 9, ConfirmationState::Unconfirmed)];
    let explanations = vec!["x".to_string()];
    match suggest_recalled_context(iid(1), &Vec::new(), &relationships, &explanations, &Vec::new(), "bot", NOW) {
        Err(RivoraError::Storage { message }) => assert_eq!(message, "relationship missing other end"),
        _ => panic!("expected a storage error"),
    }
}
