use rivora::error::RivoraError;
use rivora::ids::{InvestigationId, ObjectId};
use rivora::linking::{link_investigations, list_relationships, unlink_investigation};
use rivora::model::{Confidence, InvestigationRelationship, RelationshipConfirmation, RelationshipEvidence};
use rivora::vocab::{ConfirmationState, RelationshipKind};

fn oid(v: u128) -> ObjectId {
    ObjectId { value: v }
}

fn iid(v: u128) -> InvestigationId {
    InvestigationId { value: v }
}

fn relationship(id: u128, kind: RelationshipKind, a: u128, b: u128) -> InvestigationRelationship {
    InvestigationRelationship {
        id: oid(id),
        kind,
        source_investigation_id: iid(a),
        target_investigation_id: iid(b),
        confidence: Confidence::new(800),
        evidence: vec![RelationshipEvidence { description: "same commit".to_string(), object_ids: vec![oid(77)] }],
        method: "m".to_string(),
        explanation: "e".to_string(),
        confirmation: RelationshipConfirmation { state: ConfirmationState::Unconfirmed, actor: None, at: None },
        created_at: 5,
        identity_key: "k".to_string(),
    }
}

#[test]
fn linking_an_investigation_to_itself_is_refused() {
    let r = link_investigations(iid(1), iid(1), &vec![iid(1)], &Vec::new(), None, "ana", oid(9), 100);
    match r {
        Err(RivoraError::Validation { message }) => assert_eq!(message, "cannot link an investigation to itself"),
        _ => panic!("expected a validation error"),
    }
}

#[test]
fn linking_a_missing_investigation_is_not_found() {
    let r = link_investigations(iid(1), iid(2), &vec![iid(1)], &Vec::new(), None, "ana", oid(9), 100);
    match r {
        Err(RivoraError::ObjectNotFound { kind, .. }) => assert_eq!(kind, "investigation"),
        _ => panic!("expected not found"),
    }
}

#[test]
fn new_link_is_confirmed_by_its_author() {
    let existing = vec![relationship(50, RelationshipKind::SharedCommit, 1, 2)];
    let (link, created) =
        link_investigations(iid(1), iid(2), &vec![iid(1), iid(2)], &existing, Some("same outage".to_string()), "ana", oid(9), 100)
            .unwrap();
    assert!(created);
    assert_eq!(link.id, oid(9));
    assert_eq!(link.kind, RelationshipKind::ExplicitLink);
    assert_eq!(link.source_investigation_id, iid(1));
    assert_eq!(link.target_investigation_id, iid(2));
    assert_eq!(link.confidence.permille, 1000);
    assert!(link.evidence.is_empty());
    assert_eq!(link.explanation, "same outage");
    assert_eq!(link.confirmation.state, ConfirmationState::Confirmed);
    assert_eq!(link.confirmation.actor.as_deref(), Some("ana"));
    assert_eq!(link.confirmation.at, Some(100));
    assert_eq!(link.created_at, 100);
}

#[test]
fn linking_again_returns_the_stored_link_either_way_round() {
    let existing = vec![
        relationship(50, RelationshipKind::SharedCommit, 1, 2),
        relationship(51, RelationshipKind::ExplicitLink, 2, 1),
    ];
    let (link, created) =
        link_investigations(iid(1), iid(2), &vec![iid(1), iid(2)], &existing, None, "bo", oid(9), 100).unwrap();
    assert!(!created);
    assert_eq!(link.id, oid(51));
    assert_eq!(link.created_at, 5);
}

#[test]
fn only_explicit_links_can_be_unlinked() {
    assert!(unlink_investigation(&relationship(51, RelationshipKind::ExplicitLink, 1, 2)).is_ok());
    match unlink_investigation(&relationship(50, RelationshipKind::SharedCommit, 1, 2)) {
        Err(RivoraError::Precondition { message }) => {
            assert_eq!(message, "only explicit links can be unlinked; derived relationships are removed by refresh")
        }
        _ => panic!("expected a precondition error"),
    }
}

#[test]
fn listing_keeps_relationships_touching_the_investigation() {
    let rels = vec![
        relationship(50, RelationshipKind::SharedCommit, 1, 2),
        relationship(51, RelationshipKind::ExplicitLink, 3, 4),
        relationship(52, RelationshipKind::SharedRepository, 5, 1),
    ];
    let listed = list_relationships(&rels, iid(1));
    let ids: Vec<ObjectId> = listed.iter().map(|r| r.id).collect();
    assert_eq!(ids, vec![oid(50), oid(52)]);
}

#[test]
fn linking_twice_finds_the_first_link() {
    let stored = vec![iid(1), iid(2)];
    let mut existing = vec![relationship(50, RelationshipKind::SharedCommit, 1, 2)];
    let (first, created) = link_investigations(iid(1), iid(2), &stored, &existing, None, "ana", oid(9), 100).unwrap();
    assert!(created);
    assert_eq!(first.explanation, "linked explicitly by a person");
    existing.push(first);
    let (again, created_again) = link_investigations(iid(2), iid(1), &stored, &existing, None, "bo", oid(10), 200).unwrap();
    assert!(!created_again);
    assert_eq!(again.id, oid(9));
    assert_eq!(again.created_at, 100);
}
