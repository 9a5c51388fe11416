use rivora::execution::{ExecutionPlanStatus, ExecutionVerificationStatus};
use rivora::execution_verify::{
    conclude_verification, plan_advances, CapabilityVerificationStatus, ExpectedEffect, ReceiptFacts, StateObservation,
};
use rivora::ids::ObjectId;

fn receipt(id: u128, action: &str) -> ReceiptFacts {
    ReceiptFacts {
        id: ObjectId { value: id },
        action_id: action.to_string(),
        response_summary: "comment created".to_string(),
        verification_requirements: vec!["comment exists".to_string()],
        raw_evidence_refs: vec!["gh:1".to_string()],
    }
}

fn observation(status: CapabilityVerificationStatus, fields: Vec<(&str, &str)>) -> StateObservation {
    StateObservation {
        verification_status: status,
        observed: true,
        error: None,
        summary: "comment 1 present".to_string(),
        fields: fields.into_iter().map(|(k, v)| (k.to_string(), v.to_string())).collect(),
        resource_key: "comment/1".to_string(),
    }
}

fn effect() -> ExpectedEffect {
    ExpectedEffect { resource_type: "comment".to_string(), expected_fields: vec![("state".to_string(), "open".to_string())] }
}

#[test]
fn passing_observation_verifies_the_attempt() {
    let v = conclude_verification(
        &Vec::new(),
        &vec![receipt(1, "post")],
        &vec![observation(CapabilityVerificationStatus::Passed, vec![("state", "open")])],
        &vec![effect()],
        false,
        false,
        Some(2),
    );
    assert_eq!(v.checks, vec!["comment exists".to_string()]);
    assert_eq!(v.results.len(), 2);
    assert_eq!(v.results[0].check, "comment:state");
    assert_eq!(v.results[0].detail, "expected=open actual=open");
    assert_eq!(v.results[1].check, "receipt:post");
    assert_eq!(v.results[1].detail, "comment created; independent observation: comment 1 present");
    assert_eq!(v.results[1].evidence, vec!["gh:1".to_string(), "comment/1".to_string()]);
    assert!(v.contradictions.is_empty());
    assert_eq!(v.status, ExecutionVerificationStatus::Passed);
    assert_eq!(v.confidence.permille, 1000);
    assert_eq!(v.revision, 3);
    assert_eq!(v.evidence, vec!["comment 1 present".to_string()]);
    assert!(plan_advances(v.status, ExecutionPlanStatus::Executed));
    assert!(!plan_advances(v.status, ExecutionPlanStatus::Approved));
}

#[test]
fn mismatched_field_contradicts_and_fails() {
    let v = conclude_verification(
        &vec!["plan check".to_string()],
        &vec![receipt(1, "post")],
        &vec![observation(CapabilityVerificationStatus::Passed, vec![("state", "closed")])],
        &vec![effect()],
        false,
        false,
        None,
    );
    assert_eq!(v.checks, vec!["plan check".to_string()]);
    assert_eq!(v.contradictions, vec!["expected state=open, observed \"closed\"".to_string()]);
    assert_eq!(v.status, ExecutionVerificationStatus::Failed);
    assert_eq!(v.confidence.permille, 500);
    assert_eq!(v.revision, 1);
}

#[test]
fn unconfirmed_receipt_is_inconclusive() {
    let v = conclude_verification(
        &Vec::new(),
        &vec![receipt(1, "post")],
        &vec![observation(CapabilityVerificationStatus::Inconclusive, vec![])],
        &Vec::new(),
        false,
        false,
        None,
    );
    assert!(v.contradictions.is_empty());
    assert_eq!(v.status, ExecutionVerificationStatus::Inconclusive);
    assert_eq!(v.confidence.permille, 0);
}

#[test]
fn no_receipts_fails_with_default_check() {
    let v = conclude_verification(&Vec::new(), &Vec::new(), &Vec::new(), &Vec::new(), false, false, None);
    assert_eq!(v.checks, vec!["external identifiers present".to_string()]);
    assert_eq!(v.results.len(), 1);
    assert_eq!(v.results[0].check, "no receipts");
    assert_eq!(v.status, ExecutionVerificationStatus::Failed);
}

#[test]
fn failed_observation_names_the_receipt() {
    let v = conclude_verification(
        &Vec::new(),
        &vec![receipt(0xab, "post")],
        &vec![observation(CapabilityVerificationStatus::Failed, vec![])],
        &Vec::new(),
        false,
        false,
        None,
    );
    assert_eq!(
        v.contradictions,
        vec!["receipt 00000000-0000-0000-0000-0000000000ab postcondition contradicted: comment 1 present".to_string()]
    );
    assert_eq!(v.status, ExecutionVerificationStatus::Failed);
}
