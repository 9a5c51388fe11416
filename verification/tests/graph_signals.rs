use rivora::graph::{
    commit_key, failure_signatures, pull_request_key, recommendation_signature, repository_key,
    similar_observations,
};
use rivora::ids::{InvestigationId, ObjectId};
use rivora::json::{JsonMember, JsonNumber, JsonValue};
use rivora::model::Observation;
use rivora::vocab::ObservationKind;
use std::sync::atomic::{AtomicU64, Ordering as AtomicOrdering};

static NEXT_ID: AtomicU64 = AtomicU64::new(1);

fn from_serde(v: &serde_json::Value) -> JsonValue {
    match v {
        serde_json::Value::Null => JsonValue::Null,
        serde_json::Value::Bool(b) => JsonValue::Bool(*b),
        serde_json::Value::Number(n) => JsonValue::Number(JsonNumber {
            unsigned: n.as_u64(),
            text: n.to_string(),
        }),
        serde_json::Value::String(s) => JsonValue::Str(s.clone()),
        serde_json::Value::Array(items) => JsonValue::Array(items.iter().map(from_serde).collect()),
        serde_json::Value::Object(map) => JsonValue::Object(
            map.iter()
                .map(|(k, v)| JsonMember { key: k.clone(), value: from_serde(v) })
                .collect(),
        ),
    }
}

fn observation(kind: ObservationKind, summary: &str, payload: &str) -> Observation {
    let value: serde_json::Value = serde_json::from_str(payload).unwrap();
    Observation {
        id: ObjectId { value: NEXT_ID.fetch_add(1, AtomicOrdering::SeqCst) as u128 },
        investigation_id: InvestigationId { value: 7 },
        kind,
        summary: summary.to_string(),
        payload: from_serde(&value),
        payload_text: value.to_string(),
        source: "test".to_string(),
        observed_at: 0,
        idempotency_key: None,
    }
}

fn has_key(map: &rivora::keymap::KeyMap, key: &str) -> bool {
    map.entries.iter().any(|e| e.key.iter().collect::<String>() == key)
}

#[test]
fn repository_key_prefers_payload_then_backticks() {
    let full = observation(
        ObservationKind::Repository,
        "whatever",
        r#"{"full_name": "Acme/App", "name": "ignored"}"#,
    );
    assert_eq!(repository_key(&full).as_deref(), Some("acme/app"));

    let named = observation(ObservationKind::Repository, "whatever", r#"{"name": "Acme/App"}"#);
    assert_eq!(repository_key(&named).as_deref(), Some("acme/app"));

    let backtick = observation(
        ObservationKind::Repository,
        "Observed repository `Acme/App` today",
        "{}",
    );
    assert_eq!(repository_key(&backtick).as_deref(), Some("acme/app"));

    let missing = observation(ObservationKind::Repository, "no key", "{}");
    assert_eq!(repository_key(&missing), None);
}

#[test]
fn commit_key_uses_sha_then_summary_hex() {
    let sha = observation(ObservationKind::Commit, "whatever", r#"{"sha": "ABC123"}"#);
    assert_eq!(commit_key(&sha).as_deref(), Some("abc123"));

    let summary = observation(ObservationKind::Commit, "Commit deadbeefcafe landed on main", "{}");
    assert_eq!(commit_key(&summary).as_deref(), Some("deadbeefcafe"));

    let missing = observation(ObservationKind::Commit, "no sha here", "{}");
    assert_eq!(commit_key(&missing), None);
}

#[test]
fn pull_request_key_scopes_by_repository_when_known() {
    let scoped = observation(
        ObservationKind::PullRequest,
        "pr",
        r#"{"number": 42, "repository": "Acme/App"}"#,
    );
    assert_eq!(pull_request_key(&scoped).as_deref(), Some("acme/app#42"));

    let unscoped = observation(ObservationKind::PullRequest, "pr", r#"{"number": 7}"#);
    assert_eq!(pull_request_key(&unscoped).as_deref(), Some("#7"));

    let missing = observation(ObservationKind::PullRequest, "pr", "{}");
    assert_eq!(pull_request_key(&missing), None);
}

#[test]
fn failure_signature_normalizes_names_and_rollback() {
    let check = observation(
        ObservationKind::CheckResult,
        "Check build failed",
        r#"{"name": "Build", "conclusion": "failure"}"#,
    );
    let signatures = failure_signatures(&vec![check]);
    assert!(has_key(&signatures, "check_result:build"));

    let status_only = observation(ObservationKind::TestOutput, "tests error out", r#"{"status": "Failed"}"#);
    let signatures = failure_signatures(&vec![status_only]);
    assert!(has_key(&signatures, "test_output:failed"));

    let rollback = observation(ObservationKind::CheckResult, "deploy rollback failed", r#"{"name": "deploy"}"#);
    let signatures = failure_signatures(&vec![rollback]);
    assert!(has_key(&signatures, "check_result:deploy"));
    assert!(has_key(&signatures, "rollback"));

    let passing = observation(
        ObservationKind::CheckResult,
        "Check build succeeded",
        r#"{"name": "build", "conclusion": "success"}"#,
    );
    assert!(failure_signatures(&vec![passing]).entries.is_empty());
}

#[test]
fn recommendation_signature_is_deterministic() {
    assert_eq!(
        recommendation_signature("Investigate and remediate failure signals before promoting."),
        "remediate_failure_signals"
    );
    assert_eq!(
        recommendation_signature("Continue monitoring; no urgent remediation indicated."),
        "continue_monitoring"
    );
    assert_eq!(
        recommendation_signature("Review Investigation Evidence Carefully please now"),
        "review_investigation_evidence_carefully"
    );
}

#[test]
fn similar_observations_requires_kind_and_token_overlap() {
    let shared_a = vec![
        observation(ObservationKind::CheckResult, "build failed badly", "{}"),
        observation(ObservationKind::Repository, "deploy broken today", "{}"),
    ];
    let shared_b = vec![
        observation(ObservationKind::CheckResult, "build failed again", "{}"),
        observation(ObservationKind::Repository, "deploy broken twice", "{}"),
    ];
    let (confidence, artifacts) = similar_observations(&shared_a, &shared_b);
    assert_eq!(confidence, 800); // 0.3 + 0.5 * 1.0, in thousandths
    assert!(!artifacts.is_empty());

    let thin_a = vec![observation(ObservationKind::CheckResult, "build failed badly", "{}")];
    let thin_b = vec![observation(ObservationKind::CheckResult, "build succeeded quietly", "{}")];
    let (_, artifacts) = similar_observations(&thin_a, &thin_b);
    assert!(artifacts.is_empty());

    let disjoint_a = vec![observation(ObservationKind::CheckResult, "build failed badly", "{}")];
    let disjoint_b = vec![
        observation(ObservationKind::Repository, "build failed badly", "{}"),
        observation(ObservationKind::Commit, "build failed badly", "{}"),
    ];
    let (_, artifacts) = similar_observations(&disjoint_a, &disjoint_b);
    assert!(artifacts.is_empty());
}

#[test]
fn payload_text_is_the_compact_json_of_the_payload() {
    let v: serde_json::Value = serde_json::from_str(
        r#"{"b": [1, 2.5, true, null], "a": "quote \" back \\ tab \t nl \n bell \u0007 é", "c": {"k": -3}}"#,
    )
    .unwrap();
    let payload = from_serde(&v);
    assert_eq!(rivora::json::json_string(&payload), v.to_string());
    let o = rivora::model::Observation::new(
        ObjectId { value: 1 },
        InvestigationId { value: 2 },
        ObservationKind::Event,
        "s".to_string(),
        payload,
        "test".to_string(),
        0,
        None,
    );
    assert_eq!(o.payload_text, v.to_string());
}
