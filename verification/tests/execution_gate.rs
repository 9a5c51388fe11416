use rivora::error::RivoraError;
use rivora::execution::{ActionAuthority, CapabilityExecutionStatus, ExecutionAttemptStatus, ExecutionPlanStatus, RetrySafety};
use rivora::execution_gate::{check_verifiable, decide_execution, ExecutionDecision, PlanFacts, PriorAttempt};
use rivora::ids::ObjectId;

fn plan(status: ExecutionPlanStatus) -> PlanFacts {
    PlanFacts {
        plan_id: ObjectId { value: 1 },
        lineage_id: ObjectId { value: 1 },
        head_id: ObjectId { value: 1 },
        capability_id: "github.comment".to_string(),
        target_snapshot: "acme/api#7".to_string(),
        status,
        approval_error: None,
        dry_run_permitted: true,
        live_execution_permitted: true,
        policy_denied: false,
        policy_dry_run_only: false,
        policy_reasons: vec!["low risk".to_string()],
    }
}

fn prior(status: ExecutionAttemptStatus, dry_run: bool) -> PriorAttempt {
    PriorAttempt {
        id: ObjectId { value: 0xabc },
        plan_id: ObjectId { value: 1 },
        capability_id: "github.comment".to_string(),
        target_snapshot: "acme/api#7".to_string(),
        dry_run,
        status,
        retry_safety: RetrySafety::Safe,
    }
}

fn precondition(r: Result<ExecutionDecision, RivoraError>) -> String {
    match r {
        Err(RivoraError::Precondition { message }) => message,
        _ => panic!("expected a precondition error"),
    }
}

#[test]
fn execution_inputs_are_validated() {
    let p = plan(ExecutionPlanStatus::Approved);
    assert!(matches!(decide_execution(&p, None, " ", "k1", false), Err(RivoraError::Validation { .. })));
    assert!(matches!(decide_execution(&p, None, "ops", "  ", false), Err(RivoraError::Validation { .. })));
    assert!(matches!(decide_execution(&p, None, "ops", "bad\u{7}key", false), Err(RivoraError::Validation { .. })));
}

#[test]
fn live_execution_needs_approval_and_policy() {
    match decide_execution(&plan(ExecutionPlanStatus::Approved), None, "ops", " k1 ", false) {
        Ok(ExecutionDecision::Live { effective_key }) => assert_eq!(effective_key, "mode=live;key=k1"),
        _ => panic!("approved plan runs live"),
    }
    assert_eq!(
        precondition(decide_execution(&plan(ExecutionPlanStatus::Validated), None, "ops", "k1", false)),
        "live execution requires approved plan; got validated"
    );
    let mut expired = plan(ExecutionPlanStatus::Approved);
    expired.approval_error = Some("approval expired".to_string());
    assert_eq!(precondition(decide_execution(&expired, None, "ops", "k1", false)), "approval expired");
    let mut dry_only = plan(ExecutionPlanStatus::Approved);
    dry_only.policy_dry_run_only = true;
    dry_only.policy_reasons = vec!["production target".to_string(), "no rollback".to_string()];
    assert_eq!(
        precondition(decide_execution(&dry_only, None, "ops", "k1", false)),
        "policy denied live execution: production target; no rollback"
    );
    match decide_execution(&dry_only, None, "ops", "k1", true) {
        Ok(ExecutionDecision::DryRun { effective_key }) => assert_eq!(effective_key, "mode=dry_run;key=k1"),
        _ => panic!("dry run is allowed"),
    }
    let mut no_dry = plan(ExecutionPlanStatus::Draft);
    no_dry.dry_run_permitted = false;
    assert_eq!(precondition(decide_execution(&no_dry, None, "ops", "k1", true)), "dry-run not permitted: low risk");
}

#[test]
fn stale_revision_is_refused() {
    let mut p = plan(ExecutionPlanStatus::Approved);
    p.head_id = ObjectId { value: 2 };
    match decide_execution(&p, None, "ops", "k1", false) {
        Err(RivoraError::Validation { message }) => assert_eq!(
            message,
            "plan 00000000-0000-0000-0000-000000000001 is not the head of lineage 00000000-0000-0000-0000-000000000001 (head is 00000000-0000-0000-0000-000000000002)"
        ),
        _ => panic!("stale revision must be refused"),
    }
}

#[test]
fn duplicates_are_suppressed_and_never_rerun() {
    let p = plan(ExecutionPlanStatus::Approved);
    let done = prior(ExecutionAttemptStatus::Completed, false);
    match decide_execution(&p, Some(&done), "ops", "k1", false) {
        Ok(ExecutionDecision::SuppressDuplicate { original, recover_original, retry_safety }) => {
            assert_eq!(original, ObjectId { value: 0xabc });
            assert!(!recover_original);
            assert_eq!(retry_safety, RetrySafety::Safe);
        }
        _ => panic!("duplicate must be suppressed"),
    }
    let interrupted = prior(ExecutionAttemptStatus::Started, false);
    match decide_execution(&p, Some(&interrupted), "ops", "k1", false) {
        Ok(ExecutionDecision::SuppressDuplicate { recover_original, retry_safety, .. }) => {
            assert!(recover_original);
            assert_eq!(retry_safety, RetrySafety::Unsafe);
        }
        _ => panic!("interrupted original is recovered"),
    }
    let other_mode = prior(ExecutionAttemptStatus::Completed, true);
    assert_eq!(
        precondition(decide_execution(&p, Some(&other_mode), "ops", "k1", false)),
        "idempotency key is already reserved by attempt 00000000-0000-0000-0000-000000000abc for a different exact execution"
    );
}

#[test]
fn only_finished_live_attempts_are_verified() {
    match check_verifiable(true, ExecutionAttemptStatus::Completed) {
        Err(RivoraError::Validation { message }) => assert_eq!(message, "cannot verify a dry-run attempt as live execution"),
        _ => panic!("dry runs are not verified"),
    }
    match check_verifiable(false, ExecutionAttemptStatus::DuplicateSuppressed) {
        Err(RivoraError::Validation { message }) => assert_eq!(message, "cannot verify an attempt in status duplicate_suppressed"),
        _ => panic!("suppressed duplicates are not verified"),
    }
    assert!(check_verifiable(false, ExecutionAttemptStatus::PartiallyCompleted).is_ok());
}

struct Scripted {
    calls: Vec<String>,
    statuses: Vec<rivora::execution::CapabilityExecutionStatus>,
    checked: Vec<String>,
    refuse: Vec<String>,
}

impl rivora::execution_run::ActionInvoker for Scripted {
    fn invoke(
        &mut self,
        _action: &rivora::execution::ExecutionAction,
        action_key: &str,
    ) -> Result<rivora::execution_run::AdapterReport, String> {
        self.calls.push(action_key.to_string());
        let status = self.statuses.remove(0);
        Ok(rivora::execution_run::AdapterReport { status, error: None, rollback_available: false })
    }

    fn validate_preconditions(&mut self, action: &rivora::execution::ExecutionAction, action_key: &str) -> Result<(), String> {
        self.checked.push(action_key.to_string());
        if self.refuse.contains(&action.action_id) {
            Err(format!("{} cannot run", action.action_id))
        } else {
            Ok(())
        }
    }
}

fn action(id: &str, continue_on_failure: bool) -> rivora::execution::ExecutionAction {
    rivora::execution::ExecutionAction { action_id: id.to_string(), action_name: id.to_string(), continue_on_failure }
}

#[test]
fn actions_run_until_a_non_continuing_failure() {
    let mut cap = Scripted {
        calls: Vec::new(),
        statuses: vec![CapabilityExecutionStatus::Success, CapabilityExecutionStatus::Failed],
        checked: Vec::new(),
        refuse: Vec::new(),
    };
    let actions = vec![action("a", false), action("denied", false), action("b", false), action("c", false)];
    let authority = ActionAuthority { approved_actions: Vec::new(), denied_actions: vec!["denied".to_string()] };
    let p = rivora::execution_run::run_actions(&mut cap, &actions, &authority, "mode=live;key=k1");
    assert_eq!(cap.calls, vec!["mode=live;key=k1;action=a".to_string(), "mode=live;key=k1;action=b".to_string()]);
    assert_eq!(p.completed_actions, vec!["a".to_string()]);
    assert_eq!(p.failed_actions, vec!["b".to_string()]);
    assert!(p.uncertain_actions.is_empty());
    assert_eq!(p.skipped_actions, vec!["denied".to_string(), "c".to_string()]);
    assert!(p.stop);
}

#[test]
fn unsatisfied_preconditions_and_refused_checks_block_the_attempt() {
    let mut cap = Scripted { calls: Vec::new(), statuses: Vec::new(), checked: Vec::new(), refuse: vec!["b".to_string()] };
    let preconditions = vec![
        rivora::execution::ExecutionPrecondition {
            id: "p1".to_string(),
            description: "branch exists".to_string(),
            satisfied: Some(true),
            detail: None,
        },
        rivora::execution::ExecutionPrecondition {
            id: "p2".to_string(),
            description: "pipeline is green".to_string(),
            satisfied: None,
            detail: None,
        },
    ];
    let actions = vec![action("a", false), action("denied", false), action("b", false)];
    let authority = ActionAuthority { approved_actions: Vec::new(), denied_actions: vec!["denied".to_string()] };
    let errors = rivora::execution_run::blocking_errors(&mut cap, &preconditions, &actions, &authority, "mode=live;key=k1");
    assert_eq!(errors, vec!["precondition p2: pipeline is green".to_string(), "b cannot run".to_string()]);
    assert_eq!(cap.checked, vec!["mode=live;key=k1;action=a".to_string(), "mode=live;key=k1;action=b".to_string()]);
    assert!(cap.calls.is_empty());
    let blocked = rivora::execution_run::blocked_attempt(errors).unwrap();
    assert_eq!(blocked.retry_safety, rivora::execution::RetrySafety::ConditionallySafe);
    assert_eq!(blocked.recommended_next_action, "resolve preconditions and re-validate plan");
    assert!(rivora::execution_run::blocked_attempt(Vec::new()).is_none());
}
