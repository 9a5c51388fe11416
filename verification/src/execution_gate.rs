//! The gates in front of every external mutation: an execution runs only
//! for a valid actor and idempotency key, against the head revision of an
//! Execution Plan, and (live) only when that exact revision is approved, the
//! approval is valid and the central policy permits it. A repeated request
//! under the same key never runs again: it is suppressed and points at the
//! original attempt.

use vstd::prelude::*;
use crate::error::RivoraError;
use crate::execution::{
    effective_key, effective_key_spec, key_acceptable, normalize_idempotency_key, require_actor, ExecutionAttemptStatus,
    ExecutionPlanStatus, RetrySafety,
};
use crate::ids::{uuid_chars, uuid_text, ObjectId};
use crate::text::{join_seqs, join_strings, push_chars, push_str, to_string, trimmed};

verus! {

/// What the gates need to know of the Execution Plan revision, its approval
/// and the policy evaluated for it.
pub struct PlanFacts {
    pub plan_id: ObjectId,
    pub lineage_id: ObjectId,
    /// The latest revision of the plan's lineage.
    pub head_id: ObjectId,
    pub capability_id: String,
    pub target_snapshot: String,
    pub status: ExecutionPlanStatus,
    /// Why the approval is not valid for this revision now, if it is not.
    pub approval_error: Option<String>,
    pub dry_run_permitted: bool,
    pub live_execution_permitted: bool,
    /// The policy decision denies the plan outright.
    pub policy_denied: bool,
    /// The policy decision allows dry runs only.
    pub policy_dry_run_only: bool,
    pub policy_reasons: Vec<String>,
}

/// The attempt already recorded under the same effective idempotency key.
pub struct PriorAttempt {
    pub id: ObjectId,
    pub plan_id: ObjectId,
    pub capability_id: String,
    pub target_snapshot: String,
    pub dry_run: bool,
    pub status: ExecutionAttemptStatus,
    pub retry_safety: RetrySafety,
}

/// What to do with an execution request.
pub enum ExecutionDecision {
    /// Record a suppressed duplicate of `original`; nothing is invoked. When
    /// `recover_original` holds, the original attempt was interrupted and is
    /// first recorded as partially completed with an uncertain outcome.
    SuppressDuplicate { original: ObjectId, recover_original: bool, retry_safety: RetrySafety },
    /// Run the plan as a dry run under this effective key.
    DryRun { effective_key: String },
    /// Run the plan live under this effective key.
    Live { effective_key: String },
}

/// The prior attempt bound the key to another exact execution.
pub open spec fn bound_elsewhere(p: PriorAttempt, plan: PlanFacts, dry_run: bool) -> bool {
    ||| p.plan_id != plan.plan_id
    ||| p.capability_id@ != plan.capability_id@
    ||| p.target_snapshot@ != plan.target_snapshot@
    ||| p.dry_run != dry_run
}

/// The retry safety a suppressed duplicate reports: an interrupted original
/// is unsafe to retry; otherwise the original's.
pub open spec fn duplicate_safety(p: PriorAttempt) -> RetrySafety {
    if p.status == ExecutionAttemptStatus::Started { RetrySafety::Unsafe } else { p.retry_safety }
}

/// The reasons of the policy, joined.
pub open spec fn reasons_text(plan: PlanFacts) -> Seq<char> {
    join_seqs(plan.policy_reasons@.map_values(|s: String| s@), "; "@)
}

/// The actor and the key are usable.
pub open spec fn inputs_ok(actor: Seq<char>, key: Seq<char>) -> bool {
    trimmed(actor).len() > 0 && key_acceptable(trimmed(key))
}

/// The plan revision is its lineage's head.
pub open spec fn at_head(plan: PlanFacts) -> bool {
    plan.head_id == plan.plan_id
}

/// The policy forbids live execution.
pub open spec fn live_forbidden(plan: PlanFacts) -> bool {
    !plan.live_execution_permitted || plan.policy_denied || plan.policy_dry_run_only
}

/// The message of a key bound to another execution.
pub open spec fn reserved_message(p: PriorAttempt) -> Seq<char> {
    "idempotency key is already reserved by attempt "@ + uuid_text(p.id.value) + " for a different exact execution"@
}

/// The message of a plan revision that is not the head.
pub open spec fn not_head_message(plan: PlanFacts) -> Seq<char> {
    "plan "@ + uuid_text(plan.plan_id.value) + " is not the head of lineage "@ + uuid_text(plan.lineage_id.value) + " (head is "@
        + uuid_text(plan.head_id.value) + ")"@
}

fn joined_reasons(plan: &PlanFacts) -> (r: Vec<char>)
    ensures
        r@ == reasons_text(*plan),
{
    join_strings(&plan.policy_reasons, "; ")
}

fn precondition_with(prefix: &str, rest: &Vec<char>) -> (e: RivoraError)
    ensures
        e matches RivoraError::Precondition { message: m } && m@ == prefix@ + rest@,
{
    let mut out: Vec<char> = Vec::new();
    push_str(&mut out, prefix);
    push_chars(&mut out, rest);
    RivoraError::Precondition { message: to_string(&out) }
}

/// Decides an execution request for Execution Plan revision `plan` by
/// `actor` under `key` (a dry run when `dry_run`), given the attempt
/// already recorded under the same effective key, if any. The gates, in
/// order: a blank actor, then an unusable key, are validation errors; a key
/// already bound to another exact execution (plan, capability, target or
/// mode) is refused, and one bound to this execution suppresses the request
/// as a duplicate; a revision that is not its lineage's head is a validation
/// error; a dry run needs the policy's permission; a live run needs the
/// revision approved, the approval valid and the policy's permission
/// (neither denied nor dry-run only).
pub fn decide_execution(
    plan: &PlanFacts,
    prior: Option<&PriorAttempt>,
    actor: &str,
    key: &str,
    dry_run: bool,
) -> (r: Result<ExecutionDecision, RivoraError>)
    ensures
        trimmed(actor@).len() == 0 ==> (r matches Err(e) && e matches RivoraError::Validation { message: m }
            && m@ == "actor must not be empty"@),
        trimmed(actor@).len() > 0 && !key_acceptable(trimmed(key@)) ==> (r matches Err(e) && e is Validation),
        prior is Some && inputs_ok(actor@, key@) && bound_elsewhere(*prior->0, *plan, dry_run) ==> (r matches Err(e)
            && e matches RivoraError::Precondition { message: m } && m@ == reserved_message(*prior->0)),
        prior is Some && inputs_ok(actor@, key@) && !bound_elsewhere(*prior->0, *plan, dry_run) ==> (r matches Ok(
            ExecutionDecision::SuppressDuplicate { original, recover_original, retry_safety },
        ) && original == prior->0.id && recover_original == (prior->0.status == ExecutionAttemptStatus::Started) && retry_safety
            == duplicate_safety(*prior->0)),
        inputs_ok(actor@, key@) && prior is None && !at_head(*plan) ==> (r matches Err(e)
            && e matches RivoraError::Validation { message: m } && m@ == not_head_message(*plan)),
        inputs_ok(actor@, key@) && prior is None && at_head(*plan) && dry_run && plan.dry_run_permitted ==> (r matches Ok(
            ExecutionDecision::DryRun { effective_key: k },
        ) && k@ == effective_key_spec(trimmed(key@), true)),
        inputs_ok(actor@, key@) && prior is None && at_head(*plan) && dry_run && !plan.dry_run_permitted ==> (r matches Err(e)
            && e matches RivoraError::Precondition { message: m } && m@ == "dry-run not permitted: "@ + reasons_text(*plan)),
        inputs_ok(actor@, key@) && prior is None && at_head(*plan) && !dry_run && plan.status != ExecutionPlanStatus::Approved ==> (
        r matches Err(e) && e matches RivoraError::Precondition { message: m } && m@ == "live execution requires approved plan; got "@
            + plan.status.text()),
        plan.approval_error is Some && inputs_ok(actor@, key@) && prior is None && at_head(*plan) && !dry_run
            && plan.status == ExecutionPlanStatus::Approved ==> (r matches Err(e) && e matches RivoraError::Precondition { message: m }
            && m@ == plan.approval_error->0@),
        inputs_ok(actor@, key@) && prior is None && at_head(*plan) && !dry_run && plan.status == ExecutionPlanStatus::Approved
            && plan.approval_error is None && live_forbidden(*plan) ==> (r matches Err(e)
            && e matches RivoraError::Precondition { message: m } && m@ == "policy denied live execution: "@ + reasons_text(*plan)),
        inputs_ok(actor@, key@) && prior is None && at_head(*plan) && !dry_run && plan.status == ExecutionPlanStatus::Approved
            && plan.approval_error is None && !live_forbidden(*plan) ==> (r matches Ok(ExecutionDecision::Live { effective_key: k })
            && k@ == effective_key_spec(trimmed(key@), false)),
{
    let _actor = match require_actor(actor) {
        Ok(a) => a,
        Err(e) => return Err(e),
    };
    let k = match normalize_idempotency_key(key) {
        Ok(k) => k,
        Err(e) => return Err(e),
    };
    match prior {
        Some(p) => {
            let same = p.plan_id == plan.plan_id && crate::text::text_eq(
                &crate::text::chars_of(p.capability_id.as_str()),
                &crate::text::chars_of(plan.capability_id.as_str()),
            ) && crate::text::text_eq(
                &crate::text::chars_of(p.target_snapshot.as_str()),
                &crate::text::chars_of(plan.target_snapshot.as_str()),
            ) && p.dry_run == dry_run;
            if !same {
                let mut out: Vec<char> = Vec::new();
                push_str(&mut out, "idempotency key is already reserved by attempt ");
                push_chars(&mut out, &uuid_chars(p.id.value));
                push_str(&mut out, " for a different exact execution");
                return Err(RivoraError::Precondition { message: to_string(&out) });
            }
            let interrupted = p.status == ExecutionAttemptStatus::Started;
            let safety = if interrupted { RetrySafety::Unsafe } else { p.retry_safety };
            return Ok(ExecutionDecision::SuppressDuplicate { original: p.id, recover_original: interrupted, retry_safety: safety });
        },
        None => {},
    }
    if plan.head_id != plan.plan_id {
        let mut out: Vec<char> = Vec::new();
        push_str(&mut out, "plan ");
        push_chars(&mut out, &uuid_chars(plan.plan_id.value));
        push_str(&mut out, " is not the head of lineage ");
        push_chars(&mut out, &uuid_chars(plan.lineage_id.value));
        push_str(&mut out, " (head is ");
        push_chars(&mut out, &uuid_chars(plan.head_id.value));
        push_str(&mut out, ")");
        return Err(RivoraError::Validation { message: to_string(&out) });
    }
    if dry_run {
        if !plan.dry_run_permitted {
            return Err(precondition_with("dry-run not permitted: ", &joined_reasons(plan)));
        }
        return Ok(ExecutionDecision::DryRun { effective_key: effective_key(k.as_str(), true) });
    }
    if plan.status != ExecutionPlanStatus::Approved {
        let mut out: Vec<char> = Vec::new();
        push_str(&mut out, "live execution requires approved plan; got ");
        push_str(&mut out, plan.status.as_str());
        return Err(RivoraError::Precondition { message: to_string(&out) });
    }
    match &plan.approval_error {
        Some(m) => {
            return Err(RivoraError::precondition(m.as_str()));
        },
        None => {},
    }
    if !plan.live_execution_permitted || plan.policy_denied || plan.policy_dry_run_only {
        return Err(precondition_with("policy denied live execution: ", &joined_reasons(plan)));
    }
    Ok(ExecutionDecision::Live { effective_key: effective_key(k.as_str(), false) })
}


/// Whether an attempt can be verified as a live execution: a dry run cannot,
/// nor an attempt that started without finishing, was blocked, or was a
/// suppressed duplicate.
pub fn check_verifiable(dry_run: bool, status: ExecutionAttemptStatus) -> (r: Result<(), RivoraError>)
    ensures
        dry_run ==> (r matches Err(e) && e matches RivoraError::Validation { message: m }
            && m@ == "cannot verify a dry-run attempt as live execution"@),
        !dry_run && (status == ExecutionAttemptStatus::Started || status == ExecutionAttemptStatus::Blocked || status
            == ExecutionAttemptStatus::DuplicateSuppressed) ==> (r matches Err(e) && e matches RivoraError::Validation { message: m }
            && m@ == "cannot verify an attempt in status "@ + status.text()),
        !dry_run && !(status == ExecutionAttemptStatus::Started || status == ExecutionAttemptStatus::Blocked || status
            == ExecutionAttemptStatus::DuplicateSuppressed) ==> r is Ok,
{
    if dry_run {
        return Err(RivoraError::validation("cannot verify a dry-run attempt as live execution"));
    }
    match status {
        ExecutionAttemptStatus::Started | ExecutionAttemptStatus::Blocked | ExecutionAttemptStatus::DuplicateSuppressed => {
            let mut out: Vec<char> = Vec::new();
            push_str(&mut out, "cannot verify an attempt in status ");
            push_str(&mut out, status.as_str());
            Err(RivoraError::Validation { message: to_string(&out) })
        },
        _ => Ok(()),
    }
}

} // verus!
