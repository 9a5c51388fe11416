//! Controlled external execution: the decisions taken around each
//! capability invocation, and how an attempt's outcome is classified.

use vstd::prelude::*;
use crate::error::RivoraError;
use crate::graph::utf8_len_at_least;
use crate::text::{chars_of, control, is_control, push_str, to_string, trim_chars, trimmed, utf8_len_seq};

verus! {

/// Lifecycle status of an Execution Attempt.
#[derive(Clone, Copy, PartialEq, Eq, Debug, Structural)]
pub enum ExecutionAttemptStatus {
    Started,
    Completed,
    PartiallyCompleted,
    Failed,
    Blocked,
    DuplicateSuppressed,
}

impl ExecutionAttemptStatus {
    /// Stable string form.
    pub open spec fn text(self) -> Seq<char> {
        match self {
            ExecutionAttemptStatus::Started => "started"@,
            ExecutionAttemptStatus::Completed => "completed"@,
            ExecutionAttemptStatus::PartiallyCompleted => "partially_completed"@,
            ExecutionAttemptStatus::Failed => "failed"@,
            ExecutionAttemptStatus::Blocked => "blocked"@,
            ExecutionAttemptStatus::DuplicateSuppressed => "duplicate_suppressed"@,
        }
    }

    /// Stable string form.
    pub fn as_str(self) -> (r: &'static str)
        ensures
            r@ == self.text(),
    {
        match self {
            ExecutionAttemptStatus::Started => "started",
            ExecutionAttemptStatus::Completed => "completed",
            ExecutionAttemptStatus::PartiallyCompleted => "partially_completed",
            ExecutionAttemptStatus::Failed => "failed",
            ExecutionAttemptStatus::Blocked => "blocked",
            ExecutionAttemptStatus::DuplicateSuppressed => "duplicate_suppressed",
        }
    }
}

/// Whether repeating an attempt is safe.
#[derive(Clone, Copy, PartialEq, Eq, Debug, Structural)]
pub enum RetrySafety {
    Safe,
    ConditionallySafe,
    Unsafe,
    Unknown,
}

/// Lifecycle status of an Execution Plan.
#[derive(Clone, Copy, PartialEq, Eq, Debug, Structural)]
pub enum ExecutionPlanStatus {
    Draft,
    Validated,
    Approved,
    Rejected,
    Executing,
    Executed,
    PartiallyExecuted,
    Failed,
    Verified,
    Closed,
    Cancelled,
}

impl ExecutionPlanStatus {
    /// Stable string form.
    pub open spec fn text(self) -> Seq<char> {
        match self {
            ExecutionPlanStatus::Draft => "draft"@,
            ExecutionPlanStatus::Validated => "validated"@,
            ExecutionPlanStatus::Approved => "approved"@,
            ExecutionPlanStatus::Rejected => "rejected"@,
            ExecutionPlanStatus::Executing => "executing"@,
            ExecutionPlanStatus::Executed => "executed"@,
            ExecutionPlanStatus::PartiallyExecuted => "partially_executed"@,
            ExecutionPlanStatus::Failed => "failed"@,
            ExecutionPlanStatus::Verified => "verified"@,
            ExecutionPlanStatus::Closed => "closed"@,
            ExecutionPlanStatus::Cancelled => "cancelled"@,
        }
    }

    /// Stable string form.
    pub fn as_str(self) -> (r: &'static str)
        ensures
            r@ == self.text(),
    {
        match self {
            ExecutionPlanStatus::Draft => "draft",
            ExecutionPlanStatus::Validated => "validated",
            ExecutionPlanStatus::Approved => "approved",
            ExecutionPlanStatus::Rejected => "rejected",
            ExecutionPlanStatus::Executing => "executing",
            ExecutionPlanStatus::Executed => "executed",
            ExecutionPlanStatus::PartiallyExecuted => "partially_executed",
            ExecutionPlanStatus::Failed => "failed",
            ExecutionPlanStatus::Verified => "verified",
            ExecutionPlanStatus::Closed => "closed",
            ExecutionPlanStatus::Cancelled => "cancelled",
        }
    }
}

/// What a capability adapter reported for one invocation.
#[derive(Clone, Copy, PartialEq, Eq, Debug, Structural)]
pub enum CapabilityExecutionStatus {
    Success,
    Partial,
    Uncertain,
    Failed,
    DuplicateSuppressed,
}

/// The result recorded on an Execution Receipt.
#[derive(Clone, Copy, PartialEq, Eq, Debug, Structural)]
pub enum ExecutionReceiptResult {
    Success,
    Partial,
    Uncertain,
    Failed,
}

/// Outcome of independently verifying an attempt.
#[derive(Clone, Copy, PartialEq, Eq, Debug, Structural)]
pub enum ExecutionVerificationStatus {
    Passed,
    Failed,
    Inconclusive,
}

/// One ordered action of an Execution Plan.
pub struct ExecutionAction {
    pub action_id: String,
    pub action_name: String,
    /// Keep going with later actions when this one does not succeed.
    pub continue_on_failure: bool,
}

/// A precondition of an Execution Plan.
pub struct ExecutionPrecondition {
    pub id: String,
    pub description: String,
    /// `Some(true)` once checked and satisfied.
    pub satisfied: Option<bool>,
    pub detail: Option<String>,
}

/// Which actions an approval authorizes.
pub struct ActionAuthority {
    /// When non-empty, only these actions are approved.
    pub approved_actions: Vec<String>,
    /// These actions are never run.
    pub denied_actions: Vec<String>,
}

/// The texts of a list of strings.
pub open spec fn string_texts(v: Seq<String>) -> Seq<Seq<char>> {
    v.map_values(|s: String| s@)
}

/// A trimmed, non-blank text, or a validation error carrying `message`.
fn require_nonblank(value: &str, message: &str) -> (r: Result<String, RivoraError>)
    ensures
        trimmed(value@).len() == 0 <==> r is Err,
        r matches Ok(s) ==> s@ == trimmed(value@),
        r matches Err(e) ==> e matches RivoraError::Validation { message: m } && m@ == message@,
{
    let t = trim_chars(&chars_of(value));
    if t.len() == 0 {
        Err(RivoraError::validation(message))
    } else {
        Ok(to_string(&t))
    }
}

/// The trimmed actor; a blank actor is a validation error.
pub fn require_actor(actor: &str) -> (r: Result<String, RivoraError>)
    ensures
        trimmed(actor@).len() == 0 <==> r is Err,
        r matches Ok(s) ==> s@ == trimmed(actor@),
        r matches Err(e) ==> e matches RivoraError::Validation { message: m } && m@ == "actor must not be empty"@,
{
    require_nonblank(actor, "actor must not be empty")
}

/// The trimmed reason; a blank reason is a validation error.
pub fn require_reason(reason: &str) -> (r: Result<String, RivoraError>)
    ensures
        trimmed(reason@).len() == 0 <==> r is Err,
        r matches Ok(s) ==> s@ == trimmed(reason@),
        r matches Err(e) ==> e matches RivoraError::Validation { message: m } && m@ == "reason must not be empty"@,
{
    require_nonblank(reason, "reason must not be empty")
}

/// An idempotency key is usable: non-empty, at most 256 bytes, and free of
/// control characters (after trimming).
pub open spec fn key_acceptable(k: Seq<char>) -> bool {
    &&& k.len() > 0
    &&& utf8_len_seq(k) <= 256
    &&& forall|i: int| 0 <= i < k.len() ==> !control(#[trigger] k[i])
}

/// The trimmed idempotency key, or a validation error when it is empty,
/// longer than 256 bytes, or holds a control character.
pub fn normalize_idempotency_key(raw: &str) -> (r: Result<String, RivoraError>)
    ensures
        key_acceptable(trimmed(raw@)) <==> r is Ok,
        r matches Ok(s) ==> s@ == trimmed(raw@),
        r matches Err(e) ==> e is Validation,
{
    let k = trim_chars(&chars_of(raw));
    let mut clean = true;
    let mut i: usize = 0;
    while i < k.len()
        invariant
            i <= k@.len(),
            clean == forall|q: int| 0 <= q < i ==> !control(#[trigger] k@[q]),
        decreases k.len() - i,
    {
        if is_control(k[i]) {
            clean = false;
        }
        i = i + 1;
    }
    if k.len() == 0 || utf8_len_at_least(&k, 257) || !clean {
        return Err(RivoraError::validation("idempotency_key must be a non-empty bounded printable value"));
    }
    Ok(to_string(&k))
}

/// The key that binds an execution to its mode.
pub open spec fn effective_key_spec(key: Seq<char>, dry_run: bool) -> Seq<char> {
    "mode="@ + (if dry_run { "dry_run"@ } else { "live"@ }) + ";key="@ + key
}

/// `mode=<dry_run|live>;key=<key>`.
pub fn effective_key(key: &str, dry_run: bool) -> (r: String)
    ensures
        r@ == effective_key_spec(key@, dry_run),
{
    let mut out: Vec<char> = Vec::new();
    push_str(&mut out, "mode=");
    if dry_run {
        push_str(&mut out, "dry_run");
    } else {
        push_str(&mut out, "live");
    }
    push_str(&mut out, ";key=");
    push_str(&mut out, key);
    to_string(&out)
}

/// The per-action idempotency key: `<effective key>;action=<action id>`.
pub fn action_key(effective: &str, action_id: &str) -> (r: String)
    ensures
        r@ == effective@ + ";action="@ + action_id@,
{
    let mut out: Vec<char> = Vec::new();
    push_str(&mut out, effective);
    push_str(&mut out, ";action=");
    push_str(&mut out, action_id);
    to_string(&out)
}

/// `id` is one of `names`.
pub open spec fn listed(names: Seq<String>, id: Seq<char>) -> bool {
    exists|i: int| 0 <= i < names.len() && (#[trigger] names[i])@ == id
}

/// Whether `id` is one of `names` (exec).
fn is_listed(names: &Vec<String>, id: &str) -> (b: bool)
    ensures
        b == listed(names@, id@),
{
    let target = chars_of(id);
    let mut i: usize = 0;
    while i < names.len()
        invariant
            i <= names@.len(),
            target@ == id@,
            forall|q: int| 0 <= q < i ==> (#[trigger] names@[q])@ != id@,
        decreases names.len() - i,
    {
        let name = chars_of(names[i].as_str());
        if crate::text::text_eq(&name, &target) {
            return true;
        }
        i = i + 1;
    }
    false
}

/// The approval authorizes the action: it is approved (or no explicit
/// approval list was given) and not denied.
pub open spec fn authorized(authority: ActionAuthority, action_id: Seq<char>) -> bool {
    (authority.approved_actions@.len() == 0 || listed(authority.approved_actions@, action_id))
        && !listed(authority.denied_actions@, action_id)
}

/// Whether the approval authorizes the action.
pub fn action_authorized(authority: &ActionAuthority, action_id: &str) -> (b: bool)
    ensures
        b == authorized(*authority, action_id@),
{
    (authority.approved_actions.len() == 0 || is_listed(&authority.approved_actions, action_id))
        && !is_listed(&authority.denied_actions, action_id)
}

/// The message for an unsatisfied precondition.
pub open spec fn precondition_message(p: ExecutionPrecondition) -> Seq<char> {
    "precondition "@ + p.id@ + ": "@ + match p.detail {
        Some(d) => d@,
        None => p.description@,
    }
}

/// Messages of the preconditions not known to be satisfied, in order.
pub open spec fn unsatisfied_messages(ps: Seq<ExecutionPrecondition>) -> Seq<Seq<char>>
    decreases ps.len(),
{
    if ps.len() == 0 {
        Seq::empty()
    } else {
        let prev = unsatisfied_messages(ps.drop_last());
        if ps.last().satisfied == Some(true) {
            prev
        } else {
            prev.push(precondition_message(ps.last()))
        }
    }
}

/// The blocking messages of the preconditions not known to be satisfied.
pub fn unsatisfied_preconditions(ps: &Vec<ExecutionPrecondition>) -> (r: Vec<String>)
    ensures
        string_texts(r@) == unsatisfied_messages(ps@),
{
    let mut r: Vec<String> = Vec::new();
    let mut i: usize = 0;
    while i < ps.len()
        invariant
            i <= ps@.len(),
            string_texts(r@) == unsatisfied_messages(ps@.subrange(0, i as int)),
        decreases ps.len() - i,
    {
        assert(ps@.subrange(0, i + 1).drop_last() =~= ps@.subrange(0, i as int));
        assert(ps@.subrange(0, i + 1).last() == ps@[i as int]);
        let p = &ps[i];
        let satisfied = match p.satisfied {
            Some(b) => b,
            None => false,
        };
        if !satisfied {
            let mut out: Vec<char> = Vec::new();
            push_str(&mut out, "precondition ");
            push_str(&mut out, p.id.as_str());
            push_str(&mut out, ": ");
            match &p.detail {
                Some(d) => push_str(&mut out, d.as_str()),
                None => push_str(&mut out, p.description.as_str()),
            }
            let ghost before = string_texts(r@);
            r.push(to_string(&out));
            assert(string_texts(r@) =~= before.push(out@));
        }
        i = i + 1;
    }
    assert(ps@.subrange(0, ps@.len() as int) =~= ps@);
    r
}

/// The receipt result for an adapter status.
pub open spec fn receipt_result_spec(s: CapabilityExecutionStatus) -> ExecutionReceiptResult {
    match s {
        CapabilityExecutionStatus::Success | CapabilityExecutionStatus::DuplicateSuppressed => ExecutionReceiptResult::Success,
        CapabilityExecutionStatus::Partial => ExecutionReceiptResult::Partial,
        CapabilityExecutionStatus::Uncertain => ExecutionReceiptResult::Uncertain,
        CapabilityExecutionStatus::Failed => ExecutionReceiptResult::Failed,
    }
}

/// The receipt result for an adapter status.
pub fn receipt_result(s: CapabilityExecutionStatus) -> (r: ExecutionReceiptResult)
    ensures
        r == receipt_result_spec(s),
{
    match s {
        CapabilityExecutionStatus::Success | CapabilityExecutionStatus::DuplicateSuppressed => ExecutionReceiptResult::Success,
        CapabilityExecutionStatus::Partial => ExecutionReceiptResult::Partial,
        CapabilityExecutionStatus::Uncertain => ExecutionReceiptResult::Uncertain,
        CapabilityExecutionStatus::Failed => ExecutionReceiptResult::Failed,
    }
}

/// The adapter reported success.
pub open spec fn succeeded(s: CapabilityExecutionStatus) -> bool {
    s == CapabilityExecutionStatus::Success || s == CapabilityExecutionStatus::DuplicateSuppressed
}

/// What happened to each action of a live attempt so far.
pub struct AttemptProgress {
    pub completed_actions: Vec<String>,
    pub failed_actions: Vec<String>,
    pub uncertain_actions: Vec<String>,
    pub skipped_actions: Vec<String>,
    pub errors: Vec<String>,
    pub any_success: bool,
    pub any_failure: bool,
    pub any_uncertain: bool,
    /// A non-continuing action did not succeed: later actions are skipped.
    pub stop: bool,
    pub rollback_available: bool,
}

impl AttemptProgress {
    /// Every action handled so far was recorded in exactly one list, and the
    /// flags say which lists are non-empty.
    pub open spec fn wf(self) -> bool {
        &&& self.any_success == (self.completed_actions@.len() > 0)
        &&& self.any_failure == (self.failed_actions@.len() > 0)
        &&& self.any_uncertain == (self.uncertain_actions@.len() > 0)
    }

    /// Number of actions handled.
    pub open spec fn handled(self) -> nat {
        self.completed_actions@.len() + self.failed_actions@.len() + self.uncertain_actions@.len()
            + self.skipped_actions@.len()
    }

    /// Nothing handled yet.
    pub fn new() -> (p: AttemptProgress)
        ensures
            p.wf(),
            p.handled() == 0,
            !p.stop,
            !p.rollback_available,
            p.errors@.len() == 0,
    {
        AttemptProgress {
            completed_actions: Vec::new(),
            failed_actions: Vec::new(),
            uncertain_actions: Vec::new(),
            skipped_actions: Vec::new(),
            errors: Vec::new(),
            any_success: false,
            any_failure: false,
            any_uncertain: false,
            stop: false,
            rollback_available: false,
        }
    }

    /// Whether `action` is to be invoked: nothing has stopped the attempt
    /// and the approval authorizes it.
    pub fn should_invoke(&self, authority: &ActionAuthority, action: &ExecutionAction) -> (b: bool)
        ensures
            b == (!self.stop && authorized(*authority, action.action_id@)),
    {
        !self.stop && action_authorized(authority, action.action_id.as_str())
    }

    /// Records that `action` was not invoked.
    pub fn skip(&mut self, action: &ExecutionAction)
        requires
            old(self).wf(),
        ensures
            final(self).wf(),
            final(self).handled() == old(self).handled() + 1,
            string_texts(final(self).skipped_actions@) == string_texts(old(self).skipped_actions@).push(action.action_id@),
            final(self).completed_actions == old(self).completed_actions,
            final(self).failed_actions == old(self).failed_actions,
            final(self).uncertain_actions == old(self).uncertain_actions,
            final(self).errors == old(self).errors,
            final(self).stop == old(self).stop,
            final(self).rollback_available == old(self).rollback_available,
    {
        let ghost before = string_texts(self.skipped_actions@);
        self.skipped_actions.push(action.action_id.clone());
        assert(string_texts(self.skipped_actions@) =~= before.push(action.action_id@));
    }

    /// Records what the adapter reported for an invoked action: success
    /// completes it (and may make rollback available), failure fails it,
    /// partial or uncertain outcomes leave it uncertain; any error text is
    /// kept; a non-continuing action that did not succeed stops the attempt.
    pub fn record_result(&mut self, action: &ExecutionAction, status: CapabilityExecutionStatus, error: Option<String>, rollback: bool)
        requires
            old(self).wf(),
        ensures
            final(self).wf(),
            final(self).handled() == old(self).handled() + 1,
            succeeded(status) ==> string_texts(final(self).completed_actions@) == string_texts(old(self).completed_actions@).push(action.action_id@),
            status == CapabilityExecutionStatus::Failed ==> string_texts(final(self).failed_actions@) == string_texts(old(self).failed_actions@).push(action.action_id@),
            (status == CapabilityExecutionStatus::Partial || status == CapabilityExecutionStatus::Uncertain)
                ==> string_texts(final(self).uncertain_actions@) == string_texts(old(self).uncertain_actions@).push(action.action_id@),
            final(self).skipped_actions == old(self).skipped_actions,
            !succeeded(status) ==> final(self).completed_actions == old(self).completed_actions,
            status != CapabilityExecutionStatus::Failed ==> final(self).failed_actions == old(self).failed_actions,
            !(status == CapabilityExecutionStatus::Partial || status == CapabilityExecutionStatus::Uncertain)
                ==> final(self).uncertain_actions == old(self).uncertain_actions,
            string_texts(final(self).errors@) == match error {
                Some(e) => string_texts(old(self).errors@).push(e@),
                None => string_texts(old(self).errors@),
            },
            final(self).stop == (old(self).stop || (!succeeded(status) && !action.continue_on_failure)),
            final(self).rollback_available == (old(self).rollback_available || (succeeded(status) && rollback)),
    {
        let id = action.action_id.clone();
        match status {
            CapabilityExecutionStatus::Success | CapabilityExecutionStatus::DuplicateSuppressed => {
                let ghost before = string_texts(self.completed_actions@);
                self.any_success = true;
                self.completed_actions.push(id);
                assert(string_texts(self.completed_actions@) =~= before.push(action.action_id@));
                if rollback {
                    self.rollback_available = true;
                }
            },
            CapabilityExecutionStatus::Failed => {
                let ghost before = string_texts(self.failed_actions@);
                self.any_failure = true;
                self.failed_actions.push(id);
                assert(string_texts(self.failed_actions@) =~= before.push(action.action_id@));
            },
            CapabilityExecutionStatus::Partial | CapabilityExecutionStatus::Uncertain => {
                let ghost before = string_texts(self.uncertain_actions@);
                self.any_uncertain = true;
                self.uncertain_actions.push(id);
                assert(string_texts(self.uncertain_actions@) =~= before.push(action.action_id@));
            },
        }
        match error {
            Some(e) => {
                let ghost before = string_texts(self.errors@);
                let ghost ev = e@;
                self.errors.push(e);
                assert(string_texts(self.errors@) =~= before.push(ev));
            },
            None => {},
        }
        let ok = match status {
            CapabilityExecutionStatus::Success | CapabilityExecutionStatus::DuplicateSuppressed => true,
            _ => false,
        };
        if !ok && !action.continue_on_failure {
            self.stop = true;
        }
    }

    /// Records an adapter error after invocation: the outcome is uncertain,
    /// the error text is kept, and a non-continuing action stops the attempt.
    pub fn record_adapter_error(&mut self, action: &ExecutionAction, error: String)
        requires
            old(self).wf(),
        ensures
            final(self).wf(),
            final(self).handled() == old(self).handled() + 1,
            string_texts(final(self).uncertain_actions@) == string_texts(old(self).uncertain_actions@).push(action.action_id@),
            final(self).completed_actions == old(self).completed_actions,
            final(self).failed_actions == old(self).failed_actions,
            final(self).skipped_actions == old(self).skipped_actions,
            string_texts(final(self).errors@) == string_texts(old(self).errors@).push(error@),
            final(self).stop == (old(self).stop || !action.continue_on_failure),
            final(self).rollback_available == old(self).rollback_available,
    {
        let ghost before = string_texts(self.uncertain_actions@);
        self.any_uncertain = true;
        self.uncertain_actions.push(action.action_id.clone());
        assert(string_texts(self.uncertain_actions@) =~= before.push(action.action_id@));
        let ghost eb = string_texts(self.errors@);
        let ghost ev = error@;
        self.errors.push(error);
        assert(string_texts(self.errors@) =~= eb.push(ev));
        if !action.continue_on_failure {
            self.stop = true;
        }
    }
}

/// The final status of a live attempt.
pub open spec fn attempt_status_spec(any_success: bool, any_failure: bool, any_uncertain: bool, none_skipped: bool) -> ExecutionAttemptStatus {
    if any_success && !any_failure && !any_uncertain && none_skipped {
        ExecutionAttemptStatus::Completed
    } else if any_success || any_uncertain {
        ExecutionAttemptStatus::PartiallyCompleted
    } else if any_failure {
        ExecutionAttemptStatus::Failed
    } else {
        ExecutionAttemptStatus::Blocked
    }
}

/// Whether repeating an attempt that ended in `status` is safe.
pub open spec fn retry_safety_spec(any_uncertain: bool, status: ExecutionAttemptStatus) -> RetrySafety {
    if any_uncertain {
        RetrySafety::Unsafe
    } else {
        match status {
            ExecutionAttemptStatus::Completed | ExecutionAttemptStatus::DuplicateSuppressed => RetrySafety::Safe,
            ExecutionAttemptStatus::PartiallyCompleted => RetrySafety::Unsafe,
            _ => RetrySafety::Unknown,
        }
    }
}

/// The recommended next action after an attempt ended in `status`.
pub open spec fn next_action_spec(status: ExecutionAttemptStatus) -> Seq<char> {
    match status {
        ExecutionAttemptStatus::Completed => "verify_execution_attempt"@,
        ExecutionAttemptStatus::PartiallyCompleted => "inspect receipts; create new plan revision for remaining actions"@,
        ExecutionAttemptStatus::Failed => "inspect errors; do not auto-retry when retry_safety is unknown/unsafe"@,
        ExecutionAttemptStatus::Blocked => "resolve blockers and re-approve if needed"@,
        ExecutionAttemptStatus::DuplicateSuppressed => "use existing attempt and verify if needed"@,
        ExecutionAttemptStatus::Started => "wait for completion"@,
    }
}

/// The plan status after an attempt ended in `status`.
pub open spec fn plan_status_after_spec(status: ExecutionAttemptStatus) -> ExecutionPlanStatus {
    match status {
        ExecutionAttemptStatus::Completed | ExecutionAttemptStatus::DuplicateSuppressed => ExecutionPlanStatus::Executed,
        ExecutionAttemptStatus::PartiallyCompleted => ExecutionPlanStatus::PartiallyExecuted,
        _ => ExecutionPlanStatus::Failed,
    }
}

/// How a finished live attempt is classified.
pub struct AttemptConclusion {
    pub status: ExecutionAttemptStatus,
    pub retry_safety: RetrySafety,
    pub recommended_next_action: String,
    pub plan_status: ExecutionPlanStatus,
}

/// The recommended next action (exec).
fn next_action_text(status: ExecutionAttemptStatus) -> (s: String)
    ensures
        s@ == next_action_spec(status),
{
    match status {
        ExecutionAttemptStatus::Completed => "verify_execution_attempt".to_owned(),
        ExecutionAttemptStatus::PartiallyCompleted => "inspect receipts; create new plan revision for remaining actions".to_owned(),
        ExecutionAttemptStatus::Failed => "inspect errors; do not auto-retry when retry_safety is unknown/unsafe".to_owned(),
        ExecutionAttemptStatus::Blocked => "resolve blockers and re-approve if needed".to_owned(),
        ExecutionAttemptStatus::DuplicateSuppressed => "use existing attempt and verify if needed".to_owned(),
        ExecutionAttemptStatus::Started => "wait for completion".to_owned(),
    }
}

/// Classifies a finished live attempt from what happened to its actions.
pub fn conclude_attempt(progress: &AttemptProgress) -> (c: AttemptConclusion)
    requires
        progress.wf(),
    ensures
        c.status == attempt_status_spec(progress.any_success, progress.any_failure, progress.any_uncertain,
            progress.skipped_actions@.len() == 0),
        c.retry_safety == retry_safety_spec(progress.any_uncertain, c.status),
        c.recommended_next_action@ == next_action_spec(c.status),
        c.plan_status == plan_status_after_spec(c.status),
{
    let none_skipped = progress.skipped_actions.len() == 0;
    let status = if progress.any_success && !progress.any_failure && !progress.any_uncertain && none_skipped {
        ExecutionAttemptStatus::Completed
    } else if progress.any_success || progress.any_uncertain {
        ExecutionAttemptStatus::PartiallyCompleted
    } else if progress.any_failure {
        ExecutionAttemptStatus::Failed
    } else {
        ExecutionAttemptStatus::Blocked
    };
    let retry_safety = if progress.any_uncertain {
        RetrySafety::Unsafe
    } else {
        match status {
            ExecutionAttemptStatus::Completed | ExecutionAttemptStatus::DuplicateSuppressed => RetrySafety::Safe,
            ExecutionAttemptStatus::PartiallyCompleted => RetrySafety::Unsafe,
            _ => RetrySafety::Unknown,
        }
    };
    let plan_status = match status {
        ExecutionAttemptStatus::Completed | ExecutionAttemptStatus::DuplicateSuppressed => ExecutionPlanStatus::Executed,
        ExecutionAttemptStatus::PartiallyCompleted => ExecutionPlanStatus::PartiallyExecuted,
        _ => ExecutionPlanStatus::Failed,
    };
    AttemptConclusion { status, retry_safety, recommended_next_action: next_action_text(status), plan_status }
}

/// An attempt concludes `Completed` exactly when some action completed and
/// every handled action completed; an uncertain outcome never leaves a
/// retry marked safe.
pub proof fn lemma_attempt_conclusion(p: AttemptProgress)
    requires
        p.wf(),
    ensures
        attempt_status_spec(p.any_success, p.any_failure, p.any_uncertain, p.skipped_actions@.len() == 0)
            == ExecutionAttemptStatus::Completed
            <==> (p.completed_actions@.len() > 0 && p.completed_actions@.len() == p.handled()),
        p.uncertain_actions@.len() > 0 ==> retry_safety_spec(p.any_uncertain,
            attempt_status_spec(p.any_success, p.any_failure, p.any_uncertain, p.skipped_actions@.len() == 0))
            == RetrySafety::Unsafe,
        retry_safety_spec(p.any_uncertain, attempt_status_spec(p.any_success, p.any_failure, p.any_uncertain,
            p.skipped_actions@.len() == 0)) == RetrySafety::Safe ==> p.failed_actions@.len() == 0
            && p.uncertain_actions@.len() == 0 && p.skipped_actions@.len() == 0,
{
}

/// The status of an independent verification of an attempt.
pub open spec fn verification_status_spec(
    failed_actions: bool,
    contradicted: bool,
    inconclusive_receipt: bool,
    uncertain_actions: bool,
    passed: nat,
    total: nat,
) -> ExecutionVerificationStatus {
    if failed_actions || contradicted {
        ExecutionVerificationStatus::Failed
    } else if inconclusive_receipt || (uncertain_actions && passed != total) {
        ExecutionVerificationStatus::Inconclusive
    } else if passed == total {
        ExecutionVerificationStatus::Passed
    } else if passed == 0 {
        ExecutionVerificationStatus::Failed
    } else {
        ExecutionVerificationStatus::Inconclusive
    }
}

/// Classifies an independent verification: failed actions or
/// contradictions fail it; an unconfirmed receipt (without contradictions),
/// or uncertain actions with some check not passing, leave it
/// inconclusive; otherwise it passes when every check passed, fails when
/// none did, and is inconclusive in between.
pub fn verification_status(
    failed_actions: bool,
    contradicted: bool,
    inconclusive_receipt: bool,
    uncertain_actions: bool,
    passed: usize,
    total: usize,
) -> (s: ExecutionVerificationStatus)
    ensures
        s == verification_status_spec(failed_actions, contradicted, inconclusive_receipt, uncertain_actions, passed as nat, total as nat),
{
    if failed_actions || contradicted {
        ExecutionVerificationStatus::Failed
    } else if inconclusive_receipt || (uncertain_actions && passed != total) {
        ExecutionVerificationStatus::Inconclusive
    } else if passed == total {
        ExecutionVerificationStatus::Passed
    } else if passed == 0 {
        ExecutionVerificationStatus::Failed
    } else {
        ExecutionVerificationStatus::Inconclusive
    }
}

} // verus!
