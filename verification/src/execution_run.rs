//! Running the actions of a live attempt through a capability: each action
//! the approval authorizes is invoked under its own idempotency key until a
//! non-continuing action does not succeed; the rest are skipped.

use vstd::prelude::*;
use crate::execution::{
    action_authorized, action_key, authorized, string_texts, succeeded, unsatisfied_messages, unsatisfied_preconditions,
    ActionAuthority, AttemptProgress, CapabilityExecutionStatus, ExecutionAction, ExecutionPrecondition, RetrySafety,
};

verus! {

/// What one capability invocation reported.
pub struct AdapterReport {
    pub status: CapabilityExecutionStatus,
    pub error: Option<String>,
    pub rollback_available: bool,
}

/// A capability that performs plan actions against an external system.
/// Implementations belong to the connectors; nothing is assumed of what
/// they report.
pub trait ActionInvoker {
    /// Performs `action` under `action_key`, or reports why it could not.
    fn invoke(&mut self, action: &ExecutionAction, action_key: &str) -> Result<AdapterReport, String>;

    /// Checks, without changing anything, that `action` could run under
    /// `action_key`, or says what blocks it.
    fn validate_preconditions(&mut self, action: &ExecutionAction, action_key: &str) -> Result<(), String>;
}

/// What happened to an action: 0 completed, 1 failed, 2 uncertain,
/// 3 skipped.
pub open spec fn fate_ok(f: int) -> bool {
    0 <= f <= 3
}

/// The identifiers of the first `n` actions whose fate is `k`, in order.
pub open spec fn ids_with_fate(actions: Seq<ExecutionAction>, fates: Seq<int>, k: int, n: int) -> Seq<Seq<char>>
    decreases n,
{
    if n <= 0 {
        seq![]
    } else {
        ids_with_fate(actions, fates, k, n - 1) + if fates[n - 1] == k { seq![actions[n - 1].action_id@] } else { seq![] }
    }
}

/// Some action before `i` did not succeed and may not be continued past.
pub open spec fn stopped_before(actions: Seq<ExecutionAction>, fates: Seq<int>, i: int) -> bool {
    exists|j: int| 0 <= j < i && (#[trigger] fates[j]) != 0 && fates[j] != 3 && !actions[j].continue_on_failure
}

/// The fates of the actions explain the progress: the four lists hold the
/// actions of each fate in plan order, and an action is skipped exactly
/// when the approval does not authorize it or an earlier action stopped
/// the attempt.
pub open spec fn ran_as(p: AttemptProgress, actions: Seq<ExecutionAction>, authority: ActionAuthority, fates: Seq<int>) -> bool {
    &&& fates.len() == actions.len()
    &&& forall|i: int| 0 <= i < fates.len() ==> fate_ok(#[trigger] fates[i])
    &&& string_texts(p.completed_actions@) == ids_with_fate(actions, fates, 0, actions.len() as int)
    &&& string_texts(p.failed_actions@) == ids_with_fate(actions, fates, 1, actions.len() as int)
    &&& string_texts(p.uncertain_actions@) == ids_with_fate(actions, fates, 2, actions.len() as int)
    &&& string_texts(p.skipped_actions@) == ids_with_fate(actions, fates, 3, actions.len() as int)
    &&& forall|i: int| 0 <= i < fates.len() ==> ((#[trigger] fates[i] == 3) <==> (!authorized(authority, actions[i].action_id@)
        || stopped_before(actions, fates, i)))
}

/// Runs the actions of a live attempt under `effective_key`: each action is
/// invoked with the key `<effective key>;action=<action id>` unless the
/// approval does not authorize it or the attempt has stopped, in which case
/// it is skipped; every action lands in exactly one of the completed,
/// failed, uncertain and skipped lists, in plan order.
#[verifier::rlimit(40)]
pub fn run_actions<C: ActionInvoker>(
    capability: &mut C,
    actions: &Vec<ExecutionAction>,
    authority: &ActionAuthority,
    effective_key: &str,
) -> (p: AttemptProgress)
    ensures
        p.wf(),
        exists|fates: Seq<int>| ran_as(p, actions@, *authority, fates),
{
    let mut progress = AttemptProgress::new();
    let ghost mut fates: Seq<int> = seq![];
    let mut i: usize = 0;
    while i < actions.len()
        invariant
            i <= actions@.len(),
            progress.wf(),
            fates.len() == i,
            forall|q: int| 0 <= q < i ==> fate_ok(#[trigger] fates[q]),
            string_texts(progress.completed_actions@) == ids_with_fate(actions@, fates, 0, i as int),
            string_texts(progress.failed_actions@) == ids_with_fate(actions@, fates, 1, i as int),
            string_texts(progress.uncertain_actions@) == ids_with_fate(actions@, fates, 2, i as int),
            string_texts(progress.skipped_actions@) == ids_with_fate(actions@, fates, 3, i as int),
            progress.stop == stopped_before(actions@, fates, i as int),
            forall|q: int| 0 <= q < i ==> ((#[trigger] fates[q] == 3) <==> (!authorized(*authority, actions@[q].action_id@)
                || stopped_before(actions@, fates, q))),
        decreases actions.len() - i,
    {
        let action = &actions[i];
        let ghost before = fates;
        let ghost fate: int;
        if progress.stop || !action_authorized(authority, action.action_id.as_str()) {
            progress.skip(action);
            proof {
                fate = 3;
            }
        } else {
            let key = action_key(effective_key, action.action_id.as_str());
            match capability.invoke(action, key.as_str()) {
                Ok(report) => {
                    let status = report.status;
                    progress.record_result(action, status, report.error, report.rollback_available);
                    proof {
                        fate = if succeeded(status) {
                            0
                        } else if status == CapabilityExecutionStatus::Failed {
                            1
                        } else {
                            2
                        };
                    }
                },
                Err(e) => {
                    progress.record_adapter_error(action, e);
                    proof {
                        fate = 2;
                    }
                },
            }
        }
        proof {
            fates = before.push(fate);
            assert forall|q: int| 0 <= q < i implies #[trigger] fates[q] == before[q] by {}
            assert forall|k: int| 0 <= k <= 3 implies ids_with_fate(actions@, fates, k, i as int) == ids_with_fate(actions@, before, k, i as int) by {
                lemma_ids_prefix(actions@, fates, before, k, i as int);
            }
            assert(stopped_before(actions@, fates, i as int) == stopped_before(actions@, before, i as int)) by {
                if stopped_before(actions@, before, i as int) {
                    let j = choose|j: int| 0 <= j < i && (#[trigger] before[j]) != 0 && before[j] != 3 && !actions@[j].continue_on_failure;
                    assert(fates[j] == before[j]);
                }
                if stopped_before(actions@, fates, i as int) {
                    let j = choose|j: int| 0 <= j < i && (#[trigger] fates[j]) != 0 && fates[j] != 3 && !actions@[j].continue_on_failure;
                    assert(fates[j] == before[j]);
                }
            }
            assert(stopped_before(actions@, fates, i + 1) == (stopped_before(actions@, fates, i as int) || (fate != 0 && fate != 3
                && !actions@[i as int].continue_on_failure))) by {
                if stopped_before(actions@, fates, i + 1) {
                    let j = choose|j: int| 0 <= j < i + 1 && (#[trigger] fates[j]) != 0 && fates[j] != 3 && !actions@[j].continue_on_failure;
                    if j < i {
                        assert(stopped_before(actions@, fates, i as int));
                    }
                }
                if fate != 0 && fate != 3 && !actions@[i as int].continue_on_failure {
                    assert(fates[i as int] == fate);
                }
            }
            assert forall|q: int| 0 <= q < i + 1 implies ((#[trigger] fates[q] == 3) <==> (!authorized(*authority, actions@[q].action_id@)
                || stopped_before(actions@, fates, q))) by {
                if q < i {
                    assert(fates[q] == before[q]);
                    assert(stopped_before(actions@, fates, q) == stopped_before(actions@, before, q)) by {
                        if stopped_before(actions@, before, q) {
                            let j = choose|j: int| 0 <= j < q && (#[trigger] before[j]) != 0 && before[j] != 3 && !actions@[j].continue_on_failure;
                            assert(fates[j] == before[j]);
                        }
                        if stopped_before(actions@, fates, q) {
                            let j = choose|j: int| 0 <= j < q && (#[trigger] fates[j]) != 0 && fates[j] != 3 && !actions@[j].continue_on_failure;
                            assert(fates[j] == before[j]);
                        }
                    }
                }
            }
        }
        i = i + 1;
    }
    proof {
        assert(ran_as(progress, actions@, *authority, fates));
    }
    progress
}

/// The messages of the checks that reported a blocker, in order.
pub open spec fn blockers(outs: Seq<Option<Seq<char>>>) -> Seq<Seq<char>>
    decreases outs.len(),
{
    if outs.len() == 0 {
        seq![]
    } else {
        blockers(outs.drop_last()) + match outs.last() {
            Some(m) => seq![m],
            None => seq![],
        }
    }
}

/// What blocks a live attempt before anything runs: the message of every
/// plan precondition not known to be satisfied, then what the capability's
/// check reported for each action the approval authorizes (checked in plan
/// order under the action's own idempotency key). `outs[i]` is the report
/// for action `i`; an action that is not authorized is not checked.
pub fn blocking_errors<C: ActionInvoker>(
    capability: &mut C,
    preconditions: &Vec<ExecutionPrecondition>,
    actions: &Vec<ExecutionAction>,
    authority: &ActionAuthority,
    effective_key: &str,
) -> (r: Vec<String>)
    ensures
        exists|outs: Seq<Option<Seq<char>>>| {
            &&& outs.len() == actions@.len()
            &&& forall|i: int| 0 <= i < outs.len() && !authorized(*authority, (#[trigger] actions@[i]).action_id@) ==> outs[i] is None
            &&& string_texts(r@) == unsatisfied_messages(preconditions@) + blockers(outs)
        },
{
    let mut r = unsatisfied_preconditions(preconditions);
    let ghost head = string_texts(r@);
    let ghost mut outs: Seq<Option<Seq<char>>> = seq![];
    let mut i: usize = 0;
    while i < actions.len()
        invariant
            i <= actions@.len(),
            outs.len() == i,
            head == unsatisfied_messages(preconditions@),
            forall|q: int| 0 <= q < i && !authorized(*authority, (#[trigger] actions@[q]).action_id@) ==> outs[q] is None,
            string_texts(r@) == head + blockers(outs),
        decreases actions.len() - i,
    {
        let action = &actions[i];
        let ghost before = outs;
        let ghost out: Option<Seq<char>> = None;
        if action_authorized(authority, action.action_id.as_str()) {
            let key = action_key(effective_key, action.action_id.as_str());
            match capability.validate_preconditions(action, key.as_str()) {
                Ok(()) => {},
                Err(e) => {
                    proof {
                        out = Some(e@);
                    }
                    let ghost prev = string_texts(r@);
                    r.push(e);
                    assert(string_texts(r@) =~= prev.push(out->0));
                },
            }
        }
        proof {
            outs = before.push(out);
            assert(outs.drop_last() =~= before);
            assert forall|q: int| 0 <= q < i implies #[trigger] outs[q] == before[q] by {}
            assert(head + blockers(outs) =~= (head + blockers(before)) + match out { Some(m) => seq![m], None => seq![] });
        }
        i = i + 1;
    }
    r
}

/// A live attempt that preconditions block: it ends `Blocked` with these
/// errors, may be retried once they are resolved, and says what to do.
pub struct BlockedAttempt {
    pub errors: Vec<String>,
    pub retry_safety: RetrySafety,
    pub recommended_next_action: String,
}

/// The blocked attempt for `errors`, or `None` when nothing blocks.
pub fn blocked_attempt(errors: Vec<String>) -> (r: Option<BlockedAttempt>)
    ensures
        r is None <==> errors@.len() == 0,
        r matches Some(b) ==> {
            &&& b.errors@ == errors@
            &&& b.retry_safety == RetrySafety::ConditionallySafe
            &&& b.recommended_next_action@ == "resolve preconditions and re-validate plan"@
        },
{
    if errors.len() == 0 {
        return None;
    }
    Some(BlockedAttempt {
        errors,
        retry_safety: RetrySafety::ConditionallySafe,
        recommended_next_action: "resolve preconditions and re-validate plan".to_owned(),
    })
}

/// Identifiers by fate depend only on the fates of the actions counted.
proof fn lemma_ids_prefix(actions: Seq<ExecutionAction>, f: Seq<int>, g: Seq<int>, k: int, n: int)
    requires
        0 <= n <= f.len(),
        n <= g.len(),
        forall|q: int| 0 <= q < n ==> f[q] == g[q],
    ensures
        ids_with_fate(actions, f, k, n) == ids_with_fate(actions, g, k, n),
    decreases n,
{
    if n > 0 {
        lemma_ids_prefix(actions, f, g, k, n - 1);
    }
}

} // verus!
