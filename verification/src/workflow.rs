//! Composite Capabilities and the Assisted Workflow state machine.

use vstd::prelude::*;
use crate::assess::{owned_strings, texts};
use crate::error::RivoraError;
use crate::ids::{fresh_object_id, InvestigationId, ObjectId};
use crate::model::Provenance;
use crate::text::{chars_of, contains_seq, contains_str, decimal, push_chars, push_decimal, push_str, to_string, text_eq};

verus! {

/// An approved Composite Capability: a named sequence of Core Capabilities.
pub struct CompositeCapabilityDefinition {
    pub id: String,
    pub name: String,
    pub description: String,
    pub core_capabilities: Vec<String>,
}

/// A definition as (id, name, description, capabilities).
pub open spec fn definition_view(d: CompositeCapabilityDefinition) -> (Seq<char>, Seq<char>, Seq<char>, Seq<Seq<char>>) {
    (d.id@, d.name@, d.description@, texts(d.core_capabilities@))
}

/// The approved Composite Capability definitions, in order.
pub open spec fn approved_definitions() -> Seq<(Seq<char>, Seq<char>, Seq<char>, Seq<Seq<char>>)> {
    seq![
        ("investigate_engineering_problem"@, "Investigate Engineering Problem"@,
            "Recall, understand, evaluate, verify, and recommend for an Investigation."@,
            seq!["recall_memory"@, "derive_knowledge"@, "find_similar_investigations"@, "suggest_recalled_context"@,
                "evaluate_investigation"@, "verify_all"@, "generate_recommendation"@, "summarize_investigation_state"@]),
        ("assess_deployment_readiness"@, "Assess Deployment Readiness"@,
            "Assess whether evidence supports proceed, hold, or inspect."@,
            seq!["recall_memory"@, "derive_knowledge"@, "evaluate_investigation"@, "verify_all"@,
                "assess_deployment_readiness"@, "forecast_risk"@, "generate_recommendation"@, "generate_engineering_report"@]),
        ("explain_failure"@, "Explain Failure"@,
            "Generate ranked hypotheses and next verification for a failure."@,
            seq!["recall_memory"@, "derive_knowledge"@, "find_similar_investigations"@, "generate_hypotheses"@,
                "evaluate_investigation"@, "recommend_next_verification"@, "generate_root_cause_guidance"@,
                "summarize_investigation_state"@]),
        ("propose_engineering_improvement"@, "Propose Engineering Improvement"@,
            "Read existing evidence, generate bounded alternatives, compare them, and summarize ranking without accepting or applying a Proposal."@,
            seq!["recall_proposal_inputs"@, "generate_improvement_proposals"@, "compare_improvement_proposals"@,
                "summarize_proposal_ranking"@]),
    ]
}

/// One definition from literals.
fn definition(id: &str, name: &str, description: &str, caps: Vec<&str>) -> (d: CompositeCapabilityDefinition)
    ensures
        definition_view(d) == (id@, name@, description@, caps@.map_values(|s: &str| s@)),
{
    CompositeCapabilityDefinition {
        id: id.to_owned(),
        name: name.to_owned(),
        description: description.to_owned(),
        core_capabilities: owned_strings(caps),
    }
}

/// The approved Composite Capability definitions.
pub fn composite_definitions() -> (defs: Vec<CompositeCapabilityDefinition>)
    ensures
        defs@.map_values(|d: CompositeCapabilityDefinition| definition_view(d)) == approved_definitions(),
{
    let mut defs: Vec<CompositeCapabilityDefinition> = Vec::new();
    let d0 = definition(
        "investigate_engineering_problem",
        "Investigate Engineering Problem",
        "Recall, understand, evaluate, verify, and recommend for an Investigation.",
        vec!["recall_memory", "derive_knowledge", "find_similar_investigations", "suggest_recalled_context",
            "evaluate_investigation", "verify_all", "generate_recommendation", "summarize_investigation_state"],
    );
    let d1 = definition(
        "assess_deployment_readiness",
        "Assess Deployment Readiness",
        "Assess whether evidence supports proceed, hold, or inspect.",
        vec!["recall_memory", "derive_knowledge", "evaluate_investigation", "verify_all",
            "assess_deployment_readiness", "forecast_risk", "generate_recommendation", "generate_engineering_report"],
    );
    let d2 = definition(
        "explain_failure",
        "Explain Failure",
        "Generate ranked hypotheses and next verification for a failure.",
        vec!["recall_memory", "derive_knowledge", "find_similar_investigations", "generate_hypotheses",
            "evaluate_investigation", "recommend_next_verification", "generate_root_cause_guidance",
            "summarize_investigation_state"],
    );
    let d3 = definition(
        "propose_engineering_improvement",
        "Propose Engineering Improvement",
        "Read existing evidence, generate bounded alternatives, compare them, and summarize ranking without accepting or applying a Proposal.",
        vec!["recall_proposal_inputs", "generate_improvement_proposals", "compare_improvement_proposals",
            "summarize_proposal_ranking"],
    );
    assert(definition_view(d0) == approved_definitions()[0]);
    assert(definition_view(d1) == approved_definitions()[1]);
    assert(definition_view(d2) == approved_definitions()[2]);
    assert(definition_view(d3) == approved_definitions()[3]);
    defs.push(d0);
    defs.push(d1);
    defs.push(d2);
    defs.push(d3);
    assert(defs@.map_values(|d: CompositeCapabilityDefinition| definition_view(d)) =~= approved_definitions());
    defs
}

/// Status of an Assisted Workflow.
#[derive(Clone, Copy, PartialEq, Eq, Debug, Structural)]
pub enum WorkflowStatus {
    Planned,
    Running,
    PartiallyCompleted,
    Completed,
    Failed,
    Cancelled,
}

impl WorkflowStatus {
    /// Stable string form.
    pub open spec fn text(self) -> Seq<char> {
        match self {
            WorkflowStatus::Planned => "planned"@,
            WorkflowStatus::Running => "running"@,
            WorkflowStatus::PartiallyCompleted => "partially_completed"@,
            WorkflowStatus::Completed => "completed"@,
            WorkflowStatus::Failed => "failed"@,
            WorkflowStatus::Cancelled => "cancelled"@,
        }
    }

    /// Stable string form.
    pub fn as_str(self) -> (r: &'static str)
        ensures
            r@ == self.text(),
    {
        match self {
            WorkflowStatus::Planned => "planned",
            WorkflowStatus::Running => "running",
            WorkflowStatus::PartiallyCompleted => "partially_completed",
            WorkflowStatus::Completed => "completed",
            WorkflowStatus::Failed => "failed",
            WorkflowStatus::Cancelled => "cancelled",
        }
    }
}

/// Status of one workflow step.
#[derive(Clone, Copy, PartialEq, Eq, Debug, Structural)]
pub enum WorkflowStepStatus {
    Planned,
    Running,
    Completed,
    Failed,
    Skipped,
    Cancelled,
}

impl WorkflowStepStatus {
    /// Stable string form.
    pub open spec fn text(self) -> Seq<char> {
        match self {
            WorkflowStepStatus::Planned => "planned"@,
            WorkflowStepStatus::Running => "running"@,
            WorkflowStepStatus::Completed => "completed"@,
            WorkflowStepStatus::Failed => "failed"@,
            WorkflowStepStatus::Skipped => "skipped"@,
            WorkflowStepStatus::Cancelled => "cancelled"@,
        }
    }

    /// Stable string form.
    pub fn as_str(self) -> (r: &'static str)
        ensures
            r@ == self.text(),
    {
        match self {
            WorkflowStepStatus::Planned => "planned",
            WorkflowStepStatus::Running => "running",
            WorkflowStepStatus::Completed => "completed",
            WorkflowStepStatus::Failed => "failed",
            WorkflowStepStatus::Skipped => "skipped",
            WorkflowStepStatus::Cancelled => "cancelled",
        }
    }

    /// Nothing is left to do for the step.
    pub open spec fn settled(self) -> bool {
        self == WorkflowStepStatus::Completed || self == WorkflowStepStatus::Skipped || self == WorkflowStepStatus::Cancelled
    }
}

/// One step of an Assisted Workflow: one Core Capability.
pub struct WorkflowStep {
    pub index: u32,
    pub step_id: String,
    pub capability: String,
    pub description: String,
    pub status: WorkflowStepStatus,
    pub confirmation_required: bool,
    pub confirmation_granted: bool,
    pub started_at: Option<i64>,
    pub completed_at: Option<i64>,
    pub output_refs: Vec<ObjectId>,
    pub evidence_refs: Vec<ObjectId>,
    pub notes: String,
    pub failure: Option<String>,
    pub skip_reason: Option<String>,
}

impl WorkflowStep {
    /// A planned step that has not run.
    pub fn planned(index: u32, step_id: String, capability: String, description: &str, confirmation_required: bool) -> (s: WorkflowStep)
        ensures
            s.index == index,
            s.step_id == step_id,
            s.capability == capability,
            s.description@ == description@,
            s.status == WorkflowStepStatus::Planned,
            s.confirmation_required == confirmation_required,
            !s.confirmation_granted,
            s.started_at is None,
            s.completed_at is None,
            s.failure is None,
            s.skip_reason is None,
    {
        WorkflowStep {
            index,
            step_id,
            capability,
            description: description.to_owned(),
            status: WorkflowStepStatus::Planned,
            confirmation_required,
            confirmation_granted: false,
            started_at: None,
            completed_at: None,
            output_refs: Vec::new(),
            evidence_refs: Vec::new(),
            notes: String::new(),
            failure: None,
            skip_reason: None,
        }
    }
}

/// An Assisted Workflow: a planned, resumable run of a Composite Capability.
pub struct AssistedWorkflow {
    pub id: ObjectId,
    pub investigation_id: InvestigationId,
    pub intent: String,
    pub intent_description: String,
    pub status: WorkflowStatus,
    pub steps: Vec<WorkflowStep>,
    pub started_at: Option<i64>,
    pub completed_at: Option<i64>,
    pub summary: Option<String>,
    pub cancellation_reason: Option<String>,
    pub last_confirmation_actor: Option<String>,
    pub provenance: Provenance,
}

/// The approved definitions have distinct ids.
pub proof fn lemma_definition_ids_distinct()
    ensures
        forall|i: int, j: int| 0 <= i < j < approved_definitions().len()
            ==> (#[trigger] approved_definitions()[i]).0 != (#[trigger] approved_definitions()[j]).0,
{
    reveal_strlit("investigate_engineering_problem");
    reveal_strlit("assess_deployment_readiness");
    reveal_strlit("explain_failure");
    reveal_strlit("propose_engineering_improvement");
    let d = approved_definitions();
    assert(d[0].0[0] == 'i');
    assert(d[1].0[0] == 'a');
    assert(d[2].0[0] == 'e');
    assert(d[3].0[0] == 'p');
}

/// The definition whose id is `intent`, if any.
pub open spec fn definition_for_spec(intent: Seq<char>) -> Option<(Seq<char>, Seq<char>, Seq<char>, Seq<Seq<char>>)> {
    if exists|i: int| 0 <= i < approved_definitions().len() && (#[trigger] approved_definitions()[i]).0 == intent {
        Some(approved_definitions()[choose|i: int| 0 <= i < approved_definitions().len() && (#[trigger] approved_definitions()[i]).0 == intent])
    } else {
        None
    }
}

/// The approved definition for an intent; an unknown intent is a
/// validation error.
pub fn definition_for(intent: &str) -> (r: Result<CompositeCapabilityDefinition, RivoraError>)
    ensures
        r is Ok <==> definition_for_spec(intent@) is Some,
        r matches Ok(d) ==> Some(definition_view(d)) == definition_for_spec(intent@),
        r matches Err(e) ==> e is Validation,
{
    let mut defs = composite_definitions();
    let ghost views = defs@.map_values(|d: CompositeCapabilityDefinition| definition_view(d));
    let want = chars_of(intent);
    let mut i: usize = 0;
    while i < defs.len()
        invariant
            i <= defs@.len(),
            want@ == intent@,
            views == defs@.map_values(|d: CompositeCapabilityDefinition| definition_view(d)),
            views == approved_definitions(),
            forall|q: int| 0 <= q < i ==> (#[trigger] approved_definitions()[q]).0 != intent@,
        decreases defs.len() - i,
    {
        let id = chars_of(defs[i].id.as_str());
        if text_eq(&id, &want) {
            proof {
                assert(views[i as int] == definition_view(defs@[i as int]));
                assert(approved_definitions()[i as int].0 == intent@);
                // The approved ids are distinct, so the chosen definition is this one.
                let c = choose|j: int| 0 <= j < approved_definitions().len() && (#[trigger] approved_definitions()[j]).0 == intent@;
                assert(approved_definitions()[c].0 == approved_definitions()[i as int].0);
                lemma_definition_ids_distinct();
                assert(c == i);
            }
            let d = defs.remove(i);
            return Ok(d);
        }
        i = i + 1;
    }
    let mut msg: Vec<char> = Vec::new();
    push_str(&mut msg, "unknown composite capability intent: ");
    push_str(&mut msg, intent);
    Err(RivoraError::Validation { message: to_string(&msg) })
}

/// Whether `v` is exactly the text `lit`.
fn is_text(v: &Vec<char>, lit: &str) -> (b: bool)
    ensures
        b == (v@ == lit@),
{
    let l = chars_of(lit);
    text_eq(v, &l)
}

/// The human description of a Core Capability step (the capability name
/// itself when it has none).
pub open spec fn step_description(cap: Seq<char>) -> Seq<char> {
    if cap == "recall_memory"@ { "Recall current Memory"@ }
    else if cap == "derive_knowledge"@ { "Derive or refresh Knowledge"@ }
    else if cap == "find_similar_investigations"@ { "Find related / similar Investigations"@ }
    else if cap == "suggest_recalled_context"@ { "Suggest historical Recalled Context"@ }
    else if cap == "evaluate_investigation"@ { "Evaluate current understanding"@ }
    else if cap == "verify_all"@ { "Verify available claims"@ }
    else if cap == "generate_recommendation"@ { "Generate prioritized Recommendations"@ }
    else if cap == "summarize_investigation_state"@ { "Summarize current understanding"@ }
    else if cap == "assess_deployment_readiness"@ { "Assess deployment readiness"@ }
    else if cap == "forecast_risk"@ { "Forecast evidence-backed risks"@ }
    else if cap == "generate_engineering_report"@ { "Generate engineering report"@ }
    else if cap == "generate_hypotheses"@ { "Generate ranked hypotheses"@ }
    else if cap == "recommend_next_verification"@ { "Recommend next verification"@ }
    else if cap == "generate_root_cause_guidance"@ { "Produce root-cause guidance"@ }
    else if cap == "recall_proposal_inputs"@ { "Read existing durable Proposal inputs"@ }
    else if cap == "generate_improvement_proposals"@ { "Generate bounded Improvement Proposal alternatives"@ }
    else if cap == "compare_improvement_proposals"@ { "Compare Proposal alternatives with inspectable factors"@ }
    else if cap == "summarize_proposal_ranking"@ { "Summarize Proposal ranking without selecting or accepting"@ }
    else { cap }
}

/// Steps that need explicit confirmation before they run.
pub open spec fn needs_confirmation(cap: Seq<char>) -> bool {
    cap == "record_outcome"@ || cap == "complete_investigation"@
}

/// The description of a capability step (exec).
fn describe_step(cap: &Vec<char>) -> (s: String)
    ensures
        s@ == step_description(cap@),
{
    if is_text(cap, "recall_memory") { "Recall current Memory".to_owned() }
    else if is_text(cap, "derive_knowledge") { "Derive or refresh Knowledge".to_owned() }
    else if is_text(cap, "find_similar_investigations") { "Find related / similar Investigations".to_owned() }
    else if is_text(cap, "suggest_recalled_context") { "Suggest historical Recalled Context".to_owned() }
    else if is_text(cap, "evaluate_investigation") { "Evaluate current understanding".to_owned() }
    else if is_text(cap, "verify_all") { "Verify available claims".to_owned() }
    else if is_text(cap, "generate_recommendation") { "Generate prioritized Recommendations".to_owned() }
    else if is_text(cap, "summarize_investigation_state") { "Summarize current understanding".to_owned() }
    else if is_text(cap, "assess_deployment_readiness") { "Assess deployment readiness".to_owned() }
    else if is_text(cap, "forecast_risk") { "Forecast evidence-backed risks".to_owned() }
    else if is_text(cap, "generate_engineering_report") { "Generate engineering report".to_owned() }
    else if is_text(cap, "generate_hypotheses") { "Generate ranked hypotheses".to_owned() }
    else if is_text(cap, "recommend_next_verification") { "Recommend next verification".to_owned() }
    else if is_text(cap, "generate_root_cause_guidance") { "Produce root-cause guidance".to_owned() }
    else if is_text(cap, "recall_proposal_inputs") { "Read existing durable Proposal inputs".to_owned() }
    else if is_text(cap, "generate_improvement_proposals") { "Generate bounded Improvement Proposal alternatives".to_owned() }
    else if is_text(cap, "compare_improvement_proposals") { "Compare Proposal alternatives with inspectable factors".to_owned() }
    else if is_text(cap, "summarize_proposal_ranking") { "Summarize Proposal ranking without selecting or accepting".to_owned() }
    else { to_string(cap) }
}

/// Step `s` is the planned step `i` of capability `cap`.
pub open spec fn planned_step(s: WorkflowStep, i: int, cap: Seq<char>) -> bool {
    &&& s.index == i
    &&& s.step_id@ == cap
    &&& s.capability@ == cap
    &&& s.description@ == step_description(cap)
    &&& s.status == WorkflowStepStatus::Planned
    &&& s.confirmation_required == needs_confirmation(cap)
    &&& !s.confirmation_granted
    &&& s.failure is None
    &&& s.skip_reason is None
}

/// One planned step per Core Capability of the definition, in order.
pub fn plan_steps(def: &CompositeCapabilityDefinition) -> (steps: Vec<WorkflowStep>)
    requires
        def.core_capabilities@.len() <= u32::MAX,
    ensures
        steps@.len() == def.core_capabilities@.len(),
        forall|i: int| 0 <= i < steps@.len() ==> planned_step(#[trigger] steps@[i], i, def.core_capabilities@[i]@),
{
    let mut steps: Vec<WorkflowStep> = Vec::new();
    let mut i: usize = 0;
    while i < def.core_capabilities.len()
        invariant
            i <= def.core_capabilities@.len(),
            def.core_capabilities@.len() <= u32::MAX,
            steps@.len() == i,
            forall|q: int| 0 <= q < i ==> planned_step(#[trigger] steps@[q], q, def.core_capabilities@[q]@),
        decreases def.core_capabilities.len() - i,
    {
        let cap = chars_of(def.core_capabilities[i].as_str());
        let confirmation = is_text(&cap, "record_outcome") || is_text(&cap, "complete_investigation");
        let description = describe_step(&cap);
        let step = WorkflowStep::planned(
            i as u32,
            def.core_capabilities[i].clone(),
            def.core_capabilities[i].clone(),
            description.as_str(),
            confirmation,
        );
        steps.push(step);
        i = i + 1;
    }
    steps
}

/// A freshly planned workflow for a definition.
pub fn planned_workflow(investigation_id: InvestigationId, def: CompositeCapabilityDefinition, steps: Vec<WorkflowStep>, provenance: Provenance) -> (w: AssistedWorkflow)
    ensures
        w.investigation_id == investigation_id,
        w.intent == def.id,
        w.intent_description == def.description,
        w.status == WorkflowStatus::Planned,
        w.steps == steps,
        w.started_at is None,
        w.completed_at is None,
        w.summary is None,
        w.cancellation_reason is None,
{
    AssistedWorkflow {
        id: fresh_object_id(),
        investigation_id,
        intent: def.id,
        intent_description: def.description,
        status: WorkflowStatus::Planned,
        steps,
        started_at: None,
        completed_at: None,
        summary: None,
        cancellation_reason: None,
        last_confirmation_actor: None,
        provenance,
    }
}

/// How many steps have status `st`.
pub open spec fn count_status(steps: Seq<WorkflowStep>, st: WorkflowStepStatus) -> nat
    decreases steps.len(),
{
    if steps.len() == 0 {
        0
    } else {
        count_status(steps.drop_last(), st) + if steps.last().status == st { 1nat } else { 0nat }
    }
}

/// Counting never exceeds the number of steps.
pub proof fn lemma_count_status_bound(steps: Seq<WorkflowStep>, st: WorkflowStepStatus)
    ensures
        count_status(steps, st) <= steps.len(),
    decreases steps.len(),
{
    if steps.len() > 0 {
        lemma_count_status_bound(steps.drop_last(), st);
    }
}

/// Counts the steps with status `st`.
fn count_steps(steps: &Vec<WorkflowStep>, st: WorkflowStepStatus) -> (n: usize)
    ensures
        n == count_status(steps@, st),
{
    let mut n: usize = 0;
    let mut i: usize = 0;
    while i < steps.len()
        invariant
            i <= steps@.len(),
            n <= i,
            n == count_status(steps@.subrange(0, i as int), st),
        decreases steps.len() - i,
    {
        assert(steps@.subrange(0, i + 1).drop_last() =~= steps@.subrange(0, i as int));
        if steps[i].status == st {
            n = n + 1;
        }
        i = i + 1;
    }
    assert(steps@.subrange(0, steps@.len() as int) =~= steps@);
    n
}

/// The workflow's one-paragraph summary.
pub open spec fn workflow_summary(w: AssistedWorkflow) -> Seq<char> {
    "Assisted workflow `"@ + w.intent@ + "` ("@ + crate::ids::uuid_text(w.id.value) + ") is "@ + w.status.text()
        + ". Steps: "@ + decimal(count_status(w.steps@, WorkflowStepStatus::Completed)) + " completed, "@
        + decimal(count_status(w.steps@, WorkflowStepStatus::Failed)) + " failed, "@
        + decimal(count_status(w.steps@, WorkflowStepStatus::Skipped)) + " skipped, "@
        + decimal(count_status(w.steps@, WorkflowStepStatus::Cancelled)) + " cancelled of "@
        + decimal(w.steps@.len()) + " total. "@
        + match w.cancellation_reason {
            Some(r) => r@,
            None => "No external systems were mutated."@,
        }
}

/// Summarizes a workflow without re-running it.
pub fn build_workflow_summary(w: &AssistedWorkflow) -> (s: String)
    ensures
        s@ == workflow_summary(*w),
{
    let mut out: Vec<char> = Vec::new();
    push_str(&mut out, "Assisted workflow `");
    push_str(&mut out, w.intent.as_str());
    push_str(&mut out, "` (");
    let id = w.id.to_chars();
    push_chars(&mut out, &id);
    push_str(&mut out, ") is ");
    push_str(&mut out, w.status.as_str());
    push_str(&mut out, ". Steps: ");
    push_decimal(&mut out, count_steps(&w.steps, WorkflowStepStatus::Completed) as u128);
    push_str(&mut out, " completed, ");
    push_decimal(&mut out, count_steps(&w.steps, WorkflowStepStatus::Failed) as u128);
    push_str(&mut out, " failed, ");
    push_decimal(&mut out, count_steps(&w.steps, WorkflowStepStatus::Skipped) as u128);
    push_str(&mut out, " skipped, ");
    push_decimal(&mut out, count_steps(&w.steps, WorkflowStepStatus::Cancelled) as u128);
    push_str(&mut out, " cancelled of ");
    push_decimal(&mut out, w.steps.len() as u128);
    push_str(&mut out, " total. ");
    match &w.cancellation_reason {
        Some(r) => push_str(&mut out, r.as_str()),
        None => push_str(&mut out, "No external systems were mutated."),
    }
    to_string(&out)
}

/// What an execution pass does next.
#[derive(Clone, Copy, PartialEq, Eq, Debug)]
pub enum WorkflowAction {
    /// Run the Core Capability of step `index`.
    Run { index: usize },
    /// Stop: step `index` needs confirmation that was not granted.
    AwaitConfirmation { index: usize },
    /// Every step is settled.
    Finish,
}

/// The next thing an execution pass does: the first unsettled step runs,
/// unless it needs a confirmation that was not granted.
pub fn next_workflow_action(w: &AssistedWorkflow) -> (a: WorkflowAction)
    ensures
        a matches WorkflowAction::Finish ==> forall|j: int| 0 <= j < w.steps@.len() ==> (#[trigger] w.steps@[j]).status.settled(),
        a matches WorkflowAction::Run { index } ==> {
            &&& index < w.steps@.len()
            &&& !w.steps@[index as int].status.settled()
            &&& (!w.steps@[index as int].confirmation_required || w.steps@[index as int].confirmation_granted)
            &&& forall|j: int| 0 <= j < index ==> (#[trigger] w.steps@[j]).status.settled()
        },
        a matches WorkflowAction::AwaitConfirmation { index } ==> {
            &&& index < w.steps@.len()
            &&& !w.steps@[index as int].status.settled()
            &&& w.steps@[index as int].confirmation_required && !w.steps@[index as int].confirmation_granted
            &&& forall|j: int| 0 <= j < index ==> (#[trigger] w.steps@[j]).status.settled()
        },
{
    let mut i: usize = 0;
    while i < w.steps.len()
        invariant
            i <= w.steps@.len(),
            forall|j: int| 0 <= j < i ==> (#[trigger] w.steps@[j]).status.settled(),
        decreases w.steps.len() - i,
    {
        let st = w.steps[i].status;
        if !(st == WorkflowStepStatus::Completed || st == WorkflowStepStatus::Skipped || st == WorkflowStepStatus::Cancelled) {
            if w.steps[i].confirmation_required && !w.steps[i].confirmation_granted {
                return WorkflowAction::AwaitConfirmation { index: i };
            }
            return WorkflowAction::Run { index: i };
        }
        i = i + 1;
    }
    WorkflowAction::Finish
}

/// The fields that no execution step changes are equal.
pub open spec fn same_identity(a: WorkflowStep, b: WorkflowStep) -> bool {
    &&& a.index == b.index
    &&& a.step_id == b.step_id
    &&& a.capability == b.capability
    &&& a.description == b.description
    &&& a.confirmation_required == b.confirmation_required
    &&& a.confirmation_granted == b.confirmation_granted
}

/// The workflow fields other than status, steps, timing and summary are
/// equal.
pub open spec fn same_workflow(a: AssistedWorkflow, b: AssistedWorkflow) -> bool {
    &&& a.id == b.id
    &&& a.investigation_id == b.investigation_id
    &&& a.intent == b.intent
    &&& a.intent_description == b.intent_description
    &&& a.cancellation_reason == b.cancellation_reason
    &&& a.last_confirmation_actor == b.last_confirmation_actor
}

/// Starts (or restarts) execution: a completed or cancelled workflow cannot
/// run; otherwise it is `Running`, keeping its first start time.
pub fn begin_execution(w: &mut AssistedWorkflow, now: i64) -> (r: Result<(), RivoraError>)
    ensures
        r is Err <==> (old(w).status == WorkflowStatus::Completed || old(w).status == WorkflowStatus::Cancelled),
        r matches Err(e) ==> e is Precondition && *final(w) == *old(w),
        r is Ok ==> {
            &&& final(w).status == WorkflowStatus::Running
            &&& final(w).started_at == if old(w).started_at is Some { old(w).started_at } else { Some(now) }
            &&& final(w).steps == old(w).steps
            &&& final(w).completed_at == old(w).completed_at
            &&& final(w).summary == old(w).summary
            &&& same_workflow(*final(w), *old(w))
        },
{
    if w.status == WorkflowStatus::Completed || w.status == WorkflowStatus::Cancelled {
        let mut msg: Vec<char> = Vec::new();
        push_str(&mut msg, "cannot execute workflow in status ");
        push_str(&mut msg, w.status.as_str());
        return Err(RivoraError::Precondition { message: to_string(&msg) });
    }
    if w.started_at.is_none() {
        w.started_at = Some(now);
    }
    w.status = WorkflowStatus::Running;
    Ok(())
}

/// Stops at a step that awaits confirmation: the workflow is partially
/// completed, the step says why, and the summary is refreshed.
pub fn await_confirmation(w: &mut AssistedWorkflow, index: usize, now: i64)
    requires
        index < old(w).steps@.len(),
    ensures
        final(w).status == WorkflowStatus::PartiallyCompleted,
        final(w).steps@.len() == old(w).steps@.len(),
        forall|j: int| 0 <= j < final(w).steps@.len() && j != index ==> #[trigger] final(w).steps@[j] == old(w).steps@[j],
        same_identity(final(w).steps@[index as int], old(w).steps@[index as int]),
        final(w).steps@[index as int].status == old(w).steps@[index as int].status,
        final(w).steps@[index as int].notes@ == "Awaiting explicit confirmation before executing this step."@,
        final(w).summary matches Some(s) && s@ == workflow_summary(*final(w)),
        final(w).completed_at == Some(now),
        final(w).started_at == old(w).started_at,
        same_workflow(*final(w), *old(w)),
{
    let mut step = w.steps.remove(index);
    step.notes = "Awaiting explicit confirmation before executing this step.".to_owned();
    w.steps.insert(index, step);
    w.status = WorkflowStatus::PartiallyCompleted;
    w.completed_at = Some(now);
    let summary = build_workflow_summary(w);
    w.summary = Some(summary);
}

/// Marks step `index` running.
pub fn start_step(w: &mut AssistedWorkflow, index: usize, now: i64)
    requires
        index < old(w).steps@.len(),
    ensures
        final(w).status == old(w).status,
        final(w).steps@.len() == old(w).steps@.len(),
        forall|j: int| 0 <= j < final(w).steps@.len() && j != index ==> #[trigger] final(w).steps@[j] == old(w).steps@[j],
        same_identity(final(w).steps@[index as int], old(w).steps@[index as int]),
        final(w).steps@[index as int].status == WorkflowStepStatus::Running,
        final(w).steps@[index as int].started_at == Some(now),
        final(w).summary == old(w).summary,
        final(w).completed_at == old(w).completed_at,
        final(w).started_at == old(w).started_at,
        same_workflow(*final(w), *old(w)),
{
    let mut step = w.steps.remove(index);
    step.status = WorkflowStepStatus::Running;
    step.started_at = Some(now);
    w.steps.insert(index, step);
}

/// Records that step `index` completed with these outputs, evidence and
/// notes.
pub fn complete_step(w: &mut AssistedWorkflow, index: usize, outputs: Vec<ObjectId>, evidence: Vec<ObjectId>, notes: String, now: i64)
    requires
        index < old(w).steps@.len(),
    ensures
        final(w).status == old(w).status,
        final(w).steps@.len() == old(w).steps@.len(),
        forall|j: int| 0 <= j < final(w).steps@.len() && j != index ==> #[trigger] final(w).steps@[j] == old(w).steps@[j],
        final(w).steps@[index as int].index == old(w).steps@[index as int].index,
        final(w).steps@[index as int].capability == old(w).steps@[index as int].capability,
        final(w).steps@[index as int].status == WorkflowStepStatus::Completed,
        final(w).steps@[index as int].output_refs == outputs,
        final(w).steps@[index as int].evidence_refs == evidence,
        final(w).steps@[index as int].notes == notes,
        final(w).steps@[index as int].completed_at == Some(now),
        final(w).steps@[index as int].failure is None,
        final(w).summary == old(w).summary,
        final(w).completed_at == old(w).completed_at,
        same_workflow(*final(w), *old(w)),
{
    let mut step = w.steps.remove(index);
    step.status = WorkflowStepStatus::Completed;
    step.output_refs = outputs;
    step.evidence_refs = evidence;
    step.notes = notes;
    step.completed_at = Some(now);
    step.failure = None;
    w.steps.insert(index, step);
}

/// Capabilities whose failure is tolerated: the step is skipped and the
/// workflow goes on.
pub open spec fn soft_failing(cap: Seq<char>) -> bool {
    cap == "find_similar_investigations"@ || cap == "suggest_recalled_context"@
}

/// Some step completed.
pub open spec fn any_completed(steps: Seq<WorkflowStep>) -> bool {
    exists|j: int| 0 <= j < steps.len() && (#[trigger] steps[j]).status == WorkflowStepStatus::Completed
}

/// Records that step `index` failed with `error`. A search or context step
/// is skipped and the workflow goes on (`false`); any other failure cancels
/// the later planned steps and ends the pass (`true`), partially completed
/// if some step completed and failed otherwise.
pub fn fail_step(w: &mut AssistedWorkflow, index: usize, error: String, now: i64) -> (ended: bool)
    requires
        index < old(w).steps@.len(),
    ensures
        ended == !soft_failing(old(w).steps@[index as int].capability@),
        final(w).steps@.len() == old(w).steps@.len(),
        forall|j: int| 0 <= j < index ==> #[trigger] final(w).steps@[j] == old(w).steps@[j],
        same_identity(final(w).steps@[index as int], old(w).steps@[index as int]),
        final(w).steps@[index as int].completed_at == Some(now),
        !ended ==> {
            &&& final(w).steps@[index as int].status == WorkflowStepStatus::Skipped
            &&& final(w).steps@[index as int].skip_reason matches Some(r) && r@ == error@
            &&& final(w).steps@[index as int].failure is None
            &&& final(w).status == old(w).status
            &&& forall|j: int| index < j < final(w).steps@.len() ==> #[trigger] final(w).steps@[j] == old(w).steps@[j]
            &&& final(w).summary == old(w).summary
            &&& final(w).completed_at == old(w).completed_at
        },
        ended ==> {
            &&& final(w).steps@[index as int].status == WorkflowStepStatus::Failed
            &&& final(w).steps@[index as int].failure matches Some(f) && f@ == error@
            &&& forall|j: int| index < j < final(w).steps@.len() ==> {
                if old(w).steps@[j].status == WorkflowStepStatus::Planned {
                    &&& same_identity(#[trigger] final(w).steps@[j], old(w).steps@[j])
                    &&& final(w).steps@[j].status == WorkflowStepStatus::Cancelled
                    &&& final(w).steps@[j].skip_reason matches Some(r) && r@ == "prior step failed"@
                } else {
                    final(w).steps@[j] == old(w).steps@[j]
                }
            }
            &&& final(w).status == if any_completed(final(w).steps@) { WorkflowStatus::PartiallyCompleted } else { WorkflowStatus::Failed }
            &&& final(w).summary matches Some(s) && s@ == workflow_summary(*final(w))
            &&& final(w).completed_at == Some(now)
        },
        final(w).started_at == old(w).started_at,
        same_workflow(*final(w), *old(w)),
{
    let mut step = w.steps.remove(index);
    let cap = chars_of(step.capability.as_str());
    step.completed_at = Some(now);
    if is_text(&cap, "find_similar_investigations") || is_text(&cap, "suggest_recalled_context") {
        step.status = WorkflowStepStatus::Skipped;
        step.skip_reason = Some(error);
        step.failure = None;
        w.steps.insert(index, step);
        return false;
    }
    step.status = WorkflowStepStatus::Failed;
    step.failure = Some(error);
    w.steps.insert(index, step);
    let ghost mid = w.steps@;
    assert(forall|q: int| 0 <= q < mid.len() && q != index ==> #[trigger] mid[q] == old(w).steps@[q]);
    let n = w.steps.len();
    let mut j: usize = index + 1;
    while j < n
        invariant
            index < n,
            n == w.steps@.len(),
            mid.len() == n,
            index + 1 <= j <= n,
            n == old(w).steps@.len(),
            forall|q: int| 0 <= q <= index ==> #[trigger] w.steps@[q] == mid[q],
            forall|q: int| j <= q < n ==> #[trigger] w.steps@[q] == old(w).steps@[q],
            w.started_at == old(w).started_at,
            same_workflow(*w, *old(w)),
            forall|q: int| index < q < j ==> {
                if old(w).steps@[q].status == WorkflowStepStatus::Planned {
                    &&& same_identity(#[trigger] w.steps@[q], old(w).steps@[q])
                    &&& w.steps@[q].status == WorkflowStepStatus::Cancelled
                    &&& w.steps@[q].skip_reason matches Some(r) && r@ == "prior step failed"@
                } else {
                    w.steps@[q] == old(w).steps@[q]
                }
            },
        decreases n - j,
    {
        if w.steps[j].status == WorkflowStepStatus::Planned {
            let mut later = w.steps.remove(j);
            later.status = WorkflowStepStatus::Cancelled;
            later.skip_reason = Some("prior step failed".to_owned());
            w.steps.insert(j, later);
        }
        j = j + 1;
    }
    let completed = count_steps(&w.steps, WorkflowStepStatus::Completed) > 0;
    proof {
        lemma_count_positive(w.steps@, WorkflowStepStatus::Completed);
    }
    w.status = if completed { WorkflowStatus::PartiallyCompleted } else { WorkflowStatus::Failed };
    w.completed_at = Some(now);
    let summary = build_workflow_summary(w);
    w.summary = Some(summary);
    true
}

/// Some step has status `st` exactly when the count is positive.
pub proof fn lemma_count_positive(steps: Seq<WorkflowStep>, st: WorkflowStepStatus)
    ensures
        (count_status(steps, st) > 0) == exists|j: int| 0 <= j < steps.len() && (#[trigger] steps[j]).status == st,
    decreases steps.len(),
{
    if steps.len() > 0 {
        let d = steps.drop_last();
        lemma_count_positive(d, st);
        if exists|j: int| 0 <= j < d.len() && (#[trigger] d[j]).status == st {
            let j = choose|j: int| 0 <= j < d.len() && (#[trigger] d[j]).status == st;
            assert(steps[j] == d[j]);
        }
        if exists|j: int| 0 <= j < steps.len() && (#[trigger] steps[j]).status == st {
            let j = choose|j: int| 0 <= j < steps.len() && (#[trigger] steps[j]).status == st;
            if j < d.len() {
                assert(d[j] == steps[j]);
            }
        }
    }
}

/// Ends an execution pass that ran out of steps: completed when every step
/// is settled and none failed, partially completed otherwise.
pub fn finish_workflow(w: &mut AssistedWorkflow, now: i64)
    ensures
        final(w).steps == old(w).steps,
        final(w).status == if (forall|j: int| 0 <= j < old(w).steps@.len() ==> (#[trigger] old(w).steps@[j]).status.settled())
            && !(exists|j: int| 0 <= j < old(w).steps@.len() && (#[trigger] old(w).steps@[j]).status == WorkflowStepStatus::Failed) {
            WorkflowStatus::Completed
        } else {
            WorkflowStatus::PartiallyCompleted
        },
        final(w).summary matches Some(s) && s@ == workflow_summary(*final(w)),
        final(w).completed_at == Some(now),
        final(w).started_at == old(w).started_at,
        same_workflow(*final(w), *old(w)),
{
    let mut any_failed = false;
    let mut all_done = true;
    let mut i: usize = 0;
    while i < w.steps.len()
        invariant
            i <= w.steps@.len(),
            any_failed == exists|j: int| 0 <= j < i && (#[trigger] w.steps@[j]).status == WorkflowStepStatus::Failed,
            all_done == forall|j: int| 0 <= j < i ==> (#[trigger] w.steps@[j]).status.settled(),
        decreases w.steps.len() - i,
    {
        let st = w.steps[i].status;
        if st == WorkflowStepStatus::Failed {
            any_failed = true;
        }
        if !(st == WorkflowStepStatus::Completed || st == WorkflowStepStatus::Skipped || st == WorkflowStepStatus::Cancelled) {
            all_done = false;
        }
        i = i + 1;
    }
    w.status = if !any_failed && all_done { WorkflowStatus::Completed } else { WorkflowStatus::PartiallyCompleted };
    w.completed_at = Some(now);
    let summary = build_workflow_summary(w);
    w.summary = Some(summary);
}

/// Cancels a workflow, keeping what already happened: planned and running
/// steps are cancelled with the reason (or "cancelled by operator"); every
/// other step is left exactly as it was. A completed or cancelled workflow
/// cannot be cancelled.
pub fn cancel_workflow(w: &mut AssistedWorkflow, reason: Option<String>, actor: &str, now: i64) -> (r: Result<(), RivoraError>)
    ensures
        r is Err <==> (old(w).status == WorkflowStatus::Completed || old(w).status == WorkflowStatus::Cancelled),
        r matches Err(e) ==> e is Precondition && *final(w) == *old(w),
        r is Ok ==> {
            &&& final(w).status == WorkflowStatus::Cancelled
            &&& final(w).steps@.len() == old(w).steps@.len()
            &&& forall|j: int| 0 <= j < final(w).steps@.len() ==> {
                if old(w).steps@[j].status == WorkflowStepStatus::Planned || old(w).steps@[j].status == WorkflowStepStatus::Running {
                    &&& same_identity(#[trigger] final(w).steps@[j], old(w).steps@[j])
                    &&& final(w).steps@[j].status == WorkflowStepStatus::Cancelled
                    &&& final(w).steps@[j].skip_reason matches Some(t) && t@ == match reason {
                        Some(x) => x@,
                        None => "cancelled by operator"@,
                    }
                } else {
                    final(w).steps@[j] == old(w).steps@[j]
                }
            }
            &&& final(w).cancellation_reason matches Some(c) && c@ == match reason {
                Some(x) => x@,
                None => "cancelled by "@ + actor@,
            }
            &&& final(w).summary matches Some(s) && s@ == workflow_summary(*final(w))
            &&& final(w).completed_at == Some(now)
        },
{
    if w.status == WorkflowStatus::Completed || w.status == WorkflowStatus::Cancelled {
        let mut msg: Vec<char> = Vec::new();
        push_str(&mut msg, "cannot cancel workflow in status ");
        push_str(&mut msg, w.status.as_str());
        return Err(RivoraError::Precondition { message: to_string(&msg) });
    }
    let step_reason: String = match &reason {
        Some(x) => x.clone(),
        None => "cancelled by operator".to_owned(),
    };
    let n = w.steps.len();
    let mut j: usize = 0;
    while j < n
        invariant
            n == w.steps@.len(),
            n == old(w).steps@.len(),
            j <= n,
            step_reason@ == match reason { Some(x) => x@, None => "cancelled by operator"@ },
            forall|q: int| j <= q < n ==> #[trigger] w.steps@[q] == old(w).steps@[q],
            forall|q: int| 0 <= q < j ==> {
                if old(w).steps@[q].status == WorkflowStepStatus::Planned || old(w).steps@[q].status == WorkflowStepStatus::Running {
                    &&& same_identity(#[trigger] w.steps@[q], old(w).steps@[q])
                    &&& w.steps@[q].status == WorkflowStepStatus::Cancelled
                    &&& w.steps@[q].skip_reason matches Some(t) && t@ == step_reason@
                } else {
                    w.steps@[q] == old(w).steps@[q]
                }
            },
        decreases n - j,
    {
        let st = w.steps[j].status;
        if st == WorkflowStepStatus::Planned || st == WorkflowStepStatus::Running {
            let mut step = w.steps.remove(j);
            step.status = WorkflowStepStatus::Cancelled;
            step.skip_reason = Some(step_reason.clone());
            w.steps.insert(j, step);
        }
        j = j + 1;
    }
    w.status = WorkflowStatus::Cancelled;
    w.cancellation_reason = match reason {
        Some(x) => Some(x),
        None => {
            let mut msg: Vec<char> = Vec::new();
            push_str(&mut msg, "cancelled by ");
            push_str(&mut msg, actor);
            Some(to_string(&msg))
        },
    };
    w.completed_at = Some(now);
    let summary = build_workflow_summary(w);
    w.summary = Some(summary);
    Ok(())
}

/// The step was cancelled because an earlier step failed.
pub open spec fn cancelled_by_failure(s: WorkflowStep) -> bool {
    s.status == WorkflowStepStatus::Cancelled && (s.skip_reason matches Some(r) && contains_seq(r@, "prior step failed"@))
}

/// Whether a step was cancelled because an earlier step failed (exec).
fn is_cancelled_by_failure(s: &WorkflowStep) -> (b: bool)
    ensures
        b == cancelled_by_failure(*s),
{
    if s.status != WorkflowStepStatus::Cancelled {
        return false;
    }
    match &s.skip_reason {
        Some(r) => {
            let t = chars_of(r.as_str());
            contains_str(&t, "prior step failed")
        },
        None => false,
    }
}

/// Prepares a partially completed, failed or running workflow to run
/// again: failed steps are planned afresh, steps cancelled because of a
/// failure are planned again, and every other step is kept.
pub fn reopen_for_resume(w: &mut AssistedWorkflow) -> (r: Result<(), RivoraError>)
    ensures
        r is Ok <==> (old(w).status == WorkflowStatus::PartiallyCompleted || old(w).status == WorkflowStatus::Failed
            || old(w).status == WorkflowStatus::Running),
        r matches Err(e) ==> e is Precondition && *final(w) == *old(w),
        r is Ok ==> {
            &&& final(w).status == WorkflowStatus::Running
            &&& final(w).completed_at is None
            &&& final(w).summary is None
            &&& final(w).steps@.len() == old(w).steps@.len()
            &&& forall|j: int| 0 <= j < final(w).steps@.len() ==> {
                if old(w).steps@[j].status == WorkflowStepStatus::Failed {
                    &&& same_identity(#[trigger] final(w).steps@[j], old(w).steps@[j])
                    &&& final(w).steps@[j].status == WorkflowStepStatus::Planned
                    &&& final(w).steps@[j].failure is None
                    &&& final(w).steps@[j].started_at is None
                    &&& final(w).steps@[j].completed_at is None
                } else if cancelled_by_failure(old(w).steps@[j]) {
                    &&& same_identity(final(w).steps@[j], old(w).steps@[j])
                    &&& final(w).steps@[j].status == WorkflowStepStatus::Planned
                    &&& final(w).steps@[j].skip_reason is None
                } else {
                    final(w).steps@[j] == old(w).steps@[j]
                }
            }
            &&& same_workflow(*final(w), *old(w))
        },
{
    if !(w.status == WorkflowStatus::PartiallyCompleted || w.status == WorkflowStatus::Failed || w.status == WorkflowStatus::Running) {
        let mut msg: Vec<char> = Vec::new();
        push_str(&mut msg, "cannot resume workflow in status ");
        push_str(&mut msg, w.status.as_str());
        return Err(RivoraError::Precondition { message: to_string(&msg) });
    }
    let n = w.steps.len();
    let mut j: usize = 0;
    while j < n
        invariant
            n == w.steps@.len(),
            n == old(w).steps@.len(),
            j <= n,
            same_workflow(*w, *old(w)),
            forall|q: int| j <= q < n ==> #[trigger] w.steps@[q] == old(w).steps@[q],
            forall|q: int| 0 <= q < j ==> {
                if old(w).steps@[q].status == WorkflowStepStatus::Failed {
                    &&& same_identity(#[trigger] w.steps@[q], old(w).steps@[q])
                    &&& w.steps@[q].status == WorkflowStepStatus::Planned
                    &&& w.steps@[q].failure is None
                    &&& w.steps@[q].started_at is None
                    &&& w.steps@[q].completed_at is None
                } else if cancelled_by_failure(old(w).steps@[q]) {
                    &&& same_identity(w.steps@[q], old(w).steps@[q])
                    &&& w.steps@[q].status == WorkflowStepStatus::Planned
                    &&& w.steps@[q].skip_reason is None
                } else {
                    w.steps@[q] == old(w).steps@[q]
                }
            },
        decreases n - j,
    {
        if w.steps[j].status == WorkflowStepStatus::Failed {
            let mut step = w.steps.remove(j);
            step.status = WorkflowStepStatus::Planned;
            step.failure = None;
            step.started_at = None;
            step.completed_at = None;
            w.steps.insert(j, step);
        } else if is_cancelled_by_failure(&w.steps[j]) {
            let mut step = w.steps.remove(j);
            step.status = WorkflowStepStatus::Planned;
            step.skip_reason = None;
            w.steps.insert(j, step);
        }
        j = j + 1;
    }
    w.status = WorkflowStatus::Running;
    w.completed_at = None;
    w.summary = None;
    Ok(())
}


/// Position of the first step with this index, or -1.
pub open spec fn position_of(steps: Seq<WorkflowStep>, step_index: u32) -> int
    decreases steps.len(),
{
    if steps.len() == 0 {
        -1
    } else {
        let p = position_of(steps.drop_last(), step_index);
        if p >= 0 {
            p
        } else if steps.last().index == step_index {
            steps.len() - 1
        } else {
            -1
        }
    }
}

/// The first position holding a step with this index.
proof fn lemma_position_of(steps: Seq<WorkflowStep>, step_index: u32)
    ensures
        -1 <= position_of(steps, step_index) < steps.len(),
        position_of(steps, step_index) >= 0 ==> steps[position_of(steps, step_index)].index == step_index,
        forall|k: int| 0 <= k < steps.len() && (position_of(steps, step_index) < 0 || k < position_of(steps, step_index))
            ==> (#[trigger] steps[k]).index != step_index,
    decreases steps.len(),
{
    if steps.len() > 0 {
        let d = steps.drop_last();
        lemma_position_of(d, step_index);
        let p = position_of(d, step_index);
        if p >= 0 {
            assert(d[p] == steps[p]);
        }
        assert forall|k: int| 0 <= k < steps.len() && (position_of(steps, step_index) < 0 || k < position_of(steps, step_index))
            implies (#[trigger] steps[k]).index != step_index by {
            if k < d.len() {
                assert(d[k] == steps[k]);
            }
        }
    }
}

/// The first position holding a step with this index.
fn find_step(steps: &Vec<WorkflowStep>, step_index: u32) -> (r: Option<usize>)
    ensures
        r matches Some(j) ==> j as int == position_of(steps@, step_index) && j < steps@.len()
            && steps@[j as int].index == step_index,
        r is None ==> position_of(steps@, step_index) < 0,
{
    proof {
        lemma_position_of(steps@, step_index);
    }
    let mut j: usize = 0;
    while j < steps.len()
        invariant
            j <= steps@.len(),
            forall|k: int| 0 <= k < j ==> (#[trigger] steps@[k]).index != step_index,
            -1 <= position_of(steps@, step_index) < steps@.len(),
            position_of(steps@, step_index) >= 0 ==> steps@[position_of(steps@, step_index)].index == step_index,
            forall|k: int| 0 <= k < steps@.len() && (position_of(steps@, step_index) < 0 || k < position_of(steps@, step_index))
                ==> (#[trigger] steps@[k]).index != step_index,
        decreases steps.len() - j,
    {
        if steps[j].index == step_index {
            return Some(j);
        }
        j = j + 1;
    }
    None
}

/// Grants confirmation for the first step with `step_index` and records who
/// gave it; a missing step or one that needs no confirmation is a
/// validation error.
pub fn confirm_step(w: &mut AssistedWorkflow, step_index: u32, actor: String) -> (r: Result<(), RivoraError>)
    ensures
        r is Ok <==> (position_of(old(w).steps@, step_index) >= 0
            && old(w).steps@[position_of(old(w).steps@, step_index)].confirmation_required),
        r matches Err(e) ==> e is Validation && *final(w) == *old(w),
        r is Ok ==> {
            let p = position_of(old(w).steps@, step_index);
            &&& final(w).steps@.len() == old(w).steps@.len()
            &&& forall|j: int| 0 <= j < final(w).steps@.len() && j != p ==> #[trigger] final(w).steps@[j] == old(w).steps@[j]
            &&& final(w).steps@[p].confirmation_granted
            &&& final(w).steps@[p].status == old(w).steps@[p].status
            &&& final(w).steps@[p].index == old(w).steps@[p].index
            &&& final(w).steps@[p].capability == old(w).steps@[p].capability
            &&& final(w).last_confirmation_actor == Some(actor)
            &&& final(w).status == old(w).status
        },
{
    match find_step(&w.steps, step_index) {
        None => {
            let mut msg: Vec<char> = Vec::new();
            push_str(&mut msg, "workflow step ");
            push_decimal(&mut msg, step_index as u128);
            push_str(&mut msg, " not found");
            Err(RivoraError::Validation { message: to_string(&msg) })
        },
        Some(j) => {
            if !w.steps[j].confirmation_required {
                return Err(RivoraError::validation("step does not require confirmation"));
            }
            let mut step = w.steps.remove(j);
            step.confirmation_granted = true;
            w.steps.insert(j, step);
            w.last_confirmation_actor = Some(actor);
            Ok(())
        },
    }
}

/// Reopens the first failed step with `step_index` for another try, and
/// the later steps that a failure cancelled; only a failed step can be
/// retried.
pub fn reopen_step_for_retry(w: &mut AssistedWorkflow, step_index: u32) -> (r: Result<(), RivoraError>)
    ensures
        r is Ok <==> (position_of(old(w).steps@, step_index) >= 0
            && old(w).steps@[position_of(old(w).steps@, step_index)].status == WorkflowStepStatus::Failed),
        r matches Err(e) ==> e is Validation && *final(w) == *old(w),
        r is Ok ==> {
            let p = position_of(old(w).steps@, step_index);
            &&& final(w).status == WorkflowStatus::Running
            &&& final(w).completed_at is None
            &&& final(w).steps@.len() == old(w).steps@.len()
            &&& same_identity(final(w).steps@[p], old(w).steps@[p])
            &&& final(w).steps@[p].status == WorkflowStepStatus::Planned
            &&& final(w).steps@[p].failure is None
            &&& final(w).steps@[p].started_at is None
            &&& final(w).steps@[p].completed_at is None
            &&& forall|j: int| 0 <= j < final(w).steps@.len() && j != p ==> {
                if old(w).steps@[j].index > step_index && cancelled_by_failure(old(w).steps@[j]) {
                    &&& same_identity(#[trigger] final(w).steps@[j], old(w).steps@[j])
                    &&& final(w).steps@[j].status == WorkflowStepStatus::Planned
                    &&& final(w).steps@[j].skip_reason is None
                } else {
                    final(w).steps@[j] == old(w).steps@[j]
                }
            }
        },
{
    let found = find_step(&w.steps, step_index);
    let p = match found {
        None => {
            let mut msg: Vec<char> = Vec::new();
            push_str(&mut msg, "workflow step ");
            push_decimal(&mut msg, step_index as u128);
            push_str(&mut msg, " not found");
            return Err(RivoraError::Validation { message: to_string(&msg) });
        },
        Some(p) => p,
    };
    if w.steps[p].status != WorkflowStepStatus::Failed {
        return Err(RivoraError::validation("only failed steps can be retried"));
    }
    let mut step = w.steps.remove(p);
    step.status = WorkflowStepStatus::Planned;
    step.failure = None;
    step.started_at = None;
    step.completed_at = None;
    w.steps.insert(p, step);
    let ghost mid = w.steps@;
    let n = w.steps.len();
    let mut j: usize = 0;
    while j < n
        invariant
            n == w.steps@.len(),
            n == old(w).steps@.len(),
            mid.len() == n,
            p < n,
            p as int == position_of(old(w).steps@, step_index),
            j <= n,
            forall|q: int| 0 <= q < n && q != p ==> #[trigger] mid[q] == old(w).steps@[q],
            same_identity(mid[p as int], old(w).steps@[p as int]),
            mid[p as int].index == step_index,
            mid[p as int].status == WorkflowStepStatus::Planned,
            mid[p as int].failure is None,
            mid[p as int].started_at is None,
            mid[p as int].completed_at is None,
            forall|q: int| j <= q < n ==> #[trigger] w.steps@[q] == mid[q],
            forall|q: int| 0 <= q < j ==> {
                if q != p && old(w).steps@[q].index > step_index && cancelled_by_failure(old(w).steps@[q]) {
                    &&& same_identity(#[trigger] w.steps@[q], old(w).steps@[q])
                    &&& w.steps@[q].status == WorkflowStepStatus::Planned
                    &&& w.steps@[q].skip_reason is None
                } else {
                    w.steps@[q] == mid[q]
                }
            },
        decreases n - j,
    {
        if w.steps[j].index > step_index && is_cancelled_by_failure(&w.steps[j]) {
            let mut later = w.steps.remove(j);
            later.status = WorkflowStepStatus::Planned;
            later.skip_reason = None;
            w.steps.insert(j, later);
        }
        j = j + 1;
    }
    w.status = WorkflowStatus::Running;
    w.completed_at = None;
    Ok(())
}


/// The note a counting core capability reports for `n` produced objects,
/// when `capability` is one of them.
pub open spec fn count_note(capability: Seq<char>, n: nat) -> Option<Seq<char>> {
    if capability == "recall_memory"@ {
        Some("Recalled "@ + decimal(n) + " Memory record(s)."@)
    } else if capability == "derive_knowledge"@ {
        Some("Derived "@ + decimal(n) + " Knowledge object(s)."@)
    } else if capability == "find_similar_investigations"@ {
        Some("Found "@ + decimal(n) + " similar Investigation(s)."@)
    } else if capability == "suggest_recalled_context"@ {
        Some("Suggested "@ + decimal(n) + " Recalled Context record(s)."@)
    } else if capability == "evaluate_investigation"@ {
        Some("Produced "@ + decimal(n) + " Evaluation(s)."@)
    } else if capability == "verify_all"@ {
        Some("Produced "@ + decimal(n) + " Verification Receipt(s)."@)
    } else if capability == "generate_recommendation"@ {
        Some("Generated "@ + decimal(n) + " Recommendation(s)."@)
    } else if capability == "generate_hypotheses"@ {
        Some("Generated "@ + decimal(n) + " Hypothesis(es)."@)
    } else if capability == "recommend_next_verification"@ {
        Some("Suggested "@ + decimal(n) + " next verification step(s)."@)
    } else if capability == "generate_improvement_proposals"@ {
        Some("Generated "@ + decimal(n) + " bounded Draft Proposal alternative(s); none accepted or applied."@)
    } else {
        None
    }
}

fn counted(prefix: &str, n: usize, suffix: &str) -> (s: String)
    ensures
        s@ == prefix@ + decimal(n as nat) + suffix@,
{
    let mut out: Vec<char> = Vec::new();
    push_str(&mut out, prefix);
    push_decimal(&mut out, n as u128);
    push_str(&mut out, suffix);
    to_string(&out)
}

/// The note a workflow step records after a counting core capability
/// produced `n` objects (`None` for other capabilities).
pub fn capability_count_note(capability: &str, n: usize) -> (r: Option<String>)
    ensures
        match (r, count_note(capability@, n as nat)) {
            (Some(t), Some(u)) => t@ == u,
            (None, None) => true,
            _ => false,
        },
{
    let c = chars_of(capability);
    if text_eq(&c, &chars_of("recall_memory")) {
        Some(counted("Recalled ", n, " Memory record(s)."))
    } else if text_eq(&c, &chars_of("derive_knowledge")) {
        Some(counted("Derived ", n, " Knowledge object(s)."))
    } else if text_eq(&c, &chars_of("find_similar_investigations")) {
        Some(counted("Found ", n, " similar Investigation(s)."))
    } else if text_eq(&c, &chars_of("suggest_recalled_context")) {
        Some(counted("Suggested ", n, " Recalled Context record(s)."))
    } else if text_eq(&c, &chars_of("evaluate_investigation")) {
        Some(counted("Produced ", n, " Evaluation(s)."))
    } else if text_eq(&c, &chars_of("verify_all")) {
        Some(counted("Produced ", n, " Verification Receipt(s)."))
    } else if text_eq(&c, &chars_of("generate_recommendation")) {
        Some(counted("Generated ", n, " Recommendation(s)."))
    } else if text_eq(&c, &chars_of("generate_hypotheses")) {
        Some(counted("Generated ", n, " Hypothesis(es)."))
    } else if text_eq(&c, &chars_of("recommend_next_verification")) {
        Some(counted("Suggested ", n, " next verification step(s)."))
    } else if text_eq(&c, &chars_of("generate_improvement_proposals")) {
        Some(counted("Generated ", n, " bounded Draft Proposal alternative(s); none accepted or applied."))
    } else {
        None
    }
}

/// The durable inputs a Proposal step reads: the identifiers of the
/// Observations, Memory, Knowledge, Evaluations and Verification Receipts,
/// sorted ascending (the order of their canonical text) without repeats,
/// and the step's note.
pub fn recall_proposal_inputs(
    observations: &Vec<crate::model::Observation>,
    memory: &Vec<crate::model::MemoryRecord>,
    knowledge: &Vec<crate::model::KnowledgeObject>,
    evaluations: &Vec<crate::model::Evaluation>,
    verifications: &Vec<crate::model::VerificationReceipt>,
) -> (r: (Vec<ObjectId>, String))
    ensures
        crate::proposal_rules::ascending_ids(r.0@),
        forall|y: ObjectId| #[trigger] r.0@.contains(y) <==> (crate::proposal_gen::observation_ids(observations@)
            + crate::pipeline::memory_record_ids(memory@) + crate::pipeline::knowledge_object_ids(knowledge@)
            + crate::pipeline::evaluation_ids(evaluations@) + crate::readiness::receipt_ids(verifications@)).contains(y),
        r.1@ == "Read "@ + decimal(r.0@.len()) + " existing durable input(s); no source objects were created or modified."@,
{
    let mut ids = crate::proposal_gen::observation_ids_of(observations);
    crate::proposal_gen::push_ids(&mut ids, &crate::pipeline::memory_record_ids_of(memory));
    crate::proposal_gen::push_ids(&mut ids, &crate::pipeline::knowledge_object_ids_of(knowledge));
    crate::proposal_gen::push_ids(&mut ids, &crate::pipeline::evaluation_ids_of(evaluations));
    crate::proposal_gen::push_ids(&mut ids, &crate::readiness::receipt_ids_of(verifications));
    crate::proposal_rules::dedupe_ids(&mut ids);
    let note = counted("Read ", ids.len(), " existing durable input(s); no source objects were created or modified.");
    (ids, note)
}

} // verus!
