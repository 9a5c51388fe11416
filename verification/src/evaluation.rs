//! The deterministic evaluation rules for a Measured Learning Outcome: proof
//! of implementation, dispute, per-result assessment, classification,
//! confidence, causal language, readiness, and the evaluation trace.

use vstd::prelude::*;
use crate::assess::{
    any_relation, assess_expected, assessed, contested_links, contradiction_from, contradictions_from_links,
    count_relation, has_relation, links_with, regression_from, regressions_from_links, texts, unresolved_for,
    unresolved_questions, ContradictionRecord, ExpectedResultAssessment,
};
use crate::evaluate::{
    any_material, breakdown_of, build_confidence_breakdown, classify_overall, classify_spec, default_assessments,
    defaulted, derive_follow_up, derive_lessons, follow_up_spec, implementation_is_proven, implementation_proven,
    kinds_of, lesson_for, measured_count, penalty_view, simple_breakdown, component_view, ConfidenceBreakdown,
    ConfidenceComponent, ConfidencePenalty, EvaluationResult,
};
use crate::ids::{derived_record_id, uuid_text};
use crate::model::Confidence;
use crate::outcome::{ExpectedResultSpec, ImplementationRecord, MeasuredLearningOutcome, OutcomeEvidenceLink};
use crate::text::{decimal, push_decimal, push_str, to_string};
use crate::vocab::{CausalLanguage, MaterialitySeverity, OutcomeClassification, OutcomeEvidenceRelation, ResultAssessmentKind};

verus! {

/// `true` or `false`, as `{}` prints a `bool`.
pub open spec fn bool_text(b: bool) -> Seq<char> {
    if b { "true"@ } else { "false"@ }
}

/// Trace line: the implementation that was loaded.
pub open spec fn loaded_step(imp: ImplementationRecord) -> Seq<char> {
    "Loaded implementation "@ + uuid_text(imp.id.value) + " status="@ + imp.status.text()
}

/// Trace line: whether the implementation is proven, and on what.
pub open spec fn proven_step(imp: ImplementationRecord, links: Seq<OutcomeEvidenceLink>, proven: bool) -> Seq<char> {
    "Implementation proven: "@ + bool_text(proven) + " (status="@ + imp.status.text() + ", evidence="@
        + decimal(imp.evidence_ids@.len() + links_with(links, OutcomeEvidenceRelation::ConfirmsImplementation).len())
        + ", refs="@ + decimal(imp.references@.len()) + ")"@
}

/// Trace line: the evidence inventory.
pub open spec fn evidence_step(links: Seq<OutcomeEvidenceLink>) -> Seq<char> {
    "Evidence: baseline="@ + bool_text(has_relation(links, OutcomeEvidenceRelation::IsBaseline))
        + " post="@ + bool_text(has_relation(links, OutcomeEvidenceRelation::IsPostChange))
        + " support="@ + decimal(links_with(links, OutcomeEvidenceRelation::SupportsExpectedResult).len())
        + " contradict="@ + decimal(links_with(links, OutcomeEvidenceRelation::ContradictsExpectedResult).len())
        + " regression="@ + decimal(links_with(links, OutcomeEvidenceRelation::IndicatesRegression).len())
}

/// Trace line: how one expected result was assessed.
pub open spec fn expected_step(e: ExpectedResultSpec, kind: ResultAssessmentKind) -> Seq<char> {
    "Expected '"@ + e.description@ + "': "@ + kind.text()
}

/// Trace lines of all expected results.
pub open spec fn expected_steps(expected: Seq<ExpectedResultSpec>, kinds: Seq<ResultAssessmentKind>) -> Seq<Seq<char>> {
    Seq::new(expected.len(), |i: int| expected_step(expected[i], kinds[i]))
}

/// The causal language an evaluated outcome may use.
pub open spec fn causal_spec(c: OutcomeClassification, final_permille: u32, has_baseline: bool, has_post: bool) -> CausalLanguage {
    if c == OutcomeClassification::Successful && final_permille >= 800 && has_baseline && has_post {
        CausalLanguage::ConsistentWithExpectedMechanism
    } else if has_post {
        CausalLanguage::CorrelatedWithImplementation
    } else {
        CausalLanguage::ObservedAfterImplementation
    }
}

/// No unresolved critical contradiction.
pub open spec fn no_open_critical(cs: Seq<ContradictionRecord>) -> bool {
    forall|i: int| 0 <= i < cs.len() ==> (#[trigger] cs[i]).resolved || cs[i].severity != MaterialitySeverity::Critical
}

/// An expected result left unmeasured because the implementation is not
/// proven.
pub open spec fn unproven_assessment(a: ExpectedResultAssessment, e: ExpectedResultSpec) -> bool {
    &&& a.expected_result_id == e.id
    &&& a.kind == ResultAssessmentKind::NotMeasured
    &&& a.reason@ == "Implementation not proven"@
    &&& a.confidence.permille == 200
    &&& a.evidence_ids@.len() == 0
    &&& !a.baseline_compared
    &&& a.contradictions@.len() == 0
    &&& texts(a.missing_evidence@) == seq!["implementation proof"@]
}

/// The evaluation of an outcome whose implementation is not proven.
pub open spec fn not_implemented_result(r: EvaluationResult, outcome: MeasuredLearningOutcome, imp: ImplementationRecord) -> bool {
    let expected = outcome.expected_results@;
    &&& r.classification == OutcomeClassification::NotImplemented
    &&& r.assessments@.len() == expected.len()
    &&& forall|i: int| 0 <= i < expected.len() ==> unproven_assessment(#[trigger] r.assessments@[i], expected[i])
    &&& r.confidence_breakdown.final_confidence.permille == 200
    &&& r.confidence_breakdown.components@.len() == 0
    &&& r.confidence_breakdown.penalties@.map_values(|p: ConfidencePenalty| penalty_view(p)) == seq![
        ("missing_implementation_proof"@, 500u32, "Implementation is not proven by status, references, or confirming evidence"@)]
    &&& r.confidence_breakdown.improvement_hints@.len() == 0
    &&& r.regressions@.len() == 0
    &&& r.contradictions@.len() == 0
    &&& texts(r.unresolved_questions@) == seq!["Implementation not proven; link references or confirming evidence"@]
    &&& r.causal_language == CausalLanguage::ObservedAfterImplementation
    &&& r.lessons@.len() == 0
    &&& texts(r.recommended_follow_up@) == seq!["Confirm external implementation with typed references and evidence"@]
    &&& !r.verification_ready
    &&& !r.blocked
    &&& texts(r.steps@) == seq![
        loaded_step(imp),
        proven_step(imp, outcome.evidence_links@, false),
        "Classification = NotImplemented (implementation not proven)"@]
}

/// The evaluation of an outcome whose proven implementation is disputed.
pub open spec fn invalidated_result(r: EvaluationResult, outcome: MeasuredLearningOutcome, imp: ImplementationRecord) -> bool {
    let expected = outcome.expected_results@;
    &&& r.classification == OutcomeClassification::Invalidated
    &&& r.assessments@.len() == expected.len()
    &&& forall|i: int| 0 <= i < expected.len() ==> defaulted(#[trigger] r.assessments@[i], expected[i],
        ResultAssessmentKind::Invalid, "Implementation disputed by evidence"@)
    &&& r.confidence_breakdown.final_confidence.permille == 300
    &&& r.confidence_breakdown.components@.map_values(|c: ConfidenceComponent| component_view(c)) == seq![
        ("overall"@, 300u32, "implementation disputed"@)]
    &&& r.confidence_breakdown.penalties@.len() == 0
    &&& r.confidence_breakdown.improvement_hints@.len() == 0
    &&& r.regressions@.len() == 0
    &&& r.contradictions@.len() == 0
    &&& texts(r.unresolved_questions@) == seq!["Resolve disputed implementation evidence"@]
    &&& r.causal_language == CausalLanguage::ObservedAfterImplementation
    &&& r.lessons@.len() == 0
    &&& texts(r.recommended_follow_up@) == seq!["Resolve implementation dispute before re-evaluation"@]
    &&& !r.verification_ready
    &&& !r.blocked
    &&& texts(r.steps@) == seq![
        loaded_step(imp),
        proven_step(imp, outcome.evidence_links@, true),
        evidence_step(outcome.evidence_links@),
        "Classification = Invalidated (implementation disputed)"@]
}

/// The evaluation of an outcome whose proven implementation is undisputed.
pub open spec fn evaluated_result(r: EvaluationResult, outcome: MeasuredLearningOutcome, imp: ImplementationRecord) -> bool {
    let links = outcome.evidence_links@;
    let expected = outcome.expected_results@;
    let has_baseline = has_relation(links, OutcomeEvidenceRelation::IsBaseline);
    let has_post = has_relation(links, OutcomeEvidenceRelation::IsPostChange);
    let kinds = kinds_of(r.assessments@);
    let fin = r.confidence_breakdown.final_confidence.permille;
    let regression_links = links_with(links, OutcomeEvidenceRelation::IndicatesRegression);
    let contested = contested_links(links, links);
    &&& r.assessments@.len() == expected.len()
    &&& forall|i: int| 0 <= i < expected.len() ==> assessed(#[trigger] r.assessments@[i], expected[i], links, has_baseline, has_post)
    &&& texts(r.unresolved_questions@) == unresolved_questions(expected, links, has_baseline, has_post)
    &&& r.regressions@.len() == regression_links.len()
    &&& forall|i: int| 0 <= i < regression_links.len() ==> regression_from(#[trigger] r.regressions@[i], regression_links[i])
    &&& r.contradictions@.len() == contested.len()
    &&& forall|i: int| 0 <= i < contested.len() ==> contradiction_from(#[trigger] r.contradictions@[i], contested[i])
    &&& forall|i: int| 0 <= i < r.regressions@.len() ==> (#[trigger] r.regressions@[i]).id == derived_record_id(outcome.id, 1, i as usize)
    &&& forall|i: int| 0 <= i < r.contradictions@.len() ==> (#[trigger] r.contradictions@[i]).id == derived_record_id(outcome.id, 2, i as usize)
    &&& r.lessons@[0].id == derived_record_id(outcome.id, 3, 0)
    &&& r.classification == classify_spec(kinds, any_material(r.regressions@), has_baseline, has_post)
    &&& breakdown_of(r.confidence_breakdown, imp, has_baseline, has_post, kinds, r.contradictions@.len(), r.regressions@.len())
    &&& r.causal_language == causal_spec(r.classification, fin, has_baseline, has_post)
    &&& r.blocked == (measured_count(kinds) == 0 && r.classification == OutcomeClassification::Inconclusive)
    &&& r.verification_ready == (!r.blocked && r.classification != OutcomeClassification::Pending
        && r.classification != OutcomeClassification::NotImplemented && fin >= 400 && no_open_critical(r.contradictions@))
    &&& r.lessons@.len() == 1
    &&& lesson_for(r.lessons@[0], r.classification, r.assessments@)
    &&& texts(r.recommended_follow_up@) == follow_up_spec(r.classification, texts(r.unresolved_questions@), r.regressions@)
    &&& texts(r.steps@) == seq![loaded_step(imp), proven_step(imp, links, true), evidence_step(links)]
        + expected_steps(expected, kinds)
        + seq![
            "Overall classification = "@ + r.classification.text(),
            "Causal language = "@ + r.causal_language.text(),
            "Verification ready: "@ + bool_text(r.verification_ready) + " (blocked="@ + bool_text(r.blocked) + ")"@]
}

/// Appends `true` or `false`.
fn push_bool(out: &mut Vec<char>, b: bool)
    ensures
        final(out)@ == old(out)@ + bool_text(b),
{
    if b {
        push_str(out, "true");
    } else {
        push_str(out, "false");
    }
}

/// The trace line of the loaded implementation.
fn loaded_step_text(imp: &ImplementationRecord) -> (s: String)
    ensures
        s@ == loaded_step(*imp),
{
    let mut out: Vec<char> = Vec::new();
    push_str(&mut out, "Loaded implementation ");
    let id = imp.id.to_chars();
    crate::text::push_chars(&mut out, &id);
    push_str(&mut out, " status=");
    push_str(&mut out, imp.status.as_str());
    to_string(&out)
}

/// The trace line of the implementation proof.
fn proven_step_text(imp: &ImplementationRecord, links: &Vec<OutcomeEvidenceLink>, proven: bool) -> (s: String)
    ensures
        s@ == proven_step(*imp, links@, proven),
{
    let confirms = count_relation(links, OutcomeEvidenceRelation::ConfirmsImplementation);
    let mut out: Vec<char> = Vec::new();
    push_str(&mut out, "Implementation proven: ");
    push_bool(&mut out, proven);
    push_str(&mut out, " (status=");
    push_str(&mut out, imp.status.as_str());
    push_str(&mut out, ", evidence=");
    push_decimal(&mut out, (imp.evidence_ids.len() as u128) + (confirms as u128));
    push_str(&mut out, ", refs=");
    push_decimal(&mut out, imp.references.len() as u128);
    push_str(&mut out, ")");
    to_string(&out)
}

/// The trace line of the evidence inventory.
fn evidence_step_text(links: &Vec<OutcomeEvidenceLink>, has_baseline: bool, has_post: bool) -> (s: String)
    requires
        has_baseline == has_relation(links@, OutcomeEvidenceRelation::IsBaseline),
        has_post == has_relation(links@, OutcomeEvidenceRelation::IsPostChange),
    ensures
        s@ == evidence_step(links@),
{
    let mut out: Vec<char> = Vec::new();
    push_str(&mut out, "Evidence: baseline=");
    push_bool(&mut out, has_baseline);
    push_str(&mut out, " post=");
    push_bool(&mut out, has_post);
    push_str(&mut out, " support=");
    push_decimal(&mut out, count_relation(links, OutcomeEvidenceRelation::SupportsExpectedResult) as u128);
    push_str(&mut out, " contradict=");
    push_decimal(&mut out, count_relation(links, OutcomeEvidenceRelation::ContradictsExpectedResult) as u128);
    push_str(&mut out, " regression=");
    push_decimal(&mut out, count_relation(links, OutcomeEvidenceRelation::IndicatesRegression) as u128);
    to_string(&out)
}

/// `prefix` followed by `tail`.
fn line(prefix: &str, tail: &str) -> (s: String)
    ensures
        s@ == prefix@ + tail@,
{
    let mut out: Vec<char> = Vec::new();
    push_str(&mut out, prefix);
    push_str(&mut out, tail);
    to_string(&out)
}

/// The evaluation of an outcome whose implementation is not proven.
fn not_implemented(outcome: &MeasuredLearningOutcome, steps: Vec<String>) -> (r: EvaluationResult)
    ensures
        r.steps@ == steps@,
        r.classification == OutcomeClassification::NotImplemented,
        r.assessments@.len() == outcome.expected_results@.len(),
        forall|i: int| 0 <= i < outcome.expected_results@.len() ==> unproven_assessment(#[trigger] r.assessments@[i], outcome.expected_results@[i]),
        r.confidence_breakdown.final_confidence.permille == 200,
        r.confidence_breakdown.components@.len() == 0,
        r.confidence_breakdown.penalties@.map_values(|p: ConfidencePenalty| penalty_view(p)) == seq![
            ("missing_implementation_proof"@, 500u32, "Implementation is not proven by status, references, or confirming evidence"@)],
        r.confidence_breakdown.improvement_hints@.len() == 0,
        r.regressions@.len() == 0,
        r.contradictions@.len() == 0,
        texts(r.unresolved_questions@) == seq!["Implementation not proven; link references or confirming evidence"@],
        r.causal_language == CausalLanguage::ObservedAfterImplementation,
        r.lessons@.len() == 0,
        texts(r.recommended_follow_up@) == seq!["Confirm external implementation with typed references and evidence"@],
        !r.verification_ready,
        !r.blocked,
{
    let mut breakdown = ConfidenceBreakdown::pending();
    breakdown.penalties.push(ConfidencePenalty {
        name: "missing_implementation_proof".to_owned(),
        amount: 500,
        explanation: "Implementation is not proven by status, references, or confirming evidence".to_owned(),
    });
    breakdown.final_confidence = Confidence::new(200);
    assert(breakdown.penalties@.map_values(|p: ConfidencePenalty| penalty_view(p)) =~= seq![
        ("missing_implementation_proof"@, 500u32, "Implementation is not proven by status, references, or confirming evidence"@)]);
    let mut assessments: Vec<ExpectedResultAssessment> = Vec::new();
    let mut i: usize = 0;
    while i < outcome.expected_results.len()
        invariant
            i <= outcome.expected_results@.len(),
            assessments@.len() == i,
            forall|q: int| 0 <= q < i ==> unproven_assessment(#[trigger] assessments@[q], outcome.expected_results@[q]),
        decreases outcome.expected_results.len() - i,
    {
        let mut missing: Vec<String> = Vec::new();
        missing.push("implementation proof".to_owned());
        assert(texts(missing@) =~= seq!["implementation proof"@]);
        assessments.push(ExpectedResultAssessment {
            expected_result_id: outcome.expected_results[i].id,
            kind: ResultAssessmentKind::NotMeasured,
            reason: "Implementation not proven".to_owned(),
            confidence: Confidence::new(200),
            evidence_ids: Vec::new(),
            baseline_compared: false,
            contradictions: Vec::new(),
            missing_evidence: missing,
        });
        i = i + 1;
    }
    let mut unresolved: Vec<String> = Vec::new();
    unresolved.push("Implementation not proven; link references or confirming evidence".to_owned());
    assert(texts(unresolved@) =~= seq!["Implementation not proven; link references or confirming evidence"@]);
    let mut follow: Vec<String> = Vec::new();
    follow.push("Confirm external implementation with typed references and evidence".to_owned());
    assert(texts(follow@) =~= seq!["Confirm external implementation with typed references and evidence"@]);
    EvaluationResult {
        classification: OutcomeClassification::NotImplemented,
        assessments,
        confidence_breakdown: breakdown,
        regressions: Vec::new(),
        contradictions: Vec::new(),
        unresolved_questions: unresolved,
        causal_language: CausalLanguage::ObservedAfterImplementation,
        lessons: Vec::new(),
        recommended_follow_up: follow,
        verification_ready: false,
        blocked: false,
        steps,
    }
}

/// The evaluation of an outcome whose implementation is disputed.
fn invalidated(outcome: &MeasuredLearningOutcome, steps: Vec<String>) -> (r: EvaluationResult)
    ensures
        r.steps@ == steps@,
        r.classification == OutcomeClassification::Invalidated,
        r.assessments@.len() == outcome.expected_results@.len(),
        forall|i: int| 0 <= i < outcome.expected_results@.len() ==> defaulted(#[trigger] r.assessments@[i], outcome.expected_results@[i],
            ResultAssessmentKind::Invalid, "Implementation disputed by evidence"@),
        r.confidence_breakdown.final_confidence.permille == 300,
        r.confidence_breakdown.components@.map_values(|c: ConfidenceComponent| component_view(c)) == seq![
            ("overall"@, 300u32, "implementation disputed"@)],
        r.confidence_breakdown.penalties@.len() == 0,
        r.confidence_breakdown.improvement_hints@.len() == 0,
        r.regressions@.len() == 0,
        r.contradictions@.len() == 0,
        texts(r.unresolved_questions@) == seq!["Resolve disputed implementation evidence"@],
        r.causal_language == CausalLanguage::ObservedAfterImplementation,
        r.lessons@.len() == 0,
        texts(r.recommended_follow_up@) == seq!["Resolve implementation dispute before re-evaluation"@],
        !r.verification_ready,
        !r.blocked,
{
    let mut unresolved: Vec<String> = Vec::new();
    unresolved.push("Resolve disputed implementation evidence".to_owned());
    assert(texts(unresolved@) =~= seq!["Resolve disputed implementation evidence"@]);
    let mut follow: Vec<String> = Vec::new();
    follow.push("Resolve implementation dispute before re-evaluation".to_owned());
    assert(texts(follow@) =~= seq!["Resolve implementation dispute before re-evaluation"@]);
    EvaluationResult {
        classification: OutcomeClassification::Invalidated,
        assessments: default_assessments(outcome, ResultAssessmentKind::Invalid, "Implementation disputed by evidence"),
        confidence_breakdown: simple_breakdown(300, "implementation disputed"),
        regressions: Vec::new(),
        contradictions: Vec::new(),
        unresolved_questions: unresolved,
        causal_language: CausalLanguage::ObservedAfterImplementation,
        lessons: Vec::new(),
        recommended_follow_up: follow,
        verification_ready: false,
        blocked: false,
        steps,
    }
}

/// Assesses every expected result; returns the assessments, the open
/// questions and the trace lines.
fn assess_all(outcome: &MeasuredLearningOutcome, has_baseline: bool, has_post: bool) -> (r: (Vec<ExpectedResultAssessment>, Vec<String>, Vec<String>))
    ensures
        r.0@.len() == outcome.expected_results@.len(),
        forall|i: int| 0 <= i < outcome.expected_results@.len() ==> assessed(#[trigger] r.0@[i], outcome.expected_results@[i],
            outcome.evidence_links@, has_baseline, has_post),
        texts(r.1@) == unresolved_questions(outcome.expected_results@, outcome.evidence_links@, has_baseline, has_post),
        texts(r.2@) == expected_steps(outcome.expected_results@, kinds_of(r.0@)),
{
    let ghost expected = outcome.expected_results@;
    let ghost links = outcome.evidence_links@;
    let mut assessments: Vec<ExpectedResultAssessment> = Vec::new();
    let mut unresolved: Vec<String> = Vec::new();
    let mut lines: Vec<String> = Vec::new();
    let mut i: usize = 0;
    while i < outcome.expected_results.len()
        invariant
            i <= expected.len(),
            expected == outcome.expected_results@,
            links == outcome.evidence_links@,
            assessments@.len() == i,
            forall|q: int| 0 <= q < i ==> assessed(#[trigger] assessments@[q], expected[q], links, has_baseline, has_post),
            texts(unresolved@) == unresolved_questions(expected.subrange(0, i as int), links, has_baseline, has_post),
            texts(lines@) == expected_steps(expected.subrange(0, i as int), kinds_of(assessments@)),
        decreases expected.len() - i,
    {
        let e = &outcome.expected_results[i];
        let (a, question) = assess_expected(e, &outcome.evidence_links, has_baseline, has_post);
        let ghost sub = expected.subrange(0, i + 1);
        assert(sub.drop_last() =~= expected.subrange(0, i as int));
        assert(sub.last() == *e);
        let ghost before_q = texts(unresolved@);
        match question {
            Some(q) => {
                unresolved.push(q);
                assert(texts(unresolved@) =~= before_q.push(q@));
            },
            None => {},
        }
        let ghost before_lines = texts(lines@);
        let ghost before_kinds = kinds_of(assessments@);
        let text = line("Expected '", e.description.as_str());
        let mut out: Vec<char> = Vec::new();
        push_str(&mut out, text.as_str());
        push_str(&mut out, "': ");
        push_str(&mut out, a.kind.as_str());
        let step = to_string(&out);
        lines.push(step);
        assessments.push(a);
        proof {
            assert(kinds_of(assessments@) =~= before_kinds.push(assessments@[i as int].kind));
            assert(texts(lines@) =~= before_lines.push(expected_step(*e, assessments@[i as int].kind)));
            assert(expected_steps(sub, kinds_of(assessments@)) =~= expected_steps(expected.subrange(0, i as int), before_kinds).push(
                expected_step(*e, assessments@[i as int].kind)));
        }
        i = i + 1;
    }
    assert(expected.subrange(0, expected.len() as int) =~= expected);
    (assessments, unresolved, lines)
}

/// Whether every contradiction is resolved or not critical.
fn contradictions_settled(cs: &Vec<ContradictionRecord>) -> (b: bool)
    ensures
        b == no_open_critical(cs@),
{
    let mut i: usize = 0;
    while i < cs.len()
        invariant
            i <= cs@.len(),
            forall|q: int| 0 <= q < i ==> (#[trigger] cs@[q]).resolved || cs@[q].severity != MaterialitySeverity::Critical,
        decreases cs.len() - i,
    {
        if !cs[i].resolved && cs[i].severity == MaterialitySeverity::Critical {
            return false;
        }
        i = i + 1;
    }
    true
}

/// Deterministic evaluation of a Measured Learning Outcome against the
/// evidence linked to it and the implementation it measures.
pub fn evaluate_outcome_deterministic(outcome: &MeasuredLearningOutcome, implementation: &ImplementationRecord) -> (r: EvaluationResult)
    ensures
        !implementation_proven(*implementation, outcome.evidence_links@) ==> not_implemented_result(r, *outcome, *implementation),
        implementation_proven(*implementation, outcome.evidence_links@)
            && has_relation(outcome.evidence_links@, OutcomeEvidenceRelation::DisputesImplementation)
            ==> invalidated_result(r, *outcome, *implementation),
        implementation_proven(*implementation, outcome.evidence_links@)
            && !has_relation(outcome.evidence_links@, OutcomeEvidenceRelation::DisputesImplementation)
            ==> evaluated_result(r, *outcome, *implementation),
{
    let links = &outcome.evidence_links;
    let mut steps: Vec<String> = Vec::new();
    steps.push(loaded_step_text(implementation));
    let proven = implementation_is_proven(implementation, outcome);
    steps.push(proven_step_text(implementation, links, proven));
    if !proven {
        steps.push("Classification = NotImplemented (implementation not proven)".to_owned());
        assert(texts(steps@) =~= seq![
            loaded_step(*implementation),
            proven_step(*implementation, links@, false),
            "Classification = NotImplemented (implementation not proven)"@]);
        return not_implemented(outcome, steps);
    }
    let has_baseline = any_relation(links, OutcomeEvidenceRelation::IsBaseline);
    let has_post = any_relation(links, OutcomeEvidenceRelation::IsPostChange);
    let disputes = any_relation(links, OutcomeEvidenceRelation::DisputesImplementation);
    steps.push(evidence_step_text(links, has_baseline, has_post));
    if disputes {
        steps.push("Classification = Invalidated (implementation disputed)".to_owned());
        assert(texts(steps@) =~= seq![
            loaded_step(*implementation),
            proven_step(*implementation, links@, true),
            evidence_step(links@),
            "Classification = Invalidated (implementation disputed)"@]);
        return invalidated(outcome, steps);
    }
    let ghost head = texts(steps@);
    assert(head =~= seq![loaded_step(*implementation), proven_step(*implementation, links@, true), evidence_step(links@)]);

    let (assessments, unresolved, lines) = assess_all(outcome, has_baseline, has_post);
    let regressions = regressions_from_links(links, outcome.id);
    let contradictions = contradictions_from_links(links, outcome.id);
    let classification = classify_overall(&assessments, &regressions, has_baseline, has_post);
    let breakdown = build_confidence_breakdown(implementation, has_baseline, has_post, &assessments, &regressions, &contradictions);
    let final_value = breakdown.final_confidence.value();
    let causal_language = if classification == OutcomeClassification::Successful && final_value >= 800 && has_baseline && has_post {
        CausalLanguage::ConsistentWithExpectedMechanism
    } else if has_post {
        CausalLanguage::CorrelatedWithImplementation
    } else {
        CausalLanguage::ObservedAfterImplementation
    };
    let lessons = derive_lessons(classification, &assessments, outcome.id);
    let follow = derive_follow_up(classification, &unresolved, &regressions);
    let measured = crate::evaluate::count_measured(&assessments);
    let blocked = measured == 0 && classification == OutcomeClassification::Inconclusive;
    let settled = contradictions_settled(&contradictions);
    let verification_ready = !blocked && classification != OutcomeClassification::Pending
        && classification != OutcomeClassification::NotImplemented && final_value >= 400 && settled;

    let mut j: usize = 0;
    while j < lines.len()
        invariant
            j <= lines@.len(),
            texts(steps@) == head + texts(lines@).subrange(0, j as int),
        decreases lines.len() - j,
    {
        let ghost before = texts(steps@);
        steps.push(lines[j].clone());
        assert(texts(steps@) =~= before.push(lines@[j as int]@));
        assert(texts(lines@).subrange(0, j + 1) =~= texts(lines@).subrange(0, j as int).push(lines@[j as int]@));
        j = j + 1;
    }
    assert(texts(lines@).subrange(0, lines@.len() as int) =~= texts(lines@));
    let ghost mid = texts(steps@);
    steps.push(line("Overall classification = ", classification.as_str()));
    steps.push(line("Causal language = ", causal_language.as_str()));
    let mut ready: Vec<char> = Vec::new();
    push_str(&mut ready, "Verification ready: ");
    push_bool(&mut ready, verification_ready);
    push_str(&mut ready, " (blocked=");
    push_bool(&mut ready, blocked);
    push_str(&mut ready, ")");
    steps.push(to_string(&ready));
    let r = EvaluationResult {
        classification,
        assessments,
        confidence_breakdown: breakdown,
        regressions,
        contradictions,
        unresolved_questions: unresolved,
        causal_language,
        lessons,
        recommended_follow_up: follow,
        verification_ready,
        blocked,
        steps,
    };
    proof {
        assert(texts(r.steps@) =~= mid + seq![
            "Overall classification = "@ + r.classification.text(),
            "Causal language = "@ + r.causal_language.text(),
            "Verification ready: "@ + bool_text(r.verification_ready) + " (blocked="@ + bool_text(r.blocked) + ")"@]);
        assert forall|i: int| 0 <= i < r.regressions@.len() implies (#[trigger] r.regressions@[i]).material by {
            assert(regression_from(r.regressions@[i], links_with(links@, OutcomeEvidenceRelation::IndicatesRegression)[i]));
        }
    }
    r
}


/// What `evaluate_outcome_deterministic` promises of its result.
pub open spec fn evaluation_of(r: EvaluationResult, outcome: MeasuredLearningOutcome, imp: ImplementationRecord) -> bool {
    &&& !implementation_proven(imp, outcome.evidence_links@) ==> not_implemented_result(r, outcome, imp)
    &&& implementation_proven(imp, outcome.evidence_links@) && has_relation(outcome.evidence_links@,
        OutcomeEvidenceRelation::DisputesImplementation) ==> invalidated_result(r, outcome, imp)
    &&& implementation_proven(imp, outcome.evidence_links@) && !has_relation(outcome.evidence_links@,
        OutcomeEvidenceRelation::DisputesImplementation) ==> evaluated_result(r, outcome, imp)
}

/// Evaluating the same outcome against the same implementation record twice
/// gives the same result: classification, per-result verdicts, confidence,
/// causal language, readiness, open questions, trace steps, and the
/// regression, contradiction and lesson records with their identifiers.
pub proof fn lemma_evaluation_deterministic(
    r1: EvaluationResult,
    r2: EvaluationResult,
    outcome: MeasuredLearningOutcome,
    imp: ImplementationRecord,
)
    requires
        evaluation_of(r1, outcome, imp),
        evaluation_of(r2, outcome, imp),
    ensures
        r1.classification == r2.classification,
        kinds_of(r1.assessments@) == kinds_of(r2.assessments@),
        r1.confidence_breakdown.final_confidence == r2.confidence_breakdown.final_confidence,
        r1.causal_language == r2.causal_language,
        r1.blocked == r2.blocked,
        r1.verification_ready == r2.verification_ready,
        texts(r1.unresolved_questions@) == texts(r2.unresolved_questions@),
        texts(r1.steps@) == texts(r2.steps@),
        r1.regressions@.len() == r2.regressions@.len(),
        r1.contradictions@.len() == r2.contradictions@.len(),
        r1.lessons@.len() == r2.lessons@.len(),
        forall|i: int| 0 <= i < r1.regressions@.len() ==> (#[trigger] r1.regressions@[i]).id == r2.regressions@[i].id,
        forall|i: int| 0 <= i < r1.contradictions@.len() ==> (#[trigger] r1.contradictions@[i]).id == r2.contradictions@[i].id,
        forall|i: int| 0 <= i < r1.lessons@.len() ==> (#[trigger] r1.lessons@[i]).id == r2.lessons@[i].id,
{
    let links = outcome.evidence_links@;
    let expected = outcome.expected_results@;
    if !implementation_proven(imp, links) {
        assert(kinds_of(r1.assessments@) =~= kinds_of(r2.assessments@)) by {
            assert forall|i: int| 0 <= i < expected.len() implies r1.assessments@[i].kind == r2.assessments@[i].kind by {
                assert(unproven_assessment(r1.assessments@[i], expected[i]));
                assert(unproven_assessment(r2.assessments@[i], expected[i]));
            }
        }
    } else if has_relation(links, OutcomeEvidenceRelation::DisputesImplementation) {
        assert(kinds_of(r1.assessments@) =~= kinds_of(r2.assessments@)) by {
            assert forall|i: int| 0 <= i < expected.len() implies r1.assessments@[i].kind == r2.assessments@[i].kind by {
                assert(defaulted(r1.assessments@[i], expected[i], ResultAssessmentKind::Invalid, "Implementation disputed by evidence"@));
                assert(defaulted(r2.assessments@[i], expected[i], ResultAssessmentKind::Invalid, "Implementation disputed by evidence"@));
            }
        }
    } else {
        let has_baseline = has_relation(links, OutcomeEvidenceRelation::IsBaseline);
        let has_post = has_relation(links, OutcomeEvidenceRelation::IsPostChange);
        assert(kinds_of(r1.assessments@) =~= kinds_of(r2.assessments@)) by {
            assert forall|i: int| 0 <= i < expected.len() implies r1.assessments@[i].kind == r2.assessments@[i].kind by {
                assert(assessed(r1.assessments@[i], expected[i], links, has_baseline, has_post));
                assert(assessed(r2.assessments@[i], expected[i], links, has_baseline, has_post));
            }
        }
        let regs = links_with(links, OutcomeEvidenceRelation::IndicatesRegression);
        assert(any_material(r1.regressions@) == any_material(r2.regressions@)) by {
            if any_material(r1.regressions@) {
                let i = choose|i: int| 0 <= i < r1.regressions@.len() && (#[trigger] r1.regressions@[i]).material;
                assert(regression_from(r2.regressions@[i], regs[i]));
            }
            if any_material(r2.regressions@) {
                let i = choose|i: int| 0 <= i < r2.regressions@.len() && (#[trigger] r2.regressions@[i]).material;
                assert(regression_from(r1.regressions@[i], regs[i]));
            }
        }
        let contested = contested_links(links, links);
        assert(no_open_critical(r1.contradictions@) && no_open_critical(r2.contradictions@)) by {
            assert forall|i: int| 0 <= i < r1.contradictions@.len() implies (#[trigger] r1.contradictions@[i]).resolved
                || r1.contradictions@[i].severity != MaterialitySeverity::Critical by {
                assert(contradiction_from(r1.contradictions@[i], contested[i]));
            }
            assert forall|i: int| 0 <= i < r2.contradictions@.len() implies (#[trigger] r2.contradictions@[i]).resolved
                || r2.contradictions@[i].severity != MaterialitySeverity::Critical by {
                assert(contradiction_from(r2.contradictions@[i], contested[i]));
            }
        }
    }
}

} // verus!
