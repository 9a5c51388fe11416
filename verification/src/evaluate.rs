//! Deterministic evaluation of a Measured Learning Outcome: overall
//! classification, confidence breakdown, lessons and follow-up.

use vstd::prelude::*;
use crate::assess::{
    any_relation, assess_expected, assessed, contested_links, contradiction_from, contradictions_from_links,
    count_relation, has_relation, links_with, regression_from, regressions_from_links, texts,
    unresolved_questions, ContradictionRecord, ExpectedResultAssessment, LessonRecord, RegressionRecord,
};
use crate::ids::{derived_record_id, record_id, uuid_text, ObjectId};
use crate::model::Confidence;
use crate::outcome::{ExpectedResultSpec, ImplementationRecord, MeasuredLearningOutcome, OutcomeEvidenceLink};
use crate::text::{decimal, push_chars, push_decimal, push_str, to_string};
use crate::vocab::{
    CausalLanguage, ImplementationSource, ImplementationStatus, MaterialitySeverity, OutcomeClassification,
    OutcomeEvidenceRelation, ResultAssessmentKind,
};

verus! {

/// One weighted input of a confidence figure (value in thousandths).
pub struct ConfidenceComponent {
    pub name: String,
    pub value: u32,
    pub explanation: String,
}

/// A deduction from a confidence figure (amount in thousandths).
pub struct ConfidencePenalty {
    pub name: String,
    pub amount: u32,
    pub explanation: String,
}

/// How a confidence figure was reached.
pub struct ConfidenceBreakdown {
    pub final_confidence: Confidence,
    pub components: Vec<ConfidenceComponent>,
    pub penalties: Vec<ConfidencePenalty>,
    pub improvement_hints: Vec<String>,
}

/// A component as (name, value, explanation).
pub open spec fn component_view(c: ConfidenceComponent) -> (Seq<char>, u32, Seq<char>) {
    (c.name@, c.value, c.explanation@)
}

/// A penalty as (name, amount, explanation).
pub open spec fn penalty_view(p: ConfidencePenalty) -> (Seq<char>, u32, Seq<char>) {
    (p.name@, p.amount, p.explanation@)
}

impl ConfidenceBreakdown {
    /// A breakdown with nothing measured yet: zero confidence, no
    /// components, penalties or hints.
    pub fn pending() -> (b: ConfidenceBreakdown)
        ensures
            b.final_confidence.permille == 0,
            b.components@.len() == 0,
            b.penalties@.len() == 0,
            b.improvement_hints@.len() == 0,
    {
        ConfidenceBreakdown {
            final_confidence: Confidence::new(0),
            components: Vec::new(),
            penalties: Vec::new(),
            improvement_hints: Vec::new(),
        }
    }
}

/// The result of evaluating a Measured Learning Outcome.
pub struct EvaluationResult {
    pub classification: OutcomeClassification,
    pub assessments: Vec<ExpectedResultAssessment>,
    pub confidence_breakdown: ConfidenceBreakdown,
    pub regressions: Vec<RegressionRecord>,
    pub contradictions: Vec<ContradictionRecord>,
    pub unresolved_questions: Vec<String>,
    pub causal_language: CausalLanguage,
    pub lessons: Vec<LessonRecord>,
    pub recommended_follow_up: Vec<String>,
    pub verification_ready: bool,
    pub blocked: bool,
    pub steps: Vec<String>,
}

/// The implementation is proven: not withdrawn or superseded, and it has
/// references, evidence, a confirming link, an evidence-linked or
/// ready status, or a non-empty report from a concrete change source.
pub open spec fn implementation_proven(imp: ImplementationRecord, links: Seq<OutcomeEvidenceLink>) -> bool {
    if imp.status == ImplementationStatus::Withdrawn || imp.status == ImplementationStatus::Superseded {
        false
    } else {
        ||| imp.references@.len() > 0
        ||| imp.evidence_ids@.len() > 0
        ||| has_relation(links, OutcomeEvidenceRelation::ConfirmsImplementation)
        ||| imp.status == ImplementationStatus::EvidenceLinked
        ||| imp.status == ImplementationStatus::ReadyForEvaluation
        ||| (imp.status == ImplementationStatus::Reported && imp.summary@.len() > 0 && (
            imp.source == ImplementationSource::GitCommit || imp.source == ImplementationSource::PullRequest
                || imp.source == ImplementationSource::Deployment || imp.source == ImplementationSource::Patch))
    }
}

/// Whether the implementation is proven for this outcome.
pub fn implementation_is_proven(implementation: &ImplementationRecord, outcome: &MeasuredLearningOutcome) -> (b: bool)
    ensures
        b == implementation_proven(*implementation, outcome.evidence_links@),
{
    if implementation.status == ImplementationStatus::Withdrawn || implementation.status == ImplementationStatus::Superseded {
        return false;
    }
    let confirms = any_relation(&outcome.evidence_links, OutcomeEvidenceRelation::ConfirmsImplementation);
    let concrete_source = implementation.source == ImplementationSource::GitCommit
        || implementation.source == ImplementationSource::PullRequest
        || implementation.source == ImplementationSource::Deployment
        || implementation.source == ImplementationSource::Patch;
    implementation.references.len() > 0
        || implementation.evidence_ids.len() > 0
        || confirms
        || implementation.status == ImplementationStatus::EvidenceLinked
        || implementation.status == ImplementationStatus::ReadyForEvaluation
        || (implementation.status == ImplementationStatus::Reported && !implementation.summary.as_str().is_empty() && concrete_source)
}

/// The assessment kinds, in order.
pub open spec fn kinds_of(assessments: Seq<ExpectedResultAssessment>) -> Seq<ResultAssessmentKind> {
    assessments.map_values(|a: ExpectedResultAssessment| a.kind)
}

/// How many of `kinds` equal `k`.
pub open spec fn count_kind(kinds: Seq<ResultAssessmentKind>, k: ResultAssessmentKind) -> nat
    decreases kinds.len(),
{
    if kinds.len() == 0 {
        0
    } else {
        count_kind(kinds.drop_last(), k) + if kinds.last() == k { 1nat } else { 0nat }
    }
}

/// Some regression is material.
pub open spec fn any_material(regressions: Seq<RegressionRecord>) -> bool {
    exists|i: int| 0 <= i < regressions.len() && (#[trigger] regressions[i]).material
}

/// The overall classification policy table.
pub open spec fn classify_spec(kinds: Seq<ResultAssessmentKind>, material: bool, has_baseline: bool, has_post: bool) -> OutcomeClassification {
    let satisfied = count_kind(kinds, ResultAssessmentKind::Satisfied);
    let partial = count_kind(kinds, ResultAssessmentKind::PartiallySatisfied);
    let failed = count_kind(kinds, ResultAssessmentKind::NotSatisfied);
    let regressed = count_kind(kinds, ResultAssessmentKind::Regressed);
    let open = count_kind(kinds, ResultAssessmentKind::Inconclusive) + count_kind(kinds, ResultAssessmentKind::NotMeasured);
    if material || regressed > 0 {
        if satisfied + partial > 0 {
            OutcomeClassification::Mixed
        } else {
            OutcomeClassification::Regressed
        }
    } else if kinds.len() == 0 {
        OutcomeClassification::Inconclusive
    } else if satisfied == kinds.len() {
        OutcomeClassification::Successful
    } else if failed > 0 && satisfied + partial > 0 {
        OutcomeClassification::Mixed
    } else if failed > 0 {
        OutcomeClassification::Unsuccessful
    } else if partial > 0 {
        OutcomeClassification::PartiallySuccessful
    } else if open > 0 {
        if !has_baseline && !has_post {
            OutcomeClassification::Inconclusive
        } else if satisfied + partial > 0 && failed == 0 {
            OutcomeClassification::PartiallySuccessful
        } else {
            OutcomeClassification::Inconclusive
        }
    } else {
        OutcomeClassification::Inconclusive
    }
}

/// The overall classification of the assessed expected results.
pub fn classify_overall(
    assessments: &Vec<ExpectedResultAssessment>,
    regressions: &Vec<RegressionRecord>,
    has_baseline: bool,
    has_post: bool,
) -> (c: OutcomeClassification)
    ensures
        c == classify_spec(kinds_of(assessments@), any_material(regressions@), has_baseline, has_post),
{
    let mut material = false;
    let mut r: usize = 0;
    while r < regressions.len()
        invariant
            r <= regressions@.len(),
            material == exists|q: int| 0 <= q < r && (#[trigger] regressions@[q]).material,
        decreases regressions.len() - r,
    {
        if regressions[r].material {
            material = true;
        }
        r = r + 1;
    }
    let ghost kinds = kinds_of(assessments@);
    let mut satisfied: usize = 0;
    let mut partial: usize = 0;
    let mut failed: usize = 0;
    let mut regressed: usize = 0;
    let mut open: usize = 0;
    let mut i: usize = 0;
    while i < assessments.len()
        invariant
            i <= assessments@.len(),
            kinds == kinds_of(assessments@),
            satisfied + partial + failed + regressed + open <= i,
            satisfied == count_kind(kinds.subrange(0, i as int), ResultAssessmentKind::Satisfied),
            partial == count_kind(kinds.subrange(0, i as int), ResultAssessmentKind::PartiallySatisfied),
            failed == count_kind(kinds.subrange(0, i as int), ResultAssessmentKind::NotSatisfied),
            regressed == count_kind(kinds.subrange(0, i as int), ResultAssessmentKind::Regressed),
            open == count_kind(kinds.subrange(0, i as int), ResultAssessmentKind::Inconclusive)
                + count_kind(kinds.subrange(0, i as int), ResultAssessmentKind::NotMeasured),
        decreases assessments.len() - i,
    {
        assert(kinds.subrange(0, i + 1).drop_last() =~= kinds.subrange(0, i as int));
        assert(kinds.subrange(0, i + 1).last() == assessments@[i as int].kind);
        match assessments[i].kind {
            ResultAssessmentKind::Satisfied => { satisfied = satisfied + 1; },
            ResultAssessmentKind::PartiallySatisfied => { partial = partial + 1; },
            ResultAssessmentKind::NotSatisfied => { failed = failed + 1; },
            ResultAssessmentKind::Regressed => { regressed = regressed + 1; },
            ResultAssessmentKind::Inconclusive | ResultAssessmentKind::NotMeasured => { open = open + 1; },
            ResultAssessmentKind::Invalid => {},
        }
        i = i + 1;
    }
    assert(kinds.subrange(0, assessments@.len() as int) =~= kinds);
    let n = assessments.len();
    if material || regressed > 0 {
        if satisfied + partial > 0 {
            OutcomeClassification::Mixed
        } else {
            OutcomeClassification::Regressed
        }
    } else if n == 0 {
        OutcomeClassification::Inconclusive
    } else if satisfied == n {
        OutcomeClassification::Successful
    } else if failed > 0 && satisfied + partial > 0 {
        OutcomeClassification::Mixed
    } else if failed > 0 {
        OutcomeClassification::Unsuccessful
    } else if partial > 0 {
        OutcomeClassification::PartiallySuccessful
    } else if open > 0 {
        if !has_baseline && !has_post {
            OutcomeClassification::Inconclusive
        } else if satisfied + partial > 0 && failed == 0 {
            OutcomeClassification::PartiallySuccessful
        } else {
            OutcomeClassification::Inconclusive
        }
    } else {
        OutcomeClassification::Inconclusive
    }
}

/// Quality (thousandths) of the implementation proof.
pub open spec fn implementation_quality(references: nat, evidence: nat) -> u32 {
    if references > 0 && evidence > 0 {
        900
    } else if references > 0 || evidence > 0 {
        700
    } else {
        400
    }
}

/// Share (thousandths, rounded down) of measured expected results.
pub open spec fn completeness_permille(measured: nat, total: nat) -> nat {
    if total == 0 {
        0
    } else {
        measured * 1000 / total
    }
}

/// The six confidence components.
pub open spec fn components_spec(
    quality: u32,
    has_baseline: bool,
    has_post: bool,
    measured: nat,
    total: nat,
    contradictions: nat,
    regressions: nat,
) -> Seq<(Seq<char>, u32, Seq<char>)> {
    seq![
        ("implementation_evidence_quality"@, quality, "Quality of implementation proof via references and evidence"@),
        ("baseline_evidence_quality"@, if has_baseline { 850u32 } else { 200u32 },
            if has_baseline { "Baseline evidence is present"@ } else { "Baseline evidence is missing"@ }),
        ("post_change_evidence_quality"@, if has_post { 850u32 } else { 250u32 },
            if has_post { "Post-change evidence is present"@ } else { "Post-change evidence is missing"@ }),
        ("verification_completeness"@, completeness_permille(measured, total) as u32,
            decimal(measured) + "/"@ + decimal(total) + " expected results measured"@),
        ("evidence_consistency"@, if contradictions == 0 { 900u32 } else { 400u32 },
            decimal(contradictions) + " unresolved contradiction(s)"@),
        ("regression_coverage"@, if regressions == 0 { 800u32 } else { 500u32 },
            decimal(regressions) + " regression(s) recorded"@),
    ]
}

/// The penalties for missing baseline, missing post-change evidence and
/// unresolved contradictions, in that order.
pub open spec fn penalties_spec(has_baseline: bool, has_post: bool, contradicted: bool) -> Seq<(Seq<char>, u32, Seq<char>)> {
    let a: Seq<(Seq<char>, u32, Seq<char>)> = if !has_baseline {
        seq![("missing_baseline"@, 150u32, "Missing baseline reduces confidence"@)]
    } else {
        Seq::empty()
    };
    let b = if !has_post {
        a.push(("missing_post_change"@, 150u32, "Missing post-change evidence reduces confidence"@))
    } else {
        a
    };
    if contradicted {
        b.push(("unresolved_contradictions"@, 100u32, "Unresolved contradictions reduce confidence"@))
    } else {
        b
    }
}

/// The improvement hints, in penalty order.
pub open spec fn hints_spec(has_baseline: bool, has_post: bool, contradicted: bool) -> Seq<Seq<char>> {
    let a: Seq<Seq<char>> = if !has_baseline { seq!["Add baseline evidence"@] } else { Seq::empty() };
    let b = if !has_post { a.push("Add post-change evidence"@) } else { a };
    if contradicted { b.push("Resolve contradictions"@) } else { b }
}

/// The final confidence (thousandths): the mean of the six components,
/// rounded down, less the penalties, clamped to `[0, 1000]`.
pub open spec fn final_permille(
    quality: u32,
    has_baseline: bool,
    has_post: bool,
    measured: nat,
    total: nat,
    contradictions: nat,
    regressions: nat,
) -> nat {
    let sum = quality + (if has_baseline { 850nat } else { 200nat }) + (if has_post { 850nat } else { 250nat })
        + completeness_permille(measured, total) + (if contradictions == 0 { 900nat } else { 400nat })
        + (if regressions == 0 { 800nat } else { 500nat });
    let mean = sum / 6;
    let penalty = (if has_baseline { 0nat } else { 150nat }) + (if has_post { 0nat } else { 150nat })
        + (if contradictions == 0 { 0nat } else { 100nat });
    if mean < penalty {
        0
    } else if mean - penalty > 1000 {
        1000
    } else {
        (mean - penalty) as nat
    }
}

/// Expected results that were measured at all.
pub open spec fn measured_count(kinds: Seq<ResultAssessmentKind>) -> nat {
    (kinds.len() - count_kind(kinds, ResultAssessmentKind::NotMeasured)) as nat
}

/// `b` is the confidence breakdown of an evaluation with these inputs.
pub open spec fn breakdown_of(
    b: ConfidenceBreakdown,
    implementation: ImplementationRecord,
    has_baseline: bool,
    has_post: bool,
    kinds: Seq<ResultAssessmentKind>,
    contradictions: nat,
    regressions: nat,
) -> bool {
    let quality = implementation_quality(implementation.references@.len(), implementation.evidence_ids@.len());
    let measured = measured_count(kinds);
    &&& b.final_confidence.permille == final_permille(quality, has_baseline, has_post, measured, kinds.len(), contradictions, regressions)
    &&& b.components@.map_values(|c: ConfidenceComponent| component_view(c))
        == components_spec(quality, has_baseline, has_post, measured, kinds.len(), contradictions, regressions)
    &&& b.penalties@.map_values(|p: ConfidencePenalty| penalty_view(p)) == penalties_spec(has_baseline, has_post, contradictions > 0)
    &&& texts(b.improvement_hints@) == hints_spec(has_baseline, has_post, contradictions > 0)
}

/// A named text.
fn text_of(s: &str) -> (r: String)
    ensures
        r@ == s@,
{
    s.to_owned()
}

/// `n` in decimal, followed by `suffix`.
fn counted(n: u128, suffix: &str) -> (r: String)
    ensures
        r@ == decimal(n as nat) + suffix@,
{
    let mut out: Vec<char> = Vec::new();
    push_decimal(&mut out, n);
    push_str(&mut out, suffix);
    to_string(&out)
}

/// Counts the assessments that were measured.
pub fn count_measured(assessments: &Vec<ExpectedResultAssessment>) -> (n: usize)
    ensures
        n == measured_count(kinds_of(assessments@)),
{
    let ghost kinds = kinds_of(assessments@);
    let mut not_measured: usize = 0;
    let mut i: usize = 0;
    while i < assessments.len()
        invariant
            i <= assessments@.len(),
            kinds == kinds_of(assessments@),
            not_measured <= i,
            not_measured == count_kind(kinds.subrange(0, i as int), ResultAssessmentKind::NotMeasured),
        decreases assessments.len() - i,
    {
        assert(kinds.subrange(0, i + 1).drop_last() =~= kinds.subrange(0, i as int));
        assert(kinds.subrange(0, i + 1).last() == assessments@[i as int].kind);
        if assessments[i].kind == ResultAssessmentKind::NotMeasured {
            not_measured = not_measured + 1;
        }
        i = i + 1;
    }
    assert(kinds.subrange(0, assessments@.len() as int) =~= kinds);
    assessments.len() - not_measured
}

/// How many of `kinds` equal `k` is at most their number.
pub proof fn lemma_count_kind_bound(kinds: Seq<ResultAssessmentKind>, k: ResultAssessmentKind)
    ensures
        count_kind(kinds, k) <= kinds.len(),
    decreases kinds.len(),
{
    if kinds.len() > 0 {
        lemma_count_kind_bound(kinds.drop_last(), k);
    }
}

/// Completeness never exceeds one.
pub proof fn lemma_completeness_bound(measured: nat, total: nat)
    requires
        measured <= total,
    ensures
        completeness_permille(measured, total) <= 1000,
{
    if total > 0 {
        assert(measured * 1000 / total <= 1000) by (nonlinear_arith)
            requires
                measured <= total,
                total > 0,
        ;
    }
}

/// Completeness (thousandths) of `measured` out of `total`.
fn completeness_value(measured: usize, total: usize) -> (c: u32)
    requires
        measured <= total,
    ensures
        c as nat == completeness_permille(measured as nat, total as nat),
        c <= 1000,
{
    proof {
        lemma_completeness_bound(measured as nat, total as nat);
    }
    if total == 0 {
        0
    } else {
        let m: u128 = (measured as u128) * 1000;
        (m / (total as u128)) as u32
    }
}

/// The six confidence components.
fn breakdown_components(
    quality: u32,
    has_baseline: bool,
    has_post: bool,
    measured: usize,
    total: usize,
    contradictions: usize,
    regressions: usize,
) -> (cs: Vec<ConfidenceComponent>)
    requires
        measured <= total,
    ensures
        cs@.map_values(|c: ConfidenceComponent| component_view(c))
            == components_spec(quality, has_baseline, has_post, measured as nat, total as nat, contradictions as nat, regressions as nat),
{
    let completeness = completeness_value(measured, total);
    let mut cs: Vec<ConfidenceComponent> = Vec::new();
    cs.push(ConfidenceComponent {
        name: text_of("implementation_evidence_quality"),
        value: quality,
        explanation: text_of("Quality of implementation proof via references and evidence"),
    });
    cs.push(ConfidenceComponent {
        name: text_of("baseline_evidence_quality"),
        value: if has_baseline { 850 } else { 200 },
        explanation: if has_baseline { text_of("Baseline evidence is present") } else { text_of("Baseline evidence is missing") },
    });
    cs.push(ConfidenceComponent {
        name: text_of("post_change_evidence_quality"),
        value: if has_post { 850 } else { 250 },
        explanation: if has_post { text_of("Post-change evidence is present") } else { text_of("Post-change evidence is missing") },
    });
    let mut ratio: Vec<char> = Vec::new();
    push_decimal(&mut ratio, measured as u128);
    push_str(&mut ratio, "/");
    push_decimal(&mut ratio, total as u128);
    push_str(&mut ratio, " expected results measured");
    cs.push(ConfidenceComponent {
        name: text_of("verification_completeness"),
        value: completeness,
        explanation: to_string(&ratio),
    });
    cs.push(ConfidenceComponent {
        name: text_of("evidence_consistency"),
        value: if contradictions == 0 { 900 } else { 400 },
        explanation: counted(contradictions as u128, " unresolved contradiction(s)"),
    });
    cs.push(ConfidenceComponent {
        name: text_of("regression_coverage"),
        value: if regressions == 0 { 800 } else { 500 },
        explanation: counted(regressions as u128, " regression(s) recorded"),
    });
    assert(cs@.map_values(|c: ConfidenceComponent| component_view(c))
        =~= components_spec(quality, has_baseline, has_post, measured as nat, total as nat, contradictions as nat, regressions as nat));
    cs
}

/// The penalties and improvement hints.
fn breakdown_penalties(has_baseline: bool, has_post: bool, contradicted: bool) -> (r: (Vec<ConfidencePenalty>, Vec<String>))
    ensures
        r.0@.map_values(|p: ConfidencePenalty| penalty_view(p)) == penalties_spec(has_baseline, has_post, contradicted),
        texts(r.1@) == hints_spec(has_baseline, has_post, contradicted),
{
    let mut penalties: Vec<ConfidencePenalty> = Vec::new();
    let mut hints: Vec<String> = Vec::new();
    if !has_baseline {
        penalties.push(ConfidencePenalty {
            name: text_of("missing_baseline"),
            amount: 150,
            explanation: text_of("Missing baseline reduces confidence"),
        });
        hints.push(text_of("Add baseline evidence"));
    }
    let ghost p1 = penalties@.map_values(|p: ConfidencePenalty| penalty_view(p));
    let ghost h1 = texts(hints@);
    assert(p1 =~= if !has_baseline { seq![("missing_baseline"@, 150u32, "Missing baseline reduces confidence"@)] } else { Seq::empty() });
    assert(h1 =~= if !has_baseline { seq!["Add baseline evidence"@] } else { Seq::empty() });
    if !has_post {
        penalties.push(ConfidencePenalty {
            name: text_of("missing_post_change"),
            amount: 150,
            explanation: text_of("Missing post-change evidence reduces confidence"),
        });
        hints.push(text_of("Add post-change evidence"));
        assert(penalties@.map_values(|p: ConfidencePenalty| penalty_view(p)) =~= p1.push(
            ("missing_post_change"@, 150u32, "Missing post-change evidence reduces confidence"@)));
        assert(texts(hints@) =~= h1.push("Add post-change evidence"@));
    }
    let ghost p2 = penalties@.map_values(|p: ConfidencePenalty| penalty_view(p));
    let ghost h2 = texts(hints@);
    if contradicted {
        penalties.push(ConfidencePenalty {
            name: text_of("unresolved_contradictions"),
            amount: 100,
            explanation: text_of("Unresolved contradictions reduce confidence"),
        });
        hints.push(text_of("Resolve contradictions"));
        assert(penalties@.map_values(|p: ConfidencePenalty| penalty_view(p)) =~= p2.push(
            ("unresolved_contradictions"@, 100u32, "Unresolved contradictions reduce confidence"@)));
        assert(texts(hints@) =~= h2.push("Resolve contradictions"@));
    }
    (penalties, hints)
}

/// The final confidence (thousandths) from the component inputs.
fn final_confidence_value(
    quality: u32,
    has_baseline: bool,
    has_post: bool,
    completeness: u32,
    measured: usize,
    total: usize,
    contradictions: usize,
    regressions: usize,
) -> (v: u32)
    requires
        quality <= 1000,
        completeness as nat == completeness_permille(measured as nat, total as nat),
        completeness <= 1000,
    ensures
        v == final_permille(quality, has_baseline, has_post, measured as nat, total as nat, contradictions as nat, regressions as nat),
{
    let sum: u32 = quality + (if has_baseline { 850u32 } else { 200u32 }) + (if has_post { 850u32 } else { 250u32 })
        + completeness + (if contradictions == 0 { 900u32 } else { 400u32 })
        + (if regressions == 0 { 800u32 } else { 500u32 });
    let mean = sum / 6;
    let penalty: u32 = (if has_baseline { 0u32 } else { 150u32 }) + (if has_post { 0u32 } else { 150u32 })
        + (if contradictions == 0 { 0u32 } else { 100u32 });
    if mean < penalty {
        0
    } else if mean - penalty > 1000 {
        1000
    } else {
        mean - penalty
    }
}

/// Builds the confidence breakdown of an evaluation.
pub fn build_confidence_breakdown(
    implementation: &ImplementationRecord,
    has_baseline: bool,
    has_post: bool,
    assessments: &Vec<ExpectedResultAssessment>,
    regressions: &Vec<RegressionRecord>,
    contradictions: &Vec<ContradictionRecord>,
) -> (b: ConfidenceBreakdown)
    ensures
        breakdown_of(b, *implementation, has_baseline, has_post, kinds_of(assessments@), contradictions@.len(), regressions@.len()),
{
    let refs = implementation.references.len();
    let evid = implementation.evidence_ids.len();
    let quality: u32 = if refs > 0 && evid > 0 {
        900
    } else if refs > 0 || evid > 0 {
        700
    } else {
        400
    };
    let measured = count_measured(assessments);
    let total = assessments.len();
    proof {
        lemma_count_kind_bound(kinds_of(assessments@), ResultAssessmentKind::NotMeasured);
    }
    let components = breakdown_components(quality, has_baseline, has_post, measured, total, contradictions.len(), regressions.len());
    let (penalties, hints) = breakdown_penalties(has_baseline, has_post, contradictions.len() > 0);
    let completeness = completeness_value(measured, total);
    let final_value = final_confidence_value(quality, has_baseline, has_post, completeness, measured, total, contradictions.len(), regressions.len());
    ConfidenceBreakdown {
        final_confidence: Confidence::new(final_value as u64),
        components,
        penalties,
        improvement_hints: hints,
    }
}

/// A breakdown of a single overall figure.
pub fn simple_breakdown(value: u32, reason: &str) -> (b: ConfidenceBreakdown)
    requires
        value <= 1000,
    ensures
        b.final_confidence.permille == value,
        b.components@.map_values(|c: ConfidenceComponent| component_view(c)) == seq![("overall"@, value, reason@)],
        b.penalties@.len() == 0,
        b.improvement_hints@.len() == 0,
{
    let mut components: Vec<ConfidenceComponent> = Vec::new();
    components.push(ConfidenceComponent { name: text_of("overall"), value, explanation: text_of(reason) });
    assert(components@.map_values(|c: ConfidenceComponent| component_view(c)) =~= seq![("overall"@, value, reason@)]);
    ConfidenceBreakdown {
        final_confidence: Confidence::new(value as u64),
        components,
        penalties: Vec::new(),
        improvement_hints: Vec::new(),
    }
}

/// `a` assesses expected result `e` as `kind` for `reason`, with no evidence
/// (confidence 0.3).
pub open spec fn defaulted(a: ExpectedResultAssessment, e: ExpectedResultSpec, kind: ResultAssessmentKind, reason: Seq<char>) -> bool {
    &&& a.expected_result_id == e.id
    &&& a.kind == kind
    &&& a.reason@ == reason
    &&& a.confidence.permille == 300
    &&& a.evidence_ids@.len() == 0
    &&& !a.baseline_compared
    &&& a.contradictions@.len() == 0
    &&& a.missing_evidence@.len() == 0
}

/// One assessment of `kind` for `reason` per expected result of the outcome.
pub fn default_assessments(outcome: &MeasuredLearningOutcome, kind: ResultAssessmentKind, reason: &str) -> (r: Vec<ExpectedResultAssessment>)
    ensures
        r@.len() == outcome.expected_results@.len(),
        forall|i: int| 0 <= i < r@.len() ==> defaulted(#[trigger] r@[i], outcome.expected_results@[i], kind, reason@),
{
    let mut r: Vec<ExpectedResultAssessment> = Vec::new();
    let mut i: usize = 0;
    while i < outcome.expected_results.len()
        invariant
            i <= outcome.expected_results@.len(),
            r@.len() == i,
            forall|q: int| 0 <= q < i ==> defaulted(#[trigger] r@[q], outcome.expected_results@[q], kind, reason@),
        decreases outcome.expected_results.len() - i,
    {
        r.push(ExpectedResultAssessment {
            expected_result_id: outcome.expected_results[i].id,
            kind,
            reason: text_of(reason),
            confidence: Confidence::new(300),
            evidence_ids: Vec::new(),
            baseline_compared: false,
            contradictions: Vec::new(),
            missing_evidence: Vec::new(),
        });
        i = i + 1;
    }
    r
}

/// The one-line summary of a lesson drawn from an outcome.
pub open spec fn lesson_summary(c: OutcomeClassification) -> Seq<char> {
    match c {
        OutcomeClassification::Successful => "Expected results were satisfied after implementation"@,
        OutcomeClassification::PartiallySuccessful => "Some expected results were satisfied with bounded gaps"@,
        OutcomeClassification::Mixed => "Benefits and harms coexisted after implementation"@,
        OutcomeClassification::Unsuccessful => "Required expectations were not satisfied"@,
        OutcomeClassification::Regressed => "Material regression was observed after implementation"@,
        OutcomeClassification::Inconclusive => "Evidence was insufficient for a firm conclusion"@,
        OutcomeClassification::NotImplemented => "Implementation was not proven"@,
        OutcomeClassification::Invalidated => "Measurement assumptions were invalidated"@,
        OutcomeClassification::Pending => "Outcome not yet evaluated"@,
    }
}

/// The condition a lesson records for one assessment: `<id>: <kind>`.
pub open spec fn lesson_condition(a: ExpectedResultAssessment) -> Seq<char> {
    uuid_text(a.expected_result_id.value) + ": "@ + a.kind.text()
}

/// `l` is the lesson drawn from an outcome classified `c` with these
/// assessments.
pub open spec fn lesson_for(l: LessonRecord, c: OutcomeClassification, assessments: Seq<ExpectedResultAssessment>) -> bool {
    &&& l.summary@ == lesson_summary(c)
    &&& texts(l.conditions@) == assessments.map_values(|a: ExpectedResultAssessment| lesson_condition(a))
    &&& l.evidence_strength@ == "Deterministic assessment from linked evidence"@
    &&& l.proposal_category is None
    &&& texts(l.applicability@) == seq!["Applies only under similar evidence and scope conditions"@]
    &&& l.exceptions@.len() == 0
}

/// The lesson summary text (exec).
fn lesson_summary_text(c: OutcomeClassification) -> (s: String)
    ensures
        s@ == lesson_summary(c),
{
    match c {
        OutcomeClassification::Successful => text_of("Expected results were satisfied after implementation"),
        OutcomeClassification::PartiallySuccessful => text_of("Some expected results were satisfied with bounded gaps"),
        OutcomeClassification::Mixed => text_of("Benefits and harms coexisted after implementation"),
        OutcomeClassification::Unsuccessful => text_of("Required expectations were not satisfied"),
        OutcomeClassification::Regressed => text_of("Material regression was observed after implementation"),
        OutcomeClassification::Inconclusive => text_of("Evidence was insufficient for a firm conclusion"),
        OutcomeClassification::NotImplemented => text_of("Implementation was not proven"),
        OutcomeClassification::Invalidated => text_of("Measurement assumptions were invalidated"),
        OutcomeClassification::Pending => text_of("Outcome not yet evaluated"),
    }
}

/// The single lesson drawn from an evaluated outcome.
pub fn derive_lessons(classification: OutcomeClassification, assessments: &Vec<ExpectedResultAssessment>, seed: ObjectId) -> (r: Vec<LessonRecord>)
    ensures
        r@.len() == 1,
        r@[0].id == derived_record_id(seed, 3, 0),
        lesson_for(r@[0], classification, assessments@),
{
    let mut conditions: Vec<String> = Vec::new();
    let mut i: usize = 0;
    while i < assessments.len()
        invariant
            i <= assessments@.len(),
            texts(conditions@) == assessments@.subrange(0, i as int).map_values(|a: ExpectedResultAssessment| lesson_condition(a)),
        decreases assessments.len() - i,
    {
        let mut line = assessments[i].expected_result_id.to_chars();
        push_str(&mut line, ": ");
        push_str(&mut line, assessments[i].kind.as_str());
        let ghost before = texts(conditions@);
        let ghost prev = assessments@.subrange(0, i as int).map_values(|a: ExpectedResultAssessment| lesson_condition(a));
        assert(line@ == lesson_condition(assessments@[i as int]));
        conditions.push(to_string(&line));
        assert(texts(conditions@) =~= before.push(line@));
        assert(assessments@.subrange(0, i + 1).map_values(|a: ExpectedResultAssessment| lesson_condition(a))
            =~= prev.push(lesson_condition(assessments@[i as int])));
        i = i + 1;
    }
    assert(assessments@.subrange(0, assessments@.len() as int) =~= assessments@);
    let mut applicability: Vec<String> = Vec::new();
    applicability.push(text_of("Applies only under similar evidence and scope conditions"));
    assert(texts(applicability@) =~= seq!["Applies only under similar evidence and scope conditions"@]);
    let mut r: Vec<LessonRecord> = Vec::new();
    r.push(LessonRecord {
        id: record_id(seed, 3, 0),
        summary: lesson_summary_text(classification),
        conditions,
        evidence_strength: text_of("Deterministic assessment from linked evidence"),
        proposal_category: None,
        applicability,
        exceptions: Vec::new(),
    });
    r
}

/// The first follow-up for an outcome of this classification.
pub open spec fn follow_up_head(c: OutcomeClassification) -> Seq<Seq<char>> {
    match c {
        OutcomeClassification::Successful => seq!["Consider archiving after verification"@],
        OutcomeClassification::PartiallySuccessful => seq!["Address remaining gaps before broader rollout"@],
        OutcomeClassification::Mixed | OutcomeClassification::Regressed => seq!["Mitigate regressions before accepting broader impact"@],
        OutcomeClassification::Unsuccessful => seq!["Revisit Proposal assumptions or roll back if safe"@],
        OutcomeClassification::Inconclusive | OutcomeClassification::NotImplemented => seq!["Collect additional evidence and re-evaluate"@],
        OutcomeClassification::Invalidated => seq!["Correct measurement assumptions and restart evaluation"@],
        OutcomeClassification::Pending => Seq::empty(),
    }
}

/// The follow-ups of the regressions that name one, in order.
pub open spec fn regression_follow_ups(regs: Seq<RegressionRecord>) -> Seq<Seq<char>>
    decreases regs.len(),
{
    if regs.len() == 0 {
        Seq::empty()
    } else {
        let prev = regression_follow_ups(regs.drop_last());
        match regs.last().follow_up {
            Some(f) => prev.push(f@),
            None => prev,
        }
    }
}

/// Recommended follow-up: the classification's own step, then `Resolve: q`
/// for each open question, then each regression's follow-up.
pub open spec fn follow_up_spec(c: OutcomeClassification, unresolved: Seq<Seq<char>>, regs: Seq<RegressionRecord>) -> Seq<Seq<char>> {
    follow_up_head(c) + unresolved.map_values(|q: Seq<char>| "Resolve: "@ + q) + regression_follow_ups(regs)
}

/// Recommended follow-up actions for an evaluated outcome.
pub fn derive_follow_up(classification: OutcomeClassification, unresolved: &Vec<String>, regressions: &Vec<RegressionRecord>) -> (r: Vec<String>)
    ensures
        texts(r@) == follow_up_spec(classification, texts(unresolved@), regressions@),
{
    let mut follow: Vec<String> = Vec::new();
    match classification {
        OutcomeClassification::Successful => follow.push(text_of("Consider archiving after verification")),
        OutcomeClassification::PartiallySuccessful => follow.push(text_of("Address remaining gaps before broader rollout")),
        OutcomeClassification::Mixed | OutcomeClassification::Regressed => follow.push(text_of("Mitigate regressions before accepting broader impact")),
        OutcomeClassification::Unsuccessful => follow.push(text_of("Revisit Proposal assumptions or roll back if safe")),
        OutcomeClassification::Inconclusive | OutcomeClassification::NotImplemented => follow.push(text_of("Collect additional evidence and re-evaluate")),
        OutcomeClassification::Invalidated => follow.push(text_of("Correct measurement assumptions and restart evaluation")),
        OutcomeClassification::Pending => {},
    }
    let ghost head = texts(follow@);
    assert(head =~= follow_up_head(classification));
    let ghost uq = texts(unresolved@);
    let mut i: usize = 0;
    while i < unresolved.len()
        invariant
            i <= unresolved@.len(),
            uq == texts(unresolved@),
            texts(follow@) == head + uq.subrange(0, i as int).map_values(|q: Seq<char>| "Resolve: "@ + q),
        decreases unresolved.len() - i,
    {
        let mut line: Vec<char> = Vec::new();
        push_str(&mut line, "Resolve: ");
        push_str(&mut line, unresolved[i].as_str());
        let ghost before = texts(follow@);
        follow.push(to_string(&line));
        assert(texts(follow@) =~= before.push(line@));
        assert(uq[i as int] == unresolved@[i as int]@);
        assert(uq.subrange(0, i + 1).map_values(|q: Seq<char>| "Resolve: "@ + q)
            =~= uq.subrange(0, i as int).map_values(|q: Seq<char>| "Resolve: "@ + q).push("Resolve: "@ + uq[i as int]));
        i = i + 1;
    }
    assert(uq.subrange(0, unresolved@.len() as int) =~= uq);
    let ghost mid = texts(follow@);
    let mut j: usize = 0;
    while j < regressions.len()
        invariant
            j <= regressions@.len(),
            texts(follow@) == mid + regression_follow_ups(regressions@.subrange(0, j as int)),
        decreases regressions.len() - j,
    {
        assert(regressions@.subrange(0, j + 1).drop_last() =~= regressions@.subrange(0, j as int));
        assert(regressions@.subrange(0, j + 1).last() == regressions@[j as int]);
        let ghost before = texts(follow@);
        match &regressions[j].follow_up {
            Some(f) => {
                follow.push(f.clone());
                assert(texts(follow@) =~= before.push(f@));
            },
            None => {},
        }
        j = j + 1;
    }
    assert(regressions@.subrange(0, regressions@.len() as int) =~= regressions@);
    follow
}

/// No assessment of kind `k` means a count of zero; all of kind `k` means
/// a count of all of them.
proof fn lemma_count_kind_cases(kinds: Seq<ResultAssessmentKind>, k: ResultAssessmentKind)
    ensures
        count_kind(kinds, k) == 0 <==> forall|i: int| 0 <= i < kinds.len() ==> kinds[i] != k,
        count_kind(kinds, k) == kinds.len() <==> forall|i: int| 0 <= i < kinds.len() ==> kinds[i] == k,
        count_kind(kinds, k) <= kinds.len(),
    decreases kinds.len(),
{
    if kinds.len() > 0 {
        let prev = kinds.drop_last();
        lemma_count_kind_cases(prev, k);
        assert forall|i: int| 0 <= i < prev.len() implies prev[i] == kinds[i] by {}
        if count_kind(kinds, k) == 0 {
            assert forall|i: int| 0 <= i < kinds.len() implies kinds[i] != k by {
                if i < prev.len() {
                    assert(prev[i] == kinds[i]);
                }
            }
        }
        if forall|i: int| 0 <= i < kinds.len() ==> kinds[i] != k {
            assert forall|i: int| 0 <= i < prev.len() implies prev[i] != k by {
                assert(prev[i] == kinds[i]);
            }
            assert(kinds[kinds.len() - 1] != k);
        }
        if count_kind(kinds, k) == kinds.len() {
            assert forall|i: int| 0 <= i < kinds.len() implies kinds[i] == k by {
                if i < prev.len() {
                    assert(prev[i] == kinds[i]);
                }
            }
        }
        if forall|i: int| 0 <= i < kinds.len() ==> kinds[i] == k {
            assert forall|i: int| 0 <= i < prev.len() implies prev[i] == k by {
                assert(prev[i] == kinds[i]);
            }
            assert(kinds[kinds.len() - 1] == k);
        }
    }
}

/// What the classification of an outcome means: it is successful only when
/// nothing regressed materially, something was assessed and every
/// assessment is satisfied (and then it is successful); when nothing
/// regressed, nothing is satisfied even in part and some expectation is not
/// satisfied, it is unsuccessful.
pub proof fn lemma_classification_meaning(kinds: Seq<ResultAssessmentKind>, material: bool, has_baseline: bool, has_post: bool)
    ensures
        classify_spec(kinds, material, has_baseline, has_post) == OutcomeClassification::Successful ==> {
            &&& !material
            &&& kinds.len() > 0
            &&& forall|i: int| 0 <= i < kinds.len() ==> kinds[i] == ResultAssessmentKind::Satisfied
        },
        !material && kinds.len() > 0 && (forall|i: int| 0 <= i < kinds.len() ==> kinds[i] == ResultAssessmentKind::Satisfied)
            ==> classify_spec(kinds, material, has_baseline, has_post) == OutcomeClassification::Successful,
        !material && (exists|i: int| 0 <= i < kinds.len() && kinds[i] == ResultAssessmentKind::NotSatisfied) && (forall|i: int|
            0 <= i < kinds.len() ==> kinds[i] != ResultAssessmentKind::Satisfied && kinds[i] != ResultAssessmentKind::PartiallySatisfied
                && kinds[i] != ResultAssessmentKind::Regressed)
            ==> classify_spec(kinds, material, has_baseline, has_post) == OutcomeClassification::Unsuccessful,
{
    lemma_count_kind_cases(kinds, ResultAssessmentKind::Satisfied);
    lemma_count_kind_cases(kinds, ResultAssessmentKind::PartiallySatisfied);
    lemma_count_kind_cases(kinds, ResultAssessmentKind::NotSatisfied);
    lemma_count_kind_cases(kinds, ResultAssessmentKind::Regressed);
    if kinds.len() > 0 && (forall|i: int| 0 <= i < kinds.len() ==> kinds[i] == ResultAssessmentKind::Satisfied) {
        assert(kinds[0] != ResultAssessmentKind::Regressed);
        assert forall|i: int| 0 <= i < kinds.len() implies kinds[i] != ResultAssessmentKind::Regressed by {}
    }
}

/// Some assessment has kind `k`.
pub open spec fn some_kind(kinds: Seq<ResultAssessmentKind>, k: ResultAssessmentKind) -> bool {
    exists|i: int| 0 <= i < kinds.len() && kinds[i] == k
}

/// The other classifications: a material regression, or a regressed
/// expectation, makes the outcome Mixed when something was satisfied (even
/// in part) and Regressed otherwise; nothing assessed and nothing regressed
/// is Inconclusive; Unsuccessful means something failed and nothing was
/// satisfied even in part; PartiallySuccessful means nothing failed or
/// regressed and something was satisfied at least in part.
pub proof fn lemma_classification_cases(kinds: Seq<ResultAssessmentKind>, material: bool, has_baseline: bool, has_post: bool)
    ensures
        material || some_kind(kinds, ResultAssessmentKind::Regressed) ==> classify_spec(kinds, material, has_baseline, has_post) == if some_kind(
            kinds,
            ResultAssessmentKind::Satisfied,
        ) || some_kind(kinds, ResultAssessmentKind::PartiallySatisfied) {
            OutcomeClassification::Mixed
        } else {
            OutcomeClassification::Regressed
        },
        !material && kinds.len() == 0 ==> classify_spec(kinds, material, has_baseline, has_post) == OutcomeClassification::Inconclusive,
        classify_spec(kinds, material, has_baseline, has_post) == OutcomeClassification::Unsuccessful ==> {
            &&& !material
            &&& !some_kind(kinds, ResultAssessmentKind::Regressed)
            &&& some_kind(kinds, ResultAssessmentKind::NotSatisfied)
            &&& !some_kind(kinds, ResultAssessmentKind::Satisfied)
            &&& !some_kind(kinds, ResultAssessmentKind::PartiallySatisfied)
        },
        classify_spec(kinds, material, has_baseline, has_post) == OutcomeClassification::PartiallySuccessful ==> {
            &&& !material
            &&& !some_kind(kinds, ResultAssessmentKind::Regressed)
            &&& !some_kind(kinds, ResultAssessmentKind::NotSatisfied)
            &&& (some_kind(kinds, ResultAssessmentKind::Satisfied) || some_kind(kinds, ResultAssessmentKind::PartiallySatisfied))
        },
{
    lemma_count_kind_cases(kinds, ResultAssessmentKind::Satisfied);
    lemma_count_kind_cases(kinds, ResultAssessmentKind::PartiallySatisfied);
    lemma_count_kind_cases(kinds, ResultAssessmentKind::NotSatisfied);
    lemma_count_kind_cases(kinds, ResultAssessmentKind::Regressed);
}

} // verus!
