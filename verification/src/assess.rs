//! The evidence linked to a Measured Learning Outcome, and the assessment of
//! each expected result against it.

use vstd::prelude::*;
use crate::ids::{derived_record_id, record_id, ObjectId};
use crate::model::Confidence;
use crate::outcome::{ExpectedResultSpec, OutcomeEvidenceLink};
use crate::text::{join_seqs, join_strings, push_chars, push_str, to_string};
use crate::vocab::{MaterialitySeverity, OutcomeEvidenceRelation, ProposalCategory, RegressionType, ResultAssessmentKind};

verus! {

/// How one expected result fared against the linked evidence.
pub struct ExpectedResultAssessment {
    pub expected_result_id: ObjectId,
    pub kind: ResultAssessmentKind,
    pub reason: String,
    pub confidence: Confidence,
    pub evidence_ids: Vec<ObjectId>,
    pub baseline_compared: bool,
    pub contradictions: Vec<String>,
    pub missing_evidence: Vec<String>,
}

/// A material change for the worse observed after an implementation.
pub struct RegressionRecord {
    pub id: ObjectId,
    pub regression_type: RegressionType,
    pub severity: MaterialitySeverity,
    pub confidence: Confidence,
    pub description: String,
    pub baseline: Option<String>,
    pub observed: Option<String>,
    pub evidence_ids: Vec<ObjectId>,
    pub affected_component: Option<String>,
    pub expected_result_id: Option<ObjectId>,
    pub material: bool,
    pub guardrail_violated: bool,
    pub follow_up: Option<String>,
}

/// Supporting and contradicting evidence recorded for the same target.
pub struct ContradictionRecord {
    pub id: ObjectId,
    pub description: String,
    pub severity: MaterialitySeverity,
    pub confidence: Confidence,
    pub evidence_ids: Vec<ObjectId>,
    pub expected_result_id: Option<ObjectId>,
    pub resolved: bool,
    pub resolution: Option<String>,
}

/// A lesson drawn from an evaluated outcome.
pub struct LessonRecord {
    pub id: ObjectId,
    pub summary: String,
    pub conditions: Vec<String>,
    pub evidence_strength: String,
    pub proposal_category: Option<ProposalCategory>,
    pub applicability: Vec<String>,
    pub exceptions: Vec<String>,
}

/// The texts of a sequence of strings.
pub open spec fn texts(v: Seq<String>) -> Seq<Seq<char>> {
    v.map_values(|s: String| s@)
}

/// Owned strings from string slices.
pub fn owned_strings(items: Vec<&str>) -> (r: Vec<String>)
    ensures
        texts(r@) == items@.map_values(|s: &str| s@),
{
    let mut r: Vec<String> = Vec::new();
    let mut i: usize = 0;
    while i < items.len()
        invariant
            i <= items@.len(),
            r@.len() == i,
            forall|q: int| 0 <= q < i ==> #[trigger] r@[q]@ == items@[q]@,
        decreases items.len() - i,
    {
        r.push(items[i].to_owned());
        i = i + 1;
    }
    assert(texts(r@) =~= items@.map_values(|s: &str| s@));
    r
}

/// A link concerns expected result `id`: it names it, or names none.
pub open spec fn relates_to(l: OutcomeEvidenceLink, id: ObjectId) -> bool {
    match l.expected_result_id {
        Some(x) => x == id,
        None => true,
    }
}

/// Some link has relation `rel`.
pub open spec fn has_relation(links: Seq<OutcomeEvidenceLink>, rel: OutcomeEvidenceRelation) -> bool {
    exists|i: int| 0 <= i < links.len() && (#[trigger] links[i]).relation == rel
}

/// The links with relation `rel`, in order.
pub open spec fn links_with(links: Seq<OutcomeEvidenceLink>, rel: OutcomeEvidenceRelation) -> Seq<OutcomeEvidenceLink>
    decreases links.len(),
{
    if links.len() == 0 {
        Seq::empty()
    } else {
        let prev = links_with(links.drop_last(), rel);
        if links.last().relation == rel {
            prev.push(links.last())
        } else {
            prev
        }
    }
}

/// The object ids of the links with relation `rel` concerning expected
/// result `id`, in order.
pub open spec fn related_ids(links: Seq<OutcomeEvidenceLink>, rel: OutcomeEvidenceRelation, id: ObjectId) -> Seq<ObjectId>
    decreases links.len(),
{
    if links.len() == 0 {
        Seq::empty()
    } else {
        let prev = related_ids(links.drop_last(), rel, id);
        let l = links.last();
        if l.relation == rel && relates_to(l, id) {
            prev.push(l.object_id)
        } else {
            prev
        }
    }
}

/// A link's reason, or `d` when it gives none.
pub open spec fn reason_or(r: Option<String>, d: Seq<char>) -> Seq<char> {
    match r {
        Some(s) => s@,
        None => d,
    }
}

/// The reasons (or `d`) of the links with relation `rel` concerning
/// expected result `id`, in order.
pub open spec fn related_reasons(links: Seq<OutcomeEvidenceLink>, rel: OutcomeEvidenceRelation, id: ObjectId, d: Seq<char>) -> Seq<Seq<char>>
    decreases links.len(),
{
    if links.len() == 0 {
        Seq::empty()
    } else {
        let prev = related_reasons(links.drop_last(), rel, id, d);
        let l = links.last();
        if l.relation == rel && relates_to(l, id) {
            prev.push(reason_or(l.reason, d))
        } else {
            prev
        }
    }
}

/// Whether a link concerns expected result `id` (exec).
fn relates(l: &OutcomeEvidenceLink, id: ObjectId) -> (b: bool)
    ensures
        b == relates_to(*l, id),
{
    match l.expected_result_id {
        Some(x) => x == id,
        None => true,
    }
}

/// Whether some link has relation `rel`.
pub fn any_relation(links: &Vec<OutcomeEvidenceLink>, rel: OutcomeEvidenceRelation) -> (b: bool)
    ensures
        b == has_relation(links@, rel),
{
    let mut i: usize = 0;
    while i < links.len()
        invariant
            i <= links@.len(),
            forall|q: int| 0 <= q < i ==> (#[trigger] links@[q]).relation != rel,
        decreases links.len() - i,
    {
        if links[i].relation == rel {
            return true;
        }
        i = i + 1;
    }
    false
}

/// Number of links with relation `rel`.
pub fn count_relation(links: &Vec<OutcomeEvidenceLink>, rel: OutcomeEvidenceRelation) -> (n: usize)
    ensures
        n == links_with(links@, rel).len(),
{
    let mut n: usize = 0;
    let mut i: usize = 0;
    while i < links.len()
        invariant
            i <= links@.len(),
            n <= i,
            n == links_with(links@.subrange(0, i as int), rel).len(),
        decreases links.len() - i,
    {
        assert(links@.subrange(0, i + 1).drop_last() =~= links@.subrange(0, i as int));
        if links[i].relation == rel {
            n = n + 1;
        }
        i = i + 1;
    }
    assert(links@.subrange(0, links@.len() as int) =~= links@);
    n
}

/// The object ids of the links with relation `rel` concerning `id`.
fn collect_related_ids(links: &Vec<OutcomeEvidenceLink>, rel: OutcomeEvidenceRelation, id: ObjectId) -> (r: Vec<ObjectId>)
    ensures
        r@ == related_ids(links@, rel, id),
{
    let mut r: Vec<ObjectId> = Vec::new();
    let mut i: usize = 0;
    while i < links.len()
        invariant
            i <= links@.len(),
            r@ == related_ids(links@.subrange(0, i as int), rel, id),
        decreases links.len() - i,
    {
        assert(links@.subrange(0, i + 1).drop_last() =~= links@.subrange(0, i as int));
        if links[i].relation == rel && relates(&links[i], id) {
            r.push(links[i].object_id);
        }
        i = i + 1;
    }
    assert(links@.subrange(0, links@.len() as int) =~= links@);
    r
}

/// A copy of a link's reason, or `d`.
fn reason_text(r: &Option<String>, d: &str) -> (s: String)
    ensures
        s@ == reason_or(*r, d@),
{
    match r {
        Some(t) => t.clone(),
        None => d.to_owned(),
    }
}

/// The reasons (or `d`) of the links with relation `rel` concerning `id`.
fn collect_related_reasons(links: &Vec<OutcomeEvidenceLink>, rel: OutcomeEvidenceRelation, id: ObjectId, d: &str) -> (r: Vec<String>)
    ensures
        texts(r@) == related_reasons(links@, rel, id, d@),
{
    let mut r: Vec<String> = Vec::new();
    let mut i: usize = 0;
    while i < links.len()
        invariant
            i <= links@.len(),
            texts(r@) == related_reasons(links@.subrange(0, i as int), rel, id, d@),
        decreases links.len() - i,
    {
        assert(links@.subrange(0, i + 1).drop_last() =~= links@.subrange(0, i as int));
        if links[i].relation == rel && relates(&links[i], id) {
            let t = reason_text(&links[i].reason, d);
            let ghost before = r@;
            r.push(t);
            assert(texts(r@) =~= texts(before).push(t@));
        }
        i = i + 1;
    }
    assert(links@.subrange(0, links@.len() as int) =~= links@);
    r
}

/// What evidence an expected result still lacks.
pub open spec fn missing_evidence(requires_baseline: bool, has_baseline: bool, has_post: bool, has_support: bool) -> Seq<Seq<char>> {
    let first: Seq<Seq<char>> = if requires_baseline && !has_baseline {
        seq!["baseline evidence"@]
    } else {
        Seq::empty()
    };
    if !has_post && !has_support {
        first.push("post-change or supporting evidence"@)
    } else {
        first
    }
}

/// The assessment kind of an expected result.
pub open spec fn verdict_kind(regressed: bool, contradicted: bool, supported: bool, missing: bool) -> ResultAssessmentKind {
    if regressed {
        ResultAssessmentKind::Regressed
    } else if contradicted && supported {
        ResultAssessmentKind::Inconclusive
    } else if contradicted {
        ResultAssessmentKind::NotSatisfied
    } else if supported && !missing {
        ResultAssessmentKind::Satisfied
    } else if supported {
        ResultAssessmentKind::PartiallySatisfied
    } else if missing {
        ResultAssessmentKind::NotMeasured
    } else {
        ResultAssessmentKind::Inconclusive
    }
}

/// The confidence (thousandths) of an expected result's assessment.
pub open spec fn verdict_permille(regressed: bool, contradicted: bool, supported: bool, missing: bool) -> u32 {
    if regressed {
        700
    } else if contradicted && supported {
        400
    } else if contradicted {
        650
    } else if supported && !missing {
        750
    } else if supported {
        550
    } else if missing {
        200
    } else {
        300
    }
}

/// The reason given for an expected result's assessment.
pub open spec fn verdict_reason(regressed: bool, contradicted: bool, supported: bool, missing: Seq<Seq<char>>) -> Seq<char> {
    if regressed {
        "Regression evidence linked for this expected result"@
    } else if contradicted && supported {
        "Both supporting and contradicting evidence present"@
    } else if contradicted {
        "Contradicting evidence without supporting evidence"@
    } else if supported && missing.len() == 0 {
        "Supporting evidence present without contradictions"@
    } else if supported {
        "Supporting evidence present but missing: "@ + join_seqs(missing, ", "@)
    } else if missing.len() > 0 {
        "Missing evidence: "@ + join_seqs(missing, ", "@)
    } else {
        "Insufficient evidence to assess"@
    }
}

/// The evidence an expected result still lacks, given the links.
pub open spec fn missing_for(e: ExpectedResultSpec, links: Seq<OutcomeEvidenceLink>, has_baseline: bool, has_post: bool) -> Seq<Seq<char>> {
    missing_evidence(e.requires_baseline, has_baseline, has_post, related_ids(links, OutcomeEvidenceRelation::SupportsExpectedResult, e.id).len() > 0)
}

/// `a` is the assessment of expected result `e` against `links`.
pub open spec fn assessed(a: ExpectedResultAssessment, e: ExpectedResultSpec, links: Seq<OutcomeEvidenceLink>, has_baseline: bool, has_post: bool) -> bool {
    let sup = related_ids(links, OutcomeEvidenceRelation::SupportsExpectedResult, e.id);
    let con = related_ids(links, OutcomeEvidenceRelation::ContradictsExpectedResult, e.id);
    let reg = related_ids(links, OutcomeEvidenceRelation::IndicatesRegression, e.id);
    let missing = missing_for(e, links, has_baseline, has_post);
    &&& a.expected_result_id == e.id
    &&& a.kind == verdict_kind(reg.len() > 0, con.len() > 0, sup.len() > 0, missing.len() > 0)
    &&& a.confidence.permille == verdict_permille(reg.len() > 0, con.len() > 0, sup.len() > 0, missing.len() > 0)
    &&& a.reason@ == verdict_reason(reg.len() > 0, con.len() > 0, sup.len() > 0, missing)
    &&& a.evidence_ids@ == sup + con + reg
    &&& a.baseline_compared == (has_baseline && e.requires_baseline)
    &&& texts(a.contradictions@) == related_reasons(links, OutcomeEvidenceRelation::ContradictsExpectedResult, e.id, "contradicting evidence"@)
    &&& texts(a.missing_evidence@) == missing
}

/// The open question an expected result leaves: it has neither regression,
/// contradicting nor supporting evidence, and lacks some evidence.
pub open spec fn unresolved_for(e: ExpectedResultSpec, links: Seq<OutcomeEvidenceLink>, has_baseline: bool, has_post: bool) -> Option<Seq<char>> {
    let sup = related_ids(links, OutcomeEvidenceRelation::SupportsExpectedResult, e.id);
    let con = related_ids(links, OutcomeEvidenceRelation::ContradictsExpectedResult, e.id);
    let reg = related_ids(links, OutcomeEvidenceRelation::IndicatesRegression, e.id);
    let missing = missing_for(e, links, has_baseline, has_post);
    if reg.len() == 0 && con.len() == 0 && sup.len() == 0 && missing.len() > 0 {
        Some("Expected result '"@ + e.description@ + "': missing "@ + join_seqs(missing, ", "@))
    } else {
        None
    }
}

/// The open questions of all expected results, in order.
pub open spec fn unresolved_questions(expected: Seq<ExpectedResultSpec>, links: Seq<OutcomeEvidenceLink>, has_baseline: bool, has_post: bool) -> Seq<Seq<char>>
    decreases expected.len(),
{
    if expected.len() == 0 {
        Seq::empty()
    } else {
        let prev = unresolved_questions(expected.drop_last(), links, has_baseline, has_post);
        match unresolved_for(expected.last(), links, has_baseline, has_post) {
            Some(q) => prev.push(q),
            None => prev,
        }
    }
}

/// What evidence expected result `e` lacks (exec).
fn missing_list(requires_baseline: bool, has_baseline: bool, has_post: bool, has_support: bool) -> (m: Vec<String>)
    ensures
        texts(m@) == missing_evidence(requires_baseline, has_baseline, has_post, has_support),
{
    let mut m: Vec<String> = Vec::new();
    if requires_baseline && !has_baseline {
        m.push("baseline evidence".to_owned());
    }
    let ghost first = texts(m@);
    if !has_post && !has_support {
        m.push("post-change or supporting evidence".to_owned());
        assert(texts(m@) =~= first.push("post-change or supporting evidence"@));
    }
    assert(texts(m@) =~= missing_evidence(requires_baseline, has_baseline, has_post, has_support));
    m
}

/// `prefix` followed by the pieces joined with `", "`.
fn prefixed_join(prefix: &str, pieces: &Vec<String>) -> (s: String)
    ensures
        s@ == prefix@ + join_seqs(texts(pieces@), ", "@),
{
    let mut out: Vec<char> = Vec::new();
    push_str(&mut out, prefix);
    let joined = join_strings(pieces, ", ");
    push_chars(&mut out, &joined);
    to_string(&out)
}

/// Assesses one expected result against the links; also returns the open
/// question it leaves, if any.
pub fn assess_expected(e: &ExpectedResultSpec, links: &Vec<OutcomeEvidenceLink>, has_baseline: bool, has_post: bool) -> (r: (ExpectedResultAssessment, Option<String>))
    ensures
        assessed(r.0, *e, links@, has_baseline, has_post),
        match (r.1, unresolved_for(*e, links@, has_baseline, has_post)) {
            (Some(q), Some(t)) => q@ == t,
            (None, None) => true,
            _ => false,
        },
{
    let sup = collect_related_ids(links, OutcomeEvidenceRelation::SupportsExpectedResult, e.id);
    let con = collect_related_ids(links, OutcomeEvidenceRelation::ContradictsExpectedResult, e.id);
    let reg = collect_related_ids(links, OutcomeEvidenceRelation::IndicatesRegression, e.id);
    let missing = missing_list(e.requires_baseline, has_baseline, has_post, sup.len() > 0);
    let regressed = reg.len() > 0;
    let contradicted = con.len() > 0;
    let supported = sup.len() > 0;
    let lacking = missing.len() > 0;
    let mut question: Option<String> = None;
    let (kind, reason, permille) = if regressed {
        (ResultAssessmentKind::Regressed, "Regression evidence linked for this expected result".to_owned(), 700u64)
    } else if contradicted && supported {
        (ResultAssessmentKind::Inconclusive, "Both supporting and contradicting evidence present".to_owned(), 400u64)
    } else if contradicted {
        (ResultAssessmentKind::NotSatisfied, "Contradicting evidence without supporting evidence".to_owned(), 650u64)
    } else if supported && !lacking {
        (ResultAssessmentKind::Satisfied, "Supporting evidence present without contradictions".to_owned(), 750u64)
    } else if supported {
        (ResultAssessmentKind::PartiallySatisfied, prefixed_join("Supporting evidence present but missing: ", &missing), 550u64)
    } else if lacking {
        let mut q: Vec<char> = Vec::new();
        push_str(&mut q, "Expected result '");
        push_str(&mut q, e.description.as_str());
        push_str(&mut q, "': missing ");
        let joined = join_strings(&missing, ", ");
        push_chars(&mut q, &joined);
        question = Some(to_string(&q));
        (ResultAssessmentKind::NotMeasured, prefixed_join("Missing evidence: ", &missing), 200u64)
    } else {
        (ResultAssessmentKind::Inconclusive, "Insufficient evidence to assess".to_owned(), 300u64)
    };
    let mut evidence_ids = sup;
    let mut i: usize = 0;
    while i < con.len()
        invariant
            i <= con@.len(),
            evidence_ids@ == sup@ + con@.subrange(0, i as int),
        decreases con.len() - i,
    {
        evidence_ids.push(con[i]);
        i = i + 1;
        assert(evidence_ids@ =~= sup@ + con@.subrange(0, i as int));
    }
    assert(con@.subrange(0, con@.len() as int) =~= con@);
    let mut j: usize = 0;
    while j < reg.len()
        invariant
            j <= reg@.len(),
            evidence_ids@ == sup@ + con@ + reg@.subrange(0, j as int),
        decreases reg.len() - j,
    {
        evidence_ids.push(reg[j]);
        j = j + 1;
        assert(evidence_ids@ =~= sup@ + con@ + reg@.subrange(0, j as int));
    }
    assert(reg@.subrange(0, reg@.len() as int) =~= reg@);
    let contradictions = collect_related_reasons(links, OutcomeEvidenceRelation::ContradictsExpectedResult, e.id, "contradicting evidence");
    let a = ExpectedResultAssessment {
        expected_result_id: e.id,
        kind,
        reason,
        confidence: Confidence::new(permille),
        evidence_ids,
        baseline_compared: has_baseline && e.requires_baseline,
        contradictions,
        missing_evidence: missing,
    };
    (a, question)
}

/// The regression recorded for a regression link.
pub open spec fn regression_from(r: RegressionRecord, l: OutcomeEvidenceLink) -> bool {
    &&& r.regression_type == RegressionType::Other
    &&& r.severity == MaterialitySeverity::Material
    &&& r.confidence.permille == 700
    &&& r.description@ == reason_or(l.reason, "Regression indicated by linked evidence"@)
    &&& r.baseline is None
    &&& r.observed is None
    &&& r.evidence_ids@ == seq![l.object_id]
    &&& r.affected_component is None
    &&& r.expected_result_id == l.expected_result_id
    &&& r.material
    &&& !r.guardrail_violated
    &&& r.follow_up is Some
    &&& r.follow_up->0@ == "Investigate and mitigate regression"@
}

/// One regression per link that indicates a regression, in link order.
pub fn regressions_from_links(links: &Vec<OutcomeEvidenceLink>, seed: ObjectId) -> (regs: Vec<RegressionRecord>)
    ensures
        forall|i: int| 0 <= i < regs@.len() ==> (#[trigger] regs@[i]).id == derived_record_id(seed, 1, i as usize),
        regs@.len() == links_with(links@, OutcomeEvidenceRelation::IndicatesRegression).len(),
        forall|i: int| 0 <= i < regs@.len() ==> regression_from(#[trigger] regs@[i], links_with(links@, OutcomeEvidenceRelation::IndicatesRegression)[i]),
{
    let mut regs: Vec<RegressionRecord> = Vec::new();
    let mut i: usize = 0;
    while i < links.len()
        invariant
            i <= links@.len(),
            regs@.len() == links_with(links@.subrange(0, i as int), OutcomeEvidenceRelation::IndicatesRegression).len(),
            forall|q: int| 0 <= q < regs@.len() ==> regression_from(#[trigger] regs@[q], links_with(links@.subrange(0, i as int), OutcomeEvidenceRelation::IndicatesRegression)[q]),
            forall|q: int| 0 <= q < regs@.len() ==> (#[trigger] regs@[q]).id == derived_record_id(seed, 1, q as usize),
        decreases links.len() - i,
    {
        assert(links@.subrange(0, i + 1).drop_last() =~= links@.subrange(0, i as int));
        let l = &links[i];
        if l.relation == OutcomeEvidenceRelation::IndicatesRegression {
            let mut ids: Vec<ObjectId> = Vec::new();
            ids.push(l.object_id);
            assert(ids@ =~= seq![l.object_id]);
            let id = record_id(seed, 1, regs.len());
            regs.push(RegressionRecord {
                id,
                regression_type: RegressionType::Other,
                severity: MaterialitySeverity::Material,
                confidence: Confidence::new(700),
                description: reason_text(&l.reason, "Regression indicated by linked evidence"),
                baseline: None,
                observed: None,
                evidence_ids: ids,
                affected_component: None,
                expected_result_id: l.expected_result_id,
                material: true,
                guardrail_violated: false,
                follow_up: Some("Investigate and mitigate regression".to_owned()),
            });
        }
        i = i + 1;
    }
    assert(links@.subrange(0, links@.len() as int) =~= links@);
    regs
}

/// Some supporting link names the same target (`None` included).
pub open spec fn supported_target(links: Seq<OutcomeEvidenceLink>, target: Option<ObjectId>) -> bool {
    exists|i: int| 0 <= i < links.len() && (#[trigger] links[i]).relation == OutcomeEvidenceRelation::SupportsExpectedResult
        && links[i].expected_result_id == target
}

/// The contradicting links of `prefix` whose target also has supporting
/// evidence among `all`, in order.
pub open spec fn contested_links(prefix: Seq<OutcomeEvidenceLink>, all: Seq<OutcomeEvidenceLink>) -> Seq<OutcomeEvidenceLink>
    decreases prefix.len(),
{
    if prefix.len() == 0 {
        Seq::empty()
    } else {
        let prev = contested_links(prefix.drop_last(), all);
        let l = prefix.last();
        if l.relation == OutcomeEvidenceRelation::ContradictsExpectedResult && supported_target(all, l.expected_result_id) {
            prev.push(l)
        } else {
            prev
        }
    }
}

/// The contradiction recorded for a contested link.
pub open spec fn contradiction_from(c: ContradictionRecord, l: OutcomeEvidenceLink) -> bool {
    &&& c.description@ == reason_or(l.reason, "Supporting and contradicting evidence coexist"@)
    &&& c.severity == MaterialitySeverity::Moderate
    &&& c.confidence.permille == 600
    &&& c.evidence_ids@ == seq![l.object_id]
    &&& c.expected_result_id == l.expected_result_id
    &&& !c.resolved
    &&& c.resolution is None
}

/// Whether two optional targets are the same (exec).
fn same_target(a: Option<ObjectId>, b: Option<ObjectId>) -> (r: bool)
    ensures
        r == (a == b),
{
    match (a, b) {
        (Some(x), Some(y)) => x == y,
        (None, None) => true,
        _ => false,
    }
}

/// Whether some supporting link names `target` (exec).
fn has_support_for(links: &Vec<OutcomeEvidenceLink>, target: Option<ObjectId>) -> (b: bool)
    ensures
        b == supported_target(links@, target),
{
    let mut i: usize = 0;
    while i < links.len()
        invariant
            i <= links@.len(),
            forall|q: int| 0 <= q < i ==> !((#[trigger] links@[q]).relation == OutcomeEvidenceRelation::SupportsExpectedResult
                && links@[q].expected_result_id == target),
        decreases links.len() - i,
    {
        if links[i].relation == OutcomeEvidenceRelation::SupportsExpectedResult && same_target(links[i].expected_result_id, target) {
            return true;
        }
        i = i + 1;
    }
    false
}

/// One contradiction per contradicting link whose target also has
/// supporting evidence, in link order.
pub fn contradictions_from_links(links: &Vec<OutcomeEvidenceLink>, seed: ObjectId) -> (cs: Vec<ContradictionRecord>)
    ensures
        forall|i: int| 0 <= i < cs@.len() ==> (#[trigger] cs@[i]).id == derived_record_id(seed, 2, i as usize),
        cs@.len() == contested_links(links@, links@).len(),
        forall|i: int| 0 <= i < cs@.len() ==> contradiction_from(#[trigger] cs@[i], contested_links(links@, links@)[i]),
{
    let mut cs: Vec<ContradictionRecord> = Vec::new();
    let mut i: usize = 0;
    while i < links.len()
        invariant
            i <= links@.len(),
            cs@.len() == contested_links(links@.subrange(0, i as int), links@).len(),
            forall|q: int| 0 <= q < cs@.len() ==> contradiction_from(#[trigger] cs@[q], contested_links(links@.subrange(0, i as int), links@)[q]),
            forall|q: int| 0 <= q < cs@.len() ==> (#[trigger] cs@[q]).id == derived_record_id(seed, 2, q as usize),
        decreases links.len() - i,
    {
        assert(links@.subrange(0, i + 1).drop_last() =~= links@.subrange(0, i as int));
        let l = &links[i];
        if l.relation == OutcomeEvidenceRelation::ContradictsExpectedResult && has_support_for(links, l.expected_result_id) {
            let mut ids: Vec<ObjectId> = Vec::new();
            ids.push(l.object_id);
            assert(ids@ =~= seq![l.object_id]);
            let id = record_id(seed, 2, cs.len());
            cs.push(ContradictionRecord {
                id,
                description: reason_text(&l.reason, "Supporting and contradicting evidence coexist"),
                severity: MaterialitySeverity::Moderate,
                confidence: Confidence::new(600),
                evidence_ids: ids,
                expected_result_id: l.expected_result_id,
                resolved: false,
                resolution: None,
            });
        }
        i = i + 1;
    }
    assert(links@.subrange(0, links@.len() as int) =~= links@);
    cs
}

} // verus!
