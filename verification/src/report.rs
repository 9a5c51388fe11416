//! Investigation state summaries and durable engineering reports.

use vstd::prelude::*;
use crate::assess::texts;
use crate::forecast::{risk_item_view, RiskForecast, RiskItem};
use crate::guidance::hypothesis_ids;
use crate::ids::{fresh_object_id, InvestigationId, ObjectId};
use crate::model::{
    Evaluation, Hypothesis, Investigation, KnowledgeObject, LearningOutcome, MemoryRecord, Provenance, Recommendation,
    VerificationReceipt,
};
use crate::pipeline::{
    evaluation_ids, evaluation_ids_of, knowledge_object_ids, knowledge_object_ids_of, memory_record_ids, memory_record_ids_of,
    percent_of,
};
use crate::readiness::{receipt_ids, receipt_ids_of, DeploymentReadiness};
use crate::recall::RecalledContext;
use crate::text::{contains_seq, contains_str, decimal, join_chars, join_seqs, join_strings, push_chars, push_decimal, push_str, to_string};

verus! {

/// How many Engineering Objects of each kind an Investigation holds.
#[derive(Clone, Copy, PartialEq, Eq, Debug, Structural)]
pub struct SummaryCounts {
    pub memory: usize,
    pub knowledge: usize,
    pub evaluations: usize,
    pub verifications: usize,
    pub recommendations: usize,
    pub hypotheses: usize,
    pub learning: usize,
}

/// The state of an Investigation, with its gaps.
pub struct InvestigationSummary {
    pub investigation_id: InvestigationId,
    pub title: String,
    pub status: String,
    pub summary: String,
    pub counts: SummaryCounts,
    pub gaps: Vec<String>,
    pub summarized_at: i64,
    pub provenance: Provenance,
}

/// Some hypothesis is still unverified.
pub open spec fn any_unverified(hs: Seq<Hypothesis>) -> bool {
    exists|i: int| 0 <= i < hs.len() && contains_seq((#[trigger] hs[i]).verification_summary@, "unverified"@)
}

/// One gap line when the condition holds.
pub open spec fn gap_if(c: bool, line: Seq<char>) -> Seq<Seq<char>> {
    if c { seq![line] } else { seq![] }
}

/// The gaps of an Investigation, in order: missing Memory, Knowledge,
/// Evaluations, receipts and Recommendations, and unverified hypotheses.
pub open spec fn state_gaps(c: SummaryCounts, hs: Seq<Hypothesis>) -> Seq<Seq<char>> {
    gap_if(c.memory == 0, "No Memory — collect Observations."@) + gap_if(c.knowledge == 0, "No Knowledge — run derive_knowledge."@)
        + gap_if(c.evaluations == 0, "No Evaluations — run evaluate."@) + gap_if(
        c.verifications == 0,
        "No Verification Receipts — run verify."@,
    ) + gap_if(c.recommendations == 0, "No Recommendations yet."@) + gap_if(any_unverified(hs), "Unverified hypotheses remain."@)
}

/// The one-line summary of an Investigation's state.
pub open spec fn state_summary(inv: Investigation, c: SummaryCounts, gaps: Seq<Seq<char>>) -> Seq<char> {
    "Investigation `"@ + inv.title@ + "` is "@ + inv.status.text() + " with "@ + decimal(c.memory as nat) + " memory, "@ + decimal(
        c.knowledge as nat,
    ) + " knowledge, "@ + decimal(c.evaluations as nat) + " evaluations, "@ + decimal(c.verifications as nat) + " verifications, "@
        + decimal(c.recommendations as nat) + " recommendations, "@ + decimal(c.hypotheses as nat) + " hypotheses. "@
        + if gaps.len() == 0 { "No major gaps detected."@ } else { "Gaps: "@ + join_seqs(gaps, " "@) }
}

fn text_string(s: &str) -> (r: String)
    ensures
        r@ == s@,
{
    s.to_owned()
}

/// Whether some hypothesis is still unverified.
fn some_unverified(hs: &Vec<Hypothesis>) -> (b: bool)
    ensures
        b == any_unverified(hs@),
{
    let mut i: usize = 0;
    while i < hs.len()
        invariant
            i <= hs@.len(),
            forall|j: int| 0 <= j < i ==> !contains_seq((#[trigger] hs@[j]).verification_summary@, "unverified"@),
        decreases hs.len() - i,
    {
        let v = crate::text::chars_of(hs[i].verification_summary.as_str());
        if contains_str(&v, "unverified") {
            return true;
        }
        i = i + 1;
    }
    false
}

/// The gaps of an Investigation (exec).
fn gaps_of(counts: SummaryCounts, hypotheses: &Vec<Hypothesis>) -> (gaps: Vec<String>)
    ensures
        texts(gaps@) == state_gaps(counts, hypotheses@),
{
    let mut gaps: Vec<String> = Vec::new();
    if counts.memory == 0 {
        gaps.push(text_string("No Memory — collect Observations."));
    }
    if counts.knowledge == 0 {
        gaps.push(text_string("No Knowledge — run derive_knowledge."));
    }
    if counts.evaluations == 0 {
        gaps.push(text_string("No Evaluations — run evaluate."));
    }
    if counts.verifications == 0 {
        gaps.push(text_string("No Verification Receipts — run verify."));
    }
    if counts.recommendations == 0 {
        gaps.push(text_string("No Recommendations yet."));
    }
    if some_unverified(hypotheses) {
        gaps.push(text_string("Unverified hypotheses remain."));
    }
    assert(texts(gaps@) =~= state_gaps(counts, hypotheses@));
    gaps
}

/// The one-line summary (exec).
fn summary_of(investigation: &Investigation, counts: SummaryCounts, gaps: &Vec<String>) -> (s: String)
    ensures
        s@ == state_summary(*investigation, counts, texts(gaps@)),
{
    let mut t: Vec<char> = Vec::new();
    push_str(&mut t, "Investigation `");
    push_str(&mut t, investigation.title.as_str());
    push_str(&mut t, "` is ");
    push_str(&mut t, investigation.status.as_str());
    push_str(&mut t, " with ");
    push_decimal(&mut t, counts.memory as u128);
    push_str(&mut t, " memory, ");
    push_decimal(&mut t, counts.knowledge as u128);
    push_str(&mut t, " knowledge, ");
    push_decimal(&mut t, counts.evaluations as u128);
    push_str(&mut t, " evaluations, ");
    push_decimal(&mut t, counts.verifications as u128);
    push_str(&mut t, " verifications, ");
    push_decimal(&mut t, counts.recommendations as u128);
    push_str(&mut t, " recommendations, ");
    push_decimal(&mut t, counts.hypotheses as u128);
    push_str(&mut t, " hypotheses. ");
    let ghost head = t@;
    if gaps.len() == 0 {
        push_str(&mut t, "No major gaps detected.");
    } else {
        push_str(&mut t, "Gaps: ");
        let joined = join_strings(gaps, " ");
        assert(gaps@.map_values(|p: String| p@) =~= texts(gaps@));
        push_chars(&mut t, &joined);
    }
    assert(t@ =~= state_summary(*investigation, counts, texts(gaps@)));
    to_string(&t)
}

/// Summarizes the state of an Investigation: how many Engineering Objects
/// of each kind it holds, and which steps are still missing.
pub fn summarize_investigation_state(
    investigation: &Investigation,
    memory: &Vec<MemoryRecord>,
    knowledge: &Vec<KnowledgeObject>,
    evaluations: &Vec<Evaluation>,
    verifications: &Vec<VerificationReceipt>,
    recommendations: &Vec<Recommendation>,
    hypotheses: &Vec<Hypothesis>,
    learning: &Vec<LearningOutcome>,
    actor: &str,
    now: i64,
) -> (s: InvestigationSummary)
    ensures
        s.investigation_id == investigation.id,
        s.title@ == investigation.title@,
        s.status@ == investigation.status.text(),
        s.counts == (SummaryCounts {
            memory: memory@.len() as usize,
            knowledge: knowledge@.len() as usize,
            evaluations: evaluations@.len() as usize,
            verifications: verifications@.len() as usize,
            recommendations: recommendations@.len() as usize,
            hypotheses: hypotheses@.len() as usize,
            learning: learning@.len() as usize,
        }),
        texts(s.gaps@) == state_gaps(s.counts, hypotheses@),
        s.summary@ == state_summary(*investigation, s.counts, texts(s.gaps@)),
        s.provenance.actor@ == actor@,
        s.provenance.recorded_at == now,
        s.summarized_at == now,
        s.provenance.capability is Some && s.provenance.capability->0@ == "summarize_investigation_state"@,
{
    let counts = SummaryCounts {
        memory: memory.len(),
        knowledge: knowledge.len(),
        evaluations: evaluations.len(),
        verifications: verifications.len(),
        recommendations: recommendations.len(),
        hypotheses: hypotheses.len(),
        learning: learning.len(),
    };
    let gaps = gaps_of(counts, hypotheses);
    let summary = summary_of(investigation, counts, &gaps);
    InvestigationSummary {
        investigation_id: investigation.id,
        title: investigation.title.as_str().to_owned(),
        status: text_string(investigation.status.as_str()),
        summary,
        counts,
        gaps,
        summarized_at: now,
        provenance: Provenance::now(actor, "runtime", now).with_capability("summarize_investigation_state"),
    }
}

/// One section of an engineering report.
pub struct ReportSection {
    pub title: String,
    pub body: String,
    pub object_refs: Vec<ObjectId>,
}

/// A durable engineering report on an Investigation.
pub struct EngineeringReport {
    pub id: ObjectId,
    pub investigation_id: InvestigationId,
    pub title: String,
    pub sections: Vec<ReportSection>,
    pub markdown: String,
    pub generated_at: i64,
    pub provenance: Provenance,
}

/// A section as plain values: title, body and referenced objects.
pub type SectionView = (Seq<char>, Seq<char>, Seq<ObjectId>);

/// The plain values of a section.
pub open spec fn section_view(s: ReportSection) -> SectionView {
    (s.title@, s.body@, s.object_refs@)
}

/// The plain values of sections.
pub open spec fn section_views(v: Seq<ReportSection>) -> Seq<SectionView> {
    v.map_values(|s: ReportSection| section_view(s))
}

/// `- [kind] summary`
pub open spec fn knowledge_line(k: KnowledgeObject) -> Seq<char> {
    "- ["@ + k.kind.text() + "] "@ + k.summary@
}

/// `- type severity=s conf=p%: summary`
pub open spec fn evaluation_line(e: Evaluation) -> Seq<char> {
    "- "@ + e.assessment_type.text() + " severity="@ + e.severity.text() + " conf="@ + decimal(percent_of(e.confidence.permille)) + "%: "@
        + e.summary@
}

/// `- result — claim`
pub open spec fn receipt_line(r: VerificationReceipt) -> Seq<char> {
    "- "@ + r.result.text() + " — "@ + r.claim@
}

/// `- rank n [status/p%]: statement`
pub open spec fn hypothesis_line(h: Hypothesis) -> Seq<char> {
    "- rank "@ + decimal(h.rank as nat) + " ["@ + h.status.text() + "/"@ + decimal(percent_of(h.confidence.permille)) + "%]: "@
        + h.statement@
}

/// `- [status conf=p%] summary — rationale`
pub open spec fn recommendation_line(r: Recommendation) -> Seq<char> {
    "- ["@ + r.status.text() + " conf="@ + decimal(percent_of(r.confidence.permille)) + "%] "@ + r.summary@ + " — "@ + r.rationale@
}

/// `- category severity=s: explanation`
pub open spec fn risk_line(i: RiskItem) -> Seq<char> {
    "- "@ + i.category.text() + " severity="@ + i.severity.text() + ": "@ + i.explanation@
}

/// Items joined with `"; "`, or `(none)`.
pub open spec fn listed_or_none(items: Seq<Seq<char>>) -> Seq<char> {
    if items.len() == 0 { "(none)"@ } else { join_seqs(items, "; "@) }
}

/// The Investigation section.
pub open spec fn investigation_section(inv: Investigation) -> SectionView {
    (
        "Investigation"@,
        "Title: "@ + inv.title@ + "\nStatus: "@ + inv.status.text() + "\nDescription: "@ + match inv.description {
            Some(d) => d@,
            None => "(none)"@,
        },
        seq![],
    )
}

/// The Evidence section.
pub open spec fn evidence_section(ms: Seq<MemoryRecord>) -> SectionView {
    (
        "Evidence"@,
        decimal(ms.len()) + " Memory record(s). Latest: "@ + if ms.len() > 0 { ms.last().summary@ } else { "(none)"@ },
        memory_record_ids(ms),
    )
}

/// The Deployment Readiness section of an assessment.
pub open spec fn readiness_section(r: DeploymentReadiness) -> SectionView {
    (
        "Deployment Readiness"@,
        "Status: "@ + r.status.text() + " (conf "@ + decimal(percent_of(r.confidence.permille)) + "%)\nBlockers: "@ + listed_or_none(
            texts(r.blockers@),
        ) + "\nWarnings: "@ + listed_or_none(texts(r.warnings@)) + "\nRecommendation: "@ + r.recommendation_summary@,
        seq![r.id],
    )
}

/// The Risk Forecast section of a forecast.
pub open spec fn risk_section(f: RiskForecast) -> SectionView {
    (
        "Risk Forecast"@,
        f.summary@ + "\n"@ + join_seqs(f.items@.map_values(|i: RiskItem| risk_line(i)), "\n"@),
        seq![f.id],
    )
}

/// The sections of a report, in order. The readiness and forecast sections
/// show the latest of each, when there is one.
pub open spec fn report_sections(
    inv: Investigation,
    ms: Seq<MemoryRecord>,
    ks: Seq<KnowledgeObject>,
    es: Seq<Evaluation>,
    rs: Seq<VerificationReceipt>,
    recs: Seq<Recommendation>,
    hs: Seq<Hypothesis>,
    readiness: Seq<DeploymentReadiness>,
    risks: Seq<RiskForecast>,
    learning: Seq<LearningOutcome>,
    contexts: Seq<RecalledContext>,
) -> Seq<SectionView> {
    seq![
        investigation_section(inv),
        evidence_section(ms),
        ("Knowledge"@, join_seqs(ks.map_values(|k: KnowledgeObject| knowledge_line(k)), "\n"@), knowledge_object_ids(ks)),
        ("Evaluations"@, join_seqs(es.map_values(|e: Evaluation| evaluation_line(e)), "\n"@), evaluation_ids(es)),
        ("Verifications"@, join_seqs(rs.map_values(|r: VerificationReceipt| receipt_line(r)), "\n"@), receipt_ids(rs)),
        (
            "Hypotheses"@,
            if hs.len() == 0 { "(none generated yet)"@ } else { join_seqs(hs.map_values(|h: Hypothesis| hypothesis_line(h)), "\n"@) },
            hypothesis_ids(hs),
        ),
    ] + (if readiness.len() > 0 { seq![readiness_section(readiness.last())] } else { seq![] }) + (if risks.len() > 0 {
        seq![risk_section(risks.last())]
    } else {
        seq![]
    }) + seq![
        (
            "Recommendations"@,
            join_seqs(recs.map_values(|r: Recommendation| recommendation_line(r)), "\n"@),
            recs.map_values(|r: Recommendation| r.id),
        ),
        (
            "Historical Context"@,
            decimal(contexts.len()) + " Recalled Context record(s); "@ + decimal(learning.len())
                + " Learning Outcome(s). Historical context is labeled and never auto-applied."@,
            contexts.map_values(|c: RecalledContext| c.id),
        ),
    ]
}

/// The Markdown of the sections: a heading and body for each.
pub open spec fn sections_markdown(ss: Seq<SectionView>) -> Seq<char>
    decreases ss.len(),
{
    if ss.len() == 0 {
        seq![]
    } else {
        sections_markdown(ss.drop_last()) + "## "@ + ss.last().0 + "\n\n"@ + ss.last().1 + "\n\n"@
    }
}

/// The Markdown of a report.
pub open spec fn report_markdown(title: Seq<char>, ss: Seq<SectionView>) -> Seq<char> {
    "# Engineering Report: "@ + title + "\n\n"@ + sections_markdown(ss) + "---\nGenerated by Rivora Runtime. Recommendations are proposals only.\n"@
}

/// Appends a section.
fn push_section(out: &mut Vec<ReportSection>, title: &str, body: Vec<char>, refs: Vec<ObjectId>)
    ensures
        section_views(final(out)@) == section_views(old(out)@).push((title@, body@, refs@)),
{
    let s = ReportSection { title: text_string(title), body: to_string(&body), object_refs: refs };
    out.push(s);
    assert(section_views(out@) =~= section_views(old(out)@).push(section_view(s)));
}

/// Appends a whole percentage (half up) of a confidence in thousandths.
fn push_percent(out: &mut Vec<char>, permille: u32)
    ensures
        final(out)@ == old(out)@ + decimal(percent_of(permille)),
{
    push_decimal(out, ((permille as u64 + 5) / 10) as u128);
}

/// The Knowledge lines.
fn knowledge_lines(ks: &Vec<KnowledgeObject>) -> (r: Vec<Vec<char>>)
    ensures
        r@.map_values(|p: Vec<char>| p@) == ks@.map_values(|k: KnowledgeObject| knowledge_line(k)),
{
    let mut r: Vec<Vec<char>> = Vec::new();
    let mut i: usize = 0;
    while i < ks.len()
        invariant
            i <= ks@.len(),
            r@.map_values(|p: Vec<char>| p@) == ks@.subrange(0, i as int).map_values(|k: KnowledgeObject| knowledge_line(k)),
        decreases ks.len() - i,
    {
        let ghost before = r@.map_values(|p: Vec<char>| p@);
        let mut t: Vec<char> = Vec::new();
        push_str(&mut t, "- [");
        push_str(&mut t, ks[i].kind.as_str());
        push_str(&mut t, "] ");
        push_str(&mut t, ks[i].summary.as_str());
        r.push(t);
        assert(r@.map_values(|p: Vec<char>| p@) =~= before.push(knowledge_line(ks@[i as int])));
        i = i + 1;
        assert(ks@.subrange(0, i as int).map_values(|k: KnowledgeObject| knowledge_line(k)) =~= before.push(knowledge_line(ks@[i - 1])));
    }
    assert(ks@.subrange(0, ks@.len() as int) =~= ks@);
    r
}

/// The Evaluation lines.
fn evaluation_lines(es: &Vec<Evaluation>) -> (r: Vec<Vec<char>>)
    ensures
        r@.map_values(|p: Vec<char>| p@) == es@.map_values(|e: Evaluation| evaluation_line(e)),
{
    let mut r: Vec<Vec<char>> = Vec::new();
    let mut i: usize = 0;
    while i < es.len()
        invariant
            i <= es@.len(),
            r@.map_values(|p: Vec<char>| p@) == es@.subrange(0, i as int).map_values(|e: Evaluation| evaluation_line(e)),
        decreases es.len() - i,
    {
        let ghost before = r@.map_values(|p: Vec<char>| p@);
        let e = &es[i];
        let mut t: Vec<char> = Vec::new();
        push_str(&mut t, "- ");
        push_str(&mut t, e.assessment_type.as_str());
        push_str(&mut t, " severity=");
        push_str(&mut t, e.severity.as_str());
        push_str(&mut t, " conf=");
        push_percent(&mut t, e.confidence.permille);
        push_str(&mut t, "%: ");
        push_str(&mut t, e.summary.as_str());
        r.push(t);
        assert(r@.map_values(|p: Vec<char>| p@) =~= before.push(evaluation_line(es@[i as int])));
        i = i + 1;
        assert(es@.subrange(0, i as int).map_values(|e: Evaluation| evaluation_line(e)) =~= before.push(evaluation_line(es@[i - 1])));
    }
    assert(es@.subrange(0, es@.len() as int) =~= es@);
    r
}

/// The receipt lines.
fn receipt_lines(rs: &Vec<VerificationReceipt>) -> (r: Vec<Vec<char>>)
    ensures
        r@.map_values(|p: Vec<char>| p@) == rs@.map_values(|x: VerificationReceipt| receipt_line(x)),
{
    let mut r: Vec<Vec<char>> = Vec::new();
    let mut i: usize = 0;
    while i < rs.len()
        invariant
            i <= rs@.len(),
            r@.map_values(|p: Vec<char>| p@) == rs@.subrange(0, i as int).map_values(|x: VerificationReceipt| receipt_line(x)),
        decreases rs.len() - i,
    {
        let ghost before = r@.map_values(|p: Vec<char>| p@);
        let mut t: Vec<char> = Vec::new();
        push_str(&mut t, "- ");
        push_str(&mut t, rs[i].result.as_str());
        push_str(&mut t, " — ");
        push_str(&mut t, rs[i].claim.as_str());
        r.push(t);
        assert(r@.map_values(|p: Vec<char>| p@) =~= before.push(receipt_line(rs@[i as int])));
        i = i + 1;
        assert(rs@.subrange(0, i as int).map_values(|x: VerificationReceipt| receipt_line(x)) =~= before.push(receipt_line(rs@[i - 1])));
    }
    assert(rs@.subrange(0, rs@.len() as int) =~= rs@);
    r
}

/// The hypothesis lines.
fn hypothesis_lines(hs: &Vec<Hypothesis>) -> (r: Vec<Vec<char>>)
    ensures
        r@.map_values(|p: Vec<char>| p@) == hs@.map_values(|h: Hypothesis| hypothesis_line(h)),
{
    let mut r: Vec<Vec<char>> = Vec::new();
    let mut i: usize = 0;
    while i < hs.len()
        invariant
            i <= hs@.len(),
            r@.map_values(|p: Vec<char>| p@) == hs@.subrange(0, i as int).map_values(|h: Hypothesis| hypothesis_line(h)),
        decreases hs.len() - i,
    {
        let ghost before = r@.map_values(|p: Vec<char>| p@);
        let h = &hs[i];
        let mut t: Vec<char> = Vec::new();
        push_str(&mut t, "- rank ");
        push_decimal(&mut t, h.rank as u128);
        push_str(&mut t, " [");
        push_str(&mut t, h.status.as_str());
        push_str(&mut t, "/");
        push_percent(&mut t, h.confidence.permille);
        push_str(&mut t, "%]: ");
        push_str(&mut t, h.statement.as_str());
        r.push(t);
        assert(r@.map_values(|p: Vec<char>| p@) =~= before.push(hypothesis_line(hs@[i as int])));
        i = i + 1;
        assert(hs@.subrange(0, i as int).map_values(|h: Hypothesis| hypothesis_line(h)) =~= before.push(hypothesis_line(hs@[i - 1])));
    }
    assert(hs@.subrange(0, hs@.len() as int) =~= hs@);
    r
}

/// The Recommendation lines.
fn recommendation_lines(recs: &Vec<Recommendation>) -> (r: Vec<Vec<char>>)
    ensures
        r@.map_values(|p: Vec<char>| p@) == recs@.map_values(|x: Recommendation| recommendation_line(x)),
{
    let mut r: Vec<Vec<char>> = Vec::new();
    let mut i: usize = 0;
    while i < recs.len()
        invariant
            i <= recs@.len(),
            r@.map_values(|p: Vec<char>| p@) == recs@.subrange(0, i as int).map_values(|x: Recommendation| recommendation_line(x)),
        decreases recs.len() - i,
    {
        let ghost before = r@.map_values(|p: Vec<char>| p@);
        let x = &recs[i];
        let mut t: Vec<char> = Vec::new();
        push_str(&mut t, "- [");
        push_str(&mut t, x.status.as_str());
        push_str(&mut t, " conf=");
        push_percent(&mut t, x.confidence.permille);
        push_str(&mut t, "%] ");
        push_str(&mut t, x.summary.as_str());
        push_str(&mut t, " — ");
        push_str(&mut t, x.rationale.as_str());
        r.push(t);
        assert(r@.map_values(|p: Vec<char>| p@) =~= before.push(recommendation_line(recs@[i as int])));
        i = i + 1;
        assert(recs@.subrange(0, i as int).map_values(|x: Recommendation| recommendation_line(x)) =~= before.push(
            recommendation_line(recs@[i - 1]),
        ));
    }
    assert(recs@.subrange(0, recs@.len() as int) =~= recs@);
    r
}

/// The risk item lines.
fn risk_lines(items: &Vec<RiskItem>) -> (r: Vec<Vec<char>>)
    ensures
        r@.map_values(|p: Vec<char>| p@) == items@.map_values(|x: RiskItem| risk_line(x)),
{
    let mut r: Vec<Vec<char>> = Vec::new();
    let mut i: usize = 0;
    while i < items.len()
        invariant
            i <= items@.len(),
            r@.map_values(|p: Vec<char>| p@) == items@.subrange(0, i as int).map_values(|x: RiskItem| risk_line(x)),
        decreases items.len() - i,
    {
        let ghost before = r@.map_values(|p: Vec<char>| p@);
        let x = &items[i];
        let mut t: Vec<char> = Vec::new();
        push_str(&mut t, "- ");
        push_str(&mut t, x.category.as_str());
        push_str(&mut t, " severity=");
        push_str(&mut t, x.severity.as_str());
        push_str(&mut t, ": ");
        push_str(&mut t, x.explanation.as_str());
        r.push(t);
        assert(r@.map_values(|p: Vec<char>| p@) =~= before.push(risk_line(items@[i as int])));
        i = i + 1;
        assert(items@.subrange(0, i as int).map_values(|x: RiskItem| risk_line(x)) =~= before.push(risk_line(items@[i - 1])));
    }
    assert(items@.subrange(0, items@.len() as int) =~= items@);
    r
}

/// Identifiers of hypotheses (exec).
fn hypothesis_ids_of(hs: &Vec<Hypothesis>) -> (r: Vec<ObjectId>)
    ensures
        r@ == hypothesis_ids(hs@),
{
    let mut r: Vec<ObjectId> = Vec::new();
    let mut i: usize = 0;
    while i < hs.len()
        invariant
            i <= hs@.len(),
            r@ == hypothesis_ids(hs@.subrange(0, i as int)),
        decreases hs.len() - i,
    {
        r.push(hs[i].id);
        i = i + 1;
        assert(r@ =~= hypothesis_ids(hs@.subrange(0, i as int)));
    }
    assert(hs@.subrange(0, hs@.len() as int) =~= hs@);
    r
}

/// Identifiers of Recommendations (exec).
fn recommendation_ids_of(recs: &Vec<Recommendation>) -> (r: Vec<ObjectId>)
    ensures
        r@ == recs@.map_values(|x: Recommendation| x.id),
{
    let mut r: Vec<ObjectId> = Vec::new();
    let mut i: usize = 0;
    while i < recs.len()
        invariant
            i <= recs@.len(),
            r@ == recs@.subrange(0, i as int).map_values(|x: Recommendation| x.id),
        decreases recs.len() - i,
    {
        r.push(recs[i].id);
        i = i + 1;
        assert(r@ =~= recs@.subrange(0, i as int).map_values(|x: Recommendation| x.id));
    }
    assert(recs@.subrange(0, recs@.len() as int) =~= recs@);
    r
}

/// Identifiers of Recalled Contexts (exec).
fn context_ids_of(cs: &Vec<RecalledContext>) -> (r: Vec<ObjectId>)
    ensures
        r@ == cs@.map_values(|c: RecalledContext| c.id),
{
    let mut r: Vec<ObjectId> = Vec::new();
    let mut i: usize = 0;
    while i < cs.len()
        invariant
            i <= cs@.len(),
            r@ == cs@.subrange(0, i as int).map_values(|c: RecalledContext| c.id),
        decreases cs.len() - i,
    {
        r.push(cs[i].id);
        i = i + 1;
        assert(r@ =~= cs@.subrange(0, i as int).map_values(|c: RecalledContext| c.id));
    }
    assert(cs@.subrange(0, cs@.len() as int) =~= cs@);
    r
}

/// Strings joined with `"; "`, or `(none)` (exec).
fn listed_or_none_of(items: &Vec<String>) -> (r: Vec<char>)
    ensures
        r@ == listed_or_none(texts(items@)),
{
    if items.len() == 0 {
        let mut t: Vec<char> = Vec::new();
        push_str(&mut t, "(none)");
        return t;
    }
    assert(items@.map_values(|p: String| p@) =~= texts(items@));
    join_strings(items, "; ")
}

/// The Investigation section body.
fn investigation_body(inv: &Investigation) -> (b: Vec<char>)
    ensures
        b@ == investigation_section(*inv).1,
{
    let mut t: Vec<char> = Vec::new();
    push_str(&mut t, "Title: ");
    push_str(&mut t, inv.title.as_str());
    push_str(&mut t, "\nStatus: ");
    push_str(&mut t, inv.status.as_str());
    push_str(&mut t, "\nDescription: ");
    match &inv.description {
        Some(d) => push_str(&mut t, d.as_str()),
        None => push_str(&mut t, "(none)"),
    }
    t
}

/// The Evidence section body.
fn evidence_body(ms: &Vec<MemoryRecord>) -> (b: Vec<char>)
    ensures
        b@ == evidence_section(ms@).1,
{
    let mut t: Vec<char> = Vec::new();
    push_decimal(&mut t, ms.len() as u128);
    push_str(&mut t, " Memory record(s). Latest: ");
    if ms.len() > 0 {
        push_str(&mut t, ms[ms.len() - 1].summary.as_str());
    } else {
        push_str(&mut t, "(none)");
    }
    t
}

/// The Deployment Readiness section body.
fn readiness_body(r: &DeploymentReadiness) -> (b: Vec<char>)
    ensures
        b@ == readiness_section(*r).1,
{
    let mut t: Vec<char> = Vec::new();
    push_str(&mut t, "Status: ");
    push_str(&mut t, r.status.as_str());
    push_str(&mut t, " (conf ");
    push_percent(&mut t, r.confidence.permille);
    push_str(&mut t, "%)\nBlockers: ");
    let b = listed_or_none_of(&r.blockers);
    push_chars(&mut t, &b);
    push_str(&mut t, "\nWarnings: ");
    let w = listed_or_none_of(&r.warnings);
    push_chars(&mut t, &w);
    push_str(&mut t, "\nRecommendation: ");
    push_str(&mut t, r.recommendation_summary.as_str());
    t
}

/// The Risk Forecast section body.
fn risk_body(f: &RiskForecast) -> (b: Vec<char>)
    ensures
        b@ == risk_section(*f).1,
{
    let mut t: Vec<char> = Vec::new();
    push_str(&mut t, f.summary.as_str());
    push_str(&mut t, "\n");
    let lines = risk_lines(&f.items);
    let j = join_chars(&lines, "\n");
    push_chars(&mut t, &j);
    t
}

/// The first six sections: Investigation, Evidence, Knowledge,
/// Evaluations, Verifications and Hypotheses.
fn head_sections(
    inv: &Investigation,
    ms: &Vec<MemoryRecord>,
    ks: &Vec<KnowledgeObject>,
    es: &Vec<Evaluation>,
    rs: &Vec<VerificationReceipt>,
    hs: &Vec<Hypothesis>,
) -> (out: Vec<ReportSection>)
    ensures
        section_views(out@) == report_sections(*inv, ms@, ks@, es@, rs@, seq![], hs@, seq![], seq![], seq![], seq![]).subrange(0, 6),
{
    let mut out: Vec<ReportSection> = Vec::new();
    push_section(&mut out, "Investigation", investigation_body(inv), Vec::new());
    push_section(&mut out, "Evidence", evidence_body(ms), memory_record_ids_of(ms));
    push_section(&mut out, "Knowledge", join_chars(&knowledge_lines(ks), "\n"), knowledge_object_ids_of(ks));
    push_section(&mut out, "Evaluations", join_chars(&evaluation_lines(es), "\n"), evaluation_ids_of(es));
    push_section(&mut out, "Verifications", join_chars(&receipt_lines(rs), "\n"), receipt_ids_of(rs));
    let hbody = if hs.len() == 0 {
        let mut t: Vec<char> = Vec::new();
        push_str(&mut t, "(none generated yet)");
        t
    } else {
        join_chars(&hypothesis_lines(hs), "\n")
    };
    push_section(&mut out, "Hypotheses", hbody, hypothesis_ids_of(hs));
    assert(section_views(out@) =~= report_sections(*inv, ms@, ks@, es@, rs@, seq![], hs@, seq![], seq![], seq![], seq![]).subrange(0, 6));
    out
}

/// The Markdown of a report (exec).
fn markdown_of(title: &String, sections: &Vec<ReportSection>) -> (m: String)
    ensures
        m@ == report_markdown(title@, section_views(sections@)),
{
    let ghost views = section_views(sections@);
    let mut t: Vec<char> = Vec::new();
    push_str(&mut t, "# Engineering Report: ");
    push_str(&mut t, title.as_str());
    push_str(&mut t, "\n\n");
    let ghost head = t@;
    let mut i: usize = 0;
    while i < sections.len()
        invariant
            i <= sections@.len(),
            views == section_views(sections@),
            t@ == head + sections_markdown(views.subrange(0, i as int)),
        decreases sections.len() - i,
    {
        let ghost sub = views.subrange(0, i + 1);
        assert(sub.drop_last() =~= views.subrange(0, i as int));
        assert(sub.last() == section_view(sections@[i as int]));
        push_str(&mut t, "## ");
        push_str(&mut t, sections[i].title.as_str());
        push_str(&mut t, "\n\n");
        push_str(&mut t, sections[i].body.as_str());
        push_str(&mut t, "\n\n");
        i = i + 1;
        assert(t@ =~= head + sections_markdown(views.subrange(0, i as int)));
    }
    assert(views.subrange(0, sections@.len() as int) =~= views);
    push_str(&mut t, "---\nGenerated by Rivora Runtime. Recommendations are proposals only.\n");
    assert(t@ =~= report_markdown(title@, views));
    to_string(&t)
}

/// Generates a durable engineering report on an Investigation from its
/// Engineering Objects: the Investigation, its evidence, Knowledge,
/// Evaluations, receipts and hypotheses; the latest readiness assessment and
/// risk forecast, when there are any; its Recommendations (proposals only);
/// and its historical context. Each section cites the objects it shows, and
/// the Markdown renders every section in order.
pub fn generate_engineering_report(
    investigation: &Investigation,
    memory: &Vec<MemoryRecord>,
    knowledge: &Vec<KnowledgeObject>,
    evaluations: &Vec<Evaluation>,
    receipts: &Vec<VerificationReceipt>,
    recommendations: &Vec<Recommendation>,
    hypotheses: &Vec<Hypothesis>,
    readiness: &Vec<DeploymentReadiness>,
    risks: &Vec<RiskForecast>,
    learning: &Vec<LearningOutcome>,
    contexts: &Vec<RecalledContext>,
    actor: &str,
    now: i64,
) -> (r: EngineeringReport)
    ensures
        r.investigation_id == investigation.id,
        r.title@ == "Engineering Report — "@ + investigation.title@,
        section_views(r.sections@) == report_sections(
            *investigation,
            memory@,
            knowledge@,
            evaluations@,
            receipts@,
            recommendations@,
            hypotheses@,
            readiness@,
            risks@,
            learning@,
            contexts@,
        ),
        r.markdown@ == report_markdown(investigation.title@, section_views(r.sections@)),
        r.provenance.actor@ == actor@,
        r.provenance.recorded_at == now,
        r.generated_at == now,
        r.provenance.capability is Some && r.provenance.capability->0@ == "generate_engineering_report"@,
{
    let ghost all = report_sections(
        *investigation,
        memory@,
        knowledge@,
        evaluations@,
        receipts@,
        recommendations@,
        hypotheses@,
        readiness@,
        risks@,
        learning@,
        contexts@,
    );
    let mut sections = head_sections(investigation, memory, knowledge, evaluations, receipts, hypotheses);
    let ghost head = section_views(sections@);
    assert(head =~= all.subrange(0, 6));
    if readiness.len() > 0 {
        let last = &readiness[readiness.len() - 1];
        let mut refs: Vec<ObjectId> = Vec::new();
        refs.push(last.id);
        push_section(&mut sections, "Deployment Readiness", readiness_body(last), refs);
    }
    if risks.len() > 0 {
        let last = &risks[risks.len() - 1];
        let mut refs: Vec<ObjectId> = Vec::new();
        refs.push(last.id);
        push_section(&mut sections, "Risk Forecast", risk_body(last), refs);
    }
    push_section(
        &mut sections,
        "Recommendations",
        join_chars(&recommendation_lines(recommendations), "\n"),
        recommendation_ids_of(recommendations),
    );
    let mut t: Vec<char> = Vec::new();
    push_decimal(&mut t, contexts.len() as u128);
    push_str(&mut t, " Recalled Context record(s); ");
    push_decimal(&mut t, learning.len() as u128);
    push_str(&mut t, " Learning Outcome(s). Historical context is labeled and never auto-applied.");
    push_section(&mut sections, "Historical Context", t, context_ids_of(contexts));
    assert(section_views(sections@) =~= all);
    let markdown = markdown_of(&investigation.title, &sections);
    let mut title: Vec<char> = Vec::new();
    push_str(&mut title, "Engineering Report — ");
    push_str(&mut title, investigation.title.as_str());
    EngineeringReport {
        id: fresh_object_id(),
        investigation_id: investigation.id,
        title: to_string(&title),
        sections,
        markdown,
        generated_at: now,
        provenance: Provenance::now(actor, "runtime", now).with_capability("generate_engineering_report"),
    }
}

} // verus!
