//! Next-best verification steps for an Investigation.

use vstd::prelude::*;
use crate::hypotheses::copy_provenance;
use crate::ids::{copy_object_ids, fresh_object_id, InvestigationId, ObjectId};
use crate::model::{Hypothesis, MemoryRecord, Provenance, VerificationReceipt};
use crate::pipeline::percent_of;
use crate::readiness::{memory_ids, memory_ids_of};
use crate::text::{contains_seq, contains_str, decimal, lower_chars, lowercase_of, push_decimal, push_str, to_string};
use crate::assess::texts;

verus! {

/// Whether a suggested verification can be carried out as it stands.
#[derive(Clone, Copy, PartialEq, Eq, Debug, Structural)]
pub enum VerificationFeasibility {
    Feasible,
    RequiresHuman,
}

impl VerificationFeasibility {
    /// Stable string form.
    pub open spec fn text(self) -> Seq<char> {
        match self {
            VerificationFeasibility::Feasible => "feasible"@,
            VerificationFeasibility::RequiresHuman => "requires_human"@,
        }
    }

    /// Stable string form.
    pub fn as_str(self) -> (r: &'static str)
        ensures
            r@ == self.text(),
    {
        match self {
            VerificationFeasibility::Feasible => "feasible",
            VerificationFeasibility::RequiresHuman => "requires_human",
        }
    }
}

/// A ranked suggestion of what to verify next.
pub struct VerificationSuggestion {
    pub id: ObjectId,
    pub investigation_id: InvestigationId,
    /// The hypothesis the suggestion would test, if any.
    pub hypothesis_id: Option<ObjectId>,
    pub claim: String,
    pub expected_evidence: String,
    pub reason: String,
    pub method: String,
    /// Estimated confidence gain, in thousandths.
    pub estimated_confidence_impact: u32,
    pub prerequisites: Vec<String>,
    pub feasibility: VerificationFeasibility,
    pub confirmation_required: bool,
    pub supporting_evidence: Vec<ObjectId>,
    pub rank: u32,
    pub generated_at: i64,
    pub provenance: Provenance,
}

/// A suggestion as plain values: hypothesis, claim, expected evidence,
/// reason, method, impact (thousandths), prerequisites, feasibility and
/// supporting evidence.
pub type SuggestionDraft = (
    Option<ObjectId>,
    Seq<char>,
    Seq<char>,
    Seq<char>,
    Seq<char>,
    u32,
    Seq<Seq<char>>,
    VerificationFeasibility,
    Seq<ObjectId>,
);

/// The plain values of a suggestion.
pub open spec fn suggestion_draft(s: VerificationSuggestion) -> SuggestionDraft {
    (
        s.hypothesis_id,
        s.claim@,
        s.expected_evidence@,
        s.reason@,
        s.method@,
        s.estimated_confidence_impact,
        texts(s.prerequisites@),
        s.feasibility,
        s.supporting_evidence@,
    )
}

/// The plain values of a list of suggestions.
pub open spec fn suggestion_drafts(v: Seq<VerificationSuggestion>) -> Seq<SuggestionDraft> {
    v.map_values(|s: VerificationSuggestion| suggestion_draft(s))
}

/// The verification method fitting a hypothesis statement (by its lowercase
/// text): CI evidence, environment evidence, or a re-verification.
pub open spec fn method_for(statement: Seq<char>) -> Seq<char> {
    let t = lowercase_of(statement);
    if contains_seq(t, "ci"@) || contains_seq(t, "pipeline"@) {
        "Collect CI / GitHub Actions observations and re-verify"@
    } else if contains_seq(t, "infrastructure"@) || contains_seq(t, "observability"@) {
        "Collect infrastructure or observability connector evidence"@
    } else {
        "Inspect supporting Memory and re-run verify_conclusion"@
    }
}

/// 35% of a confidence (thousandths, rounded down), kept within [100, 400].
pub open spec fn impact_for(permille: u32) -> u32 {
    let x = 350 * permille / 1000;
    if x < 100 { 100 } else if x > 400 { 400 } else { x as u32 }
}

/// A hypothesis still worth verifying: neither verified nor rejected.
pub open spec fn open_hypothesis(h: Hypothesis) -> bool {
    h.status != crate::vocab::HypothesisStatus::Verified && h.status != crate::vocab::HypothesisStatus::Rejected
}

/// The suggestion that tests one hypothesis.
pub open spec fn hypothesis_suggestion(h: Hypothesis) -> SuggestionDraft {
    let evidence_gap = h.supporting_evidence@.len() == 0;
    (
        Some(h.id),
        h.statement@,
        "Evidence that supports or contradicts: "@ + h.statement@,
        "Hypothesis rank "@ + decimal(h.rank as nat) + " has confidence "@ + decimal(percent_of(h.confidence.permille))
            + "% and status "@ + h.status.text() + "; reducing uncertainty here has high value."@,
        method_for(h.statement@),
        impact_for(h.confidence.permille),
        if evidence_gap { seq!["Collect more Observations"@] } else { seq!["Review supporting evidence ids"@] },
        if evidence_gap { VerificationFeasibility::RequiresHuman } else { VerificationFeasibility::Feasible },
        h.supporting_evidence@,
    )
}

/// The suggestions testing the open hypotheses among `hs`, in order.
pub open spec fn hypothesis_suggestions(hs: Seq<Hypothesis>) -> Seq<SuggestionDraft>
    decreases hs.len(),
{
    if hs.len() == 0 {
        seq![]
    } else if open_hypothesis(hs.last()) {
        hypothesis_suggestions(hs.drop_last()).push(hypothesis_suggestion(hs.last()))
    } else {
        hypothesis_suggestions(hs.drop_last())
    }
}

/// The suggestion made when no Verification Receipt exists yet; it names the
/// first hypothesis and cites the first three Memory records.
pub open spec fn receipt_gap_suggestion(hs: Seq<Hypothesis>, ms: Seq<MemoryRecord>) -> SuggestionDraft {
    (
        if hs.len() > 0 { Some(hs[0].id) } else { None },
        "Current Evaluation conclusions require verification against Memory."@,
        "Verification Receipt for primary Evaluation"@,
        "No Verification Receipts exist; confidence remains unvalidated."@,
        "verify_all Capability"@,
        250,
        seq!["At least one Evaluation"@],
        VerificationFeasibility::Feasible,
        memory_ids(ms, 3),
    )
}

/// The suggestion made when no gap is found.
pub open spec fn coverage_suggestion() -> SuggestionDraft {
    (
        None,
        "Maintain verification coverage as new Observations arrive."@,
        "Ongoing Verification Receipts"@,
        "No high-priority verification gaps detected."@,
        "verify_all after new evidence"@,
        100,
        seq![],
        VerificationFeasibility::Feasible,
        seq![],
    )
}

/// The leading (at most three) hypotheses.
pub open spec fn leading(hs: Seq<Hypothesis>) -> Seq<Hypothesis> {
    if hs.len() > 3 { hs.take(3) } else { hs }
}

/// The next verification steps: the receipt gap when there are no receipts,
/// then one step per open leading hypothesis; the coverage step when there
/// is nothing else.
pub open spec fn next_verification_drafts(hs: Seq<Hypothesis>, rs: Seq<VerificationReceipt>, ms: Seq<MemoryRecord>) -> Seq<SuggestionDraft> {
    let found = (if rs.len() == 0 { seq![receipt_gap_suggestion(hs, ms)] } else { seq![] }) + hypothesis_suggestions(leading(hs));
    if found.len() == 0 { seq![coverage_suggestion()] } else { found }
}

/// Every suggestion belongs to the Investigation, is ranked by position from
/// 1, needs no confirmation and is recorded by `actor` through
/// `recommend_next_verification`.
pub open spec fn suggestions_for(v: Seq<VerificationSuggestion>, id: InvestigationId, actor: Seq<char>) -> bool {
    forall|i: int|
        0 <= i < v.len() ==> {
            &&& (#[trigger] v[i]).rank == i + 1
            &&& v[i].investigation_id == id
            &&& !v[i].confirmation_required
            &&& v[i].provenance.actor@ == actor
            &&& v[i].provenance.source@ == "runtime"@
            &&& v[i].provenance.capability is Some
            &&& v[i].provenance.capability->0@ == "recommend_next_verification"@
            &&& v[i].provenance.evidence_ids@.len() == 0
        }
}

fn text_string(s: &str) -> (r: String)
    ensures
        r@ == s@,
{
    s.to_owned()
}

/// The method fitting a hypothesis statement.
fn method_of(statement: &String) -> (r: &'static str)
    ensures
        r@ == method_for(statement@),
{
    let t = lower_chars(statement.as_str());
    if contains_str(&t, "ci") || contains_str(&t, "pipeline") {
        "Collect CI / GitHub Actions observations and re-verify"
    } else if contains_str(&t, "infrastructure") || contains_str(&t, "observability") {
        "Collect infrastructure or observability connector evidence"
    } else {
        "Inspect supporting Memory and re-run verify_conclusion"
    }
}

/// Appends a suggestion ranked after those already present.
fn add_suggestion(
    out: &mut Vec<VerificationSuggestion>,
    investigation_id: InvestigationId,
    d: (Option<ObjectId>, String, String, String, String, u32, Vec<String>, VerificationFeasibility, Vec<ObjectId>),
    provenance: &Provenance,
)
    requires
        old(out)@.len() < 8,
        suggestions_for(old(out)@, investigation_id, provenance.actor@),
        provenance.source@ == "runtime"@,
        provenance.capability is Some && provenance.capability->0@ == "recommend_next_verification"@,
        provenance.evidence_ids@.len() == 0,
    ensures
        suggestion_drafts(final(out)@) == suggestion_drafts(old(out)@).push(
            (d.0, d.1@, d.2@, d.3@, d.4@, d.5, texts(d.6@), d.7, d.8@),
        ),
        suggestions_for(final(out)@, investigation_id, provenance.actor@),
        final(out)@.len() == old(out)@.len() + 1,
{
    let rank = (out.len() + 1) as u32;
    let s = VerificationSuggestion {
        id: fresh_object_id(),
        investigation_id,
        hypothesis_id: d.0,
        claim: d.1,
        expected_evidence: d.2,
        reason: d.3,
        method: d.4,
        estimated_confidence_impact: d.5,
        prerequisites: d.6,
        feasibility: d.7,
        confirmation_required: false,
        supporting_evidence: d.8,
        rank,
        generated_at: provenance.recorded_at,
        provenance: copy_provenance(provenance),
    };
    out.push(s);
    assert(suggestion_drafts(out@) =~= suggestion_drafts(old(out)@).push(suggestion_draft(s)));
}

/// The suggestion testing one hypothesis.
fn suggestion_for(h: &Hypothesis) -> (d: (Option<ObjectId>, String, String, String, String, u32, Vec<String>, VerificationFeasibility, Vec<ObjectId>))
    ensures
        (d.0, d.1@, d.2@, d.3@, d.4@, d.5, texts(d.6@), d.7, d.8@) == hypothesis_suggestion(*h),
{
    let mut expected: Vec<char> = Vec::new();
    push_str(&mut expected, "Evidence that supports or contradicts: ");
    push_str(&mut expected, h.statement.as_str());
    let mut reason: Vec<char> = Vec::new();
    push_str(&mut reason, "Hypothesis rank ");
    push_decimal(&mut reason, h.rank as u128);
    push_str(&mut reason, " has confidence ");
    let percent = (h.confidence.permille as u64 + 5) / 10;
    push_decimal(&mut reason, percent as u128);
    push_str(&mut reason, "% and status ");
    push_str(&mut reason, h.status.as_str());
    push_str(&mut reason, "; reducing uncertainty here has high value.");
    let x = 350 * (h.confidence.permille as u64) / 1000;
    let impact: u32 = if x < 100 { 100 } else if x > 400 { 400 } else { x as u32 };
    let gap = h.supporting_evidence.len() == 0;
    let mut prerequisites: Vec<String> = Vec::new();
    if gap {
        prerequisites.push(text_string("Collect more Observations"));
    } else {
        prerequisites.push(text_string("Review supporting evidence ids"));
    }
    let feasibility = if gap { VerificationFeasibility::RequiresHuman } else { VerificationFeasibility::Feasible };
    let d = (
        Some(h.id),
        h.statement.as_str().to_owned(),
        to_string(&expected),
        to_string(&reason),
        text_string(method_of(&h.statement)),
        impact,
        prerequisites,
        feasibility,
        copy_object_ids(&h.supporting_evidence),
    );
    assert(texts(d.6@) =~= hypothesis_suggestion(*h).6);
    d
}

/// Recommends the next-best verification steps for an Investigation from
/// its hypotheses (leading ones first), Verification Receipts and Memory.
///
/// When no receipt exists, verifying the current Evaluations comes first;
/// then each of the first three hypotheses that is neither verified nor
/// rejected gets a step fitting its statement. When nothing is found, the
/// single step keeps coverage as evidence arrives. Ranks run from 1.
pub fn recommend_next_verification(
    investigation_id: InvestigationId,
    hypotheses: &Vec<Hypothesis>,
    receipts: &Vec<VerificationReceipt>,
    memory: &Vec<MemoryRecord>,
    actor: &str,
    now: i64,
) -> (r: Vec<VerificationSuggestion>)
    ensures
        suggestion_drafts(r@) == next_verification_drafts(hypotheses@, receipts@, memory@),
        suggestions_for(r@, investigation_id, actor@),
        1 <= r@.len() <= 4,
{
    let provenance = Provenance::now(actor, "runtime", now).with_capability("recommend_next_verification");
    let mut out: Vec<VerificationSuggestion> = Vec::new();
    assert(suggestion_drafts(out@) =~= Seq::<SuggestionDraft>::empty());
    if receipts.len() == 0 {
        let mut prerequisites: Vec<String> = Vec::new();
        prerequisites.push(text_string("At least one Evaluation"));
        let first = if hypotheses.len() > 0 { Some(hypotheses[0].id) } else { None };
        let d = (
            first,
            text_string("Current Evaluation conclusions require verification against Memory."),
            text_string("Verification Receipt for primary Evaluation"),
            text_string("No Verification Receipts exist; confidence remains unvalidated."),
            text_string("verify_all Capability"),
            250u32,
            prerequisites,
            VerificationFeasibility::Feasible,
            memory_ids_of(memory, 3),
        );
        assert(texts(d.6@) =~= seq!["At least one Evaluation"@]);
        add_suggestion(&mut out, investigation_id, d, &provenance);
    }
    let ghost head = suggestion_drafts(out@);
    let ghost lead = leading(hypotheses@);
    assert(head =~= if receipts@.len() == 0 { seq![receipt_gap_suggestion(hypotheses@, memory@)] } else { seq![] });
    let n = if hypotheses.len() > 3 { 3 } else { hypotheses.len() };
    let mut i: usize = 0;
    while i < n
        invariant
            i <= n,
            n == lead.len(),
            lead == leading(hypotheses@),
            n <= hypotheses@.len(),
            forall|q: int| 0 <= q < n ==> lead[q] == hypotheses@[q],
            out@.len() <= 1 + i,
            suggestion_drafts(out@) == head + hypothesis_suggestions(lead.subrange(0, i as int)),
            suggestions_for(out@, investigation_id, provenance.actor@),
            provenance.actor@ == actor@,
            provenance.source@ == "runtime"@,
            provenance.capability is Some && provenance.capability->0@ == "recommend_next_verification"@,
            provenance.evidence_ids@.len() == 0,
        decreases n - i,
    {
        let ghost sub = lead.subrange(0, i + 1);
        assert(sub.drop_last() =~= lead.subrange(0, i as int));
        assert(sub.last() == hypotheses@[i as int]);
        let h = &hypotheses[i];
        if h.status != crate::vocab::HypothesisStatus::Verified && h.status != crate::vocab::HypothesisStatus::Rejected {
            let d = suggestion_for(h);
            add_suggestion(&mut out, investigation_id, d, &provenance);
        }
        i = i + 1;
    }
    assert(lead.subrange(0, n as int) =~= lead);
    if out.len() == 0 {
        let d = (
            None,
            text_string("Maintain verification coverage as new Observations arrive."),
            text_string("Ongoing Verification Receipts"),
            text_string("No high-priority verification gaps detected."),
            text_string("verify_all after new evidence"),
            100u32,
            Vec::new(),
            VerificationFeasibility::Feasible,
            Vec::new(),
        );
        assert(texts(d.6@) =~= Seq::<Seq<char>>::empty());
        add_suggestion(&mut out, investigation_id, d, &provenance);
        assert(suggestion_drafts(out@) =~= seq![coverage_suggestion()]);
    }
    out
}

} // verus!
