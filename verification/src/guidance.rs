//! Probabilistic root-cause guidance: the leading hypotheses, the evidence
//! for and against them, and what to verify first. Never a verified root
//! cause.

use vstd::prelude::*;
use crate::assess::texts;
use crate::ids::{fresh_object_id, uuid_chars, uuid_text, InvestigationId, ObjectId};
use crate::model::{Confidence, Hypothesis, MemoryRecord, Provenance};
use crate::pipeline::percent_of;
use crate::readiness::{memory_ids, memory_ids_of};
use crate::search::PriorOutcome;
use crate::suggestions::{leading, VerificationSuggestion};
use crate::text::{chars_of, contains_seq, contains_str, decimal, push_chars, push_decimal, push_str, to_string};

verus! {

/// Root-cause guidance for an Investigation.
pub struct RootCauseGuidance {
    pub id: ObjectId,
    pub investigation_id: InvestigationId,
    pub leading_hypothesis_ids: Vec<ObjectId>,
    pub guidance: String,
    pub supporting_evidence: Vec<ObjectId>,
    pub contradicting_evidence: Vec<ObjectId>,
    /// Related Investigations, ascending and without repeats.
    pub related_investigation_ids: Vec<InvestigationId>,
    /// Prior outcomes, labeled as historical.
    pub prior_mitigation_notes: Vec<String>,
    pub confidence: Confidence,
    pub verification_order: Vec<String>,
    pub known_gaps: Vec<String>,
    pub generated_at: i64,
    pub provenance: Provenance,
}

/// Identifiers of hypotheses.
pub open spec fn hypothesis_ids(hs: Seq<Hypothesis>) -> Seq<ObjectId> {
    hs.map_values(|h: Hypothesis| h.id)
}

/// The supporting evidence of the hypotheses, concatenated.
pub open spec fn all_supporting(hs: Seq<Hypothesis>) -> Seq<ObjectId>
    decreases hs.len(),
{
    if hs.len() == 0 {
        seq![]
    } else {
        all_supporting(hs.drop_last()) + hs.last().supporting_evidence@
    }
}

/// The contradicting evidence of the hypotheses, concatenated.
pub open spec fn all_contradicting(hs: Seq<Hypothesis>) -> Seq<ObjectId>
    decreases hs.len(),
{
    if hs.len() == 0 {
        seq![]
    } else {
        all_contradicting(hs.drop_last()) + hs.last().contradicting_evidence@
    }
}

/// The related Investigations of the hypotheses, concatenated.
pub open spec fn all_related(hs: Seq<Hypothesis>) -> Seq<InvestigationId>
    decreases hs.len(),
{
    if hs.len() == 0 {
        seq![]
    } else {
        all_related(hs.drop_last()) + hs.last().related_investigations@
    }
}

/// Strictly ascending identifiers (hence without repeats).
pub open spec fn ascending(v: Seq<InvestigationId>) -> bool {
    forall|a: int, b: int| 0 <= a < b < v.len() ==> (#[trigger] v[a]).value < (#[trigger] v[b]).value
}

/// The note on one prior outcome, labeled as historical.
pub open spec fn prior_note(p: PriorOutcome) -> Seq<char> {
    "Historical: investigation "@ + uuid_text(p.investigation_id.value) + " disposition="@ + p.outcome.disposition.text() + " note="@
        + match p.recommendation_summary {
        Some(s) => s@,
        None => "(no recommendation summary)"@,
    }
}

/// The notes on the first five prior outcomes.
pub open spec fn prior_notes(prior: Seq<PriorOutcome>) -> Seq<Seq<char>> {
    (if prior.len() > 5 { prior.take(5) } else { prior }).map_values(|p: PriorOutcome| prior_note(p))
}

/// The guidance text on the leading hypotheses.
pub open spec fn guidance_text(lead: Seq<Hypothesis>) -> Seq<char> {
    if lead.len() > 0 {
        "Leading (probabilistic) hypothesis: "@ + lead[0].statement@ + " (confidence "@ + decimal(percent_of(lead[0].confidence.permille))
            + "%, status "@ + lead[0].status.text()
            + "). This is not a verified root cause. Supporting and contradicting evidence remain inspectable. Historical mitigations must not be auto-applied."@
    } else {
        "No leading hypothesis; collect more evidence."@
    }
}

/// What to verify, in order: the suggested claims, else the leading statements.
pub open spec fn verification_order(lead: Seq<Hypothesis>, suggestions: Seq<VerificationSuggestion>) -> Seq<Seq<char>> {
    if suggestions.len() > 0 {
        suggestions.map_values(|s: VerificationSuggestion| s.claim@)
    } else {
        lead.map_values(|h: Hypothesis| h.statement@)
    }
}

/// Every leading hypothesis is still unverified.
pub open spec fn all_unverified(lead: Seq<Hypothesis>) -> bool {
    forall|i: int| 0 <= i < lead.len() ==> contains_seq((#[trigger] lead[i]).verification_summary@, "unverified"@)
}

/// The known gaps: sparse Memory, and no verified leading hypothesis.
pub open spec fn known_gaps(lead: Seq<Hypothesis>, ms: Seq<MemoryRecord>) -> Seq<Seq<char>> {
    (if ms.len() < 2 { seq!["Sparse Memory reduces root-cause confidence."@] } else { seq![] }) + if all_unverified(lead) {
        seq!["No hypothesis has been verified yet."@]
    } else {
        seq![]
    }
}

/// 85% of the leading confidence (thousandths, rounded down, at most
/// 1000), else 300.
pub open spec fn guidance_confidence(lead: Seq<Hypothesis>) -> u32 {
    if lead.len() > 0 {
        let x = lead[0].confidence.permille as int * 85 / 100;
        if x > 1000 { 1000 } else { x as u32 }
    } else {
        300
    }
}

fn text_string(s: &str) -> (r: String)
    ensures
        r@ == s@,
{
    s.to_owned()
}

/// Appends identifiers.
fn push_ids(out: &mut Vec<ObjectId>, ids: &Vec<ObjectId>)
    ensures
        final(out)@ == old(out)@ + ids@,
{
    let mut i: usize = 0;
    while i < ids.len()
        invariant
            i <= ids@.len(),
            out@ == old(out)@ + ids@.subrange(0, i as int),
        decreases ids.len() - i,
    {
        out.push(ids[i]);
        i = i + 1;
        assert(out@ =~= old(out)@ + ids@.subrange(0, i as int));
    }
    assert(ids@.subrange(0, ids@.len() as int) =~= ids@);
}

/// Adds an identifier to an ascending list, unless present.
#[verifier::spinoff_prover]
fn insert_ascending(v: &mut Vec<InvestigationId>, x: InvestigationId)
    requires
        ascending(old(v)@),
    ensures
        ascending(final(v)@),
        forall|y: InvestigationId| final(v)@.contains(y) <==> (old(v)@.contains(y) || y == x),
{
    let n = v.len();
    let mut pos: usize = 0;
    while pos < n && v[pos].value < x.value
        invariant
            pos <= n,
            n == v@.len(),
            v@ == old(v)@,
            forall|q: int| 0 <= q < pos ==> (#[trigger] v@[q]).value < x.value,
        decreases n - pos,
    {
        pos = pos + 1;
    }
    if pos < n && v[pos].value == x.value {
        assert(v@[pos as int] == x);
        assert forall|y: InvestigationId| v@.contains(y) <==> (old(v)@.contains(y) || y == x) by {
            if y == x {
                assert(v@[pos as int] == y);
            }
        }
        return;
    }
    let ghost before = v@;
    v.insert(pos, x);
    assert(v@ =~= before.insert(pos as int, x));
    assert forall|a: int, b: int| 0 <= a < b < v@.len() implies (#[trigger] v@[a]).value < (#[trigger] v@[b]).value by {
        if b < pos {
            assert(v@[a] == before[a] && v@[b] == before[b]);
        } else if b == pos {
            assert(v@[a] == before[a]);
        } else if a == pos {
            assert(v@[b] == before[b - 1]);
            assert(before[pos as int].value > x.value);
            if b - 1 > pos {
                assert(before[pos as int].value < before[b - 1].value);
            }
        } else if a < pos {
            assert(v@[a] == before[a] && v@[b] == before[b - 1]);
        } else {
            assert(v@[a] == before[a - 1] && v@[b] == before[b - 1]);
        }
    }
    assert forall|y: InvestigationId| v@.contains(y) <==> (before.contains(y) || y == x) by {
        if before.contains(y) {
            let k = choose|k: int| 0 <= k < before.len() && before[k] == y;
            if k < pos {
                assert(v@[k] == y);
            } else {
                assert(v@[k + 1] == y);
            }
        }
        if y == x {
            assert(v@[pos as int] == y);
        }
        if v@.contains(y) {
            let k = choose|k: int| 0 <= k < v@.len() && v@[k] == y;
            if k < pos {
                assert(before[k] == y);
            } else if k > pos {
                assert(before[k - 1] == y);
            }
        }
    }
}

/// Adds identifiers to an ascending list, skipping those present.
fn add_related(related: &mut Vec<InvestigationId>, xs: &Vec<InvestigationId>)
    requires
        ascending(old(related)@),
    ensures
        ascending(final(related)@),
        forall|y: InvestigationId| final(related)@.contains(y) <==> (old(related)@.contains(y) || xs@.contains(y)),
{
    let ghost rel0 = related@;
    let mut k: usize = 0;
    while k < xs.len()
        invariant
            k <= xs@.len(),
            rel0 == old(related)@,
            ascending(related@),
            forall|y: InvestigationId| #[trigger] related@.contains(y) <==> (rel0.contains(y) || xs@.subrange(0, k as int).contains(y)),
        decreases xs.len() - k,
    {
        let x = xs[k];
        let ghost r1 = related@;
        insert_ascending(related, x);
        let ghost k1 = (k + 1) as int;
        assert forall|y: InvestigationId| #[trigger] related@.contains(y) <==> (rel0.contains(y) || xs@.subrange(0, k1).contains(y)) by {
            let s0 = xs@.subrange(0, k as int);
            let s1 = xs@.subrange(0, k1);
            assert(s1 =~= s0.push(x));
            assert(r1.contains(y) == (rel0.contains(y) || s0.contains(y)));
            assert(related@.contains(y) == (r1.contains(y) || y == x));
            if s1.contains(y) && y != x {
                let q = choose|q: int| 0 <= q < s1.len() && s1[q] == y;
                assert(s0[q] == y);
            }
            if s0.contains(y) {
                let q = choose|q: int| 0 <= q < s0.len() && s0[q] == y;
                assert(s1[q] == y);
            }
            if y == x {
                assert(s1[k as int] == y);
            }
        }
        k = k + 1;
    }
    assert(xs@.subrange(0, xs@.len() as int) =~= xs@);
}

/// The note on one prior outcome (exec).
fn prior_note_of(p: &PriorOutcome) -> (s: String)
    ensures
        s@ == prior_note(*p),
{
    let mut t: Vec<char> = Vec::new();
    push_str(&mut t, "Historical: investigation ");
    let u = uuid_chars(p.investigation_id.value);
    push_chars(&mut t, &u);
    push_str(&mut t, " disposition=");
    push_str(&mut t, p.outcome.disposition.as_str());
    push_str(&mut t, " note=");
    match &p.recommendation_summary {
        Some(s) => push_str(&mut t, s.as_str()),
        None => push_str(&mut t, "(no recommendation summary)"),
    }
    to_string(&t)
}

/// The guidance text (exec).
fn guidance_of(hs: &Vec<Hypothesis>) -> (s: String)
    ensures
        s@ == guidance_text(leading(hs@)),
{
    if hs.len() == 0 {
        return text_string("No leading hypothesis; collect more evidence.");
    }
    assert(leading(hs@)[0] == hs@[0]);
    let top = &hs[0];
    let mut t: Vec<char> = Vec::new();
    push_str(&mut t, "Leading (probabilistic) hypothesis: ");
    push_str(&mut t, top.statement.as_str());
    push_str(&mut t, " (confidence ");
    push_decimal(&mut t, ((top.confidence.permille as u64 + 5) / 10) as u128);
    push_str(&mut t, "%, status ");
    push_str(&mut t, top.status.as_str());
    push_str(
        &mut t,
        "). This is not a verified root cause. Supporting and contradicting evidence remain inspectable. Historical mitigations must not be auto-applied.",
    );
    to_string(&t)
}

/// Generates probabilistic root-cause guidance for an Investigation from its
/// hypotheses (the first three lead), the verification suggestions made for
/// it, its Memory and the prior outcomes recalled for it.
///
/// The guidance names the leading hypothesis without claiming a verified
/// root cause; it cites the leading hypotheses' evidence (and the first
/// three Memory records), lists related Investigations ascending without
/// repeats, labels the first five prior outcomes as historical, orders
/// verification by the suggestions (else the leading statements) and names
/// the known gaps.
pub fn generate_root_cause_guidance(
    investigation_id: InvestigationId,
    hypotheses: &Vec<Hypothesis>,
    suggestions: &Vec<VerificationSuggestion>,
    memory: &Vec<MemoryRecord>,
    prior: &Vec<PriorOutcome>,
    actor: &str,
    now: i64,
) -> (g: RootCauseGuidance)
    ensures
        ({
            let lead = leading(hypotheses@);
            &&& g.investigation_id == investigation_id
            &&& g.leading_hypothesis_ids@ == hypothesis_ids(lead)
            &&& g.guidance@ == guidance_text(lead)
            &&& g.supporting_evidence@ == all_supporting(lead) + memory_ids(memory@, 3)
            &&& g.contradicting_evidence@ == all_contradicting(lead)
            &&& ascending(g.related_investigation_ids@)
            &&& forall|y: InvestigationId| #[trigger] g.related_investigation_ids@.contains(y) <==> all_related(lead).contains(y)
            &&& texts(g.prior_mitigation_notes@) == prior_notes(prior@)
            &&& g.confidence.permille == guidance_confidence(lead)
            &&& texts(g.verification_order@) == verification_order(lead, suggestions@)
            &&& texts(g.known_gaps@) == known_gaps(lead, memory@)
            &&& g.provenance.actor@ == actor@
            &&& g.provenance.recorded_at == now
            &&& g.generated_at == now
            &&& g.provenance.source@ == "runtime"@
            &&& g.provenance.capability is Some && g.provenance.capability->0@ == "generate_root_cause_guidance"@
            &&& g.provenance.evidence_ids@.len() == 0
        }),
{
    let ghost lead = leading(hypotheses@);
    let n = if hypotheses.len() > 3 { 3 } else { hypotheses.len() };
    let mut ids: Vec<ObjectId> = Vec::new();
    let mut supporting: Vec<ObjectId> = Vec::new();
    let mut contradicting: Vec<ObjectId> = Vec::new();
    let mut related: Vec<InvestigationId> = Vec::new();
    let mut statements: Vec<String> = Vec::new();
    let mut unverified = true;
    let mut i: usize = 0;
    while i < n
        invariant
            i <= n,
            n == lead.len(),
            lead == leading(hypotheses@),
            forall|q: int| 0 <= q < n ==> lead[q] == hypotheses@[q],
            ids@ == hypothesis_ids(lead.subrange(0, i as int)),
            supporting@ == all_supporting(lead.subrange(0, i as int)),
            contradicting@ == all_contradicting(lead.subrange(0, i as int)),
            ascending(related@),
            forall|y: InvestigationId| related@.contains(y) <==> all_related(lead.subrange(0, i as int)).contains(y),
            texts(statements@) == lead.subrange(0, i as int).map_values(|h: Hypothesis| h.statement@),
            unverified == all_unverified(lead.subrange(0, i as int)),
        decreases n - i,
    {
        let ghost sub = lead.subrange(0, i + 1);
        let ghost prev = lead.subrange(0, i as int);
        assert(sub.drop_last() =~= prev);
        assert(sub.last() == hypotheses@[i as int]);
        let h = &hypotheses[i];
        ids.push(h.id);
        assert(ids@ =~= hypothesis_ids(sub));
        push_ids(&mut supporting, &h.supporting_evidence);
        push_ids(&mut contradicting, &h.contradicting_evidence);
        let ghost rel_before = related@;
        add_related(&mut related, &h.related_investigations);
        assert forall|y: InvestigationId| related@.contains(y) <==> all_related(sub).contains(y) by {
            assert(rel_before.contains(y) == all_related(prev).contains(y));
            let a = all_related(prev);
            let b = h.related_investigations@;
            assert(all_related(sub) == a + b);
            if (a + b).contains(y) {
                let q = choose|q: int| 0 <= q < (a + b).len() && (a + b)[q] == y;
                if q < a.len() {
                    assert(a[q] == y);
                } else {
                    assert(b[q - a.len()] == y);
                }
            }
            if a.contains(y) {
                let q = choose|q: int| 0 <= q < a.len() && a[q] == y;
                assert((a + b)[q] == y);
            }
            if b.contains(y) {
                let q = choose|q: int| 0 <= q < b.len() && b[q] == y;
                assert((a + b)[a.len() + q] == y);
            }
        }
        let ghost st0 = texts(statements@);
        statements.push(h.statement.as_str().to_owned());
        assert(texts(statements@) =~= st0.push(h.statement@));
        assert(sub.map_values(|x: Hypothesis| x.statement@) =~= prev.map_values(|x: Hypothesis| x.statement@).push(h.statement@));
        let v = crate::text::chars_of(h.verification_summary.as_str());
        let this_unverified = contains_str(&v, "unverified");
        proof {
            assert forall|q: int| 0 <= q < sub.len() implies (contains_seq((#[trigger] sub[q]).verification_summary@, "unverified"@) <==> (
            if q < i { contains_seq(prev[q].verification_summary@, "unverified"@) } else { this_unverified })) by {
                if q < i {
                    assert(sub[q] == prev[q]);
                }
            }
        }
        unverified = unverified && this_unverified;
        i = i + 1;
    }
    assert(lead.subrange(0, n as int) =~= lead);
    let mut m = memory_ids_of(memory, 3);
    supporting.append(&mut m);
    let mut notes: Vec<String> = Vec::new();
    let p = if prior.len() > 5 { 5 } else { prior.len() };
    let ghost shown = if prior@.len() > 5 { prior@.take(5) } else { prior@ };
    let mut j: usize = 0;
    while j < p
        invariant
            j <= p,
            p == shown.len(),
            shown == (if prior@.len() > 5 { prior@.take(5) } else { prior@ }),
            forall|q: int| 0 <= q < p ==> shown[q] == prior@[q],
            texts(notes@) == shown.subrange(0, j as int).map_values(|x: PriorOutcome| prior_note(x)),
        decreases p - j,
    {
        let ghost t0 = texts(notes@);
        notes.push(prior_note_of(&prior[j]));
        assert(texts(notes@) =~= t0.push(prior_note(prior@[j as int])));
        assert(shown.subrange(0, j + 1).map_values(|x: PriorOutcome| prior_note(x)) =~= shown.subrange(0, j as int).map_values(
            |x: PriorOutcome| prior_note(x),
        ).push(prior_note(shown[j as int])));
        j = j + 1;
    }
    assert(shown.subrange(0, p as int) =~= shown);
    let order: Vec<String> = if suggestions.len() > 0 {
        let mut o: Vec<String> = Vec::new();
        let mut q: usize = 0;
        while q < suggestions.len()
            invariant
                q <= suggestions@.len(),
                texts(o@) == suggestions@.subrange(0, q as int).map_values(|s: VerificationSuggestion| s.claim@),
            decreases suggestions.len() - q,
        {
            let ghost t0 = texts(o@);
            o.push(suggestions[q].claim.as_str().to_owned());
            assert(texts(o@) =~= t0.push(suggestions@[q as int].claim@));
            assert(suggestions@.subrange(0, q + 1).map_values(|s: VerificationSuggestion| s.claim@) =~= suggestions@.subrange(
                0,
                q as int,
            ).map_values(|s: VerificationSuggestion| s.claim@).push(suggestions@[q as int].claim@));
            q = q + 1;
        }
        assert(suggestions@.subrange(0, suggestions@.len() as int) =~= suggestions@);
        o
    } else {
        statements
    };
    let mut gaps: Vec<String> = Vec::new();
    if memory.len() < 2 {
        gaps.push(text_string("Sparse Memory reduces root-cause confidence."));
    }
    if unverified {
        gaps.push(text_string("No hypothesis has been verified yet."));
    }
    assert(texts(gaps@) =~= known_gaps(lead, memory@));
    let permille: u64 = if hypotheses.len() > 0 {
        assert(lead[0] == hypotheses@[0]);
        hypotheses[0].confidence.permille as u64 * 85 / 100
    } else {
        300
    };
    let g = RootCauseGuidance {
        id: fresh_object_id(),
        investigation_id,
        leading_hypothesis_ids: ids,
        guidance: guidance_of(hypotheses),
        supporting_evidence: supporting,
        contradicting_evidence: contradicting,
        related_investigation_ids: related,
        prior_mitigation_notes: notes,
        confidence: Confidence::new(permille),
        verification_order: order,
        known_gaps: gaps,
        generated_at: now,
        provenance: Provenance::now(actor, "runtime", now).with_capability("generate_root_cause_guidance"),
    };
    assert(g.leading_hypothesis_ids@ == hypothesis_ids(lead));
    assert(g.supporting_evidence@ == all_supporting(lead) + memory_ids(memory@, 3));
    assert(g.contradicting_evidence@ == all_contradicting(lead));
    assert(texts(g.prior_mitigation_notes@) == prior_notes(prior@));
    assert(g.confidence.permille == guidance_confidence(lead));
    assert(texts(g.verification_order@) == verification_order(lead, suggestions@));
    assert(texts(g.known_gaps@) == known_gaps(lead, memory@));
    g
}

} // verus!
