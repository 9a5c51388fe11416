//! Recalled Context: historical intelligence for a current Investigation.
//!
//! A Recalled Context references a source Investigation without merging
//! histories. It is suggested, attached or dismissed; only attached context
//! influences Evaluation and Recommendation.

use vstd::prelude::*;
use crate::assess::texts;
use crate::error::RivoraError;
use crate::ids::{uuid_chars, uuid_text, InvestigationId, ObjectId};
use crate::model::{Confidence, ContextBundle, Investigation, InvestigationRelationship, LearningOutcome, Provenance, VerificationReceipt};
use crate::search::SearchResult;
use crate::similarity::{relationship_ids, evidence_views};
use crate::graph::fixed2;
use crate::vocab::ConfirmationState;
use crate::text::{chars_of, decimal, trim_chars, trimmed};
use crate::pipeline::HistoricalInfluence;
use crate::text::{push_chars, push_str, to_string};
use crate::vocab::{OutcomeDisposition, VerificationResult};

verus! {

/// Lifecycle state of a Recalled Context.
#[derive(Clone, Copy, PartialEq, Eq, Debug, Structural)]
pub enum RecalledContextState {
    Suggested,
    Attached,
    Dismissed,
}

/// How a Recalled Context came about.
#[derive(Clone, Copy, PartialEq, Eq, Debug, Structural)]
pub enum RecallOrigin {
    Automatic,
    Manual,
}

/// Historical context from a source Investigation, owned by the current one.
pub struct RecalledContext {
    pub id: ObjectId,
    pub investigation_id: InvestigationId,
    pub source_investigation_id: InvestigationId,
    pub object_ids: Vec<ObjectId>,
    pub evidence_summary: String,
    pub reason: String,
    pub explanation: String,
    pub confidence: Confidence,
    pub origin: RecallOrigin,
    pub state: RecalledContextState,
    pub provenance: Provenance,
}

impl RecalledContext {
    /// Only attached context influences reasoning.
    pub fn influences_reasoning(&self) -> (b: bool)
        ensures
            b == (self.state == RecalledContextState::Attached),
    {
        self.state == RecalledContextState::Attached
    }
}

/// Attaches a suggested (or already attached) context; a dismissed one is
/// refused and left unchanged.
pub fn attach_recalled_context(context: &mut RecalledContext) -> (r: Result<(), RivoraError>)
    ensures
        old(context).state == RecalledContextState::Dismissed <==> r is Err,
        r matches Err(e) ==> e matches RivoraError::Precondition { message } && message@
            == "cannot attach a dismissed recalled context; create a new one"@,
        r is Err ==> *final(context) == *old(context),
        r is Ok ==> *final(context) == (RecalledContext { state: RecalledContextState::Attached, ..*old(context) }),
{
    if context.state == RecalledContextState::Dismissed {
        return Err(RivoraError::precondition("cannot attach a dismissed recalled context; create a new one"));
    }
    context.state = RecalledContextState::Attached;
    Ok(())
}

/// Dismisses a context; it never influences reasoning afterwards.
pub fn dismiss_recalled_context(context: &mut RecalledContext)
    ensures
        *final(context) == (RecalledContext { state: RecalledContextState::Dismissed, ..*old(context) }),
        !(final(context).state == RecalledContextState::Attached),
{
    context.state = RecalledContextState::Dismissed;
}

/// What a source Investigation recorded: its Learning Outcomes, the
/// summaries of its Recommendations by identifier, and its receipts.
pub struct SourceHistory {
    pub learning: Vec<LearningOutcome>,
    pub recommendation_summaries: Vec<(ObjectId, String)>,
    pub receipts: Vec<VerificationReceipt>,
}

/// The summary of the first Recommendation with this identifier, if any.
pub open spec fn summary_for(recs: Seq<(ObjectId, String)>, id: ObjectId) -> Option<Seq<char>>
    decreases recs.len(),
{
    if recs.len() == 0 {
        None
    } else if recs[0].0 == id {
        Some(recs[0].1@)
    } else {
        summary_for(recs.drop_first(), id)
    }
}

/// How a Recommendation is named in a warning.
pub open spec fn recommendation_note(recs: Seq<(ObjectId, String)>, id: Option<ObjectId>) -> Seq<char> {
    match id {
        Some(x) => match summary_for(recs, x) {
            Some(s) => s,
            None => "prior recommendation"@,
        },
        None => "prior recommendation"@,
    }
}

/// The warnings one source's outcomes raise, in order.
pub open spec fn outcome_warnings(src: InvestigationId, ls: Seq<LearningOutcome>, recs: Seq<(ObjectId, String)>) -> Seq<Seq<char>>
    decreases ls.len(),
{
    if ls.len() == 0 {
        seq![]
    } else {
        let o = ls.last();
        outcome_warnings(src, ls.drop_last(), recs) + match o.disposition {
            OutcomeDisposition::Unsuccessful => seq![
                "Prior Investigation "@ + uuid_text(src.value)
                    + " recorded an unsuccessful outcome for recommendation-like guidance: `"@
                    + recommendation_note(recs, o.recommendation_id) + "` ("@ + o.notes@ + ")"@,
            ],
            OutcomeDisposition::Rejected => seq![
                "Prior Investigation "@ + uuid_text(src.value) + " rejected a recommendation: "@ + o.notes@,
            ],
            _ => seq![],
        }
    }
}

/// The successes one source's outcomes report, in order.
pub open spec fn outcome_successes(src: InvestigationId, ls: Seq<LearningOutcome>) -> Seq<Seq<char>>
    decreases ls.len(),
{
    if ls.len() == 0 {
        seq![]
    } else {
        let o = ls.last();
        outcome_successes(src, ls.drop_last()) + if o.disposition == OutcomeDisposition::Successful {
            seq!["Prior Investigation "@ + uuid_text(src.value) + " recorded a successful outcome: "@ + o.notes@]
        } else {
            seq![]
        }
    }
}

/// The reason of the first inconclusive receipt, if any.
pub open spec fn first_inconclusive(rs: Seq<VerificationReceipt>) -> Option<Seq<char>>
    decreases rs.len(),
{
    if rs.len() == 0 {
        None
    } else if rs[0].result == VerificationResult::Inconclusive {
        Some(rs[0].reason@)
    } else {
        first_inconclusive(rs.drop_first())
    }
}

/// The notes one attached context contributes.
pub open spec fn context_notes(c: RecalledContext, h: SourceHistory) -> Seq<Seq<char>> {
    seq![
        "Historical context from Investigation "@ + uuid_text(c.source_investigation_id.value) + " (recalled as `"@ + c.reason@ + "`): "@
            + c.evidence_summary@,
    ] + match first_inconclusive(h.receipts@) {
        Some(reason) => seq![
            "Prior Investigation "@ + uuid_text(c.source_investigation_id.value) + " had inconclusive verification: "@ + reason,
        ],
        None => seq![],
    }
}

/// The influence of the attached contexts, in order: context ids, source
/// ids, notes, warnings, successes.
pub type InfluenceView = (Seq<ObjectId>, Seq<InvestigationId>, Seq<Seq<char>>, Seq<Seq<char>>, Seq<Seq<char>>);

/// The influence of the contexts (each with its source's history); only
/// attached contexts count.
pub open spec fn influence_spec(cs: Seq<RecalledContext>, hs: Seq<SourceHistory>) -> InfluenceView
    decreases cs.len(),
{
    if cs.len() == 0 || hs.len() == 0 {
        (seq![], seq![], seq![], seq![], seq![])
    } else {
        let prev = influence_spec(cs.drop_last(), hs.drop_last());
        let c = cs.last();
        let h = hs.last();
        if c.state == RecalledContextState::Attached {
            (
                prev.0.push(c.id),
                prev.1.push(c.source_investigation_id),
                prev.2 + context_notes(c, h),
                prev.3 + outcome_warnings(c.source_investigation_id, h.learning@, h.recommendation_summaries@),
                prev.4 + outcome_successes(c.source_investigation_id, h.learning@),
            )
        } else {
            prev
        }
    }
}

/// The plain values of an influence.
pub open spec fn influence_view(i: HistoricalInfluence) -> InfluenceView {
    (i.context_ids@, i.source_investigation_ids@, texts(i.notes@), texts(i.warnings@), texts(i.successes@))
}


/// The summary of the first Recommendation with this identifier (exec).
fn summary_lookup(recs: &Vec<(ObjectId, String)>, id: ObjectId) -> (r: Option<Vec<char>>)
    ensures
        match r {
            Some(v) => summary_for(recs@, id) == Some(v@),
            None => summary_for(recs@, id) is None,
        },
{
    let mut i: usize = 0;
    assert(recs@.subrange(0, recs@.len() as int) =~= recs@);
    while i < recs.len()
        invariant
            i <= recs@.len(),
            summary_for(recs@, id) == summary_for(recs@.subrange(i as int, recs@.len() as int), id),
        decreases recs.len() - i,
    {
        let ghost rest = recs@.subrange(i as int, recs@.len() as int);
        assert(rest[0] == recs@[i as int]);
        if recs[i].0 == id {
            let mut v: Vec<char> = Vec::new();
            push_str(&mut v, recs[i].1.as_str());
            return Some(v);
        }
        assert(rest.drop_first() =~= recs@.subrange(i + 1, recs@.len() as int));
        i = i + 1;
    }
    None
}

fn push_text(v: &mut Vec<String>, s: Vec<char>)
    ensures
        texts(final(v)@) == texts(old(v)@).push(s@),
{
    let t = to_string(&s);
    v.push(t);
    assert(texts(v@) =~= texts(old(v)@).push(s@));
}

fn push_uuid(out: &mut Vec<char>, id: InvestigationId)
    ensures
        final(out)@ == old(out)@ + uuid_text(id.value),
{
    let u = uuid_chars(id.value);
    push_chars(out, &u);
}

/// Adds the warnings and successes of one source's outcomes.
fn add_outcomes(
    warnings: &mut Vec<String>,
    successes: &mut Vec<String>,
    src: InvestigationId,
    ls: &Vec<LearningOutcome>,
    recs: &Vec<(ObjectId, String)>,
)
    ensures
        texts(final(warnings)@) == texts(old(warnings)@) + outcome_warnings(src, ls@, recs@),
        texts(final(successes)@) == texts(old(successes)@) + outcome_successes(src, ls@),
{
    let mut i: usize = 0;
    while i < ls.len()
        invariant
            i <= ls@.len(),
            texts(warnings@) == texts(old(warnings)@) + outcome_warnings(src, ls@.subrange(0, i as int), recs@),
            texts(successes@) == texts(old(successes)@) + outcome_successes(src, ls@.subrange(0, i as int)),
        decreases ls.len() - i,
    {
        let ghost sub = ls@.subrange(0, i + 1);
        assert(sub.drop_last() =~= ls@.subrange(0, i as int));
        let o = &ls[i];
        let ghost w0 = texts(warnings@);
        let ghost s0 = texts(successes@);
        match o.disposition {
            OutcomeDisposition::Unsuccessful => {
                let mut t: Vec<char> = Vec::new();
                push_str(&mut t, "Prior Investigation ");
                push_uuid(&mut t, src);
                push_str(&mut t, " recorded an unsuccessful outcome for recommendation-like guidance: `");
                match o.recommendation_id {
                    Some(rid) => match summary_lookup(recs, rid) {
                        Some(v) => push_chars(&mut t, &v),
                        None => push_str(&mut t, "prior recommendation"),
                    },
                    None => push_str(&mut t, "prior recommendation"),
                }
                push_str(&mut t, "` (");
                push_str(&mut t, o.notes.as_str());
                push_str(&mut t, ")");
                push_text(warnings, t);
            },
            OutcomeDisposition::Rejected => {
                let mut t: Vec<char> = Vec::new();
                push_str(&mut t, "Prior Investigation ");
                push_uuid(&mut t, src);
                push_str(&mut t, " rejected a recommendation: ");
                push_str(&mut t, o.notes.as_str());
                push_text(warnings, t);
            },
            OutcomeDisposition::Successful => {
                let mut t: Vec<char> = Vec::new();
                push_str(&mut t, "Prior Investigation ");
                push_uuid(&mut t, src);
                push_str(&mut t, " recorded a successful outcome: ");
                push_str(&mut t, o.notes.as_str());
                push_text(successes, t);
            },
            _ => {},
        }
        i = i + 1;
        assert(texts(warnings@) =~= texts(old(warnings)@) + outcome_warnings(src, ls@.subrange(0, i as int), recs@));
        assert(texts(successes@) =~= texts(old(successes)@) + outcome_successes(src, ls@.subrange(0, i as int)));
    }
    assert(ls@.subrange(0, ls@.len() as int) =~= ls@);
}

/// The reason of the first inconclusive receipt (exec).
fn first_inconclusive_of(rs: &Vec<VerificationReceipt>) -> (r: Option<Vec<char>>)
    ensures
        match r {
            Some(v) => first_inconclusive(rs@) == Some(v@),
            None => first_inconclusive(rs@) is None,
        },
{
    let mut i: usize = 0;
    assert(rs@.subrange(0, rs@.len() as int) =~= rs@);
    while i < rs.len()
        invariant
            i <= rs@.len(),
            first_inconclusive(rs@) == first_inconclusive(rs@.subrange(i as int, rs@.len() as int)),
        decreases rs.len() - i,
    {
        let ghost rest = rs@.subrange(i as int, rs@.len() as int);
        assert(rest[0] == rs@[i as int]);
        if rs[i].result == VerificationResult::Inconclusive {
            let mut v: Vec<char> = Vec::new();
            push_str(&mut v, rs[i].reason.as_str());
            return Some(v);
        }
        assert(rest.drop_first() =~= rs@.subrange(i + 1, rs@.len() as int));
        i = i + 1;
    }
    None
}

/// Collects the historical influence of the attached contexts of an
/// Investigation. `histories[i]` is what the source Investigation of
/// `contexts[i]` recorded. Suggested and dismissed contexts have no
/// influence.
pub fn historical_influence(contexts: &Vec<RecalledContext>, histories: &Vec<SourceHistory>) -> (inf: HistoricalInfluence)
    requires
        histories@.len() == contexts@.len(),
    ensures
        influence_view(inf) == influence_spec(contexts@, histories@),
{
    let mut inf = HistoricalInfluence {
        context_ids: Vec::new(),
        source_investigation_ids: Vec::new(),
        notes: Vec::new(),
        warnings: Vec::new(),
        successes: Vec::new(),
    };
    assert(influence_view(inf) =~= influence_spec(contexts@.subrange(0, 0), histories@.subrange(0, 0)));
    let mut i: usize = 0;
    while i < contexts.len()
        invariant
            i <= contexts@.len(),
            histories@.len() == contexts@.len(),
            influence_view(inf) == influence_spec(contexts@.subrange(0, i as int), histories@.subrange(0, i as int)),
        decreases contexts.len() - i,
    {
        let ghost cs = contexts@.subrange(0, i + 1);
        let ghost hs = histories@.subrange(0, i + 1);
        assert(cs.drop_last() =~= contexts@.subrange(0, i as int));
        assert(hs.drop_last() =~= histories@.subrange(0, i as int));
        let c = &contexts[i];
        let h = &histories[i];
        if c.state == RecalledContextState::Attached {
            let ghost before = influence_view(inf);
            inf.context_ids.push(c.id);
            inf.source_investigation_ids.push(c.source_investigation_id);
            let mut note: Vec<char> = Vec::new();
            push_str(&mut note, "Historical context from Investigation ");
            push_uuid(&mut note, c.source_investigation_id);
            push_str(&mut note, " (recalled as `");
            push_str(&mut note, c.reason.as_str());
            push_str(&mut note, "`): ");
            push_str(&mut note, c.evidence_summary.as_str());
            push_text(&mut inf.notes, note);
            add_outcomes(&mut inf.warnings, &mut inf.successes, c.source_investigation_id, &h.learning, &h.recommendation_summaries);
            match first_inconclusive_of(&h.receipts) {
                Some(reason) => {
                    let mut t: Vec<char> = Vec::new();
                    push_str(&mut t, "Prior Investigation ");
                    push_uuid(&mut t, c.source_investigation_id);
                    push_str(&mut t, " had inconclusive verification: ");
                    push_chars(&mut t, &reason);
                    push_text(&mut inf.notes, t);
                },
                None => {},
            }
            assert(influence_view(inf) =~= influence_spec(cs, hs));
        }
        i = i + 1;
    }
    assert(contexts@.subrange(0, contexts@.len() as int) =~= contexts@);
    assert(histories@.subrange(0, histories@.len() as int) =~= histories@);
    inf
}

/// Only attached contexts influence reasoning: contexts that are not
/// attached add no context, source, note, warning or success.
pub proof fn lemma_only_attached_influence(cs: Seq<RecalledContext>, hs: Seq<SourceHistory>)
    requires
        cs.len() == hs.len(),
        forall|i: int| 0 <= i < cs.len() ==> (#[trigger] cs[i]).state != RecalledContextState::Attached,
    ensures
        influence_spec(cs, hs) == (Seq::<ObjectId>::empty(), Seq::<InvestigationId>::empty(), Seq::<Seq<char>>::empty(), Seq::<Seq<char>>::empty(), Seq::<Seq<char>>::empty()),
    decreases cs.len(),
{
    if cs.len() > 0 {
        assert forall|i: int| 0 <= i < cs.drop_last().len() implies (#[trigger] cs.drop_last()[i]).state != RecalledContextState::Attached by {
            assert(cs.drop_last()[i] == cs[i]);
        }
        lemma_only_attached_influence(cs.drop_last(), hs.drop_last());
        assert(cs.last() == cs[cs.len() - 1]);
    }
}


/// A context for this source that still counts (not dismissed).
pub open spec fn live_for(c: RecalledContext, source: InvestigationId) -> bool {
    c.source_investigation_id == source && c.state != RecalledContextState::Dismissed
}

/// `i` is the first live context for this source.
pub open spec fn first_live_at(cs: Seq<RecalledContext>, source: InvestigationId, i: int) -> bool {
    &&& 0 <= i < cs.len()
    &&& live_for(cs[i], source)
    &&& forall|j: int| 0 <= j < i ==> !live_for(#[trigger] cs[j], source)
}

/// The objects a manual attachment cites: the source's Knowledge,
/// Evaluations, receipts, Recommendations and Learning Outcomes, at most 32.
pub open spec fn attachment_objects(b: ContextBundle) -> Seq<ObjectId> {
    let all = b.knowledge@.map_values(|k: crate::model::KnowledgeObject| k.id) + b.evaluations@.map_values(
        |e: crate::model::Evaluation| e.id,
    ) + b.verifications@.map_values(|v: VerificationReceipt| v.id) + b.recommendations@.map_values(
        |r: crate::model::Recommendation| r.id,
    ) + b.learning@.map_values(|l: LearningOutcome| l.id);
    if all.len() > 32 { all.take(32) } else { all }
}

/// The reason a manual attachment records.
pub open spec fn attachment_reason(reason: Option<String>) -> Seq<char> {
    match reason {
        Some(r) => if trimmed(r@).len() > 0 { r@ } else { "explicitly selected prior investigation"@ },
        None => "explicitly selected prior investigation"@,
    }
}

/// The summary of a manual attachment.
pub open spec fn attachment_summary(source: Investigation, b: ContextBundle) -> Seq<char> {
    "Prior Investigation `"@ + source.title@ + "` ["@ + source.status.text() + "]: "@ + decimal(b.knowledge@.len()) + " knowledge, "@
        + decimal(b.evaluations@.len()) + " evaluations, "@ + decimal(b.learning@.len()) + " outcomes"@
}

/// The explanation of a manual attachment.
pub open spec fn attachment_explanation(source: Investigation) -> Seq<char> {
    "Manually attached historical context from Investigation "@ + uuid_text(source.id.value) + " (`"@ + source.title@
        + "`). Historical evidence is labeled and remains distinct from current Investigation evidence."@
}

fn push_object_ids_of_bundle(b: &ContextBundle) -> (r: Vec<ObjectId>)
    ensures
        r@ == attachment_objects(*b),
{
    let mut all: Vec<ObjectId> = Vec::new();
    let ghost k = b.knowledge@.map_values(|k: crate::model::KnowledgeObject| k.id);
    let ghost e = b.evaluations@.map_values(|e: crate::model::Evaluation| e.id);
    let ghost v = b.verifications@.map_values(|v: VerificationReceipt| v.id);
    let ghost rr = b.recommendations@.map_values(|r: crate::model::Recommendation| r.id);
    let ghost l = b.learning@.map_values(|l: LearningOutcome| l.id);
    let mut i: usize = 0;
    while i < b.knowledge.len()
        invariant
            i <= b.knowledge@.len(),
            k == b.knowledge@.map_values(|k: crate::model::KnowledgeObject| k.id),
            all@ == k.subrange(0, i as int),
        decreases b.knowledge.len() - i,
    {
        all.push(b.knowledge[i].id);
        i = i + 1;
        assert(all@ =~= k.subrange(0, i as int));
    }
    assert(all@ =~= k);
    let mut i: usize = 0;
    while i < b.evaluations.len()
        invariant
            i <= b.evaluations@.len(),
            e == b.evaluations@.map_values(|e: crate::model::Evaluation| e.id),
            all@ == k + e.subrange(0, i as int),
        decreases b.evaluations.len() - i,
    {
        all.push(b.evaluations[i].id);
        i = i + 1;
        assert(all@ =~= k + e.subrange(0, i as int));
    }
    assert(all@ =~= k + e);
    let mut i: usize = 0;
    while i < b.verifications.len()
        invariant
            i <= b.verifications@.len(),
            v == b.verifications@.map_values(|v: VerificationReceipt| v.id),
            all@ == k + e + v.subrange(0, i as int),
        decreases b.verifications.len() - i,
    {
        all.push(b.verifications[i].id);
        i = i + 1;
        assert(all@ =~= k + e + v.subrange(0, i as int));
    }
    assert(all@ =~= k + e + v);
    let mut i: usize = 0;
    while i < b.recommendations.len()
        invariant
            i <= b.recommendations@.len(),
            rr == b.recommendations@.map_values(|r: crate::model::Recommendation| r.id),
            all@ == k + e + v + rr.subrange(0, i as int),
        decreases b.recommendations.len() - i,
    {
        all.push(b.recommendations[i].id);
        i = i + 1;
        assert(all@ =~= k + e + v + rr.subrange(0, i as int));
    }
    assert(all@ =~= k + e + v + rr);
    let mut i: usize = 0;
    while i < b.learning.len()
        invariant
            i <= b.learning@.len(),
            l == b.learning@.map_values(|l: LearningOutcome| l.id),
            all@ == k + e + v + rr + l.subrange(0, i as int),
        decreases b.learning.len() - i,
    {
        all.push(b.learning[i].id);
        i = i + 1;
        assert(all@ =~= k + e + v + rr + l.subrange(0, i as int));
    }
    assert(all@ =~= k + e + v + rr + l);
    all.truncate(32);
    proof {
        if k.len() + e.len() + v.len() + rr.len() + l.len() > 32 {
            assert(all@ =~= (k + e + v + rr + l).take(32));
        }
    }
    all
}

fn copy_ids(v: &Vec<ObjectId>) -> (r: Vec<ObjectId>)
    ensures
        r@ == v@,
{
    let mut r: Vec<ObjectId> = Vec::new();
    let mut i: usize = 0;
    while i < v.len()
        invariant
            i <= v@.len(),
            r@ == v@.subrange(0, i as int),
        decreases v.len() - i,
    {
        r.push(v[i]);
        i = i + 1;
        assert(r@ =~= v@.subrange(0, i as int));
    }
    assert(v@.subrange(0, v@.len() as int) =~= v@);
    r
}

/// Explicitly attaches historical context from a source Investigation.
///
/// When a live (not dismissed) context for that source exists, the first
/// one is attached, and its reason replaced by a non-blank `reason`.
/// Otherwise a manual, attached context is added that cites the source's
/// objects. Returns the position of the attached context in `contexts`.
pub fn attach_recalled_context_from_source(
    investigation_id: InvestigationId,
    source: &Investigation,
    source_bundle: &ContextBundle,
    contexts: &mut Vec<RecalledContext>,
    reason: Option<String>,
    actor: &str,
    now: i64,
) -> (i: usize)
    ensures
        (exists|j: int| first_live_at(old(contexts)@, source.id, j)) ==> {
            &&& first_live_at(old(contexts)@, source.id, i as int)
            &&& final(contexts)@ == old(contexts)@.update(i as int, RecalledContext {
                state: RecalledContextState::Attached,
                reason: final(contexts)@[i as int].reason,
                ..old(contexts)@[i as int]
            })
            &&& final(contexts)@[i as int].reason@ == match reason {
                Some(r) => if trimmed(r@).len() > 0 { r@ } else { old(contexts)@[i as int].reason@ },
                None => old(contexts)@[i as int].reason@,
            }
        },
        !(exists|j: int| first_live_at(old(contexts)@, source.id, j)) ==> {
            let c = final(contexts)@[i as int];
            &&& i == old(contexts)@.len()
            &&& final(contexts)@.len() == old(contexts)@.len() + 1
            &&& final(contexts)@.subrange(0, i as int) == old(contexts)@
            &&& c.investigation_id == investigation_id
            &&& c.source_investigation_id == source.id
            &&& c.object_ids@ == attachment_objects(*source_bundle)
            &&& c.evidence_summary@ == attachment_summary(*source, *source_bundle)
            &&& c.reason@ == attachment_reason(reason)
            &&& c.explanation@ == attachment_explanation(*source)
            &&& c.confidence.permille == 850
            &&& c.origin == RecallOrigin::Manual
            &&& c.state == RecalledContextState::Attached
            &&& c.provenance.actor@ == actor@
            &&& c.provenance.recorded_at == now
            &&& c.provenance.capability is Some && c.provenance.capability->0@ == "attach_recalled_context"@
            &&& c.provenance.evidence_ids@ == c.object_ids@
        },
{
    let mut k: usize = 0;
    while k < contexts.len()
        invariant
            k <= contexts@.len(),
            contexts@ == old(contexts)@,
            forall|j: int| 0 <= j < k ==> !live_for(#[trigger] contexts@[j], source.id),
        decreases contexts.len() - k,
    {
        if contexts[k].source_investigation_id == source.id && contexts[k].state != RecalledContextState::Dismissed {
            assert(first_live_at(contexts@, source.id, k as int));
            let new_reason: Option<String> = match &reason {
                Some(r) => {
                    let rc = chars_of(r.as_str());
                    let t = trim_chars(&rc);
                    if t.len() > 0 { Some(r.as_str().to_owned()) } else { None }
                },
                None => None,
            };
            contexts[k].state = RecalledContextState::Attached;
            match new_reason {
                Some(r) => contexts[k].reason = r,
                None => {},
            }
            proof {
                assert forall|j: int| #![auto] first_live_at(old(contexts)@, source.id, j) implies j == k by {
                    if j < k {
                        assert(!live_for(old(contexts)@[j], source.id));
                    } else if j > k {
                        assert(!live_for(old(contexts)@[k as int], source.id));
                    }
                }
                assert(contexts@ =~= old(contexts)@.update(k as int, RecalledContext {
                    state: RecalledContextState::Attached,
                    reason: contexts@[k as int].reason,
                    ..old(contexts)@[k as int]
                }));
            }
            return k;
        }
        k = k + 1;
    }
    assert(!exists|j: int| first_live_at(old(contexts)@, source.id, j)) by {
        if exists|j: int| first_live_at(old(contexts)@, source.id, j) {
            let j = choose|j: int| first_live_at(old(contexts)@, source.id, j);
            assert(!live_for(old(contexts)@[j], source.id));
        }
    }
    let object_ids = push_object_ids_of_bundle(source_bundle);
    let chosen_reason: String = match reason {
        Some(r) => {
            let rc = chars_of(r.as_str());
            let t = trim_chars(&rc);
            if t.len() > 0 { r } else { "explicitly selected prior investigation".to_owned() }
        },
        None => "explicitly selected prior investigation".to_owned(),
    };
    let mut summary: Vec<char> = Vec::new();
    push_str(&mut summary, "Prior Investigation `");
    push_str(&mut summary, source.title.as_str());
    push_str(&mut summary, "` [");
    push_str(&mut summary, source.status.as_str());
    push_str(&mut summary, "]: ");
    crate::text::push_decimal(&mut summary, source_bundle.knowledge.len() as u128);
    push_str(&mut summary, " knowledge, ");
    crate::text::push_decimal(&mut summary, source_bundle.evaluations.len() as u128);
    push_str(&mut summary, " evaluations, ");
    crate::text::push_decimal(&mut summary, source_bundle.learning.len() as u128);
    push_str(&mut summary, " outcomes");
    let mut explanation: Vec<char> = Vec::new();
    push_str(&mut explanation, "Manually attached historical context from Investigation ");
    push_uuid(&mut explanation, source.id);
    push_str(&mut explanation, " (`");
    push_str(&mut explanation, source.title.as_str());
    push_str(&mut explanation, "`). Historical evidence is labeled and remains distinct from current Investigation evidence.");
    let provenance = Provenance::now(actor, "runtime", now).with_capability("attach_recalled_context").with_evidence(copy_ids(&object_ids));
    let c = RecalledContext {
        id: crate::ids::fresh_object_id(),
        investigation_id,
        source_investigation_id: source.id,
        object_ids,
        evidence_summary: to_string(&summary),
        reason: chosen_reason,
        explanation: to_string(&explanation),
        confidence: Confidence::new(850),
        origin: RecallOrigin::Manual,
        state: RecalledContextState::Attached,
        provenance,
    };
    let n = contexts.len();
    contexts.push(c);
    assert(contexts@.subrange(0, n as int) =~= old(contexts)@);
    n
}


/// A suggested context as plain values: source, objects, summary, reason,
/// explanation, confidence (thousandths).
pub type SuggestionView = (InvestigationId, Seq<ObjectId>, Seq<char>, Seq<char>, Seq<char>, u32);

/// The plain values of a suggested context.
pub open spec fn suggestion_view(c: RecalledContext) -> SuggestionView {
    (c.source_investigation_id, c.object_ids@, c.evidence_summary@, c.reason@, c.explanation@, c.confidence.permille)
}

/// Some live context already covers this source.
pub open spec fn covered(cs: Seq<RecalledContext>, src: InvestigationId) -> bool {
    exists|i: int| 0 <= i < cs.len() && #[trigger] live_for(cs[i], src)
}

/// The other end of a relationship seen from `id`.
pub open spec fn other_end_spec(r: InvestigationRelationship, id: InvestigationId) -> Option<InvestigationId> {
    if r.source_investigation_id == id {
        Some(r.target_investigation_id)
    } else if r.target_investigation_id == id {
        Some(r.source_investigation_id)
    } else {
        None
    }
}

/// A relationship that does not touch the Investigation and was not dismissed.
pub open spec fn dangling(r: InvestigationRelationship, id: InvestigationId) -> bool {
    r.confirmation.state != ConfirmationState::Dismissed && other_end_spec(r, id) is None
}

/// The suggestion a relationship yields.
pub open spec fn relationship_suggestion(r: InvestigationRelationship, id: InvestigationId, explanation: Seq<char>) -> SuggestionView {
    (
        other_end_spec(r, id)->0,
        relationship_ids(r.evidence@),
        "Related via "@ + r.kind.text() + ": "@ + if r.evidence@.len() > 0 { r.evidence@[0].description@ } else { "shared engineering signals"@ },
        "derived relationship "@ + r.kind.text(),
        explanation,
        r.confidence.permille,
    )
}

/// The suggestions the relationships yield, in order: one per relationship
/// that was not dismissed and whose other end no live context covers.
pub open spec fn relationship_suggestions(
    id: InvestigationId,
    existing: Seq<RecalledContext>,
    rels: Seq<InvestigationRelationship>,
    expl: Seq<String>,
) -> Seq<SuggestionView>
    decreases rels.len(),
{
    if rels.len() == 0 || expl.len() == 0 {
        seq![]
    } else {
        let r = rels.last();
        relationship_suggestions(id, existing, rels.drop_last(), expl.drop_last()) + if r.confirmation.state != ConfirmationState::Dismissed
            && other_end_spec(r, id) is Some && !covered(existing, other_end_spec(r, id)->0) {
            seq![relationship_suggestion(r, id, expl.last()@)]
        } else {
            seq![]
        }
    }
}

/// The identifiers a search result's factors cite, in order.
pub open spec fn result_object_ids(s: SearchResult) -> Seq<ObjectId> {
    evidence_views(s.matched_evidence@).fold_left(Seq::<ObjectId>::empty(), |acc: Seq<ObjectId>, e: (crate::search::RankingFactor, Seq<char>, Seq<ObjectId>)| acc + e.2)
}

/// The suggestion a similar Investigation yields.
pub open spec fn similar_suggestion(s: SearchResult) -> SuggestionView {
    (
        s.investigation_id,
        result_object_ids(s),
        "Similar Investigation `"@ + s.title@ + "` (score "@ + fixed2(if s.score > 1000 { 1000nat } else { s.score as nat }, 1000) + ")"@,
        "similar investigation discovery"@,
        s.explanation@,
        if s.score > 1000 { 1000u32 } else { s.score },
    )
}

/// The source is already suggested among these views.
pub open spec fn suggested_source(vs: Seq<SuggestionView>, src: InvestigationId) -> bool {
    exists|i: int| 0 <= i < vs.len() && (#[trigger] vs[i]).0 == src
}

/// The suggestions similar Investigations yield, in order: one per result
/// whose Investigation neither a live context nor an earlier suggestion covers.
pub open spec fn similar_suggestions(existing: Seq<RecalledContext>, earlier: Seq<SuggestionView>, similar: Seq<SearchResult>) -> Seq<SuggestionView>
    decreases similar.len(),
{
    if similar.len() == 0 {
        seq![]
    } else {
        let s = similar.last();
        similar_suggestions(existing, earlier, similar.drop_last()) + if !covered(existing, s.investigation_id) && !suggested_source(
            earlier,
            s.investigation_id,
        ) {
            seq![similar_suggestion(s)]
        } else {
            seq![]
        }
    }
}


/// The plain values of suggested contexts.
pub open spec fn suggestion_views(cs: Seq<RecalledContext>) -> Seq<SuggestionView> {
    cs.map_values(|c: RecalledContext| suggestion_view(c))
}

/// Every context is an automatic suggestion for the Investigation, recorded
/// for `actor` by the suggestion capability.
pub open spec fn automatic_suggestions(cs: Seq<RecalledContext>, id: InvestigationId, actor: Seq<char>) -> bool {
    forall|i: int| 0 <= i < cs.len() ==> {
        &&& (#[trigger] cs[i]).investigation_id == id
        &&& cs[i].origin == RecallOrigin::Automatic
        &&& cs[i].state == RecalledContextState::Suggested
        &&& cs[i].provenance.actor@ == actor
        &&& cs[i].provenance.capability is Some
        &&& cs[i].provenance.capability->0@ == "suggest_recalled_context"@
        &&& cs[i].provenance.evidence_ids@ == cs[i].object_ids@
    }
}

/// Whether a live context covers this source (exec).
fn is_covered(cs: &Vec<RecalledContext>, src: InvestigationId) -> (b: bool)
    ensures
        b == covered(cs@, src),
{
    let mut i: usize = 0;
    while i < cs.len()
        invariant
            i <= cs@.len(),
            forall|j: int| 0 <= j < i ==> !live_for(#[trigger] cs@[j], src),
        decreases cs.len() - i,
    {
        if cs[i].source_investigation_id == src && cs[i].state != RecalledContextState::Dismissed {
            assert(live_for(cs@[i as int], src));
            return true;
        }
        i = i + 1;
    }
    false
}

/// The identifiers a search result's factors cite (exec).
fn result_object_ids_of(s: &SearchResult) -> (r: Vec<ObjectId>)
    ensures
        r@ == result_object_ids(*s),
{
    let ghost views = evidence_views(s.matched_evidence@);
    let mut r: Vec<ObjectId> = Vec::new();
    let mut i: usize = 0;
    while i < s.matched_evidence.len()
        invariant
            i <= s.matched_evidence@.len(),
            views == evidence_views(s.matched_evidence@),
            r@ == views.subrange(0, i as int).fold_left(Seq::<ObjectId>::empty(), |acc: Seq<ObjectId>, e: (crate::search::RankingFactor, Seq<char>, Seq<ObjectId>)| acc + e.2),
        decreases s.matched_evidence.len() - i,
    {
        let ghost sub = views.subrange(0, i + 1);
        assert(sub.drop_last() =~= views.subrange(0, i as int));
        assert(sub.last() == views[i as int]);
        let mut j: usize = 0;
        let ghost start = r@;
        let ids = &s.matched_evidence[i].object_ids;
        while j < ids.len()
            invariant
                j <= ids@.len(),
                r@ == start + ids@.subrange(0, j as int),
            decreases ids.len() - j,
        {
            r.push(ids[j]);
            j = j + 1;
            assert(r@ =~= start + ids@.subrange(0, j as int));
        }
        assert(ids@.subrange(0, ids@.len() as int) =~= ids@);
        i = i + 1;
    }
    assert(views.subrange(0, views.len() as int) =~= views);
    r
}

/// Suggests Recalled Context for an Investigation: first from its
/// relationships that were not dismissed (`explanations[i]` explains
/// `relationships[i]`), then from similar Investigations, skipping sources
/// that a live context (or an earlier suggestion, for similar ones) covers.
/// Returns the new suggestions. Fails when a relationship that was not
/// dismissed does not touch the Investigation.
pub fn suggest_recalled_context(
    investigation_id: InvestigationId,
    existing: &Vec<RecalledContext>,
    relationships: &Vec<InvestigationRelationship>,
    explanations: &Vec<String>,
    similar: &Vec<SearchResult>,
    actor: &str,
    now: i64,
) -> (r: Result<Vec<RecalledContext>, RivoraError>)
    requires
        explanations@.len() == relationships@.len(),
    ensures
        r is Err <==> exists|i: int| 0 <= i < relationships@.len() && #[trigger] dangling(relationships@[i], investigation_id),
        r matches Err(e) ==> e matches RivoraError::Storage { message } && message@ == "relationship missing other end"@,
        r matches Ok(created) ==> {
            let rel = relationship_suggestions(investigation_id, existing@, relationships@, explanations@);
            &&& suggestion_views(created@) == rel + similar_suggestions(existing@, rel, similar@)
            &&& automatic_suggestions(created@, investigation_id, actor@)
        },
{
    let mut created: Vec<RecalledContext> = Vec::new();
    let mut i: usize = 0;
    while i < relationships.len()
        invariant
            i <= relationships@.len(),
            explanations@.len() == relationships@.len(),
            forall|j: int| 0 <= j < i ==> !#[trigger] dangling(relationships@[j], investigation_id),
            suggestion_views(created@) == relationship_suggestions(investigation_id, existing@, relationships@.subrange(0, i as int), explanations@.subrange(0, i as int)),
            automatic_suggestions(created@, investigation_id, actor@),
        decreases relationships.len() - i,
    {
        let ghost rs = relationships@.subrange(0, i + 1);
        let ghost es = explanations@.subrange(0, i + 1);
        assert(rs.drop_last() =~= relationships@.subrange(0, i as int));
        assert(es.drop_last() =~= explanations@.subrange(0, i as int));
        let rel = &relationships[i];
        if rel.confirmation.state != ConfirmationState::Dismissed {
            let other = match rel.other_end(investigation_id) {
                Some(o) => o,
                None => {
                    assert(dangling(relationships@[i as int], investigation_id));
                    return Err(RivoraError::storage("relationship missing other end"));
                },
            };
            if !is_covered(existing, other) {
                let object_ids = crate::similarity::relationship_ids_of(&rel.evidence);
                let mut summary: Vec<char> = Vec::new();
                push_str(&mut summary, "Related via ");
                push_str(&mut summary, rel.kind.as_str());
                push_str(&mut summary, ": ");
                if rel.evidence.len() > 0 {
                    push_str(&mut summary, rel.evidence[0].description.as_str());
                } else {
                    push_str(&mut summary, "shared engineering signals");
                }
                let mut reason: Vec<char> = Vec::new();
                push_str(&mut reason, "derived relationship ");
                push_str(&mut reason, rel.kind.as_str());
                let provenance = Provenance::now(actor, "runtime", now).with_capability("suggest_recalled_context").with_evidence(copy_ids(&object_ids));
                let c = RecalledContext {
                    id: crate::ids::fresh_object_id(),
                    investigation_id,
                    source_investigation_id: other,
                    object_ids,
                    evidence_summary: to_string(&summary),
                    reason: to_string(&reason),
                    explanation: explanations[i].as_str().to_owned(),
                    confidence: rel.confidence,
                    origin: RecallOrigin::Automatic,
                    state: RecalledContextState::Suggested,
                    provenance,
                };
                let ghost before = created@;
                created.push(c);
                assert(suggestion_views(created@) =~= suggestion_views(before).push(suggestion_view(c)));
            }
        }
        i = i + 1;
    }
    assert(relationships@.subrange(0, relationships@.len() as int) =~= relationships@);
    assert(explanations@.subrange(0, explanations@.len() as int) =~= explanations@);
    assert(!exists|j: int| 0 <= j < relationships@.len() && #[trigger] dangling(relationships@[j], investigation_id));
    let ghost rel_views = suggestion_views(created@);
    let ghost base = created@;
    let base_n = created.len();
    let mut k: usize = 0;
    while k < similar.len()
        invariant
            k <= similar@.len(),
            base.len() <= created@.len(),
            created@.subrange(0, base.len() as int) == base,
            base_n == base.len(),
            rel_views == suggestion_views(base),
            suggestion_views(created@) == rel_views + similar_suggestions(existing@, rel_views, similar@.subrange(0, k as int)),
            automatic_suggestions(created@, investigation_id, actor@),
        decreases similar.len() - k,
    {
        let ghost ss = similar@.subrange(0, k + 1);
        assert(ss.drop_last() =~= similar@.subrange(0, k as int));
        let s = &similar[k];
        let mut seen = false;
        let mut q: usize = 0;
        while q < base_n
            invariant
                q <= base.len(),
                base_n == base.len(),
                base.len() <= created@.len(),
                created@.subrange(0, base.len() as int) == base,
                rel_views == suggestion_views(base),
                seen == exists|j: int| 0 <= j < q && (#[trigger] rel_views[j]).0 == s.investigation_id,
            decreases base.len() - q,
        {
            assert(created@[q as int] == base[q as int]);
            assert(rel_views[q as int].0 == created@[q as int].source_investigation_id);
            if created[q].source_investigation_id == s.investigation_id {
                seen = true;
            }
            q = q + 1;
        }
        assert(rel_views.len() == base.len());
        assert(seen == suggested_source(rel_views, s.investigation_id));
        let ghost prev = created@;
        if !seen && !is_covered(existing, s.investigation_id) {
            let object_ids = result_object_ids_of(s);
            let mut summary: Vec<char> = Vec::new();
            push_str(&mut summary, "Similar Investigation `");
            push_str(&mut summary, s.title.as_str());
            push_str(&mut summary, "` (score ");
            let score = if s.score > 1000 { 1000 } else { s.score };
            crate::graph::push_fixed2(&mut summary, score as u128, 1000);
            push_str(&mut summary, ")");
            let provenance = Provenance::now(actor, "runtime", now).with_capability("suggest_recalled_context").with_evidence(copy_ids(&object_ids));
            let c = RecalledContext {
                id: crate::ids::fresh_object_id(),
                investigation_id,
                source_investigation_id: s.investigation_id,
                object_ids,
                evidence_summary: to_string(&summary),
                reason: "similar investigation discovery".to_owned(),
                explanation: s.explanation.as_str().to_owned(),
                confidence: Confidence::new(score as u64),
                origin: RecallOrigin::Automatic,
                state: RecalledContextState::Suggested,
                provenance,
            };
            let ghost before = created@;
            created.push(c);
            assert(suggestion_views(created@) =~= suggestion_views(before).push(suggestion_view(c)));
            assert(created@.subrange(0, base.len() as int) =~= base);
            assert(suggestion_view(c) == similar_suggestion(*s));
        }
        assert(suggestion_views(created@) =~= rel_views + similar_suggestions(existing@, rel_views, ss));
        k = k + 1;
    }
    assert(similar@.subrange(0, similar@.len() as int) =~= similar@);
    Ok(created)
}


/// Every relationship suggestion is for an uncovered source.
proof fn lemma_relationship_suggestions_uncovered(
    id: InvestigationId,
    existing: Seq<RecalledContext>,
    rels: Seq<InvestigationRelationship>,
    expl: Seq<String>,
)
    ensures
        forall|k: int| 0 <= k < relationship_suggestions(id, existing, rels, expl).len()
            ==> !covered(existing, (#[trigger] relationship_suggestions(id, existing, rels, expl)[k]).0),
    decreases rels.len(),
{
    if rels.len() > 0 && expl.len() > 0 {
        lemma_relationship_suggestions_uncovered(id, existing, rels.drop_last(), expl.drop_last());
        let prev = relationship_suggestions(id, existing, rels.drop_last(), expl.drop_last());
        let all = relationship_suggestions(id, existing, rels, expl);
        assert forall|k: int| 0 <= k < all.len() implies !covered(existing, (#[trigger] all[k]).0) by {
            if k < prev.len() {
                assert(all[k] == prev[k]);
            }
        }
    }
}

/// Every similar-Investigation suggestion is for an uncovered source.
proof fn lemma_similar_suggestions_uncovered(existing: Seq<RecalledContext>, earlier: Seq<SuggestionView>, similar: Seq<SearchResult>)
    ensures
        forall|k: int| 0 <= k < similar_suggestions(existing, earlier, similar).len()
            ==> !covered(existing, (#[trigger] similar_suggestions(existing, earlier, similar)[k]).0),
    decreases similar.len(),
{
    if similar.len() > 0 {
        lemma_similar_suggestions_uncovered(existing, earlier, similar.drop_last());
        let prev = similar_suggestions(existing, earlier, similar.drop_last());
        let all = similar_suggestions(existing, earlier, similar);
        assert forall|k: int| 0 <= k < all.len() implies !covered(existing, (#[trigger] all[k]).0) by {
            if k < prev.len() {
                assert(all[k] == prev[k]);
            }
        }
    }
}

/// A relationship that is not dismissed yields a suggestion for its other
/// end, unless a live context covers it.
proof fn lemma_relationship_suggested(
    id: InvestigationId,
    existing: Seq<RecalledContext>,
    rels: Seq<InvestigationRelationship>,
    expl: Seq<String>,
    i: int,
)
    requires
        expl.len() == rels.len(),
        0 <= i < rels.len(),
        rels[i].confirmation.state != ConfirmationState::Dismissed,
        other_end_spec(rels[i], id) is Some,
        !covered(existing, other_end_spec(rels[i], id)->0),
    ensures
        suggested_source(relationship_suggestions(id, existing, rels, expl), other_end_spec(rels[i], id)->0),
    decreases rels.len(),
{
    let all = relationship_suggestions(id, existing, rels, expl);
    let prev = relationship_suggestions(id, existing, rels.drop_last(), expl.drop_last());
    let src = other_end_spec(rels[i], id)->0;
    if i < rels.len() - 1 {
        assert(rels.drop_last()[i] == rels[i]);
        lemma_relationship_suggested(id, existing, rels.drop_last(), expl.drop_last(), i);
        let k = choose|k: int| 0 <= k < prev.len() && (#[trigger] prev[k]).0 == src;
        assert(all[k] == prev[k]);
    } else {
        assert(all[prev.len() as int].0 == src);
    }
}

/// A similar Investigation is suggested (here or earlier) unless a live
/// context covers it.
proof fn lemma_similar_suggested(existing: Seq<RecalledContext>, earlier: Seq<SuggestionView>, similar: Seq<SearchResult>, i: int)
    requires
        0 <= i < similar.len(),
        !covered(existing, similar[i].investigation_id),
    ensures
        suggested_source(earlier, similar[i].investigation_id)
            || suggested_source(similar_suggestions(existing, earlier, similar), similar[i].investigation_id),
    decreases similar.len(),
{
    let all = similar_suggestions(existing, earlier, similar);
    let prev = similar_suggestions(existing, earlier, similar.drop_last());
    let src = similar[i].investigation_id;
    if i < similar.len() - 1 {
        assert(similar.drop_last()[i] == similar[i]);
        lemma_similar_suggested(existing, earlier, similar.drop_last(), i);
        if suggested_source(prev, src) {
            let k = choose|k: int| 0 <= k < prev.len() && (#[trigger] prev[k]).0 == src;
            assert(all[k] == prev[k]);
        }
    } else if !suggested_source(earlier, src) {
        assert(all[prev.len() as int].0 == src);
    }
}

/// A suggested source is covered once the suggestions are stored.
proof fn lemma_stored_covers(existing: Seq<RecalledContext>, created: Seq<RecalledContext>, id: InvestigationId, actor: Seq<char>, src: InvestigationId)
    requires
        automatic_suggestions(created, id, actor),
        suggested_source(suggestion_views(created), src),
    ensures
        covered(existing + created, src),
{
    let k = choose|k: int| 0 <= k < suggestion_views(created).len() && (#[trigger] suggestion_views(created)[k]).0 == src;
    assert(suggestion_views(created)[k] == suggestion_view(created[k]));
    assert((existing + created)[existing.len() + k] == created[k]);
    assert(live_for((existing + created)[existing.len() + k], src));
}

/// Suggesting creates nothing for a source a live context already covers,
/// every created context is a suggestion, and asking again with the created
/// contexts stored creates nothing.
pub proof fn lemma_suggestions_idempotent(
    id: InvestigationId,
    existing: Seq<RecalledContext>,
    created: Seq<RecalledContext>,
    rels: Seq<InvestigationRelationship>,
    expl: Seq<String>,
    similar: Seq<SearchResult>,
    actor: Seq<char>,
)
    requires
        expl.len() == rels.len(),
        suggestion_views(created) == relationship_suggestions(id, existing, rels, expl) + similar_suggestions(
            existing,
            relationship_suggestions(id, existing, rels, expl),
            similar,
        ),
        automatic_suggestions(created, id, actor),
    ensures
        forall|k: int| 0 <= k < created.len() ==> !covered(existing, (#[trigger] created[k]).source_investigation_id),
        forall|k: int| 0 <= k < created.len() ==> (#[trigger] created[k]).state == RecalledContextState::Suggested,
        relationship_suggestions(id, existing + created, rels, expl).len() == 0,
        similar_suggestions(existing + created, relationship_suggestions(id, existing + created, rels, expl), similar).len() == 0,
{
    let rel = relationship_suggestions(id, existing, rels, expl);
    let sim = similar_suggestions(existing, rel, similar);
    let views = suggestion_views(created);
    let after = existing + created;
    lemma_relationship_suggestions_uncovered(id, existing, rels, expl);
    lemma_similar_suggestions_uncovered(existing, rel, similar);
    assert forall|k: int| 0 <= k < created.len() implies !covered(existing, (#[trigger] created[k]).source_investigation_id) by {
        assert(views.len() == created.len());
        assert(views.len() == rel.len() + sim.len());
        assert(views[k] == suggestion_view(created[k]));
        if k < rel.len() {
            assert(views[k] == rel[k]);
            assert(!covered(existing, rel[k].0));
        } else {
            assert(views[k] == sim[k - rel.len()]);
            assert(!covered(existing, sim[k - rel.len()].0));
        }
    }
    // Every relationship's source is covered afterwards.
    assert forall|i: int| 0 <= i < rels.len() && (#[trigger] rels[i]).confirmation.state != ConfirmationState::Dismissed
        && other_end_spec(rels[i], id) is Some implies covered(after, other_end_spec(rels[i], id)->0) by {
        let src = other_end_spec(rels[i], id)->0;
        if covered(existing, src) {
            let q = choose|q: int| 0 <= q < existing.len() && #[trigger] live_for(existing[q], src);
            assert(after[q] == existing[q]);
        } else {
            lemma_relationship_suggested(id, existing, rels, expl, i);
            let k = choose|k: int| 0 <= k < rel.len() && (#[trigger] rel[k]).0 == src;
            assert(views[k] == rel[k]);
            lemma_stored_covers(existing, created, id, actor, src);
        }
    }
    lemma_no_relationship_suggestions(id, after, rels, expl);
    assert forall|i: int| 0 <= i < similar.len() implies covered(after, (#[trigger] similar[i]).investigation_id) by {
        let src = similar[i].investigation_id;
        if covered(existing, src) {
            let q = choose|q: int| 0 <= q < existing.len() && #[trigger] live_for(existing[q], src);
            assert(after[q] == existing[q]);
        } else {
            lemma_similar_suggested(existing, rel, similar, i);
            if suggested_source(rel, src) {
                let k = choose|k: int| 0 <= k < rel.len() && (#[trigger] rel[k]).0 == src;
                assert(views[k] == rel[k]);
            } else {
                let k = choose|k: int| 0 <= k < sim.len() && (#[trigger] sim[k]).0 == src;
                assert(views[rel.len() + k] == sim[k]);
            }
            lemma_stored_covers(existing, created, id, actor, src);
        }
    }
    lemma_no_similar_suggestions(after, relationship_suggestions(id, after, rels, expl), similar);
}

/// When every live source is covered, relationships suggest nothing.
proof fn lemma_no_relationship_suggestions(id: InvestigationId, cs: Seq<RecalledContext>, rels: Seq<InvestigationRelationship>, expl: Seq<String>)
    requires
        forall|i: int| 0 <= i < rels.len() && (#[trigger] rels[i]).confirmation.state != ConfirmationState::Dismissed
            && other_end_spec(rels[i], id) is Some ==> covered(cs, other_end_spec(rels[i], id)->0),
    ensures
        relationship_suggestions(id, cs, rels, expl).len() == 0,
    decreases rels.len(),
{
    if rels.len() > 0 && expl.len() > 0 {
        assert forall|i: int| 0 <= i < rels.drop_last().len() && (#[trigger] rels.drop_last()[i]).confirmation.state != ConfirmationState::Dismissed
            && other_end_spec(rels.drop_last()[i], id) is Some implies covered(cs, other_end_spec(rels.drop_last()[i], id)->0) by {
            assert(rels.drop_last()[i] == rels[i]);
        }
        lemma_no_relationship_suggestions(id, cs, rels.drop_last(), expl.drop_last());
        assert(rels.last() == rels[rels.len() - 1]);
    }
}

/// When every similar Investigation is covered, nothing more is suggested.
proof fn lemma_no_similar_suggestions(cs: Seq<RecalledContext>, earlier: Seq<SuggestionView>, similar: Seq<SearchResult>)
    requires
        forall|i: int| 0 <= i < similar.len() ==> covered(cs, (#[trigger] similar[i]).investigation_id),
    ensures
        similar_suggestions(cs, earlier, similar).len() == 0,
    decreases similar.len(),
{
    if similar.len() > 0 {
        assert forall|i: int| 0 <= i < similar.drop_last().len() implies covered(cs, (#[trigger] similar.drop_last()[i]).investigation_id) by {
            assert(similar.drop_last()[i] == similar[i]);
        }
        lemma_no_similar_suggestions(cs, earlier, similar.drop_last());
        assert(similar.last() == similar[similar.len() - 1]);
    }
}

} // verus!
