//! Recall of prior Learning Outcomes across Investigations, and of the
//! evidence of related Investigations.

use vstd::prelude::*;
use crate::graph::repository_keys;
use crate::ids::{InvestigationId, ObjectId};
use crate::keymap::grouped;
use crate::model::{InvestigationRelationship, LearningOutcome, Recommendation, RelationshipEvidence};
use crate::recall::other_end_spec;
use crate::search::{OutcomeFilter, PriorOutcome, RecalledEvidence};
use crate::similarity::{copy_relationship, rel_evidence_view, Row};
use crate::graph::repository_pairs;
use crate::text::lower_chars;
use crate::trend::{filter_of, in_scope};
use crate::vocab::{ConfirmationState, OutcomeDisposition, RelationshipKind};

verus! {

/// A Learning Outcome as plain values: identifier, disposition,
/// Recommendation, notes and observation time.
pub type OutcomeView = (ObjectId, OutcomeDisposition, Option<ObjectId>, Seq<char>, i64);

/// A prior outcome as plain values: Investigation, its title, the outcome
/// and the summary of the Recommendation it refers to.
pub type PriorView = (InvestigationId, Seq<char>, OutcomeView, Option<Seq<char>>);

/// The plain values of a Learning Outcome.
pub open spec fn outcome_view(o: LearningOutcome) -> OutcomeView {
    (o.id, o.disposition, o.recommendation_id, o.notes@, o.observed_at)
}

/// The plain values of a prior outcome.
pub open spec fn prior_view(p: PriorOutcome) -> PriorView {
    (p.investigation_id, p.investigation_title@, outcome_view(p.outcome), match p.recommendation_summary {
        Some(s) => Some(s@),
        None => None,
    })
}

/// The plain values of a list of prior outcomes.
pub open spec fn prior_views(v: Seq<PriorOutcome>) -> Seq<PriorView> {
    v.map_values(|p: PriorOutcome| prior_view(p))
}

/// `x` is the other end of a relationship with `id` that was not dismissed.
pub open spec fn related_via(rels: Seq<InvestigationRelationship>, id: InvestigationId, x: InvestigationId) -> bool {
    exists|i: int|
        0 <= i < rels.len() && rels[i].confirmation.state != ConfirmationState::Dismissed && #[trigger] other_end_spec(rels[i], id)
            == Some(x)
}

/// An Investigation the filter admits: related to `similar_to` (when set)
/// and having observed the repository, compared lowercased (when set).
pub open spec fn row_admitted(filter: OutcomeFilter, rels: Seq<InvestigationRelationship>, row: Row) -> bool {
    &&& match filter.similar_to {
        Some(id) => related_via(rels, id, row.0.id),
        None => true,
    }
    &&& in_scope(row.1, filter_of(filter.repository))
}

/// The summary of the first Recommendation with this identifier, if any.
pub open spec fn recommendation_summary_in(recs: Seq<Recommendation>, id: Option<ObjectId>) -> Option<Seq<char>>
    decreases recs.len(),
{
    match id {
        None => None,
        Some(x) => if recs.len() == 0 {
            None
        } else if recs[0].id == x {
            Some(recs[0].summary@)
        } else {
            recommendation_summary_in(recs.drop_first(), id)
        },
    }
}

/// The outcome has the filtered disposition (any, without a filter).
pub open spec fn disposition_admitted(d: Option<OutcomeDisposition>, o: LearningOutcome) -> bool {
    match d {
        Some(x) => o.disposition == x,
        None => true,
    }
}

/// The admitted outcomes of one Investigation, in recorded order.
pub open spec fn row_priors(row: Row, ls: Seq<LearningOutcome>, d: Option<OutcomeDisposition>) -> Seq<PriorView>
    decreases ls.len(),
{
    if ls.len() == 0 {
        seq![]
    } else {
        let o = ls.last();
        row_priors(row, ls.drop_last(), d) + if disposition_admitted(d, o) {
            seq![(row.0.id, row.0.title@, outcome_view(o), recommendation_summary_in(row.1.recommendations@, o.recommendation_id))]
        } else {
            seq![]
        }
    }
}

/// The admitted outcomes of the admitted Investigations, in row order.
pub open spec fn prior_list(filter: OutcomeFilter, rels: Seq<InvestigationRelationship>, rows: Seq<Row>) -> Seq<PriorView>
    decreases rows.len(),
{
    if rows.len() == 0 {
        seq![]
    } else {
        let row = rows.last();
        prior_list(filter, rels, rows.drop_last()) + if row_admitted(filter, rels, row) {
            row_priors(row, row.1.learning@, filter.disposition)
        } else {
            seq![]
        }
    }
}

/// Inserts `x` after every item observed at the same time or later.
pub open spec fn insert_by_time(s: Seq<PriorView>, x: PriorView) -> Seq<PriorView>
    decreases s.len(),
{
    if s.len() == 0 {
        seq![x]
    } else if s[0].2.4 < x.2.4 {
        seq![x] + s
    } else {
        seq![s[0]] + insert_by_time(s.drop_first(), x)
    }
}

/// Newest observation first; outcomes observed at the same time keep their
/// order (a stable sort).
pub open spec fn newest_first(s: Seq<PriorView>) -> Seq<PriorView>
    decreases s.len(),
{
    if s.len() == 0 {
        seq![]
    } else {
        insert_by_time(newest_first(s.drop_last()), s.last())
    }
}

/// Inserting at the first item observed earlier is `insert_by_time`.
proof fn lemma_insert_at(s: Seq<PriorView>, x: PriorView, pos: int)
    requires
        0 <= pos <= s.len(),
        forall|q: int| 0 <= q < pos ==> (#[trigger] s[q]).2.4 >= x.2.4,
        pos < s.len() ==> s[pos].2.4 < x.2.4,
    ensures
        insert_by_time(s, x) == s.insert(pos, x),
    decreases s.len(),
{
    if s.len() == 0 {
        assert(s.insert(pos, x) =~= seq![x]);
    } else if pos == 0 {
        assert(s.insert(0, x) =~= seq![x] + s);
    } else {
        assert(s[0].2.4 >= x.2.4);
        let t = s.drop_first();
        assert forall|q: int| 0 <= q < pos - 1 implies (#[trigger] t[q]).2.4 >= x.2.4 by {
            assert(t[q] == s[q + 1]);
        }
        if pos - 1 < t.len() {
            assert(t[pos - 1] == s[pos]);
        }
        lemma_insert_at(t, x, pos - 1);
        assert(s.insert(pos, x) =~= seq![s[0]] + t.insert(pos - 1, x));
    }
}

/// A copy of a Learning Outcome.
fn copy_outcome(o: &LearningOutcome) -> (c: LearningOutcome)
    ensures
        outcome_view(c) == outcome_view(*o),
{
    LearningOutcome {
        id: o.id,
        disposition: o.disposition,
        recommendation_id: o.recommendation_id,
        notes: o.notes.as_str().to_owned(),
        observed_at: o.observed_at,
    }
}

/// The summary of the first Recommendation with this identifier (exec).
fn recommendation_summary_of(recs: &Vec<Recommendation>, id: Option<ObjectId>) -> (r: Option<String>)
    ensures
        match r {
            Some(s) => recommendation_summary_in(recs@, id) == Some(s@),
            None => recommendation_summary_in(recs@, id) is None,
        },
{
    let x = match id {
        Some(x) => x,
        None => {
            return None;
        },
    };
    let mut i: usize = 0;
    assert(recs@.subrange(0, recs@.len() as int) =~= recs@);
    while i < recs.len()
        invariant
            i <= recs@.len(),
            id == Some(x),
            recommendation_summary_in(recs@, id) == recommendation_summary_in(recs@.subrange(i as int, recs@.len() as int), id),
        decreases recs.len() - i,
    {
        let ghost rest = recs@.subrange(i as int, recs@.len() as int);
        assert(rest[0] == recs@[i as int]);
        if recs[i].id == x {
            return Some(recs[i].summary.as_str().to_owned());
        }
        assert(rest.drop_first() =~= recs@.subrange(i + 1, recs@.len() as int));
        i = i + 1;
    }
    None
}

/// Whether `x` is the other end of a relationship with `id` that was not dismissed.
fn is_related(rels: &Vec<InvestigationRelationship>, id: InvestigationId, x: InvestigationId) -> (b: bool)
    ensures
        b == related_via(rels@, id, x),
{
    let mut i: usize = 0;
    while i < rels.len()
        invariant
            i <= rels@.len(),
            forall|q: int|
                0 <= q < i ==> !(rels@[q].confirmation.state != ConfirmationState::Dismissed && #[trigger] other_end_spec(rels@[q], id)
                    == Some(x)),
        decreases rels.len() - i,
    {
        let r = &rels[i];
        if r.confirmation.state != ConfirmationState::Dismissed && r.other_end(id) == Some(x) {
            assert(other_end_spec(rels@[i as int], id) == Some(x));
            return true;
        }
        i = i + 1;
    }
    false
}

/// Inserts a prior outcome after every one observed at the same time or later.
fn insert_newest_first(out: &mut Vec<PriorOutcome>, p: PriorOutcome)
    ensures
        prior_views(final(out)@) == insert_by_time(prior_views(old(out)@), prior_view(p)),
{
    let mut pos: usize = 0;
    let ghost views = prior_views(out@);
    while pos < out.len() && out[pos].outcome.observed_at >= p.outcome.observed_at
        invariant
            pos <= out@.len(),
            views == prior_views(out@),
            forall|q: int| 0 <= q < pos ==> (#[trigger] views[q]).2.4 >= p.outcome.observed_at,
        decreases out.len() - pos,
    {
        pos = pos + 1;
    }
    proof {
        lemma_insert_at(views, prior_view(p), pos as int);
    }
    out.insert(pos, p);
    assert(prior_views(out@) =~= views.insert(pos as int, prior_view(p)));
}

/// Whether the filter admits the Investigation of this row.
fn row_is_admitted(filter: &OutcomeFilter, want: &Option<Vec<char>>, rels: &Vec<InvestigationRelationship>, row: &Row) -> (b: bool)
    requires
        match *want {
            Some(w) => filter_of(filter.repository) == Some(w@),
            None => filter_of(filter.repository) is None,
        },
    ensures
        b == row_admitted(*filter, rels@, *row),
{
    let related = match filter.similar_to {
        Some(id) => is_related(rels, id, row.0.id),
        None => true,
    };
    let scoped = match want {
        Some(w) => {
            let repos = repository_keys(&row.1.observations);
            proof {
                assert(repos.get(w@) == grouped(repository_pairs(row.1.observations@), w@));
                assert(repos.has(w@) == (repos.get(w@) is Some));
            }
            repos.contains_key(w)
        },
        None => true,
    };
    related && scoped
}

/// Adds the admitted outcomes of one Investigation, newest first.
fn add_row_priors(out: &mut Vec<PriorOutcome>, row: &Row, d: Option<OutcomeDisposition>, Ghost(unsorted): Ghost<Seq<PriorView>>)
    requires
        prior_views(old(out)@) == newest_first(unsorted),
    ensures
        prior_views(final(out)@) == newest_first(unsorted + row_priors(*row, row.1.learning@, d)),
{
    let inv = &row.0;
    let b = &row.1;
    let ghost mut acc = unsorted;
    let mut k: usize = 0;
    while k < b.learning.len()
        invariant
            k <= b.learning@.len(),
            acc == unsorted + row_priors(*row, b.learning@.subrange(0, k as int), d),
            *inv == row.0,
            *b == row.1,
            prior_views(out@) == newest_first(acc),
        decreases b.learning.len() - k,
    {
        let ghost ls = b.learning@.subrange(0, k + 1);
        assert(ls.drop_last() =~= b.learning@.subrange(0, k as int));
        assert(ls.last() == b.learning@[k as int]);
        let o = &b.learning[k];
        let admitted = match d {
            Some(x) => o.disposition == x,
            None => true,
        };
        assert(admitted == disposition_admitted(d, b.learning@[k as int]));
        if admitted {
            let p = PriorOutcome {
                investigation_id: inv.id,
                investigation_title: inv.title.as_str().to_owned(),
                outcome: copy_outcome(o),
                recommendation_summary: recommendation_summary_of(&b.recommendations, o.recommendation_id),
            };
            let ghost pv = prior_view(p);
            assert(pv == (row.0.id, row.0.title@, outcome_view(b.learning@[k as int]), recommendation_summary_in(
                row.1.recommendations@,
                b.learning@[k as int].recommendation_id,
            )));
            insert_newest_first(out, p);
            proof {
                let next = acc.push(pv);
                assert(next.drop_last() =~= acc);
                acc = next;
            }
        }
        assert(acc =~= unsorted + row_priors(*row, b.learning@.subrange(0, k + 1), d));
        k = k + 1;
    }
    assert(b.learning@.subrange(0, b.learning@.len() as int) =~= b.learning@);
}

/// Recalls prior Learning Outcomes across Investigations, newest first.
///
/// `rows` are all Investigations with their durable context and
/// `relationships` all stored relationships. With `similar_to`, only the
/// Investigations at the other end of a relationship with it that was not
/// dismissed count; with `repository`, only those that observed it
/// (compared lowercased); with `disposition`, only outcomes of it. Each
/// outcome carries the summary of the Recommendation it refers to, when
/// that Investigation holds it. Outcomes observed at the same time keep row
/// order.
pub fn recall_prior_outcomes(filter: &OutcomeFilter, rows: &Vec<Row>, relationships: &Vec<InvestigationRelationship>) -> (r: Vec<PriorOutcome>)
    ensures
        prior_views(r@) == newest_first(prior_list(*filter, relationships@, rows@)),
{
    let want = match &filter.repository {
        Some(repo) => Some(lower_chars(repo.as_str())),
        None => None,
    };
    let mut out: Vec<PriorOutcome> = Vec::new();
    let ghost mut unsorted: Seq<PriorView> = seq![];
    let mut i: usize = 0;
    while i < rows.len()
        invariant
            i <= rows@.len(),
            match want {
                Some(w) => filter_of(filter.repository) == Some(w@),
                None => filter_of(filter.repository) is None,
            },
            unsorted == prior_list(*filter, relationships@, rows@.subrange(0, i as int)),
            prior_views(out@) == newest_first(unsorted),
        decreases rows.len() - i,
    {
        let ghost sub = rows@.subrange(0, i + 1);
        assert(sub.drop_last() =~= rows@.subrange(0, i as int));
        assert(sub.last() == rows@[i as int]);
        if row_is_admitted(filter, &want, relationships, &rows[i]) {
            add_row_priors(&mut out, &rows[i], filter.disposition, Ghost(unsorted));
            proof {
                unsorted = unsorted + row_priors(rows@[i as int], rows@[i as int].1.learning@, filter.disposition);
            }
        }
        assert(unsorted =~= prior_list(*filter, relationships@, rows@.subrange(0, i + 1)));
        i = i + 1;
    }
    assert(rows@.subrange(0, rows@.len() as int) =~= rows@);
    out
}

/// Evidence recalled through one relationship, as plain values.
pub type RecalledView = (InvestigationId, ObjectId, RelationshipKind, Seq<char>, Seq<(Seq<char>, Seq<ObjectId>)>);

/// The plain values of recalled evidence.
pub open spec fn recalled_view(r: RecalledEvidence) -> RecalledView {
    (r.investigation_id, r.relationship_id, r.relationship_kind, r.explanation@, r.evidence@.map_values(
        |e: RelationshipEvidence| rel_evidence_view(e),
    ))
}

/// The plain values of a list of recalled evidence.
pub open spec fn recalled_views(v: Seq<RecalledEvidence>) -> Seq<RecalledView> {
    v.map_values(|r: RecalledEvidence| recalled_view(r))
}

/// The evidence recalled from the relationships of `id` that were not
/// dismissed (`explanations[i]` explains `rels[i]`), in order.
pub open spec fn related_evidence(id: InvestigationId, rels: Seq<InvestigationRelationship>, explanations: Seq<String>) -> Seq<RecalledView>
    decreases rels.len(),
{
    if rels.len() == 0 || explanations.len() == 0 {
        seq![]
    } else {
        let r = rels.last();
        related_evidence(id, rels.drop_last(), explanations.drop_last()) + match other_end_spec(r, id) {
            Some(other) => if r.confirmation.state != ConfirmationState::Dismissed {
                seq![(other, r.id, r.kind, explanations.last()@, r.evidence@.map_values(|e: RelationshipEvidence| rel_evidence_view(e)))]
            } else {
                seq![]
            },
            None => seq![],
        }
    }
}

/// Recalls, read-only, the evidence of the Investigations related to `id`:
/// one entry per relationship touching it that was not dismissed, naming the
/// other end, the relationship, its explanation (`explanations[i]` explains
/// `relationships[i]`) and its evidence.
pub fn recall_related_evidence(
    id: InvestigationId,
    relationships: &Vec<InvestigationRelationship>,
    explanations: &Vec<String>,
) -> (r: Vec<RecalledEvidence>)
    requires
        explanations@.len() == relationships@.len(),
    ensures
        recalled_views(r@) == related_evidence(id, relationships@, explanations@),
{
    let mut out: Vec<RecalledEvidence> = Vec::new();
    let mut i: usize = 0;
    while i < relationships.len()
        invariant
            i <= relationships@.len(),
            explanations@.len() == relationships@.len(),
            recalled_views(out@) == related_evidence(id, relationships@.subrange(0, i as int), explanations@.subrange(0, i as int)),
        decreases relationships.len() - i,
    {
        let ghost rs = relationships@.subrange(0, i + 1);
        let ghost es = explanations@.subrange(0, i + 1);
        assert(rs.drop_last() =~= relationships@.subrange(0, i as int));
        assert(es.drop_last() =~= explanations@.subrange(0, i as int));
        assert(rs.last() == relationships@[i as int]);
        assert(es.last() == explanations@[i as int]);
        let rel = &relationships[i];
        let ghost before = recalled_views(out@);
        match rel.other_end(id) {
            Some(other) => {
                if rel.confirmation.state != ConfirmationState::Dismissed {
                    let copy = copy_relationship(rel);
                    let item = RecalledEvidence {
                        investigation_id: other,
                        relationship_id: rel.id,
                        relationship_kind: rel.kind,
                        explanation: explanations[i].as_str().to_owned(),
                        evidence: copy.evidence,
                    };
                    out.push(item);
                    assert(recalled_views(out@) =~= before.push(recalled_view(item)));
                }
            },
            None => {},
        }
        assert(recalled_views(out@) =~= related_evidence(id, rs, es));
        i = i + 1;
    }
    assert(relationships@.subrange(0, relationships@.len() as int) =~= relationships@);
    assert(explanations@.subrange(0, explanations@.len() as int) =~= explanations@);
    out
}

} // verus!
