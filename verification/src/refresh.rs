//! Refreshing the derived relationships of one Investigation: the derived
//! relationships between it and every other Investigation are recomputed;
//! explicit links and relationships elsewhere in the graph are kept as they
//! are, and a recomputed relationship that was stored before keeps its
//! identifier, its human confirmation and its creation time.

use vstd::prelude::*;
use crate::error::RivoraError;
use crate::ids::{InvestigationId, ObjectId};
use crate::model::InvestigationRelationship;
use crate::patterns::PatternRow;
use crate::relationships::{derive_pair, derived_from, derived_upto};
use crate::similarity::{copy_relationship, opt_text, same_relationship};
use crate::text::{chars_of, text_eq};
use crate::vocab::RelationshipKind;

verus! {

/// A derived relationship with `id` on one of its ends: refreshing `id`
/// recomputes it.
pub open spec fn recomputed_by(e: InvestigationRelationship, id: InvestigationId) -> bool {
    e.kind != RelationshipKind::ExplicitLink && e.touches_spec(id)
}

/// Two relationships join the same two Investigations.
pub open spec fn same_ends(x: InvestigationRelationship, y: InvestigationRelationship) -> bool {
    (x.source_investigation_id == y.source_investigation_id && x.target_investigation_id == y.target_investigation_id)
        || (x.source_investigation_id == y.target_investigation_id && x.target_investigation_id == y.source_investigation_id)
}

/// `e` is the stored form of the candidate `c`: the same identity between
/// the same Investigations.
pub open spec fn stored_as(e: InvestigationRelationship, c: InvestigationRelationship) -> bool {
    e.identity_key@ == c.identity_key@ && same_ends(e, c)
}

/// Position of the first stored form of `c`, or -1.
pub open spec fn prior_at(existing: Seq<InvestigationRelationship>, c: InvestigationRelationship) -> int
    decreases existing.len(),
{
    if existing.len() == 0 {
        -1
    } else {
        let k = prior_at(existing.drop_last(), c);
        if k >= 0 {
            k
        } else if stored_as(existing.last(), c) {
            existing.len() - 1
        } else {
            -1
        }
    }
}

/// What the derivation decides: kind, ends, confidence, evidence, method,
/// explanation and identity.
pub open spec fn same_derivation(x: InvestigationRelationship, y: InvestigationRelationship) -> bool {
    &&& x.kind == y.kind
    &&& x.source_investigation_id == y.source_investigation_id
    &&& x.target_investigation_id == y.target_investigation_id
    &&& x.confidence == y.confidence
    &&& x.evidence == y.evidence
    &&& x.method@ == y.method@
    &&& x.explanation@ == y.explanation@
    &&& x.identity_key@ == y.identity_key@
}

/// What people and history own: identifier, confirmation, creation time.
pub open spec fn same_history(x: InvestigationRelationship, y: InvestigationRelationship) -> bool {
    &&& x.id == y.id
    &&& x.confirmation.state == y.confirmation.state
    &&& opt_text(x.confirmation.actor) == opt_text(y.confirmation.actor)
    &&& x.confirmation.at == y.confirmation.at
    &&& x.created_at == y.created_at
}

/// `r` is the candidate `c` reconciled with the stored graph: derived as `c`
/// says, with the history of its stored form where there is one.
pub open spec fn reconciled(r: InvestigationRelationship, c: InvestigationRelationship, existing: Seq<InvestigationRelationship>) -> bool {
    &&& same_derivation(r, c)
    &&& if prior_at(existing, c) >= 0 {
        same_history(r, existing[prior_at(existing, c)])
    } else {
        same_history(r, c)
    }
}

/// The stored relationships that a refresh of `id` leaves alone, in order.
pub open spec fn kept_relationships(existing: Seq<InvestigationRelationship>, id: InvestigationId) -> Seq<InvestigationRelationship> {
    existing.filter(|e: InvestigationRelationship| !recomputed_by(e, id))
}

/// The candidates of several derivations, one after another.
pub open spec fn flat(parts: Seq<Seq<InvestigationRelationship>>) -> Seq<InvestigationRelationship>
    decreases parts.len(),
{
    if parts.len() == 0 {
        seq![]
    } else {
        flat(parts.drop_last()) + parts.last()
    }
}

/// Position of the first row of `id`, or -1.
pub open spec fn row_at(rows: Seq<PatternRow>, id: InvestigationId) -> int
    decreases rows.len(),
{
    if rows.len() == 0 {
        -1
    } else {
        let k = row_at(rows.drop_last(), id);
        if k >= 0 {
            k
        } else if rows.last().0 == id {
            rows.len() - 1
        } else {
            -1
        }
    }
}

/// `parts[j]` is what deriving the pair of `id` and row `j` gives (nothing
/// for the row of `id` itself).
pub open spec fn derivations(parts: Seq<Seq<InvestigationRelationship>>, id: InvestigationId, rows: Seq<PatternRow>) -> bool {
    &&& parts.len() == rows.len()
    &&& forall|j: int| 0 <= j < rows.len() ==> if (#[trigger] rows[j]).0 == id {
        parts[j].len() == 0
    } else {
        derived_upto(parts[j], id, rows[row_at(rows, id)].1, rows[j].0, rows[j].1, 11)
    }
}

/// The refreshed graph: the kept relationships, then each fresh derivation
/// reconciled with what was stored.
pub open spec fn refreshed(
    v: Seq<InvestigationRelationship>,
    id: InvestigationId,
    rows: Seq<PatternRow>,
    existing: Seq<InvestigationRelationship>,
    parts: Seq<Seq<InvestigationRelationship>>,
) -> bool {
    let kept = kept_relationships(existing, id);
    let cands = flat(parts);
    &&& derivations(parts, id, rows)
    &&& v.len() == kept.len() + cands.len()
    &&& forall|i: int| 0 <= i < kept.len() ==> same_relationship(#[trigger] v[i], kept[i])
    &&& forall|i: int| 0 <= i < cands.len() ==> reconciled(#[trigger] v[kept.len() + i], cands[i], existing)
}

proof fn lemma_prior_at(existing: Seq<InvestigationRelationship>, c: InvestigationRelationship)
    ensures
        -1 <= prior_at(existing, c) < existing.len(),
        prior_at(existing, c) >= 0 ==> stored_as(existing[prior_at(existing, c)], c),
        forall|q: int| 0 <= q < existing.len() && (prior_at(existing, c) < 0 || q < prior_at(existing, c)) ==> !stored_as(
            #[trigger] existing[q],
            c,
        ),
    decreases existing.len(),
{
    if existing.len() > 0 {
        let init = existing.drop_last();
        lemma_prior_at(init, c);
        let k = prior_at(existing, c);
        assert forall|q: int| 0 <= q < existing.len() && (k < 0 || q < k) implies !stored_as(#[trigger] existing[q], c) by {
            if q < existing.len() - 1 {
                assert(existing[q] == init[q]);
            }
        }
    }
}

proof fn lemma_row_at(rows: Seq<PatternRow>, id: InvestigationId)
    ensures
        -1 <= row_at(rows, id) < rows.len(),
        row_at(rows, id) >= 0 ==> rows[row_at(rows, id)].0 == id,
        forall|q: int| 0 <= q < rows.len() && (row_at(rows, id) < 0 || q < row_at(rows, id)) ==> (#[trigger] rows[q]).0 != id,
    decreases rows.len(),
{
    if rows.len() > 0 {
        let init = rows.drop_last();
        lemma_row_at(init, id);
        let k = row_at(rows, id);
        assert forall|q: int| 0 <= q < rows.len() && (k < 0 || q < k) implies (#[trigger] rows[q]).0 != id by {
            if q < rows.len() - 1 {
                assert(rows[q] == init[q]);
            }
        }
    }
}

/// Whether `e` is the stored form of `c` (exec).
fn is_stored_as(e: &InvestigationRelationship, c: &InvestigationRelationship) -> (b: bool)
    ensures
        b == stored_as(*e, *c),
{
    let ends = (e.source_investigation_id == c.source_investigation_id && e.target_investigation_id == c.target_investigation_id)
        || (e.source_investigation_id == c.target_investigation_id && e.target_investigation_id == c.source_investigation_id);
    if !ends {
        return false;
    }
    text_eq(&chars_of(e.identity_key.as_str()), &chars_of(c.identity_key.as_str()))
}

/// The position of the stored form of `c`, if any.
fn find_prior(existing: &Vec<InvestigationRelationship>, c: &InvestigationRelationship) -> (k: usize)
    ensures
        prior_at(existing@, *c) < 0 ==> k == existing@.len(),
        prior_at(existing@, *c) >= 0 ==> k == prior_at(existing@, *c),
{
    proof {
        lemma_prior_at(existing@, *c);
    }
    let mut k: usize = 0;
    while k < existing.len()
        invariant
            k <= existing@.len(),
            forall|q: int| 0 <= q < k ==> !stored_as(#[trigger] existing@[q], *c),
        decreases existing.len() - k,
    {
        if is_stored_as(&existing[k], c) {
            proof {
                lemma_prior_at(existing@, *c);
            }
            return k;
        }
        k = k + 1;
    }
    proof {
        lemma_prior_at(existing@, *c);
    }
    k
}

/// The candidate `c`, reconciled with the stored graph.
fn reconcile(c: InvestigationRelationship, existing: &Vec<InvestigationRelationship>) -> (r: InvestigationRelationship)
    ensures
        reconciled(r, c, existing@),
{
    let k = find_prior(existing, &c);
    proof {
        lemma_prior_at(existing@, c);
    }
    if k < existing.len() {
        let p = copy_relationship(&existing[k]);
        let ghost e = existing@[k as int];
        assert(same_relationship(p, e));
        let mut r = c;
        r.id = p.id;
        r.confirmation = p.confirmation;
        r.created_at = p.created_at;
        assert(same_derivation(r, c));
        assert(same_history(r, e));
        assert(prior_at(existing@, c) == k as int);
        assert(reconciled(r, c, existing@));
        r
    } else {
        assert(prior_at(existing@, c) < 0);
        assert(same_history(c, c));
        c
    }
}

/// The stored relationships that the refresh keeps.
fn keep_unaffected(existing: &Vec<InvestigationRelationship>, id: InvestigationId) -> (v: Vec<InvestigationRelationship>)
    ensures
        v@.len() == kept_relationships(existing@, id).len(),
        forall|i: int| 0 <= i < v@.len() ==> same_relationship(#[trigger] v@[i], kept_relationships(existing@, id)[i]),
{
    let mut v: Vec<InvestigationRelationship> = Vec::new();
    let mut i: usize = 0;
    while i < existing.len()
        invariant
            i <= existing@.len(),
            v@.len() == kept_relationships(existing@.subrange(0, i as int), id).len(),
            forall|q: int| 0 <= q < v@.len() ==> same_relationship(#[trigger] v@[q], kept_relationships(existing@.subrange(0, i as int), id)[q]),
        decreases existing.len() - i,
    {
        let ghost before = existing@.subrange(0, i as int);
        let ghost after = existing@.subrange(0, i + 1);
        proof {
            assert(after.drop_last() =~= before);
            reveal_with_fuel(Seq::filter, 1);
        }
        let e = &existing[i];
        let derived_here = e.kind != RelationshipKind::ExplicitLink
            && (e.source_investigation_id == id || e.target_investigation_id == id);
        if !derived_here {
            v.push(copy_relationship(e));
        }
        i = i + 1;
    }
    assert(existing@.subrange(0, existing@.len() as int) =~= existing@);
    v
}

/// Every candidate of the flattened derivations is one of some part's.
proof fn lemma_flat_member(parts: Seq<Seq<InvestigationRelationship>>, i: int)
    requires
        0 <= i < flat(parts).len(),
    ensures
        exists|j: int, q: int| 0 <= j < parts.len() && 0 <= q < parts[j].len() && flat(parts)[i] == #[trigger] parts[j][q],
    decreases parts.len(),
{
    if parts.len() > 0 {
        let head = flat(parts.drop_last());
        if i < head.len() {
            lemma_flat_member(parts.drop_last(), i);
            let (j, q) = choose|j: int, q: int| 0 <= j < parts.drop_last().len() && 0 <= q < parts.drop_last()[j].len()
                && head[i] == #[trigger] parts.drop_last()[j][q];
            assert(parts[j] == parts.drop_last()[j]);
        } else {
            assert(flat(parts)[i] == parts[parts.len() - 1][i - head.len()]);
        }
    }
}

/// A sequence whose members all pass `p` filters to itself.
proof fn lemma_filter_all(s: Seq<InvestigationRelationship>, p: spec_fn(InvestigationRelationship) -> bool)
    requires
        forall|i: int| 0 <= i < s.len() ==> p(#[trigger] s[i]),
    ensures
        s.filter(p) == s,
    decreases s.len(),
{
    reveal_with_fuel(Seq::filter, 1);
    if s.len() > 0 {
        lemma_filter_all(s.drop_last(), p);
        assert(s.drop_last().push(s.last()) =~= s);
    }
}

/// A refresh keeps what it kept: refreshing `id` again, on the graph a
/// refresh of `id` produced, leaves alone the same relationships (explicit
/// links and relationships elsewhere in the graph), in the same order and
/// unchanged.
pub proof fn lemma_refresh_keeps_kept(
    v: Seq<InvestigationRelationship>,
    id: InvestigationId,
    rows: Seq<PatternRow>,
    existing: Seq<InvestigationRelationship>,
    parts: Seq<Seq<InvestigationRelationship>>,
)
    requires
        refreshed(v, id, rows, existing, parts),
    ensures
        kept_relationships(v, id).len() == kept_relationships(existing, id).len(),
        forall|i: int| 0 <= i < kept_relationships(v, id).len() ==> same_relationship(
            #[trigger] kept_relationships(v, id)[i], kept_relationships(existing, id)[i]),
{
    let kept = kept_relationships(existing, id);
    let k = kept.len() as int;
    let p = |e: InvestigationRelationship| !recomputed_by(e, id);
    let front = v.subrange(0, k);
    let back = v.subrange(k, v.len() as int);
    assert(v =~= front + back);
    assert forall|i: int| 0 <= i < front.len() implies p(#[trigger] front[i]) by {
        assert(same_relationship(v[i], kept[i]));
        existing.lemma_filter_pred(p, i);
    }
    lemma_filter_all(front, p);
    assert forall|i: int| 0 <= i < back.len() implies !p(#[trigger] back[i]) by {
        let cands = flat(parts);
        assert(reconciled(v[k + i], cands[i], existing));
        lemma_flat_member(parts, i);
        let (j, q) = choose|j: int, q: int| 0 <= j < parts.len() && 0 <= q < parts[j].len() && cands[i] == #[trigger] parts[j][q];
        assert(derivations(parts, id, rows));
        if rows[j].0 == id {
            assert(parts[j].len() == 0);
        } else {
            assert(derived_upto(parts[j], id, rows[row_at(rows, id)].1, rows[j].0, rows[j].1, 11));
            assert(derived_from(parts[j][q], id, rows[row_at(rows, id)].1, rows[j].0, rows[j].1));
        }
    }
    back.lemma_all_neg_filter_empty(p);
    assert(back.all(|x: InvestigationRelationship| !p(x)));
    Seq::filter_distributes_over_add(front, back, p);
    assert(back.filter(p) =~= Seq::<InvestigationRelationship>::empty());
    assert(v.filter(p) =~= front);
    assert(kept_relationships(v, id) == front);
    assert forall|i: int| 0 <= i < kept_relationships(v, id).len() implies same_relationship(
        #[trigger] kept_relationships(v, id)[i], kept[i]) by {
        assert(front[i] == v[i]);
        assert(same_relationship(v[i], kept[i]));
    }
}

/// Recomputes the derived relationships between `id` and every other
/// Investigation of `rows` (each with its durable context), reconciling them
/// with the stored graph `existing`; `now` stamps new relationships. Fails
/// when `id` has no row. On success the result is the whole new graph:
/// every stored relationship that is not a derived one touching `id`, in
/// order (explicit links are never touched), then the fresh derivations in
/// row order, each keeping the identifier, confirmation and creation time of
/// its stored form; stale derived relationships of `id` are gone.
pub fn refresh_relationships(
    id: InvestigationId,
    rows: &Vec<PatternRow>,
    existing: &Vec<InvestigationRelationship>,
    now: i64,
) -> (r: Result<Vec<InvestigationRelationship>, RivoraError>)
    ensures
        r is Ok <==> row_at(rows@, id) >= 0,
        r matches Err(e) ==> e matches RivoraError::ObjectNotFound { kind: k, id: i } && k@ == "investigation"@,
        r matches Ok(v) ==> exists|parts: Seq<Seq<InvestigationRelationship>>| refreshed(v@, id, rows@, existing@, parts),
{
    let mut t: usize = 0;
    while t < rows.len() && rows[t].0 != id
        invariant
            t <= rows@.len(),
            forall|q: int| 0 <= q < t ==> (#[trigger] rows@[q]).0 != id,
        decreases rows.len() - t,
    {
        t = t + 1;
    }
    proof {
        lemma_row_at(rows@, id);
    }
    if t == rows.len() {
        return Err(RivoraError::not_found("investigation", ObjectId { value: id.value }));
    }
    assert(t == row_at(rows@, id));
    let target = &rows[t].1;
    let mut v = keep_unaffected(existing, id);
    let ghost kept = kept_relationships(existing@, id);
    let ghost mut parts: Seq<Seq<InvestigationRelationship>> = seq![];
    let mut j: usize = 0;
    while j < rows.len()
        invariant
            j <= rows@.len(),
            t == row_at(rows@, id),
            0 <= t < rows@.len(),
            *target == rows@[t as int].1,
            kept == kept_relationships(existing@, id),
            parts.len() == j,
            forall|q: int| 0 <= q < j ==> if (#[trigger] rows@[q]).0 == id {
                parts[q].len() == 0
            } else {
                derived_upto(parts[q], id, rows@[t as int].1, rows@[q].0, rows@[q].1, 11)
            },
            v@.len() == kept.len() + flat(parts).len(),
            forall|i: int| 0 <= i < kept.len() ==> same_relationship(#[trigger] v@[i], kept[i]),
            forall|i: int| 0 <= i < flat(parts).len() ==> reconciled(#[trigger] v@[kept.len() + i], flat(parts)[i], existing@),
        decreases rows.len() - j,
    {
        let ghost before_parts = parts;
        let ghost base = v@.len();
        let mut derived: Vec<InvestigationRelationship> = Vec::new();
        if rows[j].0 != id {
            derived = derive_pair(id, target, rows[j].0, &rows[j].1, now);
        }
        let ghost part = derived@;
        assert(derived@ =~= part.subrange(0, part.len() as int));
        let ghost prev = v@;
        let mut d: usize = 0;
        let n = derived.len();
        while d < n
            invariant
                d <= n,
                n == part.len(),
                derived@ == part.subrange(d as int, n as int),
                v@.len() == base + d,
                base == prev.len(),
                forall|i: int| 0 <= i < base ==> #[trigger] v@[i] == prev[i],
                forall|i: int| 0 <= i < d ==> reconciled(#[trigger] v@[base + i], part[i], existing@),
            decreases n - d,
        {
            let c = derived.remove(0);
            assert(c == part[d as int]);
            assert(derived@ =~= part.subrange(d + 1, n as int));
            let r = reconcile(c, existing);
            v.push(r);
            d = d + 1;
        }
        proof {
            parts = before_parts.push(part);
            assert(parts.drop_last() =~= before_parts);
            assert(flat(parts) == flat(before_parts) + part);
            assert forall|i: int| 0 <= i < kept.len() implies same_relationship(#[trigger] v@[i], kept[i]) by {
                assert(v@[i] == prev[i]);
            }
            assert forall|i: int| 0 <= i < flat(parts).len() implies reconciled(#[trigger] v@[kept.len() + i], flat(parts)[i], existing@) by {
                if i < flat(before_parts).len() {
                    assert(v@[kept.len() + i] == prev[kept.len() + i]);
                    assert(flat(parts)[i] == flat(before_parts)[i]);
                } else {
                    let d2 = i - flat(before_parts).len();
                    assert(flat(parts)[i] == part[d2]);
                    assert(kept.len() + i == base + d2);
                }
            }
            assert forall|q: int| 0 <= q < j + 1 implies if (#[trigger] rows@[q]).0 == id {
                parts[q].len() == 0
            } else {
                derived_upto(parts[q], id, rows@[t as int].1, rows@[q].0, rows@[q].1, 11)
            } by {
                if q < j {
                    assert(parts[q] == before_parts[q]);
                }
            }
        }
        j = j + 1;
    }
    assert(refreshed(v@, id, rows@, existing@, parts));
    let ghost vv = v@;
    let res: Result<Vec<InvestigationRelationship>, RivoraError> = Ok(v);
    assert(res matches Ok(w) && w@ == vv);
    assert(exists|ps: Seq<Seq<InvestigationRelationship>>| refreshed(vv, id, rows@, existing@, ps));
    res
}

} // verus!
