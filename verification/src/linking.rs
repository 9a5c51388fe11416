//! Explicit links between Investigations, made and removed by people.
//!
//! An explicit link is a relationship of kind `ExplicitLink` from the
//! source to the target. It carries full confidence, no derived evidence,
//! the method `explicit_link`, the caller's reason as its explanation (or a
//! fixed sentence when none is given), and it is confirmed by the actor who
//! made it, at the moment it was made. Linking the same two Investigations
//! again, in either direction, hands back the link already stored. Derived
//! relationships are never unlinked: refreshing the graph replaces them.

use vstd::prelude::*;
use crate::error::RivoraError;
use crate::ids::{uuid_text, InvestigationId, ObjectId};
use crate::model::{Confidence, InvestigationRelationship, RelationshipConfirmation};
use crate::similarity::{copy_relationship, opt_text, same_relationship};
use crate::vocab::{ConfirmationState, RelationshipKind};

verus! {

/// `r` is an explicit link between `a` and `b`, in either direction.
pub open spec fn links(r: InvestigationRelationship, a: InvestigationId, b: InvestigationId) -> bool {
    r.kind == RelationshipKind::ExplicitLink && r.touches_spec(a) && r.touches_spec(b)
}

/// Position of the first stored explicit link between `a` and `b`, or -1.
pub open spec fn first_link(rels: Seq<InvestigationRelationship>, a: InvestigationId, b: InvestigationId) -> int
    decreases rels.len(),
{
    if rels.len() == 0 {
        -1
    } else {
        let k = first_link(rels.drop_last(), a, b);
        if k >= 0 {
            k
        } else if links(rels.last(), a, b) {
            rels.len() - 1
        } else {
            -1
        }
    }
}

/// The explanation a new link carries.
pub open spec fn link_explanation(reason: Option<Seq<char>>) -> Seq<char> {
    match reason {
        Some(r) => r,
        None => "linked explicitly by a person"@,
    }
}

/// `r` is the new explicit link from `source` to `target` made by `actor`
/// at `now` with `reason`.
pub open spec fn new_link(
    r: InvestigationRelationship,
    source: InvestigationId,
    target: InvestigationId,
    reason: Option<Seq<char>>,
    actor: Seq<char>,
    now: i64,
) -> bool {
    &&& r.kind == RelationshipKind::ExplicitLink
    &&& r.source_investigation_id == source
    &&& r.target_investigation_id == target
    &&& r.confidence.permille == 1000
    &&& r.evidence@.len() == 0
    &&& r.method@ == "explicit_link"@
    &&& r.explanation@ == link_explanation(reason)
    &&& r.confirmation.state == ConfirmationState::Confirmed
    &&& opt_text(r.confirmation.actor) == Some(actor)
    &&& r.confirmation.at == Some(now)
    &&& r.created_at == now
    &&& r.identity_key@ == "explicit_link"@
}

proof fn lemma_first_link(rels: Seq<InvestigationRelationship>, a: InvestigationId, b: InvestigationId)
    ensures
        -1 <= first_link(rels, a, b) < rels.len(),
        first_link(rels, a, b) >= 0 ==> links(rels[first_link(rels, a, b)], a, b),
        forall|q: int| 0 <= q < rels.len() && (first_link(rels, a, b) < 0 || q < first_link(rels, a, b))
            ==> !links(#[trigger] rels[q], a, b),
    decreases rels.len(),
{
    if rels.len() > 0 {
        lemma_first_link(rels.drop_last(), a, b);
        assert forall|q: int| 0 <= q < rels.len() - 1 implies rels.drop_last()[q] == #[trigger] rels[q] by {}
    }
}

/// Index of the first stored explicit link between `a` and `b`.
pub fn find_link(rels: &Vec<InvestigationRelationship>, a: InvestigationId, b: InvestigationId) -> (r: Option<usize>)
    ensures
        r matches Some(k) ==> k < rels@.len() && k as int == first_link(rels@, a, b),
        r is None <==> first_link(rels@, a, b) < 0,
{
    proof {
        lemma_first_link(rels@, a, b);
    }
    let mut i: usize = 0;
    while i < rels.len()
        invariant
            i <= rels@.len(),
            forall|q: int| 0 <= q < i ==> !links(#[trigger] rels@[q], a, b),
        decreases rels.len() - i,
    {
        let r = &rels[i];
        if r.kind == RelationshipKind::ExplicitLink && r.touches(a) && r.touches(b) {
            proof {
                lemma_first_link(rels@, a, b);
            }
            return Some(i);
        }
        i = i + 1;
    }
    None
}

/// Whether `id` is among `stored`.
fn is_stored(stored: &Vec<InvestigationId>, id: InvestigationId) -> (b: bool)
    ensures
        b <==> stored@.contains(id),
{
    let mut i: usize = 0;
    while i < stored.len()
        invariant
            i <= stored@.len(),
            forall|q: int| 0 <= q < i ==> stored@[q] != id,
        decreases stored.len() - i,
    {
        if stored[i] == id {
            return true;
        }
        i = i + 1;
    }
    false
}

/// Links `source` to `target` on behalf of `actor`. `stored` lists the
/// stored Investigations and `existing` the stored relationships. Linking an
/// Investigation to itself is a validation error; a missing source, then a
/// missing target, is not found. When an explicit link between the two is
/// stored already (either way round), that link comes back with `false`;
/// otherwise the new link, with identifier `id`, comes back with `true`,
/// for the caller to store.
pub fn link_investigations(
    source: InvestigationId,
    target: InvestigationId,
    stored: &Vec<InvestigationId>,
    existing: &Vec<InvestigationRelationship>,
    reason: Option<String>,
    actor: &str,
    id: ObjectId,
    now: i64,
) -> (r: Result<(InvestigationRelationship, bool), RivoraError>)
    ensures
        source == target <==> r matches Err(RivoraError::Validation { .. }),
        r matches Err(e) ==> (source == target ==> (e matches RivoraError::Validation { message: m }
            && m@ == "cannot link an investigation to itself"@)),
        r matches Err(e) ==> (source != target && !stored@.contains(source) ==> (e matches RivoraError::ObjectNotFound { kind: k, id: i }
            && k@ == "investigation"@ && i@ == uuid_text(source.value))),
        r matches Err(e) ==> (source != target && stored@.contains(source) ==> (e matches RivoraError::ObjectNotFound { kind: k, id: i }
            && k@ == "investigation"@ && i@ == uuid_text(target.value))),
        r is Ok <==> source != target && stored@.contains(source) && stored@.contains(target),
        r matches Ok((l, created)) ==> {
            &&& created <==> first_link(existing@, source, target) < 0
            &&& !created ==> same_relationship(l, existing@[first_link(existing@, source, target)])
            &&& created ==> new_link(l, source, target, opt_text(reason), actor@, now) && l.id == id
        },
{
    if source == target {
        return Err(RivoraError::validation("cannot link an investigation to itself"));
    }
    if !is_stored(stored, source) {
        return Err(RivoraError::not_found("investigation", ObjectId { value: source.value }));
    }
    if !is_stored(stored, target) {
        return Err(RivoraError::not_found("investigation", ObjectId { value: target.value }));
    }
    match find_link(existing, source, target) {
        Some(k) => Ok((copy_relationship(&existing[k]), false)),
        None => {
            let explanation = match reason {
                Some(r) => r,
                None => "linked explicitly by a person".to_owned(),
            };
            let link = InvestigationRelationship {
                id,
                kind: RelationshipKind::ExplicitLink,
                source_investigation_id: source,
                target_investigation_id: target,
                confidence: Confidence { permille: 1000 },
                evidence: Vec::new(),
                method: "explicit_link".to_owned(),
                explanation,
                confirmation: RelationshipConfirmation {
                    state: ConfirmationState::Confirmed,
                    actor: Some(actor.to_owned()),
                    at: Some(now),
                },
                created_at: now,
                identity_key: "explicit_link".to_owned(),
            };
            Ok((link, true))
        },
    }
}

/// Linking is idempotent in both directions: once the new link `l` made
/// for `source` and `target` is stored after `existing` (which held no
/// explicit link between them), linking the two again, either way round,
/// finds `l` and makes nothing new.
pub proof fn lemma_link_idempotent(
    existing: Seq<InvestigationRelationship>,
    source: InvestigationId,
    target: InvestigationId,
    reason: Option<Seq<char>>,
    actor: Seq<char>,
    now: i64,
    l: InvestigationRelationship,
)
    requires
        first_link(existing, source, target) < 0,
        new_link(l, source, target, reason, actor, now),
    ensures
        first_link(existing.push(l), source, target) == existing.len(),
        first_link(existing.push(l), target, source) == existing.len(),
{
    lemma_first_link(existing, source, target);
    lemma_first_link(existing, target, source);
    assert(existing.push(l).drop_last() =~= existing);
    assert(first_link(existing, target, source) < 0) by {
        if first_link(existing, target, source) >= 0 {
            assert(links(existing[first_link(existing, target, source)], source, target));
        }
    }
}

/// Whether `relationship` may be unlinked: only explicit links can be;
/// a derived relationship is a precondition error (refresh removes those).
pub fn unlink_investigation(relationship: &InvestigationRelationship) -> (r: Result<(), RivoraError>)
    ensures
        r is Ok <==> relationship.kind == RelationshipKind::ExplicitLink,
        r matches Err(e) ==> e matches RivoraError::Precondition { message: m }
            && m@ == "only explicit links can be unlinked; derived relationships are removed by refresh"@,
{
    if relationship.kind != RelationshipKind::ExplicitLink {
        return Err(RivoraError::precondition(
            "only explicit links can be unlinked; derived relationships are removed by refresh",
        ));
    }
    Ok(())
}

/// The relationships (derived and explicit) touching `id`, in stored order.
pub fn list_relationships(rels: &Vec<InvestigationRelationship>, id: InvestigationId) -> (r: Vec<InvestigationRelationship>)
    ensures
        r@.len() == rels@.filter(|e: InvestigationRelationship| e.touches_spec(id)).len(),
        forall|i: int| 0 <= i < r@.len() ==> same_relationship(#[trigger] r@[i], rels@.filter(|e: InvestigationRelationship| e.touches_spec(id))[i]),
{
    let mut out: Vec<InvestigationRelationship> = Vec::new();
    let mut i: usize = 0;
    while i < rels.len()
        invariant
            i <= rels@.len(),
            out@.len() == rels@.subrange(0, i as int).filter(|e: InvestigationRelationship| e.touches_spec(id)).len(),
            forall|q: int| 0 <= q < out@.len() ==> same_relationship(#[trigger] out@[q], rels@.subrange(0, i as int).filter(|e: InvestigationRelationship| e.touches_spec(id))[q]),
        decreases rels.len() - i,
    {
        let ghost before = rels@.subrange(0, i as int);
        let ghost after = rels@.subrange(0, i + 1);
        proof {
            assert(after.drop_last() =~= before);
            reveal_with_fuel(Seq::filter, 1);
        }
        if rels[i].touches(id) {
            out.push(copy_relationship(&rels[i]));
        }
        i = i + 1;
    }
    assert(rels@.subrange(0, rels@.len() as int) =~= rels@);
    out
}

} // verus!
