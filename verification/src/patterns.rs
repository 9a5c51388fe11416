//! Pattern detection across Investigations: keys (failure signatures,
//! repositories, recommendation signatures, connector sources, inconclusive
//! verifications, successful and rejected outcomes, relationship kinds) that
//! recur in at least two Investigations.

use vstd::prelude::*;
use crate::context::{dedupe_ids, first_occurrences, lemma_first_occurrences, DetectedPattern, PatternKind};
use crate::hypotheses::copy_provenance;
use crate::graph::{
    failure_pair_list, failure_pairs, recommendation_pair_list, recommendation_pairs, repository_pair_list,
    repository_pairs, source_pair_list, source_pairs,
};
use crate::ids::{InvestigationId, ObjectId};
use crate::keymap::{build_map, group, grouped, lemma_pair_views_push, pair_view, pair_views, sorted_texts, KeyMap};
use crate::model::{Confidence, ContextBundle, InvestigationRelationship, LearningOutcome, Provenance, VerificationReceipt};
use crate::text::{
    chars_of, decimal, lemma_lex_asymmetric, lemma_lex_irreflexive, lemma_lex_total, lemma_lex_transitive, lex_lt, push_chars,
    push_decimal, push_str, text_less, to_string,
};
use crate::vocab::{OutcomeDisposition, VerificationResult};

verus! {

/// Optional keys paired with identifiers.
pub type Pairs = Seq<(Option<Seq<char>>, ObjectId)>;

/// One Investigation with its durable context.
pub type PatternRow = (InvestigationId, ContextBundle);

/// Inconclusive receipts, keyed `inconclusive`.
pub open spec fn inconclusive_pairs(rs: Seq<VerificationReceipt>) -> Pairs {
    rs.map_values(|r: VerificationReceipt| (if r.result == VerificationResult::Inconclusive { Some("inconclusive"@) } else { None }, r.id))
}

/// Successful Learning Outcomes, keyed `successful`.
pub open spec fn successful_pairs(ls: Seq<LearningOutcome>) -> Pairs {
    ls.map_values(|o: LearningOutcome| (if o.disposition == OutcomeDisposition::Successful { Some("successful"@) } else { None }, o.id))
}

/// Rejected Learning Outcomes, keyed `rejected`.
pub open spec fn rejected_pairs(ls: Seq<LearningOutcome>) -> Pairs {
    ls.map_values(|o: LearningOutcome| (if o.disposition == OutcomeDisposition::Rejected { Some("rejected"@) } else { None }, o.id))
}

/// The keyed evidence one Investigation contributes to a pattern kind.
pub open spec fn row_pairs(kind: PatternKind, b: ContextBundle) -> Pairs {
    match kind {
        PatternKind::RecurringFailureSignature => failure_pairs(b.observations@),
        PatternKind::RepeatedComponent => repository_pairs(b.observations@),
        PatternKind::RecurringRecommendation => recommendation_pairs(b.recommendations@),
        PatternKind::RecurringConnectorEvidence => source_pairs(b.observations@),
        PatternKind::FrequentInconclusiveVerification => inconclusive_pairs(b.verifications@),
        PatternKind::RepeatedSuccessfulMitigation => successful_pairs(b.learning@),
        PatternKind::RepeatedRejectedRecommendation => rejected_pairs(b.learning@),
        PatternKind::RepeatedRelationship => seq![],
    }
}

/// An Investigation identifier carried as an object identifier.
pub open spec fn as_object(id: InvestigationId) -> ObjectId {
    ObjectId { value: id.value }
}

/// An object identifier read back as an Investigation identifier.
pub open spec fn as_investigation(id: ObjectId) -> InvestigationId {
    InvestigationId { value: id.value }
}

/// The same keys, each paired with the Investigation instead.
pub open spec fn tagged(p: Pairs, id: InvestigationId) -> Pairs {
    p.map_values(|x: (Option<Seq<char>>, ObjectId)| (x.0, as_object(id)))
}

/// The keyed evidence of all rows, in order.
pub open spec fn object_pairs(kind: PatternKind, rows: Seq<PatternRow>) -> Pairs
    decreases rows.len(),
{
    if rows.len() == 0 {
        seq![]
    } else {
        object_pairs(kind, rows.drop_last()) + row_pairs(kind, rows.last().1)
    }
}

/// The keys of all rows, each paired with its Investigation, in order.
pub open spec fn investigation_pairs(kind: PatternKind, rows: Seq<PatternRow>) -> Pairs
    decreases rows.len(),
{
    if rows.len() == 0 {
        seq![]
    } else {
        investigation_pairs(kind, rows.drop_last()) + tagged(row_pairs(kind, rows.last().1), rows.last().0)
    }
}

/// Relationships keyed by their kind.
pub open spec fn relationship_object_pairs(rels: Seq<InvestigationRelationship>) -> Pairs {
    rels.map_values(|r: InvestigationRelationship| (Some(r.kind.text()), r.id))
}

/// Relationship kinds paired with both ends, in order.
pub open spec fn relationship_investigation_pairs(rels: Seq<InvestigationRelationship>) -> Pairs
    decreases rels.len(),
{
    if rels.len() == 0 {
        seq![]
    } else {
        let r = rels.last();
        relationship_investigation_pairs(rels.drop_last()) + seq![
            (Some(r.kind.text()), as_object(r.source_investigation_id)),
            (Some(r.kind.text()), as_object(r.target_investigation_id)),
        ]
    }
}

/// The keyed evidence of a pattern kind.
pub open spec fn kind_object_pairs(kind: PatternKind, rows: Seq<PatternRow>, rels: Seq<InvestigationRelationship>) -> Pairs {
    if kind == PatternKind::RepeatedRelationship { relationship_object_pairs(rels) } else { object_pairs(kind, rows) }
}

/// The keyed Investigations of a pattern kind.
pub open spec fn kind_investigation_pairs(kind: PatternKind, rows: Seq<PatternRow>, rels: Seq<InvestigationRelationship>) -> Pairs {
    if kind == PatternKind::RepeatedRelationship { relationship_investigation_pairs(rels) } else { investigation_pairs(kind, rows) }
}

/// The distinct Investigations in which key `k` of a kind occurs, in order of
/// first occurrence.
pub open spec fn pattern_investigations(
    kind: PatternKind,
    k: Seq<char>,
    rows: Seq<PatternRow>,
    rels: Seq<InvestigationRelationship>,
) -> Seq<InvestigationId> {
    first_occurrences(group(kind_investigation_pairs(kind, rows, rels), k)).map_values(|o: ObjectId| as_investigation(o))
}

/// The distinct objects behind key `k` of a kind, in order of first occurrence.
pub open spec fn pattern_objects(kind: PatternKind, k: Seq<char>, rows: Seq<PatternRow>, rels: Seq<InvestigationRelationship>) -> Seq<ObjectId> {
    first_occurrences(group(kind_object_pairs(kind, rows, rels), k))
}

/// Key `k` of a kind occurs in at least two Investigations.
pub open spec fn qualifies(kind: PatternKind, k: Seq<char>, rows: Seq<PatternRow>, rels: Seq<InvestigationRelationship>) -> bool {
    grouped(kind_object_pairs(kind, rows, rels), k) is Some && pattern_investigations(kind, k, rows, rels).len() >= 2
}

/// The description of a pattern.
pub open spec fn pattern_description(kind: PatternKind, k: Seq<char>, n: nat) -> Seq<char> {
    match kind {
        PatternKind::RecurringFailureSignature => "Failure signature `"@ + k + "` appears in "@ + decimal(n) + " Investigations"@,
        PatternKind::RepeatedComponent => "Repository `"@ + k + "` appears in "@ + decimal(n) + " Investigations"@,
        PatternKind::RecurringRecommendation => "Recommendation signature `"@ + k + "` appears in "@ + decimal(n) + " Investigations"@,
        PatternKind::RecurringConnectorEvidence => "Connector source `"@ + k + "` appears in "@ + decimal(n) + " Investigations"@,
        PatternKind::RepeatedRelationship => "Relationship kind `"@ + k + "` touches "@ + decimal(n) + " Investigations"@,
        PatternKind::FrequentInconclusiveVerification => "Inconclusive verification appears in "@ + decimal(n) + " Investigations"@,
        PatternKind::RepeatedSuccessfulMitigation => "Successful Learning Outcomes appear in "@ + decimal(n) + " Investigations"@,
        PatternKind::RepeatedRejectedRecommendation => "Rejected Recommendations appear in "@ + decimal(n) + " Investigations"@,
    }
}

/// The confidence of a pattern kind, in thousandths.
pub open spec fn pattern_permille(kind: PatternKind) -> u32 {
    match kind {
        PatternKind::RecurringFailureSignature => 800,
        PatternKind::RepeatedComponent => 750,
        PatternKind::RecurringRecommendation => 700,
        PatternKind::RecurringConnectorEvidence => 600,
        PatternKind::RepeatedRelationship => 650,
        PatternKind::FrequentInconclusiveVerification => 700,
        PatternKind::RepeatedSuccessfulMitigation => 750,
        PatternKind::RepeatedRejectedRecommendation => 700,
    }
}

/// The derivation method of a pattern kind.
pub open spec fn pattern_method(kind: PatternKind) -> Seq<char> {
    match kind {
        PatternKind::RecurringFailureSignature => "failure_signature_v1"@,
        PatternKind::RepeatedComponent => "repository_component_v1"@,
        PatternKind::RecurringRecommendation => "recommendation_signature_v1"@,
        PatternKind::RecurringConnectorEvidence => "connector_source_v1"@,
        PatternKind::RepeatedRelationship => "relationship_kind_v1"@,
        PatternKind::FrequentInconclusiveVerification => "inconclusive_verification_v1"@,
        PatternKind::RepeatedSuccessfulMitigation => "successful_mitigation_v1"@,
        PatternKind::RepeatedRejectedRecommendation => "rejected_recommendation_v1"@,
    }
}

/// `p` is the pattern of key `k` of a kind.
pub open spec fn pattern_is(p: DetectedPattern, kind: PatternKind, k: Seq<char>, rows: Seq<PatternRow>, rels: Seq<InvestigationRelationship>) -> bool {
    let invs = pattern_investigations(kind, k, rows, rels);
    &&& p.kind == kind
    &&& p.signature@ == k
    &&& p.investigation_ids@ == invs
    &&& p.object_ids@ == pattern_objects(kind, k, rows, rels)
    &&& p.occurrence_count == invs.len()
    &&& p.description@ == pattern_description(kind, k, invs.len())
    &&& p.confidence.permille == pattern_permille(kind)
    &&& p.derivation_method@ == pattern_method(kind)
}

/// Position of a kind's name in alphabetical order of the names.
pub open spec fn kind_order(kind: PatternKind) -> nat {
    match kind {
        PatternKind::FrequentInconclusiveVerification => 0,
        PatternKind::RecurringConnectorEvidence => 1,
        PatternKind::RecurringFailureSignature => 2,
        PatternKind::RecurringRecommendation => 3,
        PatternKind::RepeatedComponent => 4,
        PatternKind::RepeatedRejectedRecommendation => 5,
        PatternKind::RepeatedRelationship => 6,
        PatternKind::RepeatedSuccessfulMitigation => 7,
    }
}

/// `a` ranks before `b`: more occurrences, then kind name, then signature.
pub open spec fn pattern_before(a: DetectedPattern, b: DetectedPattern) -> bool {
    a.occurrence_count > b.occurrence_count || (a.occurrence_count == b.occurrence_count && (kind_order(a.kind) < kind_order(b.kind)
        || (a.kind == b.kind && lex_lt(a.signature@, b.signature@))))
}

/// The detected patterns: exactly one for each key that recurs in at least
/// two Investigations, each as its key's pattern, in rank order.
pub open spec fn patterns_of(r: Seq<DetectedPattern>, rows: Seq<PatternRow>, rels: Seq<InvestigationRelationship>) -> bool {
    &&& forall|i: int| 0 <= i < r.len() ==> qualifies((#[trigger] r[i]).kind, r[i].signature@, rows, rels)
        && pattern_is(r[i], r[i].kind, r[i].signature@, rows, rels)
    &&& forall|kind: PatternKind, k: Seq<char>| #[trigger] qualifies(kind, k, rows, rels)
        ==> exists|i: int| 0 <= i < r.len() && (#[trigger] r[i]).kind == kind && r[i].signature@ == k
    &&& forall|a: int, b: int| 0 <= a < b < r.len() ==> pattern_before(#[trigger] r[a], #[trigger] r[b])
}


/// Pairs `(key, id)` where `key` is `label` when `matches` holds.
fn flagged_pair(matches: bool, label: &str, id: ObjectId) -> (pr: (Option<Vec<char>>, ObjectId))
    ensures
        pair_view(pr) == (if matches { Some(label@) } else { None::<Seq<char>> }, id),
{
    if matches {
        (Some(chars_of(label)), id)
    } else {
        (None, id)
    }
}

/// The keyed evidence one Investigation contributes to a pattern kind.
fn row_pair_list(kind: PatternKind, b: &ContextBundle) -> (pairs: Vec<(Option<Vec<char>>, ObjectId)>)
    ensures
        pair_views(pairs@) == row_pairs(kind, *b),
{
    match kind {
        PatternKind::RecurringFailureSignature => failure_pair_list(&b.observations),
        PatternKind::RepeatedComponent => repository_pair_list(&b.observations),
        PatternKind::RecurringRecommendation => recommendation_pair_list(&b.recommendations),
        PatternKind::RecurringConnectorEvidence => source_pair_list(&b.observations),
        PatternKind::FrequentInconclusiveVerification => {
            let mut pairs: Vec<(Option<Vec<char>>, ObjectId)> = Vec::new();
            let mut i: usize = 0;
            while i < b.verifications.len()
                invariant
                    i <= b.verifications@.len(),
                    pair_views(pairs@) == inconclusive_pairs(b.verifications@.subrange(0, i as int)),
                decreases b.verifications.len() - i,
            {
                let r = &b.verifications[i];
                let pr = flagged_pair(r.result == VerificationResult::Inconclusive, "inconclusive", r.id);
                proof {
                    lemma_pair_views_push(pairs@, pr);
                }
                pairs.push(pr);
                i = i + 1;
                assert(pair_views(pairs@) =~= inconclusive_pairs(b.verifications@.subrange(0, i as int)));
            }
            assert(b.verifications@.subrange(0, b.verifications@.len() as int) =~= b.verifications@);
            pairs
        },
        PatternKind::RepeatedSuccessfulMitigation | PatternKind::RepeatedRejectedRecommendation => {
            let want = if kind == PatternKind::RepeatedSuccessfulMitigation {
                OutcomeDisposition::Successful
            } else {
                OutcomeDisposition::Rejected
            };
            let label = if kind == PatternKind::RepeatedSuccessfulMitigation { "successful" } else { "rejected" };
            let ghost target = if kind == PatternKind::RepeatedSuccessfulMitigation {
                successful_pairs(b.learning@)
            } else {
                rejected_pairs(b.learning@)
            };
            let mut pairs: Vec<(Option<Vec<char>>, ObjectId)> = Vec::new();
            let mut i: usize = 0;
            while i < b.learning.len()
                invariant
                    i <= b.learning@.len(),
                    kind == PatternKind::RepeatedSuccessfulMitigation || kind == PatternKind::RepeatedRejectedRecommendation,
                    want == (if kind == PatternKind::RepeatedSuccessfulMitigation { OutcomeDisposition::Successful } else { OutcomeDisposition::Rejected }),
                    label@ == (if kind == PatternKind::RepeatedSuccessfulMitigation { "successful"@ } else { "rejected"@ }),
                    target == (if kind == PatternKind::RepeatedSuccessfulMitigation { successful_pairs(b.learning@) } else { rejected_pairs(b.learning@) }),
                    pair_views(pairs@) == target.subrange(0, i as int),
                decreases b.learning.len() - i,
            {
                let o = &b.learning[i];
                let pr = flagged_pair(o.disposition == want, label, o.id);
                proof {
                    lemma_pair_views_push(pairs@, pr);
                }
                pairs.push(pr);
                i = i + 1;
                assert(pair_views(pairs@) =~= target.subrange(0, i as int));
            }
            assert(target.subrange(0, b.learning@.len() as int) =~= target);
            pairs
        },
        PatternKind::RepeatedRelationship => {
            let pairs: Vec<(Option<Vec<char>>, ObjectId)> = Vec::new();
            assert(pair_views(pairs@) =~= row_pairs(kind, *b));
            pairs
        },
    }
}

/// Appends pairs, optionally re-tagging each with an Investigation.
fn append_pairs(out: &mut Vec<(Option<Vec<char>>, ObjectId)>, pairs: &Vec<(Option<Vec<char>>, ObjectId)>, tag: Option<InvestigationId>)
    ensures
        pair_views(final(out)@) == pair_views(old(out)@) + match tag {
            Some(id) => tagged(pair_views(pairs@), id),
            None => pair_views(pairs@),
        },
{
    let ghost target = match tag {
        Some(id) => tagged(pair_views(pairs@), id),
        None => pair_views(pairs@),
    };
    let mut i: usize = 0;
    while i < pairs.len()
        invariant
            i <= pairs@.len(),
            target == match tag {
                Some(id) => tagged(pair_views(pairs@), id),
                None => pair_views(pairs@),
            },
            pair_views(out@) == pair_views(old(out)@) + target.subrange(0, i as int),
        decreases pairs.len() - i,
    {
        let key: Option<Vec<char>> = match &pairs[i].0 {
            Some(k) => {
                let mut c: Vec<char> = Vec::new();
                push_chars(&mut c, k);
                Some(c)
            },
            None => None,
        };
        let id = match tag {
            Some(t) => ObjectId { value: t.value },
            None => pairs[i].1,
        };
        let pr = (key, id);
        assert(pair_view(pr) == target[i as int]);
        proof {
            lemma_pair_views_push(out@, pr);
        }
        out.push(pr);
        i = i + 1;
        assert(pair_views(out@) =~= pair_views(old(out)@) + target.subrange(0, i as int));
    }
    assert(target.subrange(0, pairs@.len() as int) =~= target);
}

/// The keyed evidence and keyed Investigations of a pattern kind.
fn kind_pair_lists(kind: PatternKind, rows: &Vec<PatternRow>, rels: &Vec<InvestigationRelationship>) -> (r: (
    Vec<(Option<Vec<char>>, ObjectId)>,
    Vec<(Option<Vec<char>>, ObjectId)>,
))
    ensures
        pair_views(r.0@) == kind_object_pairs(kind, rows@, rels@),
        pair_views(r.1@) == kind_investigation_pairs(kind, rows@, rels@),
{
    let mut obj: Vec<(Option<Vec<char>>, ObjectId)> = Vec::new();
    let mut inv: Vec<(Option<Vec<char>>, ObjectId)> = Vec::new();
    if kind == PatternKind::RepeatedRelationship {
        let mut i: usize = 0;
        while i < rels.len()
            invariant
                i <= rels@.len(),
                pair_views(obj@) == relationship_object_pairs(rels@.subrange(0, i as int)),
                pair_views(inv@) == relationship_investigation_pairs(rels@.subrange(0, i as int)),
            decreases rels.len() - i,
        {
            let r = &rels[i];
            let ghost sub = rels@.subrange(0, i + 1);
            assert(sub.drop_last() =~= rels@.subrange(0, i as int));
            let k1 = chars_of(r.kind.as_str());
            let k2 = chars_of(r.kind.as_str());
            let k3 = chars_of(r.kind.as_str());
            let p1 = (Some(k1), r.id);
            proof {
                lemma_pair_views_push(obj@, p1);
            }
            obj.push(p1);
            let p2 = (Some(k2), ObjectId { value: r.source_investigation_id.value });
            proof {
                lemma_pair_views_push(inv@, p2);
            }
            inv.push(p2);
            let p3 = (Some(k3), ObjectId { value: r.target_investigation_id.value });
            proof {
                lemma_pair_views_push(inv@, p3);
            }
            inv.push(p3);
            i = i + 1;
            assert(pair_views(obj@) =~= relationship_object_pairs(sub));
            assert(pair_views(inv@) =~= relationship_investigation_pairs(sub));
        }
        assert(rels@.subrange(0, rels@.len() as int) =~= rels@);
    } else {
        let mut i: usize = 0;
        while i < rows.len()
            invariant
                i <= rows@.len(),
                kind != PatternKind::RepeatedRelationship,
                pair_views(obj@) == object_pairs(kind, rows@.subrange(0, i as int)),
                pair_views(inv@) == investigation_pairs(kind, rows@.subrange(0, i as int)),
            decreases rows.len() - i,
        {
            let ghost sub = rows@.subrange(0, i + 1);
            assert(sub.drop_last() =~= rows@.subrange(0, i as int));
            let pairs = row_pair_list(kind, &rows[i].1);
            append_pairs(&mut obj, &pairs, None);
            append_pairs(&mut inv, &pairs, Some(rows[i].0));
            i = i + 1;
        }
        assert(rows@.subrange(0, rows@.len() as int) =~= rows@);
    }
    (obj, inv)
}


/// The description of a pattern (exec).
fn describe_pattern(kind: PatternKind, k: &Vec<char>, n: usize) -> (d: String)
    ensures
        d@ == pattern_description(kind, k@, n as nat),
{
    let mut out: Vec<char> = Vec::new();
    match kind {
        PatternKind::RecurringFailureSignature | PatternKind::RepeatedComponent | PatternKind::RecurringRecommendation
        | PatternKind::RecurringConnectorEvidence | PatternKind::RepeatedRelationship => {
            let lead = match kind {
                PatternKind::RecurringFailureSignature => "Failure signature `",
                PatternKind::RepeatedComponent => "Repository `",
                PatternKind::RecurringRecommendation => "Recommendation signature `",
                PatternKind::RecurringConnectorEvidence => "Connector source `",
                _ => "Relationship kind `",
            };
            push_str(&mut out, lead);
            push_chars(&mut out, k);
            push_str(&mut out, if kind == PatternKind::RepeatedRelationship { "` touches " } else { "` appears in " });
        },
        PatternKind::FrequentInconclusiveVerification => push_str(&mut out, "Inconclusive verification appears in "),
        PatternKind::RepeatedSuccessfulMitigation => push_str(&mut out, "Successful Learning Outcomes appear in "),
        PatternKind::RepeatedRejectedRecommendation => push_str(&mut out, "Rejected Recommendations appear in "),
    }
    push_decimal(&mut out, n as u128);
    push_str(&mut out, " Investigations");
    assert(out@ =~= pattern_description(kind, k@, n as nat));
    to_string(&out)
}

fn kind_permille(kind: PatternKind) -> (c: u64)
    ensures
        c == pattern_permille(kind),
{
    match kind {
        PatternKind::RecurringFailureSignature => 800,
        PatternKind::RepeatedComponent => 750,
        PatternKind::RecurringRecommendation => 700,
        PatternKind::RecurringConnectorEvidence => 600,
        PatternKind::RepeatedRelationship => 650,
        PatternKind::FrequentInconclusiveVerification => 700,
        PatternKind::RepeatedSuccessfulMitigation => 750,
        PatternKind::RepeatedRejectedRecommendation => 700,
    }
}

fn kind_method(kind: PatternKind) -> (m: &'static str)
    ensures
        m@ == pattern_method(kind),
{
    match kind {
        PatternKind::RecurringFailureSignature => "failure_signature_v1",
        PatternKind::RepeatedComponent => "repository_component_v1",
        PatternKind::RecurringRecommendation => "recommendation_signature_v1",
        PatternKind::RecurringConnectorEvidence => "connector_source_v1",
        PatternKind::RepeatedRelationship => "relationship_kind_v1",
        PatternKind::FrequentInconclusiveVerification => "inconclusive_verification_v1",
        PatternKind::RepeatedSuccessfulMitigation => "successful_mitigation_v1",
        PatternKind::RepeatedRejectedRecommendation => "rejected_recommendation_v1",
    }
}

fn copy_ids(v: &Vec<ObjectId>) -> (r: Vec<ObjectId>)
    ensures
        r@ == v@,
{
    let mut r: Vec<ObjectId> = Vec::new();
    let mut i: usize = 0;
    while i < v.len()
        invariant
            i <= v@.len(),
            r@ == v@.subrange(0, i as int),
        decreases v.len() - i,
    {
        r.push(v[i]);
        i = i + 1;
        assert(r@ =~= v@.subrange(0, i as int));
    }
    assert(v@.subrange(0, v@.len() as int) =~= v@);
    r
}

fn to_investigations(v: &Vec<ObjectId>) -> (r: Vec<InvestigationId>)
    ensures
        r@ == v@.map_values(|o: ObjectId| as_investigation(o)),
{
    let mut r: Vec<InvestigationId> = Vec::new();
    let mut i: usize = 0;
    while i < v.len()
        invariant
            i <= v@.len(),
            r@ == v@.subrange(0, i as int).map_values(|o: ObjectId| as_investigation(o)),
        decreases v.len() - i,
    {
        r.push(InvestigationId { value: v[i].value });
        i = i + 1;
        assert(r@ =~= v@.subrange(0, i as int).map_values(|o: ObjectId| as_investigation(o)));
    }
    assert(v@.subrange(0, v@.len() as int) =~= v@);
    r
}

/// The provenance of detected patterns.
pub open spec fn pattern_provenance(p: Provenance, actor: Seq<char>) -> bool {
    p.actor@ == actor && p.source@ == "runtime"@ && p.capability is Some && p.capability->0@ == "detect_patterns"@
}

/// The patterns of one kind, in ascending signature order.
fn kind_patterns(
    kind: PatternKind,
    rows: &Vec<PatternRow>,
    rels: &Vec<InvestigationRelationship>,
    provenance: &Provenance,
    Ghost(actor): Ghost<Seq<char>>,
) -> (r: Vec<DetectedPattern>)
    requires
        pattern_provenance(*provenance, actor),
    ensures
        forall|i: int| 0 <= i < r@.len() ==> (#[trigger] r@[i]).kind == kind && qualifies(kind, r@[i].signature@, rows@, rels@)
            && pattern_is(r@[i], kind, r@[i].signature@, rows@, rels@) && pattern_provenance(r@[i].provenance, actor),
        forall|k: Seq<char>| #[trigger] qualifies(kind, k, rows@, rels@) ==> exists|i: int| 0 <= i < r@.len() && (#[trigger] r@[i]).signature@ == k,
        forall|a: int, b: int| 0 <= a < b < r@.len() ==> lex_lt((#[trigger] r@[a]).signature@, (#[trigger] r@[b]).signature@),
{
    let (obj, inv) = kind_pair_lists(kind, rows, rels);
    let om = build_map(&obj);
    let im = build_map(&inv);
    let ghost op = kind_object_pairs(kind, rows@, rels@);
    let ghost ip = kind_investigation_pairs(kind, rows@, rels@);
    let mut r: Vec<DetectedPattern> = Vec::new();
    let mut i: usize = 0;
    while i < om.entries.len()
        invariant
            i <= om.entries@.len(),
            om.wf(),
            im.wf(),
            op == kind_object_pairs(kind, rows@, rels@),
            ip == kind_investigation_pairs(kind, rows@, rels@),
            pattern_provenance(*provenance, actor),
            forall|k: Seq<char>| #[trigger] om.get(k) == grouped(op, k),
            forall|k: Seq<char>| #[trigger] im.get(k) == grouped(ip, k),
            forall|q: int| 0 <= q < r@.len() ==> (#[trigger] r@[q]).kind == kind && qualifies(kind, r@[q].signature@, rows@, rels@)
                && pattern_is(r@[q], kind, r@[q].signature@, rows@, rels@) && pattern_provenance(r@[q].provenance, actor),
            forall|p: int| 0 <= p < i && qualifies(kind, (#[trigger] om.entries@[p]).key@, rows@, rels@)
                ==> exists|q: int| 0 <= q < r@.len() && (#[trigger] r@[q]).signature@ == om.entries@[p].key@,
            forall|a: int, b: int| 0 <= a < b < r@.len() ==> lex_lt((#[trigger] r@[a]).signature@, (#[trigger] r@[b]).signature@),
            forall|a: int, j: int| 0 <= a < r@.len() && i <= j < om.entries@.len() ==> lex_lt((#[trigger] r@[a]).signature@,
                (#[trigger] om.entries@[j]).key@),
        decreases om.entries.len() - i,
    {
        proof {
            om.lemma_get_at(i as int);
        }
        let key = &om.entries[i].key;
        let ghost k = key@;
        assert(group(op, k) == om.entries@[i as int].ids@);
        let ghost before = r@;
        match im.lookup(key) {
            Some(iids) => {
                let invs_raw = dedupe_ids(copy_ids(iids));
                if invs_raw.len() >= 2 {
                    let objects = dedupe_ids(copy_ids(&om.entries[i].ids));
                    let invs = to_investigations(&invs_raw);
                    let n = invs.len();
                    let mut sig: Vec<char> = Vec::new();
                    push_chars(&mut sig, key);
                    let p = DetectedPattern {
                        kind,
                        signature: to_string(&sig),
                        description: describe_pattern(kind, key, n),
                        investigation_ids: invs,
                        object_ids: objects,
                        occurrence_count: n,
                        confidence: Confidence::new(kind_permille(kind)),
                        derivation_method: kind_method(kind).to_owned(),
                        provenance: copy_provenance(provenance),
                    };
                    assert(pattern_is(p, kind, k, rows@, rels@));
                    assert(qualifies(kind, k, rows@, rels@));
                    r.push(p);
                    proof {
                        assert forall|a: int, j: int| 0 <= a < r@.len() && i + 1 <= j < om.entries@.len() implies lex_lt(
                            (#[trigger] r@[a]).signature@,
                            (#[trigger] om.entries@[j]).key@,
                        ) by {
                            if a == r@.len() - 1 {
                                assert(lex_lt(om.entries@[i as int].key@, om.entries@[j].key@));
                            } else {
                                assert(r@[a] == before[a]);
                            }
                        }
                        assert forall|a: int, b: int| 0 <= a < b < r@.len() implies lex_lt((#[trigger] r@[a]).signature@, (#[trigger] r@[b]).signature@) by {
                            if b == r@.len() - 1 {
                                assert(r@[a] == before[a]);
                                assert(lex_lt(before[a].signature@, om.entries@[i as int].key@));
                            } else {
                                assert(r@[a] == before[a] && r@[b] == before[b]);
                            }
                        }
                        assert forall|q: int| 0 <= q < r@.len() implies (#[trigger] r@[q]).kind == kind && qualifies(kind, r@[q].signature@, rows@, rels@)
                            && pattern_is(r@[q], kind, r@[q].signature@, rows@, rels@) && pattern_provenance(r@[q].provenance, actor) by {
                            if q < r@.len() - 1 {
                                assert(r@[q] == before[q]);
                            }
                        }
                        assert forall|pp: int| 0 <= pp < i + 1 && qualifies(kind, (#[trigger] om.entries@[pp]).key@, rows@, rels@)
                            implies exists|q: int| 0 <= q < r@.len() && (#[trigger] r@[q]).signature@ == om.entries@[pp].key@ by {
                            if pp == i {
                                assert(r@[r@.len() - 1].signature@ == om.entries@[pp].key@);
                            } else {
                                let q = choose|q: int| 0 <= q < before.len() && (#[trigger] before[q]).signature@ == om.entries@[pp].key@;
                                assert(r@[q] == before[q]);
                            }
                        }
                    }
                } else {
                    assert(!qualifies(kind, k, rows@, rels@));
                }
            },
            None => {
                assert(group(ip, k).len() == 0);
                assert(first_occurrences(group(ip, k)).len() == 0);
                assert(!qualifies(kind, k, rows@, rels@));
            },
        }
        proof {
            assert forall|a: int, j: int| 0 <= a < r@.len() && i + 1 <= j < om.entries@.len() implies lex_lt(
                (#[trigger] r@[a]).signature@,
                (#[trigger] om.entries@[j]).key@,
            ) by {}
        }
        i = i + 1;
    }
    proof {
        assert forall|k: Seq<char>| #[trigger] qualifies(kind, k, rows@, rels@) implies exists|i: int| 0 <= i < r@.len() && (#[trigger] r@[i]).signature@ == k by {
            assert(om.get(k) is Some);
            assert(om.has(k));
            let p = choose|p: int| 0 <= p < om.entries@.len() && #[trigger] om.entries@[p].key@ == k;
            assert(om.entries@[p].key@ == k);
        }
    }
    r
}


/// Patterns of different kind or signature are ordered one way or the other.
proof fn lemma_pattern_total(a: DetectedPattern, b: DetectedPattern)
    requires
        !(a.kind == b.kind && a.signature@ == b.signature@),
    ensures
        pattern_before(a, b) || pattern_before(b, a),
        !(pattern_before(a, b) && pattern_before(b, a)),
{
    lemma_lex_total(a.signature@, b.signature@);
    if lex_lt(a.signature@, b.signature@) && lex_lt(b.signature@, a.signature@) {
        lemma_lex_asymmetric(a.signature@, b.signature@);
    }
}

/// The pattern order is transitive.
proof fn lemma_pattern_transitive(a: DetectedPattern, b: DetectedPattern, c: DetectedPattern)
    requires
        pattern_before(a, b),
        pattern_before(b, c),
    ensures
        pattern_before(a, c),
{
    if a.occurrence_count == b.occurrence_count && b.occurrence_count == c.occurrence_count && a.kind == b.kind && b.kind == c.kind {
        lemma_lex_transitive(a.signature@, b.signature@, c.signature@);
    }
}

/// Patterns listed in strict rank order.
pub open spec fn ranked_patterns(r: Seq<DetectedPattern>) -> bool {
    forall|a: int, b: int| 0 <= a < b < r.len() ==> pattern_before(#[trigger] r[a], #[trigger] r[b])
}

/// Whether `a` ranks before `b` (exec).
fn before(a: &DetectedPattern, b: &DetectedPattern) -> (r: bool)
    ensures
        r == pattern_before(*a, *b),
{
    if a.occurrence_count != b.occurrence_count {
        return a.occurrence_count > b.occurrence_count;
    }
    let oa = order_of(a.kind);
    let ob = order_of(b.kind);
    if oa != ob {
        return oa < ob;
    }
    if a.kind != b.kind {
        return false;
    }
    let sa = chars_of(a.signature.as_str());
    let sb = chars_of(b.signature.as_str());
    text_less(&sa, &sb)
}

fn order_of(kind: PatternKind) -> (o: u8)
    ensures
        o as nat == kind_order(kind),
{
    match kind {
        PatternKind::FrequentInconclusiveVerification => 0,
        PatternKind::RecurringConnectorEvidence => 1,
        PatternKind::RecurringFailureSignature => 2,
        PatternKind::RecurringRecommendation => 3,
        PatternKind::RepeatedComponent => 4,
        PatternKind::RepeatedRejectedRecommendation => 5,
        PatternKind::RepeatedRelationship => 6,
        PatternKind::RepeatedSuccessfulMitigation => 7,
    }
}

/// Inserts a pattern at its rank position.
fn insert_pattern(out: &mut Vec<DetectedPattern>, p: DetectedPattern) -> (pos: usize)
    requires
        ranked_patterns(old(out)@),
        forall|q: int| 0 <= q < old(out)@.len() ==> !((#[trigger] old(out)@[q]).kind == p.kind && old(out)@[q].signature@ == p.signature@),
    ensures
        pos <= old(out)@.len(),
        final(out)@ == old(out)@.insert(pos as int, p),
        ranked_patterns(final(out)@),
{
    let n = out.len();
    let mut pos: usize = 0;
    while pos < n && !before(&p, &out[pos])
        invariant
            pos <= n,
            n == out@.len(),
            forall|q: int| 0 <= q < pos ==> !pattern_before(p, #[trigger] out@[q]),
        decreases n - pos,
    {
        pos = pos + 1;
    }
    let ghost old_out = out@;
    proof {
        assert forall|q: int| 0 <= q < pos implies pattern_before(#[trigger] old_out[q], p) by {
            lemma_pattern_total(old_out[q], p);
        }
        assert forall|q: int| pos <= q < n implies pattern_before(p, #[trigger] old_out[q]) by {
            if q > pos {
                lemma_pattern_transitive(p, old_out[pos as int], old_out[q]);
            }
        }
    }
    out.insert(pos, p);
    proof {
        assert forall|a: int, b: int| 0 <= a < b < out@.len() implies pattern_before(#[trigger] out@[a], #[trigger] out@[b]) by {
            if b < pos {
                assert(out@[a] == old_out[a] && out@[b] == old_out[b]);
            } else if b == pos {
                assert(out@[a] == old_out[a]);
            } else if a == pos {
                assert(out@[b] == old_out[b - 1]);
            } else if a < pos {
                assert(out@[a] == old_out[a] && out@[b] == old_out[b - 1]);
            } else {
                assert(out@[a] == old_out[a - 1] && out@[b] == old_out[b - 1]);
            }
        }
    }
    pos
}

/// Merges the patterns of one more kind into the ranked list.
fn merge_kind(out: &mut Vec<DetectedPattern>, ps: Vec<DetectedPattern>, Ghost(kind): Ghost<PatternKind>)
    requires
        ranked_patterns(old(out)@),
        forall|q: int| 0 <= q < old(out)@.len() ==> (#[trigger] old(out)@[q]).kind != kind,
        forall|q: int| 0 <= q < ps@.len() ==> (#[trigger] ps@[q]).kind == kind,
        forall|a: int, b: int| 0 <= a < b < ps@.len() ==> lex_lt((#[trigger] ps@[a]).signature@, (#[trigger] ps@[b]).signature@),
    ensures
        ranked_patterns(final(out)@),
        forall|q: int| 0 <= q < final(out)@.len() ==> old(out)@.contains(#[trigger] final(out)@[q]) || ps@.contains(final(out)@[q]),
        forall|q: int| 0 <= q < old(out)@.len() ==> final(out)@.contains(#[trigger] old(out)@[q]),
        forall|q: int| 0 <= q < ps@.len() ==> final(out)@.contains(#[trigger] ps@[q]),
{
    let ghost start = out@;
    let ghost all = ps@;
    let mut rest = ps;
    while rest.len() > 0
        invariant
            rest@.len() <= all.len(),
            rest@ == all.subrange(0, rest@.len() as int),
            ranked_patterns(out@),
            forall|q: int| 0 <= q < all.len() ==> (#[trigger] all[q]).kind == kind,
            forall|a: int, b: int| 0 <= a < b < all.len() ==> lex_lt((#[trigger] all[a]).signature@, (#[trigger] all[b]).signature@),
            forall|q: int| 0 <= q < start.len() ==> (#[trigger] start[q]).kind != kind,
            forall|q: int| 0 <= q < out@.len() ==> start.contains(#[trigger] out@[q]) || all.subrange(rest@.len() as int, all.len() as int).contains(out@[q]),
            forall|q: int| 0 <= q < start.len() ==> out@.contains(#[trigger] start[q]),
            forall|q: int| rest@.len() <= q < all.len() ==> out@.contains(#[trigger] all[q]),
        decreases rest.len(),
    {
        let ghost m = rest@.len() - 1;
        let ghost before_out = out@;
        let p = rest.pop().unwrap();
        assert(p == all[m]);
        assert(rest@ == all.subrange(0, m));
        assert forall|q: int| 0 <= q < before_out.len() implies !((#[trigger] before_out[q]).kind == p.kind && before_out[q].signature@ == p.signature@) by {
            if start.contains(before_out[q]) {
                let k = choose|k: int| 0 <= k < start.len() && start[k] == before_out[q];
                assert(start[k].kind != kind);
            } else {
                let tail = all.subrange(m + 1, all.len() as int);
                assert(tail.contains(before_out[q]));
                let k = choose|k: int| 0 <= k < tail.len() && tail[k] == before_out[q];
                assert(all[m + 1 + k] == before_out[q]);
                assert(lex_lt(all[m].signature@, all[m + 1 + k].signature@));
                lemma_lex_irreflexive(p.signature@);
            }
        }
        let pos = insert_pattern(out, p);
        proof {
            assert(out@[pos as int] == p);
            let tail0 = all.subrange(m + 1, all.len() as int);
            let tail1 = all.subrange(m, all.len() as int);
            assert forall|q: int| 0 <= q < out@.len() implies start.contains(#[trigger] out@[q]) || tail1.contains(out@[q]) by {
                if q == pos {
                    assert(tail1[0] == p);
                } else {
                    let oq = if q < pos { q } else { q - 1 };
                    assert(out@[q] == before_out[oq]);
                    if tail0.contains(before_out[oq]) {
                        let k = choose|k: int| 0 <= k < tail0.len() && tail0[k] == before_out[oq];
                        assert(tail1[k + 1] == before_out[oq]);
                    }
                }
            }
            assert forall|q: int| 0 <= q < start.len() implies out@.contains(#[trigger] start[q]) by {
                assert(before_out.contains(start[q]));
                let k = choose|k: int| 0 <= k < before_out.len() && before_out[k] == start[q];
                if k < pos {
                    assert(out@[k] == start[q]);
                } else {
                    assert(out@[k + 1] == start[q]);
                }
            }
            assert forall|q: int| m <= q < all.len() implies out@.contains(#[trigger] all[q]) by {
                if q == m {
                    assert(out@[pos as int] == all[q]);
                } else {
                    assert(before_out.contains(all[q]));
                    let k = choose|k: int| 0 <= k < before_out.len() && before_out[k] == all[q];
                    if k < pos {
                        assert(out@[k] == all[q]);
                    } else {
                        assert(out@[k + 1] == all[q]);
                    }
                }
            }
        }
    }
    proof {
        assert(all.subrange(0, all.len() as int) =~= all);
        assert forall|q: int| 0 <= q < out@.len() implies start.contains(#[trigger] out@[q]) || all.contains(out@[q]) by {
            if !start.contains(out@[q]) {
                let tail = all.subrange(0, all.len() as int);
                assert(tail.contains(out@[q]));
            }
        }
    }
}


/// The patterns of the kinds in `done`, ranked, each the pattern of a
/// recurring key, every recurring key of those kinds present.
pub open spec fn partial_patterns(
    r: Seq<DetectedPattern>,
    done: Set<PatternKind>,
    rows: Seq<PatternRow>,
    rels: Seq<InvestigationRelationship>,
    actor: Seq<char>,
) -> bool {
    &&& ranked_patterns(r)
    &&& forall|i: int| 0 <= i < r.len() ==> done.contains((#[trigger] r[i]).kind) && qualifies(r[i].kind, r[i].signature@, rows, rels)
        && pattern_is(r[i], r[i].kind, r[i].signature@, rows, rels) && pattern_provenance(r[i].provenance, actor)
    &&& forall|kind: PatternKind, k: Seq<char>| done.contains(kind) && #[trigger] qualifies(kind, k, rows, rels)
        ==> exists|i: int| 0 <= i < r.len() && (#[trigger] r[i]).kind == kind && r[i].signature@ == k
}

/// Adds the patterns of one more kind.
fn add_kind(
    out: &mut Vec<DetectedPattern>,
    kind: PatternKind,
    rows: &Vec<PatternRow>,
    rels: &Vec<InvestigationRelationship>,
    provenance: &Provenance,
    Ghost(done): Ghost<Set<PatternKind>>,
    Ghost(actor): Ghost<Seq<char>>,
)
    requires
        partial_patterns(old(out)@, done, rows@, rels@, actor),
        !done.contains(kind),
        pattern_provenance(*provenance, actor),
    ensures
        partial_patterns(final(out)@, done.insert(kind), rows@, rels@, actor),
{
    let ps = kind_patterns(kind, rows, rels, provenance, Ghost(actor));
    let ghost start = out@;
    let ghost added = ps@;
    merge_kind(out, ps, Ghost(kind));
    proof {
        let d2 = done.insert(kind);
        assert forall|i: int| 0 <= i < out@.len() implies d2.contains((#[trigger] out@[i]).kind) && qualifies(out@[i].kind, out@[i].signature@, rows@, rels@)
            && pattern_is(out@[i], out@[i].kind, out@[i].signature@, rows@, rels@) && pattern_provenance(out@[i].provenance, actor) by {
            if start.contains(out@[i]) {
                let k = choose|k: int| 0 <= k < start.len() && start[k] == out@[i];
                assert(done.contains(start[k].kind));
            } else {
                assert(added.contains(out@[i]));
                let k = choose|k: int| 0 <= k < added.len() && added[k] == out@[i];
                assert(added[k].kind == kind);
            }
        }
        assert forall|kd: PatternKind, k: Seq<char>| d2.contains(kd) && #[trigger] qualifies(kd, k, rows@, rels@)
            implies exists|i: int| 0 <= i < out@.len() && (#[trigger] out@[i]).kind == kd && out@[i].signature@ == k by {
            if kd == kind {
                let q = choose|q: int| 0 <= q < added.len() && (#[trigger] added[q]).signature@ == k;
                assert(out@.contains(added[q]));
                let i = choose|i: int| 0 <= i < out@.len() && out@[i] == added[q];
                assert(out@[i].kind == kd && out@[i].signature@ == k);
            } else {
                let q = choose|q: int| 0 <= q < start.len() && (#[trigger] start[q]).kind == kd && start[q].signature@ == k;
                assert(out@.contains(start[q]));
                let i = choose|i: int| 0 <= i < out@.len() && out@[i] == start[q];
                assert(out@[i].kind == kd && out@[i].signature@ == k);
            }
        }
    }
}

/// Detects patterns across Investigations: every failure signature,
/// repository, recommendation signature, connector source, relationship kind,
/// inconclusive verification, successful outcome or rejected recommendation
/// that recurs in at least two Investigations, with the Investigations and
/// objects behind it, ranked by occurrences, then kind name, then signature.
///
/// `rows` are the Investigations with their durable context and
/// `relationships` all stored relationships.
pub fn detect_patterns(rows: &Vec<PatternRow>, relationships: &Vec<InvestigationRelationship>, actor: &str, now: i64) -> (r: Vec<DetectedPattern>)
    ensures
        patterns_of(r@, rows@, relationships@),
        forall|i: int| 0 <= i < r@.len() ==> pattern_provenance((#[trigger] r@[i]).provenance, actor@),
        forall|i: int| 0 <= i < r@.len() ==> (#[trigger] r@[i]).occurrence_count >= 2 && r@[i].investigation_ids@.len()
            == r@[i].occurrence_count,
{
    let provenance = Provenance::now(actor, "runtime", now).with_capability("detect_patterns");
    let mut out: Vec<DetectedPattern> = Vec::new();
    let ghost d0 = Set::<PatternKind>::empty();
    add_kind(&mut out, PatternKind::RecurringFailureSignature, rows, relationships, &provenance, Ghost(d0), Ghost(actor@));
    let ghost d1 = d0.insert(PatternKind::RecurringFailureSignature);
    add_kind(&mut out, PatternKind::RepeatedComponent, rows, relationships, &provenance, Ghost(d1), Ghost(actor@));
    let ghost d2 = d1.insert(PatternKind::RepeatedComponent);
    add_kind(&mut out, PatternKind::RecurringRecommendation, rows, relationships, &provenance, Ghost(d2), Ghost(actor@));
    let ghost d3 = d2.insert(PatternKind::RecurringRecommendation);
    add_kind(&mut out, PatternKind::RecurringConnectorEvidence, rows, relationships, &provenance, Ghost(d3), Ghost(actor@));
    let ghost d4 = d3.insert(PatternKind::RecurringConnectorEvidence);
    add_kind(&mut out, PatternKind::RepeatedRelationship, rows, relationships, &provenance, Ghost(d4), Ghost(actor@));
    let ghost d5 = d4.insert(PatternKind::RepeatedRelationship);
    add_kind(&mut out, PatternKind::FrequentInconclusiveVerification, rows, relationships, &provenance, Ghost(d5), Ghost(actor@));
    let ghost d6 = d5.insert(PatternKind::FrequentInconclusiveVerification);
    add_kind(&mut out, PatternKind::RepeatedSuccessfulMitigation, rows, relationships, &provenance, Ghost(d6), Ghost(actor@));
    let ghost d7 = d6.insert(PatternKind::RepeatedSuccessfulMitigation);
    add_kind(&mut out, PatternKind::RepeatedRejectedRecommendation, rows, relationships, &provenance, Ghost(d7), Ghost(actor@));
    let ghost d8 = d7.insert(PatternKind::RepeatedRejectedRecommendation);
    proof {
        assert forall|kind: PatternKind| d8.contains(kind) by {
            match kind {
                PatternKind::RecurringFailureSignature => {},
                PatternKind::RepeatedComponent => {},
                PatternKind::RecurringRecommendation => {},
                PatternKind::RecurringConnectorEvidence => {},
                PatternKind::RepeatedRelationship => {},
                PatternKind::FrequentInconclusiveVerification => {},
                PatternKind::RepeatedSuccessfulMitigation => {},
                PatternKind::RepeatedRejectedRecommendation => {},
            }
        }
        assert forall|kind: PatternKind, k: Seq<char>| #[trigger] qualifies(kind, k, rows@, relationships@)
            implies exists|i: int| 0 <= i < out@.len() && (#[trigger] out@[i]).kind == kind && out@[i].signature@ == k by {
            assert(d8.contains(kind));
        }
        assert forall|i: int| 0 <= i < out@.len() implies (#[trigger] out@[i]).occurrence_count >= 2 && out@[i].investigation_ids@.len()
            == out@[i].occurrence_count by {
            assert(qualifies(out@[i].kind, out@[i].signature@, rows@, relationships@));
        }
    }
    out
}


/// Detected patterns are distinct: no two share a kind and signature, and
/// no pattern lists an Investigation or an object twice.
pub proof fn lemma_detected_patterns_distinct(r: Seq<DetectedPattern>, rows: Seq<PatternRow>, rels: Seq<InvestigationRelationship>)
    requires
        patterns_of(r, rows, rels),
    ensures
        forall|a: int, b: int| 0 <= a < b < r.len() ==> !((#[trigger] r[a]).kind == (#[trigger] r[b]).kind && r[a].signature@ == r[b].signature@),
        forall|i: int| 0 <= i < r.len() ==> (#[trigger] r[i]).investigation_ids@.no_duplicates() && r[i].object_ids@.no_duplicates(),
{
    assert forall|a: int, b: int| 0 <= a < b < r.len() implies !((#[trigger] r[a]).kind == (#[trigger] r[b]).kind
        && r[a].signature@ == r[b].signature@) by {
        assert(pattern_before(r[a], r[b]));
        if r[a].kind == r[b].kind && r[a].signature@ == r[b].signature@ {
            assert(pattern_is(r[a], r[a].kind, r[a].signature@, rows, rels));
            assert(pattern_is(r[b], r[b].kind, r[b].signature@, rows, rels));
            crate::text::lemma_lex_irreflexive(r[a].signature@);
        }
    }
    assert forall|i: int| 0 <= i < r.len() implies (#[trigger] r[i]).investigation_ids@.no_duplicates() && r[i].object_ids@.no_duplicates() by {
        let p = r[i];
        assert(pattern_is(p, p.kind, p.signature@, rows, rels));
        let objs = first_occurrences(group(kind_investigation_pairs(p.kind, rows, rels), p.signature@));
        lemma_first_occurrences(group(kind_investigation_pairs(p.kind, rows, rels), p.signature@));
        lemma_first_occurrences(group(kind_object_pairs(p.kind, rows, rels), p.signature@));
        let invs = objs.map_values(|o: ObjectId| as_investigation(o));
        assert forall|x: int, y: int| 0 <= x < invs.len() && 0 <= y < invs.len() && x != y implies invs[x] != invs[y] by {
            assert(objs[x] != objs[y]);
            if invs[x] == invs[y] {
                assert(objs[x].value == objs[y].value);
            }
        }
    }
}

} // verus!
