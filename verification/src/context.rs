//! Cross-Investigation patterns and historical trends, derived on demand
//! from durable records.

use vstd::prelude::*;
use crate::ids::{InvestigationId, ObjectId};
use crate::model::{Confidence, Provenance};
use crate::text::{lex_lt, lemma_lex_asymmetric, lemma_lex_irreflexive, lemma_lex_total, lemma_lex_transitive, text_less};

verus! {

/// Kinds of cross-Investigation patterns.
#[derive(Clone, Copy, PartialEq, Eq, Debug, Hash, Structural)]
pub enum PatternKind {
    /// Recurring failure signature across Investigations.
    RecurringFailureSignature,
    /// Repeated component or repository.
    RepeatedComponent,
    /// Recurring recommendation signature.
    RecurringRecommendation,
    /// Frequently inconclusive verification.
    FrequentInconclusiveVerification,
    /// Repeated successful mitigation (successful Learning Outcome).
    RepeatedSuccessfulMitigation,
    /// Repeated rejected recommendation.
    RepeatedRejectedRecommendation,
    /// Recurring connector evidence source.
    RecurringConnectorEvidence,
    /// Repeated relationship kind between Investigations.
    RepeatedRelationship,
}

impl PatternKind {
    /// Stable string form.
    pub open spec fn text(self) -> Seq<char> {
        match self {
            PatternKind::RecurringFailureSignature => "recurring_failure_signature"@,
            PatternKind::RepeatedComponent => "repeated_component"@,
            PatternKind::RecurringRecommendation => "recurring_recommendation"@,
            PatternKind::FrequentInconclusiveVerification => "frequent_inconclusive_verification"@,
            PatternKind::RepeatedSuccessfulMitigation => "repeated_successful_mitigation"@,
            PatternKind::RepeatedRejectedRecommendation => "repeated_rejected_recommendation"@,
            PatternKind::RecurringConnectorEvidence => "recurring_connector_evidence"@,
            PatternKind::RepeatedRelationship => "repeated_relationship"@,
        }
    }

    /// Stable string form.
    pub fn as_str(self) -> (r: &'static str)
        ensures
            r@ == self.text(),
    {
        match self {
            PatternKind::RecurringFailureSignature => "recurring_failure_signature",
            PatternKind::RepeatedComponent => "repeated_component",
            PatternKind::RecurringRecommendation => "recurring_recommendation",
            PatternKind::FrequentInconclusiveVerification => "frequent_inconclusive_verification",
            PatternKind::RepeatedSuccessfulMitigation => "repeated_successful_mitigation",
            PatternKind::RepeatedRejectedRecommendation => "repeated_rejected_recommendation",
            PatternKind::RecurringConnectorEvidence => "recurring_connector_evidence",
            PatternKind::RepeatedRelationship => "repeated_relationship",
        }
    }
}

/// A detected engineering pattern spanning multiple Investigations.
pub struct DetectedPattern {
    pub kind: PatternKind,
    /// Normalized signature that identifies the pattern.
    pub signature: String,
    pub description: String,
    /// Supporting Investigations (at least two).
    pub investigation_ids: Vec<InvestigationId>,
    pub object_ids: Vec<ObjectId>,
    /// Number of supporting Investigations.
    pub occurrence_count: usize,
    pub confidence: Confidence,
    pub derivation_method: String,
    pub provenance: Provenance,
}

/// Verification pass/fail/inconclusive counts.
#[derive(Clone, Copy, PartialEq, Eq, Debug, Default)]
pub struct VerificationTrend {
    pub pass: usize,
    pub fail: usize,
    pub inconclusive: usize,
}

/// Learning Outcome disposition counts and success rate.
#[derive(Clone, Copy, PartialEq, Eq, Debug, Default)]
pub struct LearningTrend {
    pub successful: usize,
    pub unsuccessful: usize,
    pub rejected: usize,
    pub accepted: usize,
    pub ignored: usize,
    /// Successful share (thousandths, rounded down) of the successful and
    /// unsuccessful outcomes, when there are any.
    pub success_rate: Option<u32>,
}

/// A counted label for trend tops.
pub struct CountItem {
    pub label: String,
    pub count: usize,
}

/// A historical trend summary over durable records.
pub struct HistoricalTrend {
    pub investigation_count: usize,
    pub repository_filter: Option<String>,
    pub verification: VerificationTrend,
    pub learning: LearningTrend,
    pub top_repositories: Vec<CountItem>,
    pub top_failure_signatures: Vec<CountItem>,
    pub summary: String,
    pub derivation_method: String,
}

/// The first occurrence of each identifier, in order.
pub open spec fn first_occurrences(ids: Seq<ObjectId>) -> Seq<ObjectId>
    decreases ids.len(),
{
    if ids.len() == 0 {
        Seq::empty()
    } else {
        let prev = first_occurrences(ids.drop_last());
        if prev.contains(ids.last()) {
            prev
        } else {
            prev.push(ids.last())
        }
    }
}

/// First occurrences hold the same identifiers, each once.
pub proof fn lemma_first_occurrences(ids: Seq<ObjectId>)
    ensures
        first_occurrences(ids).no_duplicates(),
        forall|x: ObjectId| first_occurrences(ids).contains(x) <==> ids.contains(x),
    decreases ids.len(),
{
    if ids.len() > 0 {
        let prev = first_occurrences(ids.drop_last());
        lemma_first_occurrences(ids.drop_last());
        assert forall|x: ObjectId| first_occurrences(ids).contains(x) <==> ids.contains(x) by {
            if ids.contains(x) && x != ids.last() {
                let i = choose|i: int| 0 <= i < ids.len() && ids[i] == x;
                assert(ids.drop_last()[i] == x);
            }
            if ids.drop_last().contains(x) {
                let i = choose|i: int| 0 <= i < ids.drop_last().len() && ids.drop_last()[i] == x;
                assert(ids[i] == x);
            }
            if !prev.contains(ids.last()) {
                assert(prev.push(ids.last())[prev.len() as int] == ids.last());
                if prev.push(ids.last()).contains(x) && x != ids.last() {
                    let j = choose|j: int| 0 <= j < prev.push(ids.last()).len() && prev.push(ids.last())[j] == x;
                    assert(prev[j] == x);
                }
                if prev.contains(x) {
                    let j = choose|j: int| 0 <= j < prev.len() && prev[j] == x;
                    assert(prev.push(ids.last())[j] == x);
                }
            }
            assert(ids[ids.len() - 1] == ids.last());
        }
    }
}

/// Removing repeats is idempotent.
pub proof fn lemma_first_occurrences_idempotent(ids: Seq<ObjectId>)
    ensures
        first_occurrences(first_occurrences(ids)) == first_occurrences(ids),
{
    lemma_first_occurrences(ids);
    lemma_first_occurrences_of_distinct(first_occurrences(ids));
}

/// Without repeats nothing is removed.
pub proof fn lemma_first_occurrences_of_distinct(ids: Seq<ObjectId>)
    requires
        ids.no_duplicates(),
    ensures
        first_occurrences(ids) == ids,
    decreases ids.len(),
{
    if ids.len() > 0 {
        let d = ids.drop_last();
        assert(d.no_duplicates());
        lemma_first_occurrences_of_distinct(d);
        lemma_first_occurrences(d);
        if d.contains(ids.last()) {
            let i = choose|i: int| 0 <= i < d.len() && d[i] == ids.last();
            assert(ids[i] == ids[ids.len() - 1]);
        }
        assert(d.push(ids.last()) =~= ids);
    }
}

/// Keeps the first occurrence of each identifier, in order.
pub fn dedupe_ids(ids: Vec<ObjectId>) -> (r: Vec<ObjectId>)
    ensures
        r@ == first_occurrences(ids@),
{
    let mut r: Vec<ObjectId> = Vec::new();
    let mut i: usize = 0;
    while i < ids.len()
        invariant
            i <= ids@.len(),
            r@ == first_occurrences(ids@.subrange(0, i as int)),
        decreases ids.len() - i,
    {
        assert(ids@.subrange(0, i + 1).drop_last() =~= ids@.subrange(0, i as int));
        let x = ids[i];
        let mut seen = false;
        let mut j: usize = 0;
        while j < r.len()
            invariant
                j <= r@.len(),
                seen == exists|q: int| 0 <= q < j && r@[q] == x,
            decreases r.len() - j,
        {
            if r[j] == x {
                seen = true;
            }
            j = j + 1;
        }
        if !seen {
            r.push(x);
        }
        i = i + 1;
    }
    assert(ids@.subrange(0, ids@.len() as int) =~= ids@);
    r
}

/// `a` ranks before `b`: more occurrences first, then by label.
pub open spec fn ranks_before(a: (Seq<char>, nat), b: (Seq<char>, nat)) -> bool {
    a.1 > b.1 || (a.1 == b.1 && lex_lt(a.0, b.0))
}

/// A count item as (label, count).
pub open spec fn count_view(c: CountItem) -> (Seq<char>, nat) {
    (c.label@, c.count as nat)
}

/// Labels are distinct.
pub open spec fn distinct_labels(items: Seq<CountItem>) -> bool {
    forall|i: int, j: int| 0 <= i < j < items.len() ==> (#[trigger] items[i]).label@ != (#[trigger] items[j]).label@
}

/// `top` holds the `limit` highest-ranked of `items`, in rank order.
pub open spec fn top_of(top: Seq<(Seq<char>, nat)>, items: Seq<(Seq<char>, nat)>, limit: nat) -> bool {
    &&& top.len() == if items.len() < limit { items.len() } else { limit }
    &&& forall|i: int, j: int| 0 <= i < j < top.len() ==> ranks_before(#[trigger] top[i], #[trigger] top[j])
    &&& forall|i: int| 0 <= i < top.len() ==> items.contains(#[trigger] top[i])
    &&& forall|x: (Seq<char>, nat)| #[trigger] items.contains(x) && !top.contains(x)
        ==> forall|i: int| 0 <= i < top.len() ==> ranks_before(#[trigger] top[i], x)
}

/// Ranking is a strict order on items with distinct labels.
pub proof fn lemma_ranks_before_total(a: (Seq<char>, nat), b: (Seq<char>, nat))
    requires
        a.0 != b.0,
    ensures
        ranks_before(a, b) || ranks_before(b, a),
        !(ranks_before(a, b) && ranks_before(b, a)),
{
    lemma_lex_total(a.0, b.0);
    if lex_lt(a.0, b.0) && lex_lt(b.0, a.0) {
        lemma_lex_asymmetric(a.0, b.0);
    }
}

/// Ranking is transitive.
pub proof fn lemma_ranks_before_transitive(a: (Seq<char>, nat), b: (Seq<char>, nat), c: (Seq<char>, nat))
    requires
        ranks_before(a, b),
        ranks_before(b, c),
    ensures
        ranks_before(a, c),
{
    if a.1 == b.1 && b.1 == c.1 {
        lemma_lex_transitive(a.0, b.0, c.0);
    }
}

/// Whether `a` ranks before `b` (exec).
fn rank_less(a: &CountItem, b: &CountItem) -> (r: bool)
    ensures
        r == ranks_before(count_view(*a), count_view(*b)),
{
    if a.count != b.count {
        a.count > b.count
    } else {
        let la = crate::text::chars_of(a.label.as_str());
        let lb = crate::text::chars_of(b.label.as_str());
        text_less(&la, &lb)
    }
}

/// A copy of a count item.
fn copy_item(c: &CountItem) -> (r: CountItem)
    ensures
        count_view(r) == count_view(*c),
{
    CountItem { label: c.label.clone(), count: c.count }
}

/// The `limit` highest counts, most first, ties by label.
pub fn top_counts(items: &Vec<CountItem>, limit: usize) -> (top: Vec<CountItem>)
    requires
        distinct_labels(items@),
    ensures
        top_of(top@.map_values(|c: CountItem| count_view(c)), items@.map_values(|c: CountItem| count_view(c)), limit as nat),
{
    let ghost all = items@.map_values(|c: CountItem| count_view(c));
    let mut top: Vec<CountItem> = Vec::new();
    let mut i: usize = 0;
    while i < items.len()
        invariant
            i <= items@.len(),
            all == items@.map_values(|c: CountItem| count_view(c)),
            distinct_labels(items@),
            top_of(top@.map_values(|c: CountItem| count_view(c)), all.subrange(0, i as int), limit as nat),
            top@.len() < limit ==> forall|y: (Seq<char>, nat)| #[trigger] all.subrange(0, i as int).contains(y)
                ==> top@.map_values(|c: CountItem| count_view(c)).contains(y),
        decreases items.len() - i,
    {
        let ghost tv = top@.map_values(|c: CountItem| count_view(c));
        let ghost pre = all.subrange(0, i as int);
        let ghost x = all[i as int];
        assert(all.subrange(0, i + 1) =~= pre.push(x));
        assert(x == count_view(items@[i as int]));
        proof {
            assert forall|y: (Seq<char>, nat)| pre.contains(y) implies y.0 != x.0 by {
                let q = choose|q: int| 0 <= q < pre.len() && pre[q] == y;
                assert(items@[q].label@ != items@[i as int].label@);
            }
        }
        let n = top.len();
        let mut p: usize = 0;
        while p < n && rank_less(&top[p], &items[i])
            invariant
                i < items@.len(),
                p <= n,
                n == top@.len(),
                tv == top@.map_values(|c: CountItem| count_view(c)),
                x == count_view(items@[i as int]),
                forall|q: int| 0 <= q < p ==> ranks_before(#[trigger] tv[q], x),
            decreases n - p,
        {
            p = p + 1;
        }
        proof {
            // Every item from position p on ranks after x.
            assert forall|q: int| p <= q < n implies ranks_before(x, #[trigger] tv[q]) by {
                assert(pre.contains(tv[q]));
                lemma_ranks_before_total(x, tv[q]);
                if q > p {
                    assert(ranks_before(tv[p as int], tv[q]));
                    if ranks_before(tv[q], x) {
                        lemma_ranks_before_transitive(tv[p as int], tv[q], x);
                    }
                }
            }
        }
        if p < limit {
            top.insert(p, copy_item(&items[i]));
            if top.len() > limit {
                top.pop();
            }
            proof {
                let nv = top@.map_values(|c: CountItem| count_view(c));
                let ins = tv.insert(p as int, x);
                assert(top@.len() <= limit);
                assert(forall|q: int| 0 <= q < nv.len() ==> #[trigger] nv[q] == ins[q]);
                assert forall|a: int, b: int| 0 <= a < b < nv.len() implies ranks_before(#[trigger] nv[a], #[trigger] nv[b]) by {
                    if b < p {
                    } else if a < p && b == p {
                    } else if a < p && b > p {
                        assert(nv[b] == tv[b - 1]);
                        if b - 1 > a {
                        } else {
                        }
                        lemma_ranks_before_transitive(tv[a], x, tv[b - 1]);
                    } else if a == p {
                        assert(nv[b] == tv[b - 1]);
                    } else {
                        assert(nv[a] == tv[a - 1]);
                        assert(nv[b] == tv[b - 1]);
                    }
                }
                let next = pre.push(x);
                assert forall|q: int| 0 <= q < nv.len() implies next.contains(#[trigger] nv[q]) by {
                    if q == p {
                        assert(next[i as int] == x);
                    } else if q < p {
                        assert(pre.contains(tv[q]));
                        let w = choose|w: int| 0 <= w < pre.len() && pre[w] == tv[q];
                        assert(next[w] == tv[q]);
                    } else {
                        assert(pre.contains(tv[q - 1]));
                        let w = choose|w: int| 0 <= w < pre.len() && pre[w] == tv[q - 1];
                        assert(next[w] == tv[q - 1]);
                    }
                }
                assert forall|y: (Seq<char>, nat)| #[trigger] next.contains(y) && !nv.contains(y)
                    implies forall|k: int| 0 <= k < nv.len() ==> ranks_before(#[trigger] nv[k], y) by {
                    if y == x {
                        assert(nv[p as int] == x);
                    } else {
                        let w = choose|w: int| 0 <= w < next.len() && next[w] == y;
                        assert(pre[w] == y);
                        assert(pre.contains(y));
                        if tv.contains(y) {
                            // y was in the top and fell off the end.
                            let t = choose|t: int| 0 <= t < tv.len() && tv[t] == y;
                            if t < p {
                                assert(nv[t] == y);
                            } else if t + 1 < nv.len() {
                                assert(nv[t + 1] == y);
                            }
                            assert(t + 1 >= nv.len());
                            assert forall|k: int| 0 <= k < nv.len() implies ranks_before(#[trigger] nv[k], y) by {
                                if k < p {
                                    assert(nv[k] == tv[k]);
                                } else if k == p {
                                    assert(ranks_before(x, tv[t]));
                                } else {
                                    assert(nv[k] == tv[k - 1]);
                                }
                            }
                        } else {
                            assert forall|k: int| 0 <= k < nv.len() implies ranks_before(#[trigger] nv[k], y) by {
                                if tv.len() > 0 {
                                    assert(ranks_before(tv[tv.len() - 1], y));
                                }
                                if k < p {
                                    assert(nv[k] == tv[k]);
                                } else if k == p {
                                    if p < tv.len() {
                                        lemma_ranks_before_transitive(x, tv[p as int], y);
                                    } else {
                                        // The old top was short, so it held every earlier item.
                                        assert(tv.contains(y));
                                    }
                                } else {
                                    assert(nv[k] == tv[k - 1]);
                                }
                            }
                        }
                    }
                }
                if nv.len() < limit {
                    assert(nv.len() == tv.len() + 1);
                    assert forall|y: (Seq<char>, nat)| #[trigger] next.contains(y) implies nv.contains(y) by {
                        if y == x {
                            assert(nv[p as int] == x);
                        } else {
                            let w = choose|w: int| 0 <= w < next.len() && next[w] == y;
                            assert(pre[w] == y);
                            assert(pre.contains(y));
                            assert(tv.contains(y));
                            let t = choose|t: int| 0 <= t < tv.len() && tv[t] == y;
                            if t < p {
                                assert(nv[t] == y);
                            } else {
                                assert(nv[t + 1] == y);
                            }
                        }
                    }
                }
            }
        } else {
            proof {
                let next = pre.push(x);
                assert(tv.len() == limit);
                assert forall|q: int| 0 <= q < tv.len() implies next.contains(#[trigger] tv[q]) by {
                    let w = choose|w: int| 0 <= w < pre.len() && pre[w] == tv[q];
                    assert(next[w] == tv[q]);
                }
                assert forall|y: (Seq<char>, nat)| #[trigger] next.contains(y) && !tv.contains(y)
                    implies forall|k: int| 0 <= k < tv.len() ==> ranks_before(#[trigger] tv[k], y) by {
                    let w = choose|w: int| 0 <= w < next.len() && next[w] == y;
                    if w < pre.len() {
                        assert(pre[w] == y);
                        assert(pre.contains(y));
                    }
                }
            }
        }
        i = i + 1;
    }
    assert(all.subrange(0, items@.len() as int) =~= all);
    top
}

} // verus!
