//! Deterministic rules behind generated Improvement Proposals: cleaning
//! and de-duplicating inputs, category and priority inference, the
//! generated content, comparison factors and redaction.

use vstd::prelude::*;
use crate::assess::texts;
use crate::ids::ObjectId;
use crate::keymap::{sorted_texts, TextSet};
use crate::proposal::{EvidenceReference};
use crate::text::{chars_of, contains_seq, contains_str, lowercase_of, lower_chars, to_string, trim_chars, trimmed};
use crate::vocab::{EvidenceScope, ProposalCategory};

verus! {

/// Some value trims to `x`.
pub open spec fn trims_to(values: Seq<String>, x: Seq<char>) -> bool {
    exists|i: int| 0 <= i < values.len() && trimmed((#[trigger] values[i])@) == x
}

/// Trims each value, drops empty ones, sorts and removes duplicates.
pub fn clean_strings(values: Vec<String>) -> (r: Vec<String>)
    ensures
        sorted_texts(texts(r@)),
        forall|x: Seq<char>| #[trigger] texts(r@).contains(x) <==> (x.len() > 0 && trims_to(values@, x)),
{
    let mut set = TextSet::new();
    let mut i: usize = 0;
    while i < values.len()
        invariant
            i <= values@.len(),
            set.wf(),
            forall|x: Seq<char>| #[trigger] set.has(x) <==> (x.len() > 0
                && exists|q: int| 0 <= q < i && trimmed((#[trigger] values@[q])@) == x),
        decreases values.len() - i,
    {
        let t = trim_chars(&chars_of(values[i].as_str()));
        if t.len() > 0 {
            let ghost tv = t@;
            let ghost before = set;
            set.insert(t);
            proof {
                assert forall|x: Seq<char>| #[trigger] set.has(x) <==> (x.len() > 0
                    && exists|q: int| 0 <= q < i + 1 && trimmed((#[trigger] values@[q])@) == x) by {
                    if x.len() > 0 && exists|q: int| 0 <= q < i + 1 && trimmed((#[trigger] values@[q])@) == x {
                        let q = choose|q: int| 0 <= q < i + 1 && trimmed((#[trigger] values@[q])@) == x;
                        if q < i {
                            assert(before.has(x));
                        }
                    }
                }
            }
        } else {
            proof {
                assert forall|x: Seq<char>| #[trigger] set.has(x) <==> (x.len() > 0
                    && exists|q: int| 0 <= q < i + 1 && trimmed((#[trigger] values@[q])@) == x) by {
                    if x.len() > 0 && exists|q: int| 0 <= q < i + 1 && trimmed((#[trigger] values@[q])@) == x {
                        let q = choose|q: int| 0 <= q < i + 1 && trimmed((#[trigger] values@[q])@) == x;
                        assert(q < i);
                    }
                }
            }
        }
        i = i + 1;
    }
    let mut r: Vec<String> = Vec::new();
    let mut k: usize = 0;
    while k < set.items.len()
        invariant
            k <= set.items@.len(),
            r@.len() == k,
            forall|q: int| 0 <= q < k ==> #[trigger] r@[q]@ == set.items@[q]@,
        decreases set.items.len() - k,
    {
        r.push(to_string(&set.items[k]));
        k = k + 1;
    }
    proof {
        assert(texts(r@) =~= set.seq());
        assert forall|x: Seq<char>| #[trigger] texts(r@).contains(x) <==> (x.len() > 0 && trims_to(values@, x)) by {
            if x.len() > 0 && trims_to(values@, x) {
                let q = choose|q: int| 0 <= q < values@.len() && trimmed((#[trigger] values@[q])@) == x;
                assert(exists|q: int| 0 <= q < i && trimmed((#[trigger] values@[q])@) == x);
                assert(set.has(x));
            }
            if texts(r@).contains(x) {
                assert(set.seq().contains(x));
                assert(set.has(x));
                let q = choose|q: int| 0 <= q < i && trimmed((#[trigger] values@[q])@) == x;
                assert(trims_to(values@, x));
            }
        }
    }
    r
}

/// Identifiers strictly ascending by value.
pub open spec fn ascending_ids(ids: Seq<ObjectId>) -> bool {
    forall|i: int, j: int| 0 <= i < j < ids.len() ==> (#[trigger] ids[i]).value < (#[trigger] ids[j]).value
}

/// Inserts `x` into strictly ascending `v`, unless present.
fn insert_id(v: &mut Vec<ObjectId>, x: ObjectId)
    requires
        ascending_ids(old(v)@),
    ensures
        ascending_ids(final(v)@),
        forall|y: ObjectId| #[trigger] final(v)@.contains(y) <==> (old(v)@.contains(y) || y == x),
{
    let n = v.len();
    let mut p: usize = 0;
    while p < n && v[p].value < x.value
        invariant
            p <= n,
            n == v@.len(),
            v@ == old(v)@,
            forall|q: int| 0 <= q < p ==> (#[trigger] v@[q]).value < x.value,
        decreases n - p,
    {
        p = p + 1;
    }
    if p < n && v[p].value == x.value {
        assert(v@[p as int] == x);
        return;
    }
    v.insert(p, x);
    proof {
        let o = old(v)@;
        assert forall|y: ObjectId| #[trigger] v@.contains(y) <==> (o.contains(y) || y == x) by {
            if v@.contains(y) {
                let i = choose|i: int| 0 <= i < v@.len() && v@[i] == y;
                if i < p {
                    assert(o[i] == y);
                } else if i > p {
                    assert(o[i - 1] == y);
                }
            }
            if o.contains(y) {
                let i = choose|i: int| 0 <= i < o.len() && o[i] == y;
                if i < p {
                    assert(v@[i] == y);
                } else {
                    assert(v@[i + 1] == y);
                }
            }
            if y == x {
                assert(v@[p as int] == x);
            }
        }
    }
}

/// Sorts identifiers by value and removes duplicates.
pub fn dedupe_ids(ids: &mut Vec<ObjectId>)
    ensures
        ascending_ids(final(ids)@),
        forall|y: ObjectId| #[trigger] final(ids)@.contains(y) <==> old(ids)@.contains(y),
{
    let mut out: Vec<ObjectId> = Vec::new();
    let mut i: usize = 0;
    while i < ids.len()
        invariant
            i <= ids@.len(),
            ids@ == old(ids)@,
            ascending_ids(out@),
            forall|y: ObjectId| #[trigger] out@.contains(y) <==> exists|q: int| 0 <= q < i && ids@[q] == y,
        decreases ids.len() - i,
    {
        insert_id(&mut out, ids[i]);
        proof {
            assert forall|y: ObjectId| #[trigger] out@.contains(y) <==> exists|q: int| 0 <= q < i + 1 && ids@[q] == y by {
                if y == ids@[i as int] {
                    assert(ids@[i as int] == y);
                }
            }
        }
        i = i + 1;
    }
    proof {
        assert forall|y: ObjectId| #[trigger] out@.contains(y) <==> ids@.contains(y) by {
            if ids@.contains(y) {
                let q = choose|q: int| 0 <= q < ids@.len() && ids@[q] == y;
                assert(exists|q: int| 0 <= q < ids@.len() && ids@[q] == y);
            }
        }
    }
    *ids = out;
}

/// Each identifier as evidence of the given scope.
pub fn scoped_refs(ids: &Vec<ObjectId>, scope: EvidenceScope) -> (r: Vec<EvidenceReference>)
    ensures
        r@.len() == ids@.len(),
        forall|i: int| 0 <= i < r@.len() ==> #[trigger] r@[i] == (EvidenceReference { object_id: ids@[i], scope }),
{
    let mut r: Vec<EvidenceReference> = Vec::new();
    let mut i: usize = 0;
    while i < ids.len()
        invariant
            i <= ids@.len(),
            r@.len() == i,
            forall|q: int| 0 <= q < i ==> #[trigger] r@[q] == (EvidenceReference { object_id: ids@[q], scope }),
        decreases ids.len() - i,
    {
        r.push(EvidenceReference { object_id: ids[i], scope });
        i = i + 1;
    }
    r
}

/// The sort key of a reference: scope text order (current before
/// historical), then identifier value.
pub open spec fn ref_before(a: EvidenceReference, b: EvidenceReference) -> bool {
    let ra = if a.scope == EvidenceScope::Current { 0int } else { 1int };
    let rb = if b.scope == EvidenceScope::Current { 0int } else { 1int };
    ra < rb || (ra == rb && a.object_id.value < b.object_id.value)
}

/// References strictly ascending.
pub open spec fn ascending_refs(refs: Seq<EvidenceReference>) -> bool {
    forall|i: int, j: int| 0 <= i < j < refs.len() ==> ref_before(#[trigger] refs[i], #[trigger] refs[j])
}

/// Whether `a` sorts before `b` (exec).
fn ref_less(a: &EvidenceReference, b: &EvidenceReference) -> (r: bool)
    ensures
        r == ref_before(*a, *b),
{
    let ra: u8 = if a.scope == EvidenceScope::Current { 0 } else { 1 };
    let rb: u8 = if b.scope == EvidenceScope::Current { 0 } else { 1 };
    ra < rb || (ra == rb && a.object_id.value < b.object_id.value)
}

/// Sorts references by scope then identifier, removing duplicates.
pub fn dedupe_refs(refs: &mut Vec<EvidenceReference>)
    ensures
        ascending_refs(final(refs)@),
        forall|y: EvidenceReference| #[trigger] final(refs)@.contains(y) <==> old(refs)@.contains(y),
{
    let mut out: Vec<EvidenceReference> = Vec::new();
    let mut i: usize = 0;
    while i < refs.len()
        invariant
            i <= refs@.len(),
            refs@ == old(refs)@,
            ascending_refs(out@),
            forall|y: EvidenceReference| #[trigger] out@.contains(y) <==> exists|q: int| 0 <= q < i && refs@[q] == y,
        decreases refs.len() - i,
    {
        let x = refs[i];
        let n = out.len();
        let mut p: usize = 0;
        while p < n && ref_less(&out[p], &x)
            invariant
                p <= n,
                n == out@.len(),
                forall|q: int| 0 <= q < p ==> ref_before(#[trigger] out@[q], x),
            decreases n - p,
        {
            p = p + 1;
        }
        let ghost o = out@;
        if p < n && out[p] == x {
        } else {
            out.insert(p, x);
            proof {
                assert forall|a: int, b: int| 0 <= a < b < out@.len() implies ref_before(#[trigger] out@[a], #[trigger] out@[b]) by {
                    if b < p {
                        assert(out@[a] == o[a] && out@[b] == o[b]);
                    } else if b == p {
                        assert(out@[a] == o[a]);
                    } else if a == p {
                        assert(out@[b] == o[b - 1]);
                        if b - 1 > p {
                            assert(ref_before(o[p as int], o[b - 1]));
                        }
                    } else if a < p {
                        assert(out@[a] == o[a] && out@[b] == o[b - 1]);
                    } else {
                        assert(out@[a] == o[a - 1] && out@[b] == o[b - 1]);
                    }
                }
            }
        }
        proof {
            assert forall|y: EvidenceReference| #[trigger] out@.contains(y) <==> exists|q: int| 0 <= q < i + 1 && refs@[q] == y by {
                if out@.contains(y) {
                    let k = choose|k: int| 0 <= k < out@.len() && out@[k] == y;
                    if y != x {
                        if out@.len() == o.len() {
                            assert(o.contains(y));
                        } else if k < p {
                            assert(o[k] == y);
                        } else if k > p {
                            assert(o[k - 1] == y);
                        }
                        assert(o.contains(y));
                    }
                }
                if exists|q: int| 0 <= q < i + 1 && refs@[q] == y {
                    if y == x {
                        if out@.len() == o.len() {
                            assert(out@[p as int] == y);
                        } else {
                            assert(out@[p as int] == y);
                        }
                    } else {
                        let q = choose|q: int| 0 <= q < i + 1 && refs@[q] == y;
                        assert(q < i);
                        assert(o.contains(y));
                        let k = choose|k: int| 0 <= k < o.len() && o[k] == y;
                        if out@.len() == o.len() {
                            assert(out@[k] == y);
                        } else if k < p {
                            assert(out@[k] == y);
                        } else {
                            assert(out@[k + 1] == y);
                        }
                    }
                }
            }
        }
        i = i + 1;
    }
    proof {
        assert forall|y: EvidenceReference| #[trigger] out@.contains(y) <==> refs@.contains(y) by {
            if refs@.contains(y) {
                let q = choose|q: int| 0 <= q < refs@.len() && refs@[q] == y;
                assert(exists|q: int| 0 <= q < refs@.len() && refs@[q] == y);
            }
        }
    }
    *refs = out;
}

/// The category suggested by the text of an Investigation.
pub open spec fn infer_category_spec(text: Seq<char>) -> ProposalCategory {
    let t = lowercase_of(text);
    if contains_seq(t, "security"@) || contains_seq(t, "credential"@) || contains_seq(t, "secret"@) {
        ProposalCategory::Security
    } else if contains_seq(t, "test"@) || contains_seq(t, "ci"@) {
        ProposalCategory::Testing
    } else if contains_seq(t, "config"@) || contains_seq(t, "schema"@) {
        ProposalCategory::Configuration
    } else if contains_seq(t, "timeout"@) || contains_seq(t, "fail"@) || contains_seq(t, "error"@) {
        ProposalCategory::Reliability
    } else if contains_seq(t, "performance"@) || contains_seq(t, "latency"@) {
        ProposalCategory::Performance
    } else if contains_seq(t, "documentation"@) || contains_seq(t, "docs"@) {
        ProposalCategory::Documentation
    } else {
        ProposalCategory::Code
    }
}

/// Infers a Proposal category from keywords in the (lowercased) text.
pub fn infer_category(text: &str) -> (c: ProposalCategory)
    ensures
        c == infer_category_spec(text@),
{
    let t = lower_chars(text);
    if contains_str(&t, "security") || contains_str(&t, "credential") || contains_str(&t, "secret") {
        ProposalCategory::Security
    } else if contains_str(&t, "test") || contains_str(&t, "ci") {
        ProposalCategory::Testing
    } else if contains_str(&t, "config") || contains_str(&t, "schema") {
        ProposalCategory::Configuration
    } else if contains_str(&t, "timeout") || contains_str(&t, "fail") || contains_str(&t, "error") {
        ProposalCategory::Reliability
    } else if contains_str(&t, "performance") || contains_str(&t, "latency") {
        ProposalCategory::Performance
    } else if contains_str(&t, "documentation") || contains_str(&t, "docs") {
        ProposalCategory::Documentation
    } else {
        ProposalCategory::Code
    }
}

} // verus!
