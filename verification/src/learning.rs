//! Learning Patterns: which Measured Learning Outcomes may inform history
//! (the latest verified, eligible revision of each lineage), and the
//! patterns derived from them, grouped by Proposal category and
//! expected-result signature.

use vstd::prelude::*;
use crate::error::RivoraError;
use crate::ids::{fresh_object_id, ObjectId};
use crate::keymap::{sorted_texts, TextSet};
use crate::model::{Confidence, Provenance};
use crate::outcome::MeasuredLearningOutcome;
use crate::proposal::ImprovementProposal;
use crate::similarity::lemma_sorted_same;
use crate::text::{chars_of, decimal, join_chars, join_seqs, lower_chars, lowercase_of, push_chars, push_decimal, push_str, text_eq,
    to_string, trim_chars, trimmed};
use crate::vocab::{MeasuredOutcomeStatus, OutcomeClassification, PatternStatus};

verus! {

/// A verified outcome that may inform history.
pub open spec fn eligible(o: MeasuredLearningOutcome) -> bool {
    o.status == MeasuredOutcomeStatus::Verified && o.historical_learning_eligible
}

/// Position of the first outcome of this lineage, or -1.
pub open spec fn lineage_at(reps: Seq<MeasuredLearningOutcome>, lineage: ObjectId) -> int
    decreases reps.len(),
{
    if reps.len() == 0 {
        -1
    } else {
        let k = lineage_at(reps.drop_last(), lineage);
        if k >= 0 {
            k
        } else if reps.last().lineage_id == lineage {
            reps.len() - 1
        } else {
            -1
        }
    }
}

/// One outcome considered: an eligible outcome of a new lineage joins; one
/// of a later revision replaces its lineage's representative.
pub open spec fn select_step(reps: Seq<MeasuredLearningOutcome>, o: MeasuredLearningOutcome) -> Seq<MeasuredLearningOutcome> {
    if !eligible(o) {
        reps
    } else {
        let k = lineage_at(reps, o.lineage_id);
        if k < 0 {
            reps.push(o)
        } else if o.revision_number > reps[k].revision_number {
            reps.update(k, o)
        } else {
            reps
        }
    }
}

/// The latest eligible revision of each lineage, in order of each lineage's
/// first eligible revision.
pub open spec fn selected(outs: Seq<MeasuredLearningOutcome>) -> Seq<MeasuredLearningOutcome>
    decreases outs.len(),
{
    if outs.len() == 0 {
        seq![]
    } else {
        select_step(selected(outs.drop_last()), outs.last())
    }
}

/// `lineage_at` finds the first position of the lineage, or none.
proof fn lemma_lineage_at(reps: Seq<MeasuredLearningOutcome>, lineage: ObjectId)
    ensures
        -1 <= lineage_at(reps, lineage) < reps.len(),
        lineage_at(reps, lineage) >= 0 ==> reps[lineage_at(reps, lineage)].lineage_id == lineage,
        forall|q: int| 0 <= q < reps.len() && (lineage_at(reps, lineage) < 0 || q < lineage_at(reps, lineage)) ==> (#[trigger] reps[q]).lineage_id
            != lineage,
    decreases reps.len(),
{
    if reps.len() > 0 {
        let init = reps.drop_last();
        lemma_lineage_at(init, lineage);
        let k = lineage_at(reps, lineage);
        assert forall|q: int| 0 <= q < reps.len() && (k < 0 || q < k) implies (#[trigger] reps[q]).lineage_id != lineage by {
            if q < reps.len() - 1 {
                assert(reps[q] == init[q]);
            }
        }
    }
}

/// The positions (into `outs`) of the outcomes that may inform Learning
/// Patterns: for each lineage, its latest verified, eligible revision (each
/// lineage counted once), in order of the lineage's first such revision.
pub fn select_latest(outs: &Vec<MeasuredLearningOutcome>) -> (idx: Vec<usize>)
    ensures
        idx@.map_values(|i: usize| outs@[i as int]) == selected(outs@),
        forall|p: int| 0 <= p < idx@.len() ==> (#[trigger] idx@[p]) < outs@.len(),
{
    let mut idx: Vec<usize> = Vec::new();
    let mut i: usize = 0;
    while i < outs.len()
        invariant
            i <= outs@.len(),
            idx@.map_values(|j: usize| outs@[j as int]) == selected(outs@.subrange(0, i as int)),
            forall|p: int| 0 <= p < idx@.len() ==> (#[trigger] idx@[p]) < outs@.len(),
        decreases outs.len() - i,
    {
        let ghost sub = outs@.subrange(0, i + 1);
        assert(sub.drop_last() =~= outs@.subrange(0, i as int));
        assert(sub.last() == outs@[i as int]);
        let ghost reps = idx@.map_values(|j: usize| outs@[j as int]);
        let o = &outs[i];
        if o.status == MeasuredOutcomeStatus::Verified && o.historical_learning_eligible {
            let mut k: usize = 0;
            while k < idx.len() && outs[idx[k]].lineage_id != o.lineage_id
                invariant
                    k <= idx@.len(),
                    reps == idx@.map_values(|j: usize| outs@[j as int]),
                    forall|p: int| 0 <= p < idx@.len() ==> (#[trigger] idx@[p]) < outs@.len(),
                    forall|q: int| 0 <= q < k ==> (#[trigger] reps[q]).lineage_id != o.lineage_id,
                decreases idx.len() - k,
            {
                assert(reps[k as int] == outs@[idx@[k as int] as int]);
                k = k + 1;
            }
            proof {
                lemma_lineage_at(reps, o.lineage_id);
                if k < idx@.len() {
                    assert(reps[k as int] == outs@[idx@[k as int] as int]);
                    assert(lineage_at(reps, o.lineage_id) == k as int);
                } else {
                    assert(lineage_at(reps, o.lineage_id) < 0);
                }
            }
            if k == idx.len() {
                idx.push(i);
                assert(idx@.map_values(|j: usize| outs@[j as int]) =~= reps.push(outs@[i as int]));
            } else if o.revision_number > outs[idx[k]].revision_number {
                idx.set(k, i);
                assert(idx@.map_values(|j: usize| outs@[j as int]) =~= reps.update(k as int, outs@[i as int]));
            }
        }
        i = i + 1;
    }
    assert(outs@.subrange(0, outs@.len() as int) =~= outs@);
    idx
}


/// Position of the Proposal an outcome was measured for, or -1.
pub open spec fn proposal_at(ps: Seq<ImprovementProposal>, o: MeasuredLearningOutcome) -> int
    decreases ps.len(),
{
    if ps.len() == 0 {
        -1
    } else {
        let k = proposal_at(ps.drop_last(), o);
        if k >= 0 {
            k
        } else if ps.last().id == o.proposal_id && ps.last().investigation_id == o.investigation_id {
            ps.len() - 1
        } else {
            -1
        }
    }
}

proof fn lemma_proposal_at(ps: Seq<ImprovementProposal>, o: MeasuredLearningOutcome)
    ensures
        -1 <= proposal_at(ps, o) < ps.len(),
        proposal_at(ps, o) >= 0 ==> ps[proposal_at(ps, o)].id == o.proposal_id && ps[proposal_at(ps, o)].investigation_id == o.investigation_id,
        forall|q: int| 0 <= q < ps.len() && (proposal_at(ps, o) < 0 || q < proposal_at(ps, o)) ==> !((#[trigger] ps[q]).id == o.proposal_id
            && ps[q].investigation_id == o.investigation_id),
    decreases ps.len(),
{
    if ps.len() > 0 {
        let init = ps.drop_last();
        lemma_proposal_at(init, o);
        let k = proposal_at(ps, o);
        assert forall|q: int| 0 <= q < ps.len() && (k < 0 || q < k) implies !((#[trigger] ps[q]).id == o.proposal_id
            && ps[q].investigation_id == o.investigation_id) by {
            if q < ps.len() - 1 {
                assert(ps[q] == init[q]);
            }
        }
    }
}

/// The category of the outcome's Proposal, or `unknown`.
pub open spec fn category_text(ps: Seq<ImprovementProposal>, o: MeasuredLearningOutcome) -> Seq<char> {
    if proposal_at(ps, o) >= 0 { ps[proposal_at(ps, o)].category.text() } else { "unknown"@ }
}

/// The lowercased source texts of the outcome's expected results.
pub open spec fn lowered_criteria(o: MeasuredLearningOutcome) -> Seq<Seq<char>> {
    o.expected_results@.map_values(|e: crate::outcome::ExpectedResultSpec| lowercase_of(e.source_text@))
}

/// Those texts sorted, without repeats.
pub open spec fn criteria_of(o: MeasuredLearningOutcome) -> Seq<Seq<char>> {
    choose|s: Seq<Seq<char>>| sorted_texts(s) && forall|x: Seq<char>| #[trigger] s.contains(x) == lowered_criteria(o).contains(x)
}

/// The signature an outcome is grouped by: its Proposal category, a colon,
/// and its sorted distinct criteria joined by `|`.
pub open spec fn signature_of(ps: Seq<ImprovementProposal>, o: MeasuredLearningOutcome) -> Seq<char> {
    category_text(ps, o) + ":"@ + join_seqs(criteria_of(o), "|"@)
}

/// The signatures of the outcomes, sorted, without repeats.
pub open spec fn signature_keys(sel: Seq<MeasuredLearningOutcome>, ps: Seq<ImprovementProposal>) -> Seq<Seq<char>> {
    choose|s: Seq<Seq<char>>| sorted_texts(s) && forall|x: Seq<char>| #[trigger] s.contains(x)
        == sel.map_values(|o: MeasuredLearningOutcome| signature_of(ps, o)).contains(x)
}

/// The outcomes of one signature, in order.
pub open spec fn members(sel: Seq<MeasuredLearningOutcome>, ps: Seq<ImprovementProposal>, g: Seq<char>) -> Seq<MeasuredLearningOutcome>
    decreases sel.len(),
{
    if sel.len() == 0 {
        seq![]
    } else {
        members(sel.drop_last(), ps, g) + if signature_of(ps, sel.last()) == g { seq![sel.last()] } else { seq![] }
    }
}

/// Outcomes of a classification.
pub open spec fn class_count(m: Seq<MeasuredLearningOutcome>, c: OutcomeClassification) -> nat
    decreases m.len(),
{
    if m.len() == 0 { 0 } else { class_count(m.drop_last(), c) + if m.last().classification == c { 1nat } else { 0nat } }
}

/// Identifiers of the outcomes of either classification.
pub open spec fn ids_of_class(m: Seq<MeasuredLearningOutcome>, c1: OutcomeClassification, c2: OutcomeClassification) -> Seq<ObjectId>
    decreases m.len(),
{
    if m.len() == 0 {
        seq![]
    } else {
        ids_of_class(m.drop_last(), c1, c2) + if m.last().classification == c1 || m.last().classification == c2 {
            seq![m.last().id]
        } else {
            seq![]
        }
    }
}

/// Earliest creation time (the first outcome's for one outcome).
pub open spec fn first_seen(m: Seq<MeasuredLearningOutcome>) -> i64
    decreases m.len(),
{
    if m.len() <= 1 {
        if m.len() == 1 { m[0].created_at } else { 0 }
    } else {
        let f = first_seen(m.drop_last());
        if m.last().created_at < f { m.last().created_at } else { f }
    }
}

/// Latest update time.
pub open spec fn last_seen(m: Seq<MeasuredLearningOutcome>) -> i64
    decreases m.len(),
{
    if m.len() <= 1 {
        if m.len() == 1 { m[0].updated_at } else { 0 }
    } else {
        let l = last_seen(m.drop_last());
        if m.last().updated_at > l { m.last().updated_at } else { l }
    }
}

/// Affected components of the members' Proposals, each once, in order.
pub open spec fn scope_of(m: Seq<MeasuredLearningOutcome>, ps: Seq<ImprovementProposal>) -> Seq<Seq<char>>
    decreases m.len(),
{
    if m.len() == 0 {
        seq![]
    } else {
        let prev = scope_of(m.drop_last(), ps);
        let k = proposal_at(ps, m.last());
        if k >= 0 { add_new(prev, ps[k].affected_components@.map_values(|c: String| c@)) } else { prev }
    }
}

/// `base` extended by each of `more` not yet in it.
pub open spec fn add_new(base: Seq<Seq<char>>, more: Seq<Seq<char>>) -> Seq<Seq<char>>
    decreases more.len(),
{
    if more.len() == 0 {
        base
    } else {
        let b = add_new(base, more.drop_last());
        if b.contains(more.last()) { b } else { b.push(more.last()) }
    }
}

/// Counts of outcomes per classification.
pub struct ClassificationCounts {
    pub successful: u64,
    pub partially_successful: u64,
    pub mixed: u64,
    pub unsuccessful: u64,
    pub regressed: u64,
    pub inconclusive: u64,
    pub not_implemented: u64,
    pub invalidated: u64,
}

/// A Learning Pattern derived from historical outcomes.
pub struct LearningPattern {
    pub id: ObjectId,
    pub title: String,
    pub signature: String,
    pub proposal_category: Option<String>,
    pub status: PatternStatus,
    pub classification_counts: ClassificationCounts,
    pub supporting_outcome_ids: Vec<ObjectId>,
    pub contradicting_outcome_ids: Vec<ObjectId>,
    pub mixed_outcome_ids: Vec<ObjectId>,
    pub first_observed: i64,
    pub last_observed: i64,
    pub confidence: Confidence,
    pub scope: Vec<String>,
    pub provenance: Provenance,
}

/// The status of a pattern: contested when outcomes both support and
/// contradict, supported with two or more supporting, else emerging.
pub open spec fn pattern_status(support: nat, contradict: nat) -> PatternStatus {
    if contradict > 0 && support > 0 {
        PatternStatus::Contested
    } else if support >= 2 {
        PatternStatus::Supported
    } else {
        PatternStatus::Emerging
    }
}

/// The pattern `p` describes the outcomes `m` of signature `g`.
pub open spec fn pattern_for(p: LearningPattern, g: Seq<char>, m: Seq<MeasuredLearningOutcome>, ps: Seq<ImprovementProposal>) -> bool {
    let c = p.classification_counts;
    let support = class_count(m, OutcomeClassification::Successful) + class_count(m, OutcomeClassification::PartiallySuccessful);
    let contradict = class_count(m, OutcomeClassification::Unsuccessful) + class_count(m, OutcomeClassification::Regressed);
    let cat = category_text(ps, m[0]);
    &&& p.signature@ == g
    &&& p.proposal_category matches Some(t) && t@ == cat
    &&& p.title@ == "Historical pattern for "@ + cat + " ("@ + decimal(m.len()) + " outcomes)"@
    &&& c.successful == class_count(m, OutcomeClassification::Successful)
    &&& c.partially_successful == class_count(m, OutcomeClassification::PartiallySuccessful)
    &&& c.mixed == class_count(m, OutcomeClassification::Mixed)
    &&& c.unsuccessful == class_count(m, OutcomeClassification::Unsuccessful)
    &&& c.regressed == class_count(m, OutcomeClassification::Regressed)
    &&& c.inconclusive == class_count(m, OutcomeClassification::Inconclusive)
    &&& c.not_implemented == class_count(m, OutcomeClassification::NotImplemented)
    &&& c.invalidated == class_count(m, OutcomeClassification::Invalidated)
    &&& p.supporting_outcome_ids@ == ids_of_class(m, OutcomeClassification::Successful, OutcomeClassification::PartiallySuccessful)
    &&& p.contradicting_outcome_ids@ == ids_of_class(m, OutcomeClassification::Unsuccessful, OutcomeClassification::Regressed)
    &&& p.mixed_outcome_ids@ == ids_of_class(m, OutcomeClassification::Mixed, OutcomeClassification::Mixed)
    &&& p.first_observed == first_seen(m)
    &&& p.last_observed == last_seen(m)
    &&& p.confidence.permille == 1000 * support / m.len()
    &&& p.status == pattern_status(support, contradict)
    &&& p.scope@.map_values(|s: String| s@) == scope_of(m, ps)
}


/// A well-formed text set lists its texts in ascending order.
proof fn lemma_set_sorted(t: TextSet)
    requires
        t.wf(),
    ensures
        sorted_texts(t.seq()),
{
    assert forall|i: int, j: int| 0 <= i < j < t.seq().len() implies crate::text::lex_lt(#[trigger] t.seq()[i], #[trigger] t.seq()[j]) by {
        assert(crate::text::lex_lt(t.items@[i]@, t.items@[j]@));
    }
}

fn find_proposal(ps: &Vec<ImprovementProposal>, o: &MeasuredLearningOutcome) -> (k: usize)
    ensures
        proposal_at(ps@, *o) < 0 ==> k == ps@.len(),
        proposal_at(ps@, *o) >= 0 ==> k == proposal_at(ps@, *o),
        -1 <= proposal_at(ps@, *o) < ps@.len(),
{
    proof {
        lemma_proposal_at(ps@, *o);
    }
    let mut k: usize = 0;
    while k < ps.len()
        invariant
            k <= ps@.len(),
            forall|q: int| 0 <= q < k ==> !((#[trigger] ps@[q]).id == o.proposal_id && ps@[q].investigation_id == o.investigation_id),
        decreases ps.len() - k,
    {
        if ps[k].id == o.proposal_id && ps[k].investigation_id == o.investigation_id {
            proof {
                lemma_proposal_at(ps@, *o);
            }
            return k;
        }
        k = k + 1;
    }
    proof {
        lemma_proposal_at(ps@, *o);
    }
    k
}

/// The category text of the outcome's Proposal.
fn category_of(ps: &Vec<ImprovementProposal>, o: &MeasuredLearningOutcome) -> (t: Vec<char>)
    ensures
        t@ == category_text(ps@, *o),
{
    let k = find_proposal(ps, o);
    if k < ps.len() {
        chars_of(ps[k].category.as_str())
    } else {
        chars_of("unknown")
    }
}

/// The sorted distinct lowercased criteria of an outcome.
fn criteria_texts(o: &MeasuredLearningOutcome) -> (t: TextSet)
    ensures
        t.wf(),
        t.seq() == criteria_of(*o),
{
    let mut t = TextSet::new();
    let ghost lc = lowered_criteria(*o);
    let mut i: usize = 0;
    while i < o.expected_results.len()
        invariant
            i <= o.expected_results@.len(),
            t.wf(),
            lc == lowered_criteria(*o),
            forall|x: Seq<char>| #[trigger] t.has(x) == lc.subrange(0, i as int).contains(x),
        decreases o.expected_results.len() - i,
    {
        let low = lower_chars(o.expected_results[i].source_text.as_str());
        let ghost before = t;
        t.insert(low);
        proof {
            assert(lc[i as int] == low@);
            assert forall|x: Seq<char>| #[trigger] t.has(x) == lc.subrange(0, i + 1).contains(x) by {
                assert(before.has(x) == lc.subrange(0, i as int).contains(x));
                if lc.subrange(0, i as int).contains(x) {
                    let q = choose|q: int| 0 <= q < i && #[trigger] lc.subrange(0, i as int)[q] == x;
                    assert(lc.subrange(0, i + 1)[q] == x);
                }
                if x == low@ {
                    assert(lc.subrange(0, i + 1)[i as int] == x);
                }
                if lc.subrange(0, i + 1).contains(x) {
                    let q = choose|q: int| 0 <= q < i + 1 && #[trigger] lc.subrange(0, i + 1)[q] == x;
                    if q < i {
                        assert(lc.subrange(0, i as int)[q] == x);
                    }
                }
            }
        }
        i = i + 1;
    }
    proof {
        assert(lc.subrange(0, lc.len() as int) =~= lc);
        lemma_set_sorted(t);
        let w = t.seq();
        assert forall|x: Seq<char>| #[trigger] w.contains(x) == lowered_criteria(*o).contains(x) by {
            assert(t.has(x) == lc.subrange(0, lc.len() as int).contains(x));
        }
        assert(sorted_texts(w) && forall|x: Seq<char>| #[trigger] w.contains(x) == lowered_criteria(*o).contains(x));
        let c = criteria_of(*o);
        lemma_sorted_same(w, c);
    }
    t
}


/// The signature and category text of an outcome.
fn outcome_signature(ps: &Vec<ImprovementProposal>, o: &MeasuredLearningOutcome) -> (r: (Vec<char>, Vec<char>))
    ensures
        r.0@ == signature_of(ps@, *o),
        r.1@ == category_text(ps@, *o),
{
    let cat = category_of(ps, o);
    let crit = criteria_texts(o);
    let joined = join_chars(&crit.items, "|");
    let mut sig: Vec<char> = Vec::new();
    push_chars(&mut sig, &cat);
    push_str(&mut sig, ":");
    push_chars(&mut sig, &joined);
    (sig, cat)
}

/// Whether `v` holds a string with this text.
fn holds_text(v: &Vec<String>, t: &Vec<char>) -> (b: bool)
    ensures
        b == v@.map_values(|s: String| s@).contains(t@),
{
    let ghost views = v@.map_values(|s: String| s@);
    let mut i: usize = 0;
    while i < v.len()
        invariant
            i <= v@.len(),
            views == v@.map_values(|s: String| s@),
            forall|q: int| 0 <= q < i ==> views[q] != t@,
        decreases v.len() - i,
    {
        if text_eq(&chars_of(v[i].as_str()), t) {
            assert(views[i as int] == t@);
            return true;
        }
        i = i + 1;
    }
    false
}

/// Adds each component not yet in `scope`.
fn add_components(scope: &mut Vec<String>, comps: &Vec<String>)
    ensures
        final(scope)@.map_values(|s: String| s@) == add_new(old(scope)@.map_values(|s: String| s@), comps@.map_values(|s: String| s@)),
{
    let ghost base = scope@.map_values(|s: String| s@);
    let ghost more = comps@.map_values(|s: String| s@);
    let mut j: usize = 0;
    while j < comps.len()
        invariant
            j <= comps@.len(),
            more == comps@.map_values(|s: String| s@),
            scope@.map_values(|s: String| s@) == add_new(base, more.subrange(0, j as int)),
        decreases comps.len() - j,
    {
        let c = chars_of(comps[j].as_str());
        assert(more.subrange(0, j + 1).drop_last() =~= more.subrange(0, j as int));
        assert(more.subrange(0, j + 1).last() == c@);
        if !holds_text(scope, &c) {
            let ghost prev = scope@;
            scope.push(to_string(&c));
            assert(scope@.map_values(|s: String| s@) =~= prev.map_values(|s: String| s@).push(c@));
        }
        j = j + 1;
    }
    assert(more.subrange(0, more.len() as int) =~= more);
}

/// Some outcome of signature `g` makes its members non-empty.
proof fn lemma_members_nonempty(sel: Seq<MeasuredLearningOutcome>, ps: Seq<ImprovementProposal>, g: Seq<char>, p: int)
    requires
        0 <= p < sel.len(),
        signature_of(ps, sel[p]) == g,
    ensures
        members(sel, ps, g).len() > 0,
    decreases sel.len(),
{
    if p < sel.len() - 1 {
        assert(sel.drop_last()[p] == sel[p]);
        lemma_members_nonempty(sel.drop_last(), ps, g, p);
    }
}

/// The pattern of signature `g` over the selected outcomes `outs[idx[..]]`.
#[verifier::rlimit(60)]
fn build_pattern(
    g: &Vec<char>,
    outs: &Vec<MeasuredLearningOutcome>,
    idx: &Vec<usize>,
    sigs: &Vec<Vec<char>>,
    cats: &Vec<Vec<char>>,
    ps: &Vec<ImprovementProposal>,
    provenance: Provenance,
) -> (pat: LearningPattern)
    requires
        forall|p: int| 0 <= p < idx@.len() ==> (#[trigger] idx@[p]) < outs@.len(),
        sigs@.len() == idx@.len(),
        cats@.len() == idx@.len(),
        forall|p: int| 0 <= p < idx@.len() ==> (#[trigger] sigs@[p])@ == signature_of(ps@, outs@[idx@[p] as int]),
        forall|p: int| 0 <= p < idx@.len() ==> (#[trigger] cats@[p])@ == category_text(ps@, outs@[idx@[p] as int]),
        members(idx@.map_values(|i: usize| outs@[i as int]), ps@, g@).len() > 0,
    ensures
        pattern_for(pat, g@, members(idx@.map_values(|i: usize| outs@[i as int]), ps@, g@), ps@),
        pat.provenance == provenance,
{
    let ghost sel = idx@.map_values(|i: usize| outs@[i as int]);
    let mut succ: u64 = 0;
    let mut part: u64 = 0;
    let mut mixed: u64 = 0;
    let mut unsucc: u64 = 0;
    let mut regr: u64 = 0;
    let mut incon: u64 = 0;
    let mut notimpl: u64 = 0;
    let mut inval: u64 = 0;
    let mut sup: Vec<ObjectId> = Vec::new();
    let mut con: Vec<ObjectId> = Vec::new();
    let mut mix: Vec<ObjectId> = Vec::new();
    let mut first: i64 = 0;
    let mut last: i64 = 0;
    let mut n: usize = 0;
    let mut cat0: Vec<char> = Vec::new();
    let mut scope: Vec<String> = Vec::new();
    let mut p: usize = 0;
    while p < idx.len()
        invariant
            p <= idx@.len(),
            sel == idx@.map_values(|i: usize| outs@[i as int]),
            forall|q: int| 0 <= q < idx@.len() ==> (#[trigger] idx@[q]) < outs@.len(),
            sigs@.len() == idx@.len(),
            cats@.len() == idx@.len(),
            forall|q: int| 0 <= q < idx@.len() ==> (#[trigger] sigs@[q])@ == signature_of(ps@, outs@[idx@[q] as int]),
            forall|q: int| 0 <= q < idx@.len() ==> (#[trigger] cats@[q])@ == category_text(ps@, outs@[idx@[q] as int]),
            n == members(sel.subrange(0, p as int), ps@, g@).len(),
            n <= p,
            succ == class_count(members(sel.subrange(0, p as int), ps@, g@), OutcomeClassification::Successful),
            part == class_count(members(sel.subrange(0, p as int), ps@, g@), OutcomeClassification::PartiallySuccessful),
            mixed == class_count(members(sel.subrange(0, p as int), ps@, g@), OutcomeClassification::Mixed),
            unsucc == class_count(members(sel.subrange(0, p as int), ps@, g@), OutcomeClassification::Unsuccessful),
            regr == class_count(members(sel.subrange(0, p as int), ps@, g@), OutcomeClassification::Regressed),
            incon == class_count(members(sel.subrange(0, p as int), ps@, g@), OutcomeClassification::Inconclusive),
            notimpl == class_count(members(sel.subrange(0, p as int), ps@, g@), OutcomeClassification::NotImplemented),
            inval == class_count(members(sel.subrange(0, p as int), ps@, g@), OutcomeClassification::Invalidated),
            succ <= n && part <= n && mixed <= n && unsucc <= n && regr <= n && incon <= n && notimpl <= n && inval <= n,
            sup@ == ids_of_class(members(sel.subrange(0, p as int), ps@, g@), OutcomeClassification::Successful,
                OutcomeClassification::PartiallySuccessful),
            con@ == ids_of_class(members(sel.subrange(0, p as int), ps@, g@), OutcomeClassification::Unsuccessful,
                OutcomeClassification::Regressed),
            mix@ == ids_of_class(members(sel.subrange(0, p as int), ps@, g@), OutcomeClassification::Mixed, OutcomeClassification::Mixed),
            n > 0 ==> first == first_seen(members(sel.subrange(0, p as int), ps@, g@)),
            n > 0 ==> last == last_seen(members(sel.subrange(0, p as int), ps@, g@)),
            n > 0 ==> cat0@ == category_text(ps@, members(sel.subrange(0, p as int), ps@, g@)[0]),
            scope@.map_values(|s: String| s@) == scope_of(members(sel.subrange(0, p as int), ps@, g@), ps@),
        decreases idx.len() - p,
    {
        let ghost m0 = members(sel.subrange(0, p as int), ps@, g@);
        proof {
            assert(sel.subrange(0, p + 1).drop_last() =~= sel.subrange(0, p as int));
            assert(sel.subrange(0, p + 1).last() == outs@[idx@[p as int] as int]);
        }
        let o = &outs[idx[p]];
        if text_eq(&sigs[p], g) {
            let ghost m1 = m0.push(*o);
            proof {
                assert(members(sel.subrange(0, p + 1), ps@, g@) == m1);
                assert(m1.drop_last() =~= m0);
                assert(m1.last() == *o);
                if m0.len() > 0 {
                    assert(m1[0] == m0[0]);
                }
            }
            match o.classification {
                OutcomeClassification::Successful => { succ = succ + 1; sup.push(o.id); },
                OutcomeClassification::PartiallySuccessful => { part = part + 1; sup.push(o.id); },
                OutcomeClassification::Mixed => { mixed = mixed + 1; mix.push(o.id); },
                OutcomeClassification::Unsuccessful => { unsucc = unsucc + 1; con.push(o.id); },
                OutcomeClassification::Regressed => { regr = regr + 1; con.push(o.id); },
                OutcomeClassification::Inconclusive => { incon = incon + 1; },
                OutcomeClassification::NotImplemented => { notimpl = notimpl + 1; },
                OutcomeClassification::Invalidated => { inval = inval + 1; },
                OutcomeClassification::Pending => {},
            }
            if n == 0 {
                first = o.created_at;
                last = o.updated_at;
                cat0 = Vec::new();
                push_chars(&mut cat0, &cats[p]);
            } else {
                if o.created_at < first {
                    first = o.created_at;
                }
                if o.updated_at > last {
                    last = o.updated_at;
                }
            }
            let k = find_proposal(ps, o);
            if k < ps.len() {
                add_components(&mut scope, &ps[k].affected_components);
            }
            n = n + 1;
        } else {
            proof {
                assert(members(sel.subrange(0, p + 1), ps@, g@) == m0);
            }
        }
        p = p + 1;
    }
    proof {
        assert(sel.subrange(0, idx@.len() as int) =~= sel);
    }
    let ghost m = members(sel, ps@, g@);
    proof {
        lemma_two_bounded(m, OutcomeClassification::Successful, OutcomeClassification::PartiallySuccessful);
        lemma_two_bounded(m, OutcomeClassification::Unsuccessful, OutcomeClassification::Regressed);
    }
    let support: u64 = succ + part;
    let contradict: u64 = unsucc + regr;
    proof {
        assert(n > 0);
        assert((1000 * (support as int)) / (n as int) <= 1000) by (nonlinear_arith)
            requires (support as int) <= (n as int), (n as int) > 0;
    }
    let permille: u64 = ((1000u128 * (support as u128)) / (n as u128)) as u64;
    let mut title: Vec<char> = Vec::new();
    push_str(&mut title, "Historical pattern for ");
    push_chars(&mut title, &cat0);
    push_str(&mut title, " (");
    push_decimal(&mut title, n as u128);
    push_str(&mut title, " outcomes)");
    let status = if contradict > 0 && support > 0 {
        PatternStatus::Contested
    } else if support >= 2 {
        PatternStatus::Supported
    } else {
        PatternStatus::Emerging
    };
    LearningPattern {
        id: fresh_object_id(),
        title: to_string(&title),
        signature: to_string(g),
        proposal_category: Some(to_string(&cat0)),
        status,
        classification_counts: ClassificationCounts {
            successful: succ,
            partially_successful: part,
            mixed,
            unsuccessful: unsucc,
            regressed: regr,
            inconclusive: incon,
            not_implemented: notimpl,
            invalidated: inval,
        },
        supporting_outcome_ids: sup,
        contradicting_outcome_ids: con,
        mixed_outcome_ids: mix,
        first_observed: first,
        last_observed: last,
        confidence: Confidence::new(permille),
        scope,
        provenance,
    }
}

/// Outcomes of two different classifications are at most all of them.
proof fn lemma_two_bounded(m: Seq<MeasuredLearningOutcome>, c1: OutcomeClassification, c2: OutcomeClassification)
    requires
        c1 != c2,
    ensures
        class_count(m, c1) + class_count(m, c2) <= m.len(),
    decreases m.len(),
{
    if m.len() > 0 {
        lemma_two_bounded(m.drop_last(), c1, c2);
    }
}


/// The provenance of derived patterns.
pub open spec fn derived_by(p: Provenance, actor: Seq<char>, now: i64) -> bool {
    &&& p.actor@ == trimmed(actor)
    &&& p.source@ == "runtime"@
    &&& p.capability is Some && p.capability->0@ == "derive_learning_patterns"@
    &&& p.recorded_at == now
}

/// Derives the Learning Patterns of the verified, historically eligible
/// `outcomes` (each lineage counted once, by its latest such revision),
/// grouped by signature: the category of the outcome's Proposal (found in
/// `proposals` by identifier and Investigation, else `unknown`), a colon,
/// and its sorted distinct lowercased expected-result texts joined by `|`.
/// One pattern per signature, in ascending signature order. Refused when
/// the trimmed actor is empty.
pub fn derive_learning_patterns(
    outcomes: &Vec<MeasuredLearningOutcome>,
    proposals: &Vec<ImprovementProposal>,
    actor: &str,
    now: i64,
) -> (r: Result<Vec<LearningPattern>, RivoraError>)
    ensures
        r is Err <==> trimmed(actor@).len() == 0,
        r matches Err(e) ==> e matches RivoraError::Validation { message } && message@ == "pattern derivation actor is required"@,
        r matches Ok(v) ==> {
            let sel = selected(outcomes@);
            let keys = signature_keys(sel, proposals@);
            &&& v@.len() == keys.len()
            &&& forall|j: int| 0 <= j < v@.len() ==> pattern_for(#[trigger] v@[j], keys[j], members(sel, proposals@, keys[j]), proposals@)
            &&& forall|j: int| 0 <= j < v@.len() ==> derived_by((#[trigger] v@[j]).provenance, actor@, now)
        },
{
    let name = trim_chars(&chars_of(actor));
    if name.len() == 0 {
        return Err(RivoraError::validation("pattern derivation actor is required"));
    }
    let name = to_string(&name);
    let idx = select_latest(outcomes);
    let ghost sel = idx@.map_values(|i: usize| outcomes@[i as int]);
    let ghost sigseq = sel.map_values(|o: MeasuredLearningOutcome| signature_of(proposals@, o));
    let mut sigs: Vec<Vec<char>> = Vec::new();
    let mut cats: Vec<Vec<char>> = Vec::new();
    let mut keys = TextSet::new();
    let mut p: usize = 0;
    while p < idx.len()
        invariant
            p <= idx@.len(),
            sel == idx@.map_values(|i: usize| outcomes@[i as int]),
            sigseq == sel.map_values(|o: MeasuredLearningOutcome| signature_of(proposals@, o)),
            forall|q: int| 0 <= q < idx@.len() ==> (#[trigger] idx@[q]) < outcomes@.len(),
            sigs@.len() == p,
            cats@.len() == p,
            forall|q: int| 0 <= q < p ==> (#[trigger] sigs@[q])@ == signature_of(proposals@, outcomes@[idx@[q] as int]),
            forall|q: int| 0 <= q < p ==> (#[trigger] cats@[q])@ == category_text(proposals@, outcomes@[idx@[q] as int]),
            keys.wf(),
            forall|x: Seq<char>| #[trigger] keys.has(x) == sigseq.subrange(0, p as int).contains(x),
        decreases idx.len() - p,
    {
        let (sig, cat) = outcome_signature(proposals, &outcomes[idx[p]]);
        let mut key: Vec<char> = Vec::new();
        push_chars(&mut key, &sig);
        let ghost before = keys;
        keys.insert(key);
        proof {
            assert(sigseq[p as int] == sig@);
            assert forall|x: Seq<char>| #[trigger] keys.has(x) == sigseq.subrange(0, p + 1).contains(x) by {
                assert(before.has(x) == sigseq.subrange(0, p as int).contains(x));
                if sigseq.subrange(0, p as int).contains(x) {
                    let q = choose|q: int| 0 <= q < p && #[trigger] sigseq.subrange(0, p as int)[q] == x;
                    assert(sigseq.subrange(0, p + 1)[q] == x);
                }
                if x == sig@ {
                    assert(sigseq.subrange(0, p + 1)[p as int] == x);
                }
                if sigseq.subrange(0, p + 1).contains(x) {
                    let q = choose|q: int| 0 <= q < p + 1 && #[trigger] sigseq.subrange(0, p + 1)[q] == x;
                    if q < p {
                        assert(sigseq.subrange(0, p as int)[q] == x);
                    }
                }
            }
        }
        sigs.push(sig);
        cats.push(cat);
        p = p + 1;
    }
    proof {
        assert(sigseq.subrange(0, sigseq.len() as int) =~= sigseq);
        lemma_set_sorted(keys);
        let w = keys.seq();
        assert forall|x: Seq<char>| #[trigger] w.contains(x) == sigseq.contains(x) by {
            assert(keys.has(x) == sigseq.subrange(0, sigseq.len() as int).contains(x));
        }
        lemma_sorted_same(w, signature_keys(sel, proposals@));
        assert(sel == selected(outcomes@));
    }
    let ghost ks = keys.seq();
    let mut out: Vec<LearningPattern> = Vec::new();
    let mut j: usize = 0;
    while j < keys.items.len()
        invariant
            j <= keys.items@.len(),
            ks == keys.seq(),
            ks == signature_keys(selected(outcomes@), proposals@),
            sel == selected(outcomes@),
            sel == idx@.map_values(|i: usize| outcomes@[i as int]),
            sigseq == sel.map_values(|o: MeasuredLearningOutcome| signature_of(proposals@, o)),
            forall|x: Seq<char>| #[trigger] ks.contains(x) == sigseq.contains(x),
            forall|q: int| 0 <= q < idx@.len() ==> (#[trigger] idx@[q]) < outcomes@.len(),
            sigs@.len() == idx@.len(),
            cats@.len() == idx@.len(),
            forall|q: int| 0 <= q < idx@.len() ==> (#[trigger] sigs@[q])@ == signature_of(proposals@, outcomes@[idx@[q] as int]),
            forall|q: int| 0 <= q < idx@.len() ==> (#[trigger] cats@[q])@ == category_text(proposals@, outcomes@[idx@[q] as int]),
            name@ == trimmed(actor@),
            out@.len() == j,
            forall|q: int| 0 <= q < j ==> pattern_for(#[trigger] out@[q], ks[q], members(sel, proposals@, ks[q]), proposals@),
            forall|q: int| 0 <= q < j ==> derived_by((#[trigger] out@[q]).provenance, actor@, now),
        decreases keys.items.len() - j,
    {
        proof {
            let g = ks[j as int];
            assert(ks.contains(g));
            assert(sigseq.contains(g));
            let q = choose|q: int| 0 <= q < sigseq.len() && #[trigger] sigseq[q] == g;
            lemma_members_nonempty(sel, proposals@, g, q);
            assert(keys.items@[j as int]@ == g);
        }
        let provenance = Provenance::now(name.as_str(), "runtime", now).with_capability("derive_learning_patterns");
        let pat = build_pattern(&keys.items[j], outcomes, &idx, &sigs, &cats, proposals, provenance);
        out.push(pat);
        j = j + 1;
    }
    Ok(out)
}

} // verus!
