//! Historical trend summaries over durable records: how many Investigations,
//! verification and learning tallies, and the most frequent repositories and
//! failure signatures.

use vstd::prelude::*;
use crate::context::{count_view, distinct_labels, top_counts, top_of, CountItem, HistoricalTrend, LearningTrend, PatternKind, VerificationTrend};
use crate::graph::{failure_signatures, repository_keys, repository_pairs};
use crate::ids::ObjectId;
use crate::keymap::{grouped, KeyMap, sorted_texts};
use crate::model::{ContextBundle, LearningOutcome, VerificationReceipt};
use crate::patterns::{row_pairs, PatternRow};
use crate::text::{decimal, join_seqs, lex_lt, lowercase_of, push_chars, push_decimal, push_str, to_lowercase, to_string};
use crate::vocab::{OutcomeDisposition, VerificationResult};

verus! {

/// The Investigation observed the filtered repository (any, without a filter).
pub open spec fn in_scope(b: ContextBundle, filter: Option<Seq<char>>) -> bool {
    match filter {
        None => true,
        Some(f) => grouped(repository_pairs(b.observations@), f) is Some,
    }
}

/// The rows in scope, in order.
pub open spec fn scoped_rows(rows: Seq<PatternRow>, filter: Option<Seq<char>>) -> Seq<PatternRow>
    decreases rows.len(),
{
    if rows.len() == 0 {
        seq![]
    } else if in_scope(rows.last().1, filter) {
        scoped_rows(rows.drop_last(), filter).push(rows.last())
    } else {
        scoped_rows(rows.drop_last(), filter)
    }
}

/// In how many rows key `k` of a kind occurs.
pub open spec fn key_count(rows: Seq<PatternRow>, kind: PatternKind, k: Seq<char>) -> nat
    decreases rows.len(),
{
    if rows.len() == 0 {
        0
    } else {
        key_count(rows.drop_last(), kind, k) + if grouped(row_pairs(kind, rows.last().1), k) is Some { 1nat } else { 0nat }
    }
}

/// `items` are the keys of a kind occurring in some row, each once, with the
/// number of rows it occurs in.
pub open spec fn counted_items(items: Seq<(Seq<char>, nat)>, rows: Seq<PatternRow>, kind: PatternKind) -> bool {
    &&& forall|i: int, j: int| 0 <= i < j < items.len() ==> (#[trigger] items[i]).0 != (#[trigger] items[j]).0
    &&& forall|x: (Seq<char>, nat)| #[trigger] items.contains(x) <==> (key_count(rows, kind, x.0) > 0 && x.1 == key_count(rows, kind, x.0))
}

/// How many receipts of the rows have a result.
pub open spec fn result_count(rows: Seq<PatternRow>, v: VerificationResult) -> nat
    decreases rows.len(),
{
    if rows.len() == 0 {
        0
    } else {
        result_count(rows.drop_last(), v) + receipts_with(rows.last().1.verifications@, v)
    }
}

/// How many receipts have a result.
pub open spec fn receipts_with(rs: Seq<VerificationReceipt>, v: VerificationResult) -> nat
    decreases rs.len(),
{
    if rs.len() == 0 {
        0
    } else {
        receipts_with(rs.drop_last(), v) + if rs.last().result == v { 1nat } else { 0nat }
    }
}

/// How many Learning Outcomes of the rows have a disposition.
pub open spec fn disposition_count(rows: Seq<PatternRow>, d: OutcomeDisposition) -> nat
    decreases rows.len(),
{
    if rows.len() == 0 {
        0
    } else {
        disposition_count(rows.drop_last(), d) + outcomes_with(rows.last().1.learning@, d)
    }
}

/// How many Learning Outcomes have a disposition.
pub open spec fn outcomes_with(ls: Seq<LearningOutcome>, d: OutcomeDisposition) -> nat
    decreases ls.len(),
{
    if ls.len() == 0 {
        0
    } else {
        outcomes_with(ls.drop_last(), d) + if ls.last().disposition == d { 1nat } else { 0nat }
    }
}

/// The successful share of decided outcomes (thousandths, rounded down).
pub open spec fn success_rate_spec(successful: nat, unsuccessful: nat) -> Option<u32> {
    if successful + unsuccessful > 0 {
        Some((successful * 1000 / (successful + unsuccessful)) as u32)
    } else {
        None
    }
}

/// The success rate in whole percent (half up).
pub open spec fn percent(successful: nat, decided: nat) -> nat {
    ((200 * successful + decided) / (2 * decided)) as nat
}

/// `label (count)` for each top item.
pub open spec fn top_labels(top: Seq<(Seq<char>, nat)>) -> Seq<Seq<char>> {
    top.map_values(|c: (Seq<char>, nat)| c.0 + " ("@ + decimal(c.1) + ")"@)
}

/// The one-line trend summary.
pub open spec fn trend_summary(n: nat, pass: nat, fail: nat, inconclusive: nat, successful: nat, unsuccessful: nat, top: Seq<(Seq<char>, nat)>) -> Seq<char> {
    decimal(n) + " Investigations; verification pass/fail/inconclusive "@ + decimal(pass) + "/"@ + decimal(fail) + "/"@
        + decimal(inconclusive) + ";"@ + (if successful + unsuccessful > 0 {
        " recommendation success rate "@ + decimal(percent(successful, successful + unsuccessful)) + "%"@
    } else {
        seq![]
    }) + " top repositories: "@ + (if top.len() == 0 { "none"@ } else { join_seqs(top_labels(top), ", "@) }) + "."@
}

/// Count items as plain values.
pub open spec fn count_views(items: Seq<CountItem>) -> Seq<(Seq<char>, nat)> {
    items.map_values(|c: CountItem| count_view(c))
}

/// How many entries of a map a key has (0 when absent).
pub open spec fn count_of(m: KeyMap, k: Seq<char>) -> nat {
    match m.get(k) {
        Some(ids) => ids.len(),
        None => 0,
    }
}


/// Counts, once each, the keys of one more row.
fn count_row_keys(
    counter: &mut KeyMap,
    row_map: &KeyMap,
    Ghost(prev): Ghost<Seq<PatternRow>>,
    Ghost(row): Ghost<PatternRow>,
    Ghost(kind): Ghost<PatternKind>,
)
    requires
        old(counter).wf(),
        row_map.wf(),
        forall|k: Seq<char>| #[trigger] row_map.get(k) == grouped(row_pairs(kind, row.1), k),
        forall|k: Seq<char>| #[trigger] count_of(*old(counter), k) == key_count(prev, kind, k),
        forall|k: Seq<char>| #[trigger] old(counter).get(k) matches Some(ids) ==> ids.len() > 0,
    ensures
        final(counter).wf(),
        forall|k: Seq<char>| #[trigger] count_of(*final(counter), k) == key_count(prev.push(row), kind, k),
        forall|k: Seq<char>| #[trigger] final(counter).get(k) matches Some(ids) ==> ids.len() > 0,
{
    proof {
        row_map.lemma_keys();
        crate::keymap::lemma_sorted_unique(row_map.keys());
    }
    let ghost keys = row_map.keys();
    let ghost start = *counter;
    let mut j: usize = 0;
    while j < row_map.entries.len()
        invariant
            j <= row_map.entries@.len(),
            counter.wf(),
            row_map.wf(),
            keys == row_map.keys(),
            keys.no_duplicates(),
            keys.len() == row_map.entries@.len(),
            forall|k: Seq<char>| #[trigger] count_of(start, k) == key_count(prev, kind, k),
            forall|k: Seq<char>| #[trigger] count_of(*counter, k) == count_of(start, k) + if keys.subrange(0, j as int).contains(k) { 1nat } else { 0nat },
            forall|k: Seq<char>| #[trigger] counter.get(k) matches Some(ids) ==> ids.len() > 0,
        decreases row_map.entries.len() - j,
    {
        let ghost before = *counter;
        let ghost kj = keys[j as int];
        let mut key: Vec<char> = Vec::new();
        push_chars(&mut key, &row_map.entries[j].key);
        assert(key@ == kj);
        counter.record(key, ObjectId { value: 0 });
        assert forall|k: Seq<char>| #[trigger] count_of(*counter, k) == count_of(start, k) + if keys.subrange(0, j + 1).contains(k) { 1nat } else { 0nat } by {
            let s0 = keys.subrange(0, j as int);
            let s1 = keys.subrange(0, j + 1);
            assert(count_of(before, k) == count_of(start, k) + if s0.contains(k) { 1nat } else { 0nat });
            assert(s1 == s0.push(kj));
            if k == kj {
                assert(s1[j as int] == k);
                assert(!s0.contains(k)) by {
                    if s0.contains(k) {
                        let q = choose|q: int| 0 <= q < s0.len() && s0[q] == k;
                        assert(keys[q] == keys[j as int]);
                    }
                }
            } else {
                if s1.contains(k) {
                    let q = choose|q: int| 0 <= q < s1.len() && s1[q] == k;
                    assert(s0[q] == k);
                }
                if s0.contains(k) {
                    let q = choose|q: int| 0 <= q < s0.len() && s0[q] == k;
                    assert(s1[q] == k);
                }
            }
        }
        j = j + 1;
    }
    proof {
        assert(keys.subrange(0, keys.len() as int) =~= keys);
        assert forall|k: Seq<char>| #[trigger] count_of(*counter, k) == key_count(prev.push(row), kind, k) by {
            assert(prev.push(row).drop_last() =~= prev);
            assert(keys.contains(k) == row_map.has(k));
            assert(row_map.has(k) == (row_map.get(k) is Some));
        }
    }
}

/// The counted keys of a map as items, in key order.
fn items_of(counter: &KeyMap) -> (items: Vec<CountItem>)
    requires
        counter.wf(),
        forall|k: Seq<char>| #[trigger] counter.get(k) matches Some(ids) ==> ids.len() > 0,
    ensures
        distinct_labels(items@),
        forall|x: (Seq<char>, nat)| #[trigger] count_views(items@).contains(x)
            <==> (count_of(*counter, x.0) > 0 && x.1 == count_of(*counter, x.0)),
{
    proof {
        counter.lemma_keys();
    }
    let mut items: Vec<CountItem> = Vec::new();
    let mut i: usize = 0;
    while i < counter.entries.len()
        invariant
            i <= counter.entries@.len(),
            counter.wf(),
            items@.len() == i,
            forall|q: int| 0 <= q < i ==> (#[trigger] items@[q]).label@ == counter.entries@[q].key@ && items@[q].count
                == counter.entries@[q].ids@.len(),
        decreases counter.entries.len() - i,
    {
        let mut label: Vec<char> = Vec::new();
        push_chars(&mut label, &counter.entries[i].key);
        items.push(CountItem { label: to_string(&label), count: counter.entries[i].ids.len() });
        i = i + 1;
    }
    proof {
        let views = count_views(items@);
        assert forall|a: int, b: int| 0 <= a < b < items@.len() implies (#[trigger] items@[a]).label@ != (#[trigger] items@[b]).label@ by {
            assert(lex_lt(counter.entries@[a].key@, counter.entries@[b].key@));
            crate::text::lemma_lex_irreflexive(counter.entries@[a].key@);
        }
        assert forall|x: (Seq<char>, nat)| #[trigger] views.contains(x) <==> (count_of(*counter, x.0) > 0 && x.1 == count_of(*counter, x.0)) by {
            if views.contains(x) {
                let q = choose|q: int| 0 <= q < views.len() && views[q] == x;
                counter.lemma_get_at(q);
            }
            if count_of(*counter, x.0) > 0 && x.1 == count_of(*counter, x.0) {
                assert(counter.has(x.0));
                let q = counter.position(x.0);
                counter.lemma_get_at(q);
                assert(views[q] == x);
            }
        }
    }
    items
}

/// How many receipts have a result.
pub fn count_results(rs: &Vec<VerificationReceipt>, v: VerificationResult) -> (n: usize)
    ensures
        n == receipts_with(rs@, v),
        n <= rs@.len(),
{
    let mut n: usize = 0;
    let mut i: usize = 0;
    while i < rs.len()
        invariant
            i <= rs@.len(),
            n <= i,
            n == receipts_with(rs@.subrange(0, i as int), v),
        decreases rs.len() - i,
    {
        assert(rs@.subrange(0, i + 1).drop_last() =~= rs@.subrange(0, i as int));
        if rs[i].result == v {
            n = n + 1;
        }
        i = i + 1;
    }
    assert(rs@.subrange(0, rs@.len() as int) =~= rs@);
    n
}

/// How many Learning Outcomes have a disposition.
fn count_dispositions(ls: &Vec<LearningOutcome>, d: OutcomeDisposition) -> (n: usize)
    ensures
        n == outcomes_with(ls@, d),
        n <= ls@.len(),
{
    let mut n: usize = 0;
    let mut i: usize = 0;
    while i < ls.len()
        invariant
            i <= ls@.len(),
            n <= i,
            n == outcomes_with(ls@.subrange(0, i as int), d),
        decreases ls.len() - i,
    {
        assert(ls@.subrange(0, i + 1).drop_last() =~= ls@.subrange(0, i as int));
        if ls[i].disposition == d {
            n = n + 1;
        }
        i = i + 1;
    }
    assert(ls@.subrange(0, ls@.len() as int) =~= ls@);
    n
}


/// Receipts, Learning Outcomes and rows, counted together.
pub open spec fn record_total(rows: Seq<PatternRow>) -> nat
    decreases rows.len(),
{
    if rows.len() == 0 {
        0
    } else {
        record_total(rows.drop_last()) + rows.last().1.verifications@.len() + rows.last().1.learning@.len() + 1
    }
}

/// An optional text as plain values.
pub open spec fn opt_text(s: Option<String>) -> Option<Seq<char>> {
    match s {
        Some(t) => Some(t@),
        None => None,
    }
}

/// The lowercased repository filter.
pub open spec fn filter_of(repository: Option<String>) -> Option<Seq<char>> {
    match repository {
        Some(r) => Some(lowercase_of(r@)),
        None => None,
    }
}

/// Scoping only drops rows.
proof fn lemma_scoped_total(rows: Seq<PatternRow>, filter: Option<Seq<char>>)
    ensures
        record_total(scoped_rows(rows, filter)) <= record_total(rows),
        scoped_rows(rows, filter).len() <= rows.len(),
    decreases rows.len(),
{
    if rows.len() > 0 {
        lemma_scoped_total(rows.drop_last(), filter);
        let s0 = scoped_rows(rows.drop_last(), filter);
        assert(s0.push(rows.last()).drop_last() =~= s0);
        assert(s0.push(rows.last()).last() == rows.last());
    }
}

/// Tallies bounded by the records they count.
proof fn lemma_tally_bounds(rows: Seq<PatternRow>)
    ensures
        result_count(rows, VerificationResult::Pass) + result_count(rows, VerificationResult::Fail) + result_count(
            rows,
            VerificationResult::Inconclusive,
        ) + disposition_count(rows, OutcomeDisposition::Successful) + disposition_count(rows, OutcomeDisposition::Unsuccessful)
            + disposition_count(rows, OutcomeDisposition::Rejected) + disposition_count(rows, OutcomeDisposition::Accepted)
            + disposition_count(rows, OutcomeDisposition::Ignored) + rows.len() <= record_total(rows),
    decreases rows.len(),
{
    if rows.len() > 0 {
        lemma_tally_bounds(rows.drop_last());
        let b = rows.last().1;
        lemma_receipts_bound(b.verifications@);
        lemma_outcomes_bound(b.learning@);
    }
}

proof fn lemma_receipts_bound(rs: Seq<VerificationReceipt>)
    ensures
        receipts_with(rs, VerificationResult::Pass) + receipts_with(rs, VerificationResult::Fail) + receipts_with(
            rs,
            VerificationResult::Inconclusive,
        ) <= rs.len(),
    decreases rs.len(),
{
    if rs.len() > 0 {
        lemma_receipts_bound(rs.drop_last());
    }
}

proof fn lemma_outcomes_bound(ls: Seq<LearningOutcome>)
    ensures
        outcomes_with(ls, OutcomeDisposition::Successful) + outcomes_with(ls, OutcomeDisposition::Unsuccessful) + outcomes_with(
            ls,
            OutcomeDisposition::Rejected,
        ) + outcomes_with(ls, OutcomeDisposition::Accepted) + outcomes_with(ls, OutcomeDisposition::Ignored) <= ls.len(),
    decreases ls.len(),
{
    if ls.len() > 0 {
        lemma_outcomes_bound(ls.drop_last());
    }
}

/// The tallies of a trend.
pub open spec fn tallies_of(t: HistoricalTrend, sc: Seq<PatternRow>) -> bool {
    &&& t.investigation_count == sc.len()
    &&& t.verification.pass == result_count(sc, VerificationResult::Pass)
    &&& t.verification.fail == result_count(sc, VerificationResult::Fail)
    &&& t.verification.inconclusive == result_count(sc, VerificationResult::Inconclusive)
    &&& t.learning.successful == disposition_count(sc, OutcomeDisposition::Successful)
    &&& t.learning.unsuccessful == disposition_count(sc, OutcomeDisposition::Unsuccessful)
    &&& t.learning.rejected == disposition_count(sc, OutcomeDisposition::Rejected)
    &&& t.learning.accepted == disposition_count(sc, OutcomeDisposition::Accepted)
    &&& t.learning.ignored == disposition_count(sc, OutcomeDisposition::Ignored)
}

/// Running tallies of a trend.
struct Tally {
    count: usize,
    pass: usize,
    fail: usize,
    inconclusive: usize,
    successful: usize,
    unsuccessful: usize,
    rejected: usize,
    accepted: usize,
    ignored: usize,
    repos: KeyMap,
    failures: KeyMap,
}

/// The tallies of the rows `sc`.
spec fn tally_ok(t: Tally, sc: Seq<PatternRow>) -> bool {
    &&& t.count == sc.len()
    &&& t.pass == result_count(sc, VerificationResult::Pass)
    &&& t.fail == result_count(sc, VerificationResult::Fail)
    &&& t.inconclusive == result_count(sc, VerificationResult::Inconclusive)
    &&& t.successful == disposition_count(sc, OutcomeDisposition::Successful)
    &&& t.unsuccessful == disposition_count(sc, OutcomeDisposition::Unsuccessful)
    &&& t.rejected == disposition_count(sc, OutcomeDisposition::Rejected)
    &&& t.accepted == disposition_count(sc, OutcomeDisposition::Accepted)
    &&& t.ignored == disposition_count(sc, OutcomeDisposition::Ignored)
    &&& t.repos.wf()
    &&& t.failures.wf()
    &&& forall|k: Seq<char>| #[trigger] count_of(t.repos, k) == key_count(sc, PatternKind::RepeatedComponent, k)
    &&& forall|k: Seq<char>| #[trigger] count_of(t.failures, k) == key_count(sc, PatternKind::RecurringFailureSignature, k)
    &&& forall|k: Seq<char>| #[trigger] t.repos.get(k) matches Some(ids) ==> ids.len() > 0
    &&& forall|k: Seq<char>| #[trigger] t.failures.get(k) matches Some(ids) ==> ids.len() > 0
}

/// Adds one row in scope to the tallies.
fn add_row(t: &mut Tally, b: &ContextBundle, repos: KeyMap, Ghost(sc0): Ghost<Seq<PatternRow>>, Ghost(row): Ghost<PatternRow>)
    requires
        tally_ok(*old(t), sc0),
        row.1 == *b,
        repos.wf(),
        forall|k: Seq<char>| #[trigger] repos.get(k) == grouped(repository_pairs(b.observations@), k),
        record_total(sc0.push(row)) <= usize::MAX,
    ensures
        tally_ok(*final(t), sc0.push(row)),
{
    let ghost sc1 = sc0.push(row);
    proof {
        lemma_tally_bounds(sc1);
        assert(sc1.drop_last() =~= sc0);
        assert(sc1.last() == row);
    }
    count_row_keys(&mut t.repos, &repos, Ghost(sc0), Ghost(row), Ghost(PatternKind::RepeatedComponent));
    let fails = failure_signatures(&b.observations);
    count_row_keys(&mut t.failures, &fails, Ghost(sc0), Ghost(row), Ghost(PatternKind::RecurringFailureSignature));
    t.count = t.count + 1;
    t.pass = t.pass + count_results(&b.verifications, VerificationResult::Pass);
    t.fail = t.fail + count_results(&b.verifications, VerificationResult::Fail);
    t.inconclusive = t.inconclusive + count_results(&b.verifications, VerificationResult::Inconclusive);
    t.successful = t.successful + count_dispositions(&b.learning, OutcomeDisposition::Successful);
    t.unsuccessful = t.unsuccessful + count_dispositions(&b.learning, OutcomeDisposition::Unsuccessful);
    t.rejected = t.rejected + count_dispositions(&b.learning, OutcomeDisposition::Rejected);
    t.accepted = t.accepted + count_dispositions(&b.learning, OutcomeDisposition::Accepted);
    t.ignored = t.ignored + count_dispositions(&b.learning, OutcomeDisposition::Ignored);
}

/// Summarizes historical trends over the Investigations, optionally only
/// those that observed a repository (matched lowercased).
pub fn summarize_historical_trend(rows: &Vec<PatternRow>, repository: Option<String>) -> (t: HistoricalTrend)
    requires
        record_total(rows@) <= usize::MAX,
    ensures
        ({
            let sc = scoped_rows(rows@, filter_of(repository));
            &&& tallies_of(t, sc)
            &&& t.learning.success_rate == success_rate_spec(t.learning.successful as nat, t.learning.unsuccessful as nat)
            &&& opt_text(t.repository_filter) == filter_of(repository)
            &&& exists|items: Seq<(Seq<char>, nat)>| #[trigger] counted_items(items, sc, PatternKind::RepeatedComponent) && top_of(count_views(t.top_repositories@), items, 5)
            &&& exists|items: Seq<(Seq<char>, nat)>| #[trigger] counted_items(items, sc, PatternKind::RecurringFailureSignature) && top_of(count_views(t.top_failure_signatures@), items, 5)
            &&& t.summary@ == trend_summary(sc.len(), t.verification.pass as nat, t.verification.fail as nat,
                t.verification.inconclusive as nat, t.learning.successful as nat, t.learning.unsuccessful as nat,
                count_views(t.top_repositories@))
            &&& t.derivation_method@ == "historical_trend_v1"@
        }),
{
    let filter: Option<Vec<char>> = match &repository {
        Some(r) => Some(crate::text::lower_chars(r.as_str())),
        None => None,
    };
    let ghost fspec = filter_of(repository);
    let mut t = Tally {
        count: 0,
        pass: 0,
        fail: 0,
        inconclusive: 0,
        successful: 0,
        unsuccessful: 0,
        rejected: 0,
        accepted: 0,
        ignored: 0,
        repos: KeyMap::new(),
        failures: KeyMap::new(),
    };
    proof {
        lemma_scoped_total(rows@, fspec);
        assert(scoped_rows(rows@.subrange(0, 0), fspec) =~= Seq::<PatternRow>::empty());
    }
    let mut i: usize = 0;
    while i < rows.len()
        invariant
            i <= rows@.len(),
            record_total(rows@) <= usize::MAX,
            fspec == filter_of(repository),
            match filter { Some(f) => fspec == Some(f@), None => fspec is None },
            tally_ok(t, scoped_rows(rows@.subrange(0, i as int), fspec)),
            record_total(scoped_rows(rows@.subrange(0, i as int), fspec)) <= record_total(rows@.subrange(0, i as int)),
            record_total(rows@.subrange(0, i as int)) <= record_total(rows@),
        decreases rows.len() - i,
    {
        let ghost prev_rows = rows@.subrange(0, i as int);
        let ghost sc0 = scoped_rows(prev_rows, fspec);
        let ghost next_rows = rows@.subrange(0, i + 1);
        assert(next_rows.drop_last() =~= prev_rows);
        assert(next_rows.last() == rows@[i as int]);
        proof {
            lemma_prefix_total(rows@, i as int);
        }
        let b = &rows[i].1;
        let repos = repository_keys(&b.observations);
        let keep = match &filter {
            Some(f) => repos.contains_key(f),
            None => true,
        };
        proof {
            match &filter {
                Some(f) => {
                    assert(repos.get(f@) == grouped(repository_pairs(b.observations@), f@));
                    assert(repos.has(f@) == (repos.get(f@) is Some));
                },
                None => {},
            }
        }
        assert(keep == in_scope(*b, fspec));
        if keep {
            let ghost row = rows@[i as int];
            proof {
                assert(sc0.push(row).drop_last() =~= sc0);
            }
            add_row(&mut t, b, repos, Ghost(sc0), Ghost(row));
        }
        i = i + 1;
    }
    assert(rows@.subrange(0, rows@.len() as int) =~= rows@);
    let ghost sc = scoped_rows(rows@, fspec);
    proof {
        lemma_tally_bounds(sc);
    }
    let Tally { count, pass, fail, inconclusive, successful, unsuccessful, rejected, accepted, ignored, repos: repo_counter, failures: failure_counter } = t;
    let decided = successful + unsuccessful;
    let success_rate: Option<u32> = if decided > 0 {
        Some((successful as u128 * 1000 / decided as u128) as u32)
    } else {
        None
    };
    let repo_items = items_of(&repo_counter);
    let failure_items = items_of(&failure_counter);
    let top_repositories = top_counts(&repo_items, 5);
    let top_failure_signatures = top_counts(&failure_items, 5);
    proof {
        assert(counted_items(count_views(repo_items@), sc, PatternKind::RepeatedComponent));
        assert(counted_items(count_views(failure_items@), sc, PatternKind::RecurringFailureSignature));
    }
    let summary = trend_summary_text(count, pass, fail, inconclusive, successful, unsuccessful, &top_repositories);
    HistoricalTrend {
        investigation_count: count,
        repository_filter: match filter {
            Some(f) => Some(to_string(&f)),
            None => None,
        },
        verification: VerificationTrend { pass, fail, inconclusive },
        learning: LearningTrend { successful, unsuccessful, rejected, accepted, ignored, success_rate },
        top_repositories,
        top_failure_signatures,
        summary,
        derivation_method: "historical_trend_v1".to_owned(),
    }
}

/// A prefix counts no more records than the whole.
proof fn lemma_prefix_total(rows: Seq<PatternRow>, i: int)
    requires
        0 <= i < rows.len(),
    ensures
        record_total(rows.subrange(0, i + 1)) <= record_total(rows),
        record_total(rows.subrange(0, i)) + rows[i].1.verifications@.len() + rows[i].1.learning@.len() + 1 == record_total(rows.subrange(0, i + 1)),
    decreases rows.len() - i,
{
    assert(rows.subrange(0, i + 1).drop_last() =~= rows.subrange(0, i));
    if i + 1 < rows.len() {
        lemma_prefix_total(rows, i + 1);
    } else {
        assert(rows.subrange(0, i + 1) =~= rows);
    }
}

/// The summary line (exec).
fn trend_summary_text(
    n: usize,
    pass: usize,
    fail: usize,
    inconclusive: usize,
    successful: usize,
    unsuccessful: usize,
    top: &Vec<CountItem>,
) -> (s: String)
    ensures
        s@ == trend_summary(n as nat, pass as nat, fail as nat, inconclusive as nat, successful as nat, unsuccessful as nat, count_views(top@)),
{
    let mut out: Vec<char> = Vec::new();
    push_decimal(&mut out, n as u128);
    push_str(&mut out, " Investigations; verification pass/fail/inconclusive ");
    push_decimal(&mut out, pass as u128);
    push_str(&mut out, "/");
    push_decimal(&mut out, fail as u128);
    push_str(&mut out, "/");
    push_decimal(&mut out, inconclusive as u128);
    push_str(&mut out, ";");
    let decided = successful as u128 + unsuccessful as u128;
    if decided > 0 {
        push_str(&mut out, " recommendation success rate ");
        push_decimal(&mut out, (200 * successful as u128 + decided) / (2 * decided));
        push_str(&mut out, "%");
    }
    push_str(&mut out, " top repositories: ");
    if top.len() == 0 {
        push_str(&mut out, "none");
    } else {
        let mut pieces: Vec<String> = Vec::new();
        let mut i: usize = 0;
        while i < top.len()
            invariant
                i <= top@.len(),
                pieces@.map_values(|p: String| p@) == top_labels(count_views(top@)).subrange(0, i as int),
            decreases top.len() - i,
        {
            let mut p: Vec<char> = Vec::new();
            push_str(&mut p, top[i].label.as_str());
            push_str(&mut p, " (");
            push_decimal(&mut p, top[i].count as u128);
            push_str(&mut p, ")");
            let ghost before = pieces@.map_values(|p: String| p@);
            let piece = to_string(&p);
            assert(piece@ == top_labels(count_views(top@))[i as int]);
            pieces.push(piece);
            assert(pieces@.map_values(|p: String| p@) =~= before.push(piece@));
            assert(top_labels(count_views(top@)).subrange(0, i + 1) =~= top_labels(count_views(top@)).subrange(0, i as int).push(piece@));
            i = i + 1;
            assert(pieces@.map_values(|p: String| p@) =~= top_labels(count_views(top@)).subrange(0, i as int));
        }
        assert(top_labels(count_views(top@)).subrange(0, top@.len() as int) =~= top_labels(count_views(top@)));
        let joined = crate::text::join_strings(&pieces, ", ");
        push_chars(&mut out, &joined);
    }
    push_str(&mut out, ".");
    to_string(&out)
}

} // verus!
