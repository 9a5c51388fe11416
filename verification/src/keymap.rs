//! Ordered artifact maps: text keys (kept in ascending order) to the
//! identifiers of the Engineering Objects that carry them.

use vstd::prelude::*;
use crate::ids::ObjectId;
use crate::text::{lex_lt, text_less, text_eq, lemma_lex_total, lemma_lex_transitive, lemma_lex_irreflexive, lemma_lex_asymmetric};

verus! {

/// One key with the identifiers recorded under it, in recording order.
pub struct KeyEntry {
    pub key: Vec<char>,
    pub ids: Vec<ObjectId>,
}

/// A map from text keys to identifier lists, entries in strictly ascending
/// key order (the iteration order of an ordered map).
pub struct KeyMap {
    pub entries: Vec<KeyEntry>,
}

/// The identifiers recorded under `k` by a sequence of optional keys paired
/// with identifiers, in order.
pub open spec fn group(pairs: Seq<(Option<Seq<char>>, ObjectId)>, k: Seq<char>) -> Seq<ObjectId>
    decreases pairs.len(),
{
    if pairs.len() == 0 {
        Seq::empty()
    } else {
        let g = group(pairs.drop_last(), k);
        if pairs.last().0 == Some(k) {
            g.push(pairs.last().1)
        } else {
            g
        }
    }
}

/// `Some(ids)` when at least one identifier was recorded under `k`.
pub open spec fn grouped(pairs: Seq<(Option<Seq<char>>, ObjectId)>, k: Seq<char>) -> Option<Seq<ObjectId>> {
    if group(pairs, k).len() > 0 {
        Some(group(pairs, k))
    } else {
        None
    }
}

impl KeyMap {
    /// Keys strictly ascending.
    pub open spec fn wf(self) -> bool {
        forall|i: int, j: int| 0 <= i < j < self.entries@.len() ==> lex_lt(#[trigger] self.entries@[i].key@, #[trigger] self.entries@[j].key@)
    }

    /// `k` is a key of the map.
    pub open spec fn has(self, k: Seq<char>) -> bool {
        exists|i: int| 0 <= i < self.entries@.len() && #[trigger] self.entries@[i].key@ == k
    }

    /// A position holding key `k` (meaningful when `has(k)`).
    pub open spec fn position(self, k: Seq<char>) -> int {
        choose|i: int| 0 <= i < self.entries@.len() && #[trigger] self.entries@[i].key@ == k
    }

    /// The identifiers under `k`.
    pub open spec fn get(self, k: Seq<char>) -> Option<Seq<ObjectId>> {
        if self.has(k) {
            Some(self.entries@[self.position(k)].ids@)
        } else {
            None
        }
    }

    /// The keys in order.
    pub open spec fn keys(self) -> Seq<Seq<char>> {
        self.entries@.map_values(|e: KeyEntry| e.key@)
    }

    /// In a well-formed map the entry holding a key is the one `get` reads.
    pub proof fn lemma_get_at(self, i: int)
        requires
            self.wf(),
            0 <= i < self.entries@.len(),
        ensures
            self.has(self.entries@[i].key@),
            self.get(self.entries@[i].key@) == Some(self.entries@[i].ids@),
    {
        let k = self.entries@[i].key@;
        assert(self.entries@[i].key@ == k);
        let j = self.position(k);
        assert(0 <= j < self.entries@.len() && self.entries@[j].key@ == k);
        if j < i {
            assert(lex_lt(self.entries@[j].key@, self.entries@[i].key@));
            lemma_lex_irreflexive(k);
        } else if i < j {
            assert(lex_lt(self.entries@[i].key@, self.entries@[j].key@));
            lemma_lex_irreflexive(k);
        }
        assert(j == i);
        assert(self.has(k));
        assert(self.get(k) == Some(self.entries@[j].ids@));
    }

    /// An empty map.
    pub fn new() -> (m: KeyMap)
        ensures
            m.wf(),
            m.entries@.len() == 0,
            forall|k: Seq<char>| !m.has(k),
    {
        KeyMap { entries: Vec::new() }
    }

    /// Records `id` under `key` (`entry(key).or_default().push(id)`).
    pub fn record(&mut self, key: Vec<char>, id: ObjectId)
        requires
            old(self).wf(),
        ensures
            final(self).wf(),
            forall|k: Seq<char>| #[trigger] final(self).get(k) == if k == key@ {
                Some(match old(self).get(k) {
                    Some(ids) => ids.push(id),
                    None => seq![id],
                })
            } else {
                old(self).get(k)
            },
    {
        let ghost old_map = *self;
        let n = self.entries.len();
        let mut p: usize = 0;
        while p < n && text_less(&self.entries[p].key, &key)
            invariant
                p <= n,
                n == self.entries@.len(),
                *self == old_map,
                old_map.wf(),
                forall|q: int| 0 <= q < p ==> lex_lt(#[trigger] self.entries@[q].key@, key@),
            decreases n - p,
        {
            p = p + 1;
        }
        if p < n && text_eq(&self.entries[p].key, &key) {
            let mut entry = self.entries.remove(p);
            entry.ids.push(id);
            self.entries.insert(p, entry);
            proof {
                assert(self.entries@ == old_map.entries@.update(p as int, self.entries@[p as int]));
                assert forall|i: int, j: int| 0 <= i < j < self.entries@.len() implies lex_lt(#[trigger] self.entries@[i].key@, #[trigger] self.entries@[j].key@) by {
                    assert(old_map.entries@[i].key@ == self.entries@[i].key@);
                    assert(old_map.entries@[j].key@ == self.entries@[j].key@);
                }
                assert forall|k: Seq<char>| #[trigger] self.get(k) == if k == key@ {
                    Some(match old_map.get(k) {
                        Some(ids) => ids.push(id),
                        None => seq![id],
                    })
                } else {
                    old_map.get(k)
                } by {
                    old_map.lemma_get_at(p as int);
                    self.lemma_get_at(p as int);
                    if k != key@ {
                        if old_map.has(k) {
                            let i = choose|i: int| 0 <= i < old_map.entries@.len() && #[trigger] old_map.entries@[i].key@ == k;
                            old_map.lemma_get_at(i);
                            self.lemma_get_at(i);
                        }
                        if self.has(k) {
                            let i = choose|i: int| 0 <= i < self.entries@.len() && #[trigger] self.entries@[i].key@ == k;
                            assert(old_map.entries@[i].key@ == k);
                        }
                    }
                }
            }
        } else {
            let mut ids: Vec<ObjectId> = Vec::new();
            ids.push(id);
            let ghost kv = key@;
            self.entries.insert(p, KeyEntry { key, ids });
            proof {
                if p < n {
                    lemma_lex_total(old_map.entries@[p as int].key@, kv);
                }
                assert forall|i: int, j: int| 0 <= i < j < self.entries@.len() implies lex_lt(#[trigger] self.entries@[i].key@, #[trigger] self.entries@[j].key@) by {
                    if j < p {
                        assert(self.entries@[i] == old_map.entries@[i]);
                        assert(self.entries@[j] == old_map.entries@[j]);
                    } else if j == p {
                        assert(self.entries@[i] == old_map.entries@[i]);
                    } else if i == p {
                        assert(self.entries@[j] == old_map.entries@[j - 1]);
                        if j - 1 > p {
                            lemma_lex_transitive(kv, old_map.entries@[p as int].key@, old_map.entries@[j - 1].key@);
                        }
                    } else if i < p {
                        assert(self.entries@[i] == old_map.entries@[i]);
                        assert(self.entries@[j] == old_map.entries@[j - 1]);
                    } else {
                        assert(self.entries@[i] == old_map.entries@[i - 1]);
                        assert(self.entries@[j] == old_map.entries@[j - 1]);
                    }
                }
                assert(!old_map.has(kv)) by {
                    if old_map.has(kv) {
                        let i = choose|i: int| 0 <= i < old_map.entries@.len() && #[trigger] old_map.entries@[i].key@ == kv;
                        if i < p {
                            lemma_lex_irreflexive(kv);
                        } else if i > p {
                            lemma_lex_transitive(kv, old_map.entries@[p as int].key@, old_map.entries@[i].key@);
                            lemma_lex_irreflexive(kv);
                        }
                    }
                }
                assert forall|k: Seq<char>| #[trigger] self.get(k) == if k == kv {
                    Some(match old_map.get(k) {
                        Some(ids) => ids.push(id),
                        None => seq![id],
                    })
                } else {
                    old_map.get(k)
                } by {
                    self.lemma_get_at(p as int);
                    assert(self.entries@[p as int].ids@ =~= seq![id]);
                    if k != kv {
                        if old_map.has(k) {
                            let i = choose|i: int| 0 <= i < old_map.entries@.len() && #[trigger] old_map.entries@[i].key@ == k;
                            old_map.lemma_get_at(i);
                            if i < p {
                                assert(self.entries@[i] == old_map.entries@[i]);
                                self.lemma_get_at(i);
                            } else {
                                assert(self.entries@[i + 1] == old_map.entries@[i]);
                                self.lemma_get_at(i + 1);
                            }
                        }
                        if self.has(k) {
                            let i = choose|i: int| 0 <= i < self.entries@.len() && #[trigger] self.entries@[i].key@ == k;
                            if i < p {
                                assert(old_map.entries@[i] == self.entries@[i]);
                            } else if i > p {
                                assert(old_map.entries@[i - 1] == self.entries@[i]);
                            }
                        }
                    }
                }
            }
        }
    }

    /// The identifiers under `key`, when present.
    pub fn lookup(&self, key: &Vec<char>) -> (r: Option<&Vec<ObjectId>>)
        requires
            self.wf(),
        ensures
            match r {
                Some(ids) => self.get(key@) == Some(ids@),
                None => self.get(key@) is None,
            },
    {
        let mut i: usize = 0;
        while i < self.entries.len()
            invariant
                i <= self.entries@.len(),
                self.wf(),
                forall|q: int| 0 <= q < i ==> #[trigger] self.entries@[q].key@ != key@,
            decreases self.entries.len() - i,
        {
            if text_eq(&self.entries[i].key, key) {
                proof {
                    self.lemma_get_at(i as int);
                }
                return Some(&self.entries[i].ids);
            }
            i = i + 1;
        }
        None
    }

    /// Whether `key` is present.
    pub fn contains_key(&self, key: &Vec<char>) -> (b: bool)
        requires
            self.wf(),
        ensures
            b == self.has(key@),
    {
        match self.lookup(key) {
            Some(_) => true,
            None => false,
        }
    }
}

/// Groups identifiers by key (building an ordered map from pairs).
pub fn build_map(pairs: &Vec<(Option<Vec<char>>, ObjectId)>) -> (m: KeyMap)
    ensures
        m.wf(),
        forall|k: Seq<char>| #[trigger] m.get(k) == grouped(pair_views(pairs@), k),
{
    let mut m = KeyMap::new();
    let mut i: usize = 0;
    while i < pairs.len()
        invariant
            i <= pairs.len(),
            m.wf(),
            forall|k: Seq<char>| #[trigger] m.get(k) == grouped(pair_views(pairs@).subrange(0, i as int), k),
        decreases pairs.len() - i,
    {
        let ghost before = m;
        let ghost sub = pair_views(pairs@).subrange(0, i + 1);
        assert(sub.drop_last() =~= pair_views(pairs@).subrange(0, i as int));
        match &pairs[i].0 {
            Some(key) => {
                m.record(key.clone(), pairs[i].1);
            },
            None => {},
        }
        i = i + 1;
        assert forall|k: Seq<char>| #[trigger] m.get(k) == grouped(sub, k) by {
        }
    }
    assert(pair_views(pairs@).subrange(0, pairs.len() as int) =~= pair_views(pairs@));
    m
}

/// The key view of one exec pair.
pub open spec fn pair_view(p: (Option<Vec<char>>, ObjectId)) -> (Option<Seq<char>>, ObjectId) {
    (
        match p.0 {
            Some(k) => Some(k@),
            None => None,
        },
        p.1,
    )
}

/// The key views of exec pairs.
pub open spec fn pair_views(pairs: Seq<(Option<Vec<char>>, ObjectId)>) -> Seq<(Option<Seq<char>>, ObjectId)> {
    pairs.map_values(|p: (Option<Vec<char>>, ObjectId)| pair_view(p))
}

/// Pushing a pair extends its views by the pair's view.
pub proof fn lemma_pair_views_push(pairs: Seq<(Option<Vec<char>>, ObjectId)>, p: (Option<Vec<char>>, ObjectId))
    ensures
        pair_views(pairs.push(p)) == pair_views(pairs).push(pair_view(p)),
{
    assert(pair_views(pairs.push(p)) =~= pair_views(pairs).push(pair_view(p)));
}

/// A key present in two maps, with the identifiers each side recorded.
pub struct SharedKey {
    pub key: Vec<char>,
    pub a_ids: Vec<ObjectId>,
    pub b_ids: Vec<ObjectId>,
}

/// The keys of `a` (in order) that `b` also holds.
pub open spec fn shared_keys(a_keys: Seq<Seq<char>>, b: KeyMap) -> Seq<Seq<char>> {
    a_keys.filter(|k: Seq<char>| b.has(k))
}

/// Intersects two maps in `a`'s key order.
pub fn intersect(a: &KeyMap, b: &KeyMap) -> (r: Vec<SharedKey>)
    requires
        a.wf(),
        b.wf(),
    ensures
        r@.map_values(|s: SharedKey| s.key@) == shared_keys(a.keys(), *b),
        forall|i: int| 0 <= i < r@.len() ==> a.get(#[trigger] r@[i].key@) == Some(r@[i].a_ids@) && b.get(
            r@[i].key@,
        ) == Some(r@[i].b_ids@),
{
    let mut r: Vec<SharedKey> = Vec::new();
    let mut i: usize = 0;
    while i < a.entries.len()
        invariant
            i <= a.entries@.len(),
            a.wf(),
            b.wf(),
            r@.map_values(|s: SharedKey| s.key@) == shared_keys(a.keys().subrange(0, i as int), *b),
            forall|q: int| 0 <= q < r@.len() ==> a.get(#[trigger] r@[q].key@) == Some(r@[q].a_ids@) && b.get(
                r@[q].key@,
            ) == Some(r@[q].b_ids@),
        decreases a.entries.len() - i,
    {
        let ghost ks = a.keys().subrange(0, i + 1);
        assert(ks.drop_last() =~= a.keys().subrange(0, i as int));
        assert(ks.last() == a.entries@[i as int].key@);
        proof {
            a.lemma_get_at(i as int);
        }
        match b.lookup(&a.entries[i].key) {
            Some(b_ids) => {
                r.push(SharedKey { key: a.entries[i].key.clone(), a_ids: a.entries[i].ids.clone(), b_ids: b_ids.clone() });
                assert(r@.map_values(|s: SharedKey| s.key@) =~= shared_keys(ks, *b)) by {
                    reveal(Seq::filter);
                    assert(shared_keys(ks, *b) == shared_keys(ks.drop_last(), *b).push(ks.last()));
                }
            },
            None => {
                assert(r@.map_values(|s: SharedKey| s.key@) =~= shared_keys(ks, *b)) by {
                    reveal(Seq::filter);
                    assert(shared_keys(ks, *b) == shared_keys(ks.drop_last(), *b));
                }
            },
        }
        i = i + 1;
    }
    assert(a.keys().subrange(0, a.entries@.len() as int) =~= a.keys());
    r
}

/// A set of texts held in strictly ascending order (an ordered set).
pub struct TextSet {
    pub items: Vec<Vec<char>>,
}

impl TextSet {
    /// Items strictly ascending.
    pub open spec fn wf(self) -> bool {
        forall|i: int, j: int| 0 <= i < j < self.items@.len() ==> lex_lt(#[trigger] self.items@[i]@, #[trigger] self.items@[j]@)
    }

    /// The items as a sequence of texts.
    pub open spec fn seq(self) -> Seq<Seq<char>> {
        self.items@.map_values(|t: Vec<char>| t@)
    }

    /// Membership.
    pub open spec fn has(self, t: Seq<char>) -> bool {
        self.seq().contains(t)
    }

    /// An empty set.
    pub fn new() -> (s: TextSet)
        ensures
            s.wf(),
            s.seq().len() == 0,
    {
        TextSet { items: Vec::new() }
    }

    /// Inserts `t`, keeping the order.
    pub fn insert(&mut self, t: Vec<char>)
        requires
            old(self).wf(),
        ensures
            final(self).wf(),
            forall|x: Seq<char>| #[trigger] final(self).has(x) == (old(self).has(x) || x == t@),
    {
        let ghost old_set = *self;
        let n = self.items.len();
        let mut p: usize = 0;
        while p < n && text_less(&self.items[p], &t)
            invariant
                p <= n,
                n == self.items@.len(),
                *self == old_set,
                old_set.wf(),
                forall|q: int| 0 <= q < p ==> lex_lt(#[trigger] self.items@[q]@, t@),
            decreases n - p,
        {
            p = p + 1;
        }
        if p < n && text_eq(&self.items[p], &t) {
            proof {
                assert(old_set.seq()[p as int] == t@);
            }
            return;
        }
        let ghost tv = t@;
        self.items.insert(p, t);
        proof {
            if p < n {
                lemma_lex_total(old_set.items@[p as int]@, tv);
            }
            assert forall|i: int, j: int| 0 <= i < j < self.items@.len() implies lex_lt(#[trigger] self.items@[i]@, #[trigger] self.items@[j]@) by {
                if j < p {
                    assert(self.items@[i] == old_set.items@[i]);
                    assert(self.items@[j] == old_set.items@[j]);
                } else if j == p {
                    assert(self.items@[i] == old_set.items@[i]);
                } else if i == p {
                    assert(self.items@[j] == old_set.items@[j - 1]);
                    if j - 1 > p {
                        lemma_lex_transitive(tv, old_set.items@[p as int]@, old_set.items@[j - 1]@);
                    }
                } else if i < p {
                    assert(self.items@[i] == old_set.items@[i]);
                    assert(self.items@[j] == old_set.items@[j - 1]);
                } else {
                    assert(self.items@[i] == old_set.items@[i - 1]);
                    assert(self.items@[j] == old_set.items@[j - 1]);
                }
            }
            assert(self.seq() =~= old_set.seq().insert(p as int, tv));
            assert forall|x: Seq<char>| #[trigger] self.has(x) == (old_set.has(x) || x == tv) by {
                if self.has(x) {
                    let i = choose|i: int| 0 <= i < self.seq().len() && self.seq()[i] == x;
                    if i < p {
                        assert(old_set.seq()[i] == x);
                    } else if i > p {
                        assert(old_set.seq()[i - 1] == x);
                    }
                }
                if old_set.has(x) {
                    let i = choose|i: int| 0 <= i < old_set.seq().len() && old_set.seq()[i] == x;
                    if i < p {
                        assert(self.seq()[i] == x);
                    } else {
                        assert(self.seq()[i + 1] == x);
                    }
                }
                if x == tv {
                    assert(self.seq()[p as int] == x);
                }
            }
        }
    }

    /// Membership (exec).
    pub fn contains(&self, t: &Vec<char>) -> (b: bool)
        ensures
            b == self.has(t@),
    {
        let mut i: usize = 0;
        while i < self.items.len()
            invariant
                i <= self.items@.len(),
                forall|q: int| 0 <= q < i ==> self.items@[q]@ != t@,
            decreases self.items.len() - i,
        {
            if text_eq(&self.items[i], t) {
                assert(self.seq()[i as int] == t@);
                return true;
            }
            i = i + 1;
        }
        assert(!self.seq().contains(t@)) by {
            if self.seq().contains(t@) {
                let q = choose|q: int| 0 <= q < self.seq().len() && self.seq()[q] == t@;
                assert(self.items@[q]@ == t@);
            }
        }
        false
    }

    /// Number of items.
    pub fn len(&self) -> (n: usize)
        ensures
            n == self.seq().len(),
    {
        self.items.len()
    }
}

/// In a well-formed set the items are distinct.
pub proof fn lemma_text_set_distinct(s: TextSet)
    requires
        s.wf(),
    ensures
        s.seq().no_duplicates(),
{
    assert forall|i: int, j: int| 0 <= i < s.seq().len() && 0 <= j < s.seq().len() && i != j implies s.seq()[i] != s.seq()[j] by {
        if i < j {
            assert(lex_lt(s.items@[i]@, s.items@[j]@));
            lemma_lex_irreflexive(s.items@[i]@);
        } else {
            assert(lex_lt(s.items@[j]@, s.items@[i]@));
            lemma_lex_irreflexive(s.items@[j]@);
        }
    }
}

/// Texts in strictly ascending order.
pub open spec fn sorted_texts(ks: Seq<Seq<char>>) -> bool {
    forall|i: int, j: int| 0 <= i < j < ks.len() ==> lex_lt(#[trigger] ks[i], #[trigger] ks[j])
}

/// Sorted texts are distinct.
pub proof fn lemma_sorted_unique(ks: Seq<Seq<char>>)
    requires
        sorted_texts(ks),
    ensures
        ks.no_duplicates(),
{
    assert forall|i: int, j: int| 0 <= i < ks.len() && 0 <= j < ks.len() && i != j implies ks[i] != ks[j] by {
        if i < j {
            assert(lex_lt(ks[i], ks[j]));
            lemma_lex_irreflexive(ks[i]);
        } else {
            assert(lex_lt(ks[j], ks[i]));
            lemma_lex_irreflexive(ks[j]);
        }
    }
}

/// Filtering keeps texts sorted.
pub proof fn lemma_filter_sorted(ks: Seq<Seq<char>>, p: spec_fn(Seq<char>) -> bool)
    requires
        sorted_texts(ks),
    ensures
        sorted_texts(ks.filter(p)),
        forall|x: Seq<char>| #[trigger] ks.filter(p).contains(x) == (ks.contains(x) && p(x)),
    decreases ks.len(),
{
    broadcast use vstd::seq_lib::group_seq_properties;
    assert forall|x: Seq<char>| #[trigger] ks.filter(p).contains(x) == (ks.contains(x) && p(x)) by {
        if ks.filter(p).contains(x) {
            ks.lemma_filter_contains_rev(p, x);
            let q = choose|q: int| 0 <= q < ks.filter(p).len() && ks.filter(p)[q] == x;
            assert(p(ks.filter(p)[q]));
        }
        if ks.contains(x) && p(x) {
            let q = choose|q: int| 0 <= q < ks.len() && ks[q] == x;
            ks.lemma_filter_contains(p, q);
        }
    }
    reveal(Seq::filter);
    if ks.len() > 0 {
        let init = ks.drop_last();
        assert(sorted_texts(init)) by {
            assert forall|i: int, j: int| 0 <= i < j < init.len() implies lex_lt(#[trigger] init[i], #[trigger] init[j]) by {
                assert(init[i] == ks[i] && init[j] == ks[j]);
            }
        }
        lemma_filter_sorted(init, p);
        let f0 = init.filter(p);
        if p(ks.last()) {
            let f1 = f0.push(ks.last());
            assert(ks.filter(p) == f1);
            assert forall|i: int, j: int| 0 <= i < j < f1.len() implies lex_lt(#[trigger] f1[i], #[trigger] f1[j]) by {
                if j == f1.len() - 1 {
                    assert(f0.contains(f1[i])) by {
                        assert(f0[i] == f1[i]);
                    }
                    assert(init.contains(f1[i]));
                    let q = choose|q: int| 0 <= q < init.len() && init[q] == f1[i];
                    assert(lex_lt(ks[q], ks[ks.len() - 1]));
                } else {
                    assert(f1[i] == f0[i] && f1[j] == f0[j]);
                }
            }
        } else {
            assert(ks.filter(p) == f0);
        }
    }
}

impl KeyMap {
    /// The keys of a well-formed map are sorted and are exactly its keys.
    pub proof fn lemma_keys(self)
        requires
            self.wf(),
        ensures
            sorted_texts(self.keys()),
            self.keys().len() == self.entries@.len(),
            forall|k: Seq<char>| #[trigger] self.keys().contains(k) == self.has(k),
    {
        assert forall|k: Seq<char>| #[trigger] self.keys().contains(k) == self.has(k) by {
            if self.has(k) {
                let i = self.position(k);
                assert(self.keys()[i] == k);
            }
            if self.keys().contains(k) {
                let i = choose|i: int| 0 <= i < self.keys().len() && self.keys()[i] == k;
                assert(self.entries@[i].key@ == k);
            }
        }
    }
}

} // verus!
