//! Structured and free-text search over Investigations.
//!
//! Structured fields are conjunctive filters; text adds lexical and
//! semantic factors. Scores are thousandths; each fired factor contributes
//! its weight (or its weight scaled by a ratio, rounded down).

use vstd::prelude::*;
use crate::error::RivoraError;
use crate::graph::{
    connector_sources, disposition_pairs, file_pairs, file_path_keys, fixed2, learning_dispositions, push_fixed2, repository_keys,
    repository_pairs, significant_tokens, source_pairs, verification_outcomes, verification_pairs,
};
use crate::ids::{uuid_chars, uuid_text, InvestigationId, ObjectId};
use crate::keymap::{grouped, KeyMap};
use crate::model::{ContextBundle, Investigation, InvestigationRelationship, Observation};
use crate::search::{
    compose_explanation, corpus_spec, explanation_spec, search_corpus, MatchedEvidence, RankingFactor, SearchQuery, SearchResult,
    SEMANTIC_MIN_SIMILARITY, WEIGHT_EXACT_ID, WEIGHT_FILTER_MATCH, WEIGHT_OUTCOME_MATCH, WEIGHT_SEMANTIC_SIMILARITY, WEIGHT_SHARED_ARTIFACT,
    WEIGHT_SHARED_REPOSITORY, WEIGHT_TEXT_OVERLAP, WEIGHT_VERIFICATION_OVERLAP,
};
use crate::similarity::{
    dispositions, has_signal, lemma_created_bounds, max_created, min_created, ordered_results, recency_part, recency_score, row_age,
    row_span, Row, evidence_view, evidence_views, intersect_sets, lemma_sorted_same, lemma_token_set, matched_tokens, text_fires, text_score, token_set,
    EvidenceView,
};
use crate::graph::{lemma_set_view, significant_seq};
use crate::keymap::{sorted_texts, TextSet};
use crate::text::{join_chars, join_seqs};
use crate::text::{lower_chars, lowercase_of, push_chars, push_str, to_string};

verus! {

/// One fired factor when the key is held, none otherwise.
pub open spec fn keyed_part(factor: RankingFactor, detail: Seq<char>, g: Option<Seq<ObjectId>>) -> Seq<EvidenceView> {
    match g {
        Some(ids) => seq![(factor, detail, ids)],
        None => seq![],
    }
}

/// The weight when the key is held, nothing otherwise.
pub open spec fn keyed_score(weight: nat, g: Option<Seq<ObjectId>>) -> nat {
    if g is Some { weight } else { 0 }
}

/// One filter-match factor when the filter is set.
pub open spec fn filter_part(set: bool, detail: Seq<char>) -> Seq<EvidenceView> {
    if set { seq![(RankingFactor::FilterMatch, detail, seq![])] } else { seq![] }
}

/// The repository factor (the filter compared lowercased).
pub open spec fn repository_part(q: SearchQuery, b: ContextBundle) -> Seq<EvidenceView> {
    match q.repository {
        Some(r) => keyed_part(
            RankingFactor::SharedRepository,
            "repository `"@ + lowercase_of(r@) + "`"@,
            grouped(repository_pairs(b.observations@), lowercase_of(r@)),
        ),
        None => seq![],
    }
}

/// The outcome factor.
pub open spec fn outcome_part(q: SearchQuery, b: ContextBundle) -> Seq<EvidenceView> {
    match q.outcome {
        Some(d) => keyed_part(
            RankingFactor::OutcomeMatch,
            "outcome `"@ + d.text() + "` recorded"@,
            grouped(disposition_pairs(b.learning@), d.text()),
        ),
        None => seq![],
    }
}

/// The verification result factor.
pub open spec fn verification_part(q: SearchQuery, b: ContextBundle) -> Seq<EvidenceView> {
    match q.verification_result {
        Some(v) => keyed_part(
            RankingFactor::VerificationOverlap,
            "verification result `"@ + v.text() + "`"@,
            grouped(verification_pairs(b.verifications@), v.text()),
        ),
        None => seq![],
    }
}

/// The changed-file factor.
pub open spec fn file_part(q: SearchQuery, b: ContextBundle) -> Seq<EvidenceView> {
    match q.file {
        Some(f) => keyed_part(RankingFactor::SharedArtifact, "changed file `"@ + f@ + "`"@, grouped(file_pairs(b.observations@), f@)),
        None => seq![],
    }
}

/// The factors of the structured filters, in order: repository, outcome,
/// verification result, status, connector source, creation date range,
/// relationship kind, changed file.
pub open spec fn filter_fired(q: SearchQuery, b: ContextBundle) -> Seq<EvidenceView> {
    repository_part(q, b) + outcome_part(q, b) + verification_part(q, b) + flag_fired(q) + file_part(q, b)
}

/// The score of the changed-file factor.
pub open spec fn file_score(q: SearchQuery, b: ContextBundle) -> nat {
    match q.file {
        Some(f) => keyed_score(WEIGHT_SHARED_ARTIFACT as nat, grouped(file_pairs(b.observations@), f@)),
        None => 0,
    }
}

/// The contribution of the structured filters.
pub open spec fn filter_score(q: SearchQuery, b: ContextBundle) -> nat {
    keyed_head_score(q, b) + flag_score(q) + file_score(q, b)
}

/// Some stored relationship of this kind touches the Investigation.
pub open spec fn kind_touches(rels: Seq<InvestigationRelationship>, k: crate::vocab::RelationshipKind, id: InvestigationId) -> bool {
    exists|i: int| 0 <= i < rels.len() && #[trigger] rels[i].kind == k && rels[i].touches_spec(id)
}

/// The Investigation passes every structured filter of the query.
pub open spec fn passes(q: SearchQuery, rels: Seq<InvestigationRelationship>, inv: Investigation, b: ContextBundle) -> bool {
    &&& (q.status matches Some(s) ==> inv.status == s)
    &&& (q.created_after matches Some(a) ==> inv.created_at >= a)
    &&& (q.created_before matches Some(z) ==> inv.created_at <= z)
    &&& (q.repository matches Some(r) ==> grouped(repository_pairs(b.observations@), lowercase_of(r@)) is Some)
    &&& (q.connector_source matches Some(s) ==> grouped(source_pairs(b.observations@), s@) is Some)
    &&& (q.verification_result matches Some(v) ==> grouped(verification_pairs(b.verifications@), v.text()) is Some)
    &&& (q.outcome matches Some(d) ==> grouped(disposition_pairs(b.learning@), d.text()) is Some)
    &&& (q.relationship_kind matches Some(k) ==> kind_touches(rels, k, inv.id))
    &&& (q.file matches Some(f) ==> grouped(file_pairs(b.observations@), f@) is Some)
}

/// Whether some stored relationship of this kind touches the Investigation.
fn any_kind_touching(rels: &Vec<InvestigationRelationship>, k: crate::vocab::RelationshipKind, id: InvestigationId) -> (b: bool)
    ensures
        b == kind_touches(rels@, k, id),
{
    let mut i: usize = 0;
    while i < rels.len()
        invariant
            i <= rels@.len(),
            forall|j: int| 0 <= j < i ==> !(#[trigger] rels@[j].kind == k && rels@[j].touches_spec(id)),
        decreases rels.len() - i,
    {
        if rels[i].kind == k && rels[i].touches(id) {
            return true;
        }
        i = i + 1;
    }
    false
}

/// Whether the map holds the key given as a string slice.
fn holds(m: &KeyMap, key: &str) -> (b: bool)
    requires
        m.wf(),
    ensures
        b == (m.get(key@) is Some),
{
    let k = crate::text::chars_of(key);
    proof {
        assert(m.has(k@) == (m.get(k@) is Some));
    }
    m.contains_key(&k)
}

/// Whether the Investigation passes every structured filter (`want` is the
/// lowercased repository filter).
pub fn passes_filters(
    query: &SearchQuery,
    want: &Option<Vec<char>>,
    rels: &Vec<InvestigationRelationship>,
    inv: &Investigation,
    b: &ContextBundle,
) -> (ok: bool)
    requires
        match *want {
            Some(w) => query.repository is Some && w@ == lowercase_of(query.repository->0@),
            None => query.repository is None,
        },
    ensures
        ok == passes(*query, rels@, *inv, *b),
{
    if let Some(s) = query.status {
        if inv.status != s {
            return false;
        }
    }
    if let Some(a) = query.created_after {
        if inv.created_at < a {
            return false;
        }
    }
    if let Some(z) = query.created_before {
        if inv.created_at > z {
            return false;
        }
    }
    if let Some(w) = want {
        let repos = repository_keys(&b.observations);
        proof {
            assert(repos.has(w@) == (repos.get(w@) is Some));
        }
        if !repos.contains_key(w) {
            return false;
        }
    }
    if let Some(src) = &query.connector_source {
        let sources = connector_sources(&b.observations);
        if !holds(&sources, src.as_str()) {
            return false;
        }
    }
    if let Some(v) = query.verification_result {
        let outcomes = verification_outcomes(&b.verifications);
        if !holds(&outcomes, v.as_str()) {
            return false;
        }
    }
    if let Some(d) = query.outcome {
        let dispositions = learning_dispositions(&b.learning);
        if !holds(&dispositions, d.as_str()) {
            return false;
        }
    }
    if let Some(k) = query.relationship_kind {
        if !any_kind_touching(rels, k, inv.id) {
            return false;
        }
    }
    if let Some(f) = &query.file {
        let files = file_path_keys(&b.observations);
        if !holds(&files, f.as_str()) {
            return false;
        }
    }
    true
}

/// Appends one fired factor.
fn push_evidence(out: &mut Vec<MatchedEvidence>, factor: RankingFactor, detail: Vec<char>, ids: Vec<ObjectId>)
    ensures
        evidence_views(final(out)@) == evidence_views(old(out)@).push((factor, detail@, ids@)),
{
    let m = MatchedEvidence { factor, detail: to_string(&detail), object_ids: ids };
    out.push(m);
    assert(evidence_views(out@) =~= evidence_views(old(out)@).push(evidence_view(m)));
}

/// A copy of the identifiers a map holds under the key, if any.
fn lookup_ids(m: &KeyMap, key: &Vec<char>) -> (r: Option<Vec<ObjectId>>)
    requires
        m.wf(),
    ensures
        match r {
            Some(ids) => m.get(key@) == Some(ids@),
            None => m.get(key@) is None,
        },
{
    match m.lookup(key) {
        Some(ids) => Some(crate::ids::copy_object_ids(ids)),
        None => None,
    }
}

/// The score of the repository, outcome and verification result factors.
pub open spec fn keyed_head_score(q: SearchQuery, b: ContextBundle) -> nat {
    (match q.repository {
        Some(r) => keyed_score(WEIGHT_SHARED_REPOSITORY as nat, grouped(repository_pairs(b.observations@), lowercase_of(r@))),
        None => 0,
    }) + (match q.outcome {
        Some(d) => keyed_score(WEIGHT_OUTCOME_MATCH as nat, grouped(disposition_pairs(b.learning@), d.text())),
        None => 0,
    }) + (match q.verification_result {
        Some(v) => keyed_score(WEIGHT_VERIFICATION_OVERLAP as nat, grouped(verification_pairs(b.verifications@), v.text())),
        None => 0,
    })
}

/// The repository, outcome and verification result factors.
fn keyed_head_signals(query: &SearchQuery, want: &Option<Vec<char>>, b: &ContextBundle) -> (r: (Vec<MatchedEvidence>, u64))
    requires
        match *want {
            Some(w) => query.repository is Some && w@ == lowercase_of(query.repository->0@),
            None => query.repository is None,
        },
    ensures
        evidence_views(r.0@) == repository_part(*query, *b) + outcome_part(*query, *b) + verification_part(*query, *b),
        r.1 == keyed_head_score(*query, *b),
        r.1 <= 1100,
{
    let mut fired: Vec<MatchedEvidence> = Vec::new();
    let mut score: u64 = 0;
    if let Some(w) = want {
        let repos = repository_keys(&b.observations);
        if let Some(ids) = lookup_ids(&repos, w) {
            let mut d: Vec<char> = Vec::new();
            push_str(&mut d, "repository `");
            push_chars(&mut d, w);
            push_str(&mut d, "`");
            push_evidence(&mut fired, RankingFactor::SharedRepository, d, ids);
            score = score + WEIGHT_SHARED_REPOSITORY as u64;
        }
    }
    let ghost s1 = evidence_views(fired@);
    assert(s1 =~= repository_part(*query, *b));
    if let Some(o) = query.outcome {
        let ds = learning_dispositions(&b.learning);
        let key = crate::text::chars_of(o.as_str());
        if let Some(ids) = lookup_ids(&ds, &key) {
            let mut d: Vec<char> = Vec::new();
            push_str(&mut d, "outcome `");
            push_str(&mut d, o.as_str());
            push_str(&mut d, "` recorded");
            push_evidence(&mut fired, RankingFactor::OutcomeMatch, d, ids);
            score = score + WEIGHT_OUTCOME_MATCH as u64;
        }
    }
    let ghost s2 = evidence_views(fired@);
    assert(s2 =~= s1 + outcome_part(*query, *b));
    if let Some(v) = query.verification_result {
        let vs = verification_outcomes(&b.verifications);
        let key = crate::text::chars_of(v.as_str());
        if let Some(ids) = lookup_ids(&vs, &key) {
            let mut d: Vec<char> = Vec::new();
            push_str(&mut d, "verification result `");
            push_str(&mut d, v.as_str());
            push_str(&mut d, "`");
            push_evidence(&mut fired, RankingFactor::VerificationOverlap, d, ids);
            score = score + WEIGHT_VERIFICATION_OVERLAP as u64;
        }
    }
    assert(evidence_views(fired@) =~= s2 + verification_part(*query, *b));
    (fired, score)
}

/// The status, connector source, date range and relationship kind factors.
pub open spec fn flag_fired(q: SearchQuery) -> Seq<EvidenceView> {
    filter_part(q.status is Some, "status `"@ + q.status->0.text() + "`"@) + filter_part(
        q.connector_source is Some,
        "connector source `"@ + q.connector_source->0@ + "`"@,
    ) + filter_part(q.created_after is Some || q.created_before is Some, "creation date range"@) + filter_part(
        q.relationship_kind is Some,
        "relationship kind `"@ + q.relationship_kind->0.text() + "`"@,
    )
}

/// The score of the flag factors.
pub open spec fn flag_score(q: SearchQuery) -> nat {
    (if q.status is Some { WEIGHT_FILTER_MATCH as nat } else { 0 }) + (if q.connector_source is Some {
        WEIGHT_FILTER_MATCH as nat
    } else {
        0
    }) + (if q.created_after is Some || q.created_before is Some { WEIGHT_FILTER_MATCH as nat } else { 0 }) + (if q.relationship_kind is Some {
        WEIGHT_FILTER_MATCH as nat
    } else {
        0
    })
}

/// The flag factors.
fn flag_signals(query: &SearchQuery) -> (r: (Vec<MatchedEvidence>, u64))
    ensures
        evidence_views(r.0@) == flag_fired(*query),
        r.1 == flag_score(*query),
        r.1 <= 400,
{
    let mut fired: Vec<MatchedEvidence> = Vec::new();
    let mut score: u64 = 0;
    if let Some(s) = query.status {
        let mut d: Vec<char> = Vec::new();
        push_str(&mut d, "status `");
        push_str(&mut d, s.as_str());
        push_str(&mut d, "`");
        push_evidence(&mut fired, RankingFactor::FilterMatch, d, Vec::new());
        score = score + WEIGHT_FILTER_MATCH as u64;
    }
    let ghost s4 = evidence_views(fired@);
    assert(s4 =~= filter_part(query.status is Some, "status `"@ + query.status->0.text() + "`"@));
    if let Some(src) = &query.connector_source {
        let mut d: Vec<char> = Vec::new();
        push_str(&mut d, "connector source `");
        push_str(&mut d, src.as_str());
        push_str(&mut d, "`");
        push_evidence(&mut fired, RankingFactor::FilterMatch, d, Vec::new());
        score = score + WEIGHT_FILTER_MATCH as u64;
    }
    let ghost s5 = evidence_views(fired@);
    assert(s5 =~= s4 + filter_part(query.connector_source is Some, "connector source `"@ + query.connector_source->0@ + "`"@));
    if query.created_after.is_some() || query.created_before.is_some() {
        let mut d: Vec<char> = Vec::new();
        push_str(&mut d, "creation date range");
        push_evidence(&mut fired, RankingFactor::FilterMatch, d, Vec::new());
        score = score + WEIGHT_FILTER_MATCH as u64;
    }
    let ghost s6 = evidence_views(fired@);
    assert(s6 =~= s5 + filter_part(query.created_after is Some || query.created_before is Some, "creation date range"@));
    if let Some(k) = query.relationship_kind {
        let mut d: Vec<char> = Vec::new();
        push_str(&mut d, "relationship kind `");
        push_str(&mut d, k.as_str());
        push_str(&mut d, "`");
        push_evidence(&mut fired, RankingFactor::FilterMatch, d, Vec::new());
        score = score + WEIGHT_FILTER_MATCH as u64;
    }
    assert(evidence_views(fired@) =~= s6 + filter_part(query.relationship_kind is Some, "relationship kind `"@ + query.relationship_kind->0.text() + "`"@));
    (fired, score)
}

/// The changed-file factor.
fn file_signal(query: &SearchQuery, b: &ContextBundle) -> (r: (Vec<MatchedEvidence>, u64))
    ensures
        evidence_views(r.0@) == file_part(*query, *b),
        r.1 == file_score(*query, *b),
        r.1 <= 600,
{
    let mut fired: Vec<MatchedEvidence> = Vec::new();
    let mut score: u64 = 0;
    if let Some(f) = &query.file {
        let files = file_path_keys(&b.observations);
        let key = crate::text::chars_of(f.as_str());
        if let Some(ids) = lookup_ids(&files, &key) {
            let mut d: Vec<char> = Vec::new();
            push_str(&mut d, "changed file `");
            push_str(&mut d, f.as_str());
            push_str(&mut d, "`");
            push_evidence(&mut fired, RankingFactor::SharedArtifact, d, ids);
            score = score + WEIGHT_SHARED_ARTIFACT as u64;
        }
    }
    assert(evidence_views(fired@) =~= file_part(*query, *b));
    (fired, score)
}

/// The structured-filter factors of one Investigation and their contribution.
fn filter_signals(query: &SearchQuery, want: &Option<Vec<char>>, b: &ContextBundle) -> (r: (Vec<MatchedEvidence>, u64))
    requires
        match *want {
            Some(w) => query.repository is Some && w@ == lowercase_of(query.repository->0@),
            None => query.repository is None,
        },
    ensures
        evidence_views(r.0@) == filter_fired(*query, *b),
        r.1 == filter_score(*query, *b),
        r.1 <= 2100,
{
    let (mut fired, s1) = keyed_head_signals(query, want, b);
    let (flags, s2) = flag_signals(query);
    let (file, s3) = file_signal(query, b);
    let ghost head = evidence_views(fired@);
    crate::similarity::append_evidence(&mut fired, flags);
    crate::similarity::append_evidence(&mut fired, file);
    assert(evidence_views(fired@) == head + flag_fired(*query) + file_part(*query, *b));
    (fired, s1 + s2 + s3)
}

/// The matched query tokens, ascending.
pub open spec fn matched_list(t: Seq<char>, c: Seq<char>) -> Seq<Seq<char>> {
    choose|s: Seq<Seq<char>>|
        sorted_texts(s) && forall|k: Seq<char>| #[trigger] s.contains(k) == (token_set(t).contains(k) && token_set(c).contains(k))
}

/// The observation's summary holds a token of both the query and the corpus.
pub open spec fn meets(o: Observation, t: Seq<char>, c: Seq<char>) -> bool {
    exists|k: Seq<char>| #![trigger token_set(o.summary@).contains(k)]
        token_set(o.summary@).contains(k) && token_set(t).contains(k) && token_set(c).contains(k)
}

/// Identifiers of the observations whose summary holds a matched token.
pub open spec fn hit_ids(obs: Seq<Observation>, t: Seq<char>, c: Seq<char>) -> Seq<ObjectId>
    decreases obs.len(),
{
    if obs.len() == 0 {
        seq![]
    } else if meets(obs.last(), t, c) {
        hit_ids(obs.drop_last(), t, c).push(obs.last().id)
    } else {
        hit_ids(obs.drop_last(), t, c)
    }
}

/// The text factor of a query `t` against a corpus `c`: the matched tokens
/// and the contribution, citing the observations that hold them.
pub open spec fn query_text_part(t: Seq<char>, c: Seq<char>, obs: Seq<Observation>) -> Seq<EvidenceView> {
    if text_fires(t, c) {
        seq![(
            RankingFactor::TextOverlap,
            "text tokens ["@ + join_seqs(matched_list(t, c), ", "@) + "] ("@ + fixed2(
                WEIGHT_TEXT_OVERLAP as nat * matched_tokens(t, c),
                1000 * token_set(t).len(),
            ) + ")"@,
            hit_ids(obs, t, c),
        )]
    } else {
        seq![]
    }
}

/// The semantic factor of a cosine similarity (thousandths), when it reaches
/// the threshold.
pub open spec fn semantic_part(sim: Option<u32>) -> Seq<EvidenceView> {
    match sim {
        Some(x) => if x >= SEMANTIC_MIN_SIMILARITY {
            seq![(
                RankingFactor::SemanticSimilarity,
                "semantic similarity "@ + fixed2(x as nat, 1000) + " ("@ + fixed2(WEIGHT_SEMANTIC_SIMILARITY as nat * x as nat, 1_000_000) + ")"@,
                seq![],
            )]
        } else {
            seq![]
        },
        None => seq![],
    }
}

/// The semantic contribution (thousandths, rounded down).
pub open spec fn semantic_score(sim: Option<u32>) -> nat {
    match sim {
        Some(x) => if x >= SEMANTIC_MIN_SIMILARITY { (WEIGHT_SEMANTIC_SIMILARITY as nat * x as nat / 1000) as nat } else { 0 },
        None => 0,
    }
}

/// The text and semantic factors, when the query text has tokens.
pub open spec fn text_fired(q: SearchQuery, inv: Investigation, b: ContextBundle, sim: Option<u32>) -> Seq<EvidenceView> {
    match q.text {
        Some(t) => if token_set(t@).len() > 0 {
            query_text_part(t@, corpus_spec(inv, b), b.observations@) + semantic_part(sim)
        } else {
            seq![]
        },
        None => seq![],
    }
}

/// The text and semantic contributions.
pub open spec fn text_raw(q: SearchQuery, inv: Investigation, b: ContextBundle, sim: Option<u32>) -> nat {
    match q.text {
        Some(t) => if token_set(t@).len() > 0 { text_score(t@, corpus_spec(inv, b)) + semantic_score(sim) } else { 0 },
        None => 0,
    }
}

/// Whether the two sets share an item.
fn sets_meet(a: &TextSet, b: &TextSet) -> (r: bool)
    ensures
        r == exists|k: Seq<char>| #![trigger a.has(k)] a.has(k) && b.has(k),
{
    let mut i: usize = 0;
    while i < a.items.len()
        invariant
            i <= a.items@.len(),
            forall|q: int| 0 <= q < i ==> !b.has(#[trigger] a.seq()[q]),
        decreases a.items.len() - i,
    {
        if b.contains(&a.items[i]) {
            assert(a.has(a.seq()[i as int]));
            return true;
        }
        i = i + 1;
    }
    assert forall|k: Seq<char>| a.has(k) implies !b.has(k) by {
        let q = choose|q: int| 0 <= q < a.seq().len() && a.seq()[q] == k;
    }
    false
}

/// The identifiers of the observations whose summary holds a shared token.
fn hit_ids_of(obs: &Vec<Observation>, shared: &TextSet, Ghost(t): Ghost<Seq<char>>, Ghost(c): Ghost<Seq<char>>) -> (r: Vec<ObjectId>)
    requires
        shared.wf(),
        forall|k: Seq<char>| #[trigger] shared.has(k) == (token_set(t).contains(k) && token_set(c).contains(k)),
    ensures
        r@ == hit_ids(obs@, t, c),
{
    let mut r: Vec<ObjectId> = Vec::new();
    let mut i: usize = 0;
    while i < obs.len()
        invariant
            i <= obs@.len(),
            shared.wf(),
            forall|k: Seq<char>| #[trigger] shared.has(k) == (token_set(t).contains(k) && token_set(c).contains(k)),
            r@ == hit_ids(obs@.subrange(0, i as int), t, c),
        decreases obs.len() - i,
    {
        let ghost sub = obs@.subrange(0, i + 1);
        assert(sub.drop_last() =~= obs@.subrange(0, i as int));
        assert(sub.last() == obs@[i as int]);
        let st = significant_tokens(obs[i].summary.as_str());
        proof {
            lemma_token_set(st, obs@[i as int].summary@);
            lemma_set_view(st);
        }
        let hit = sets_meet(&st, shared);
        proof {
            let o = obs@[i as int];
            if hit {
                let k = choose|k: Seq<char>| st.has(k) && shared.has(k);
                assert(st.seq().to_set().contains(k));
                assert(token_set(o.summary@).contains(k));
            }
            if meets(o, t, c) {
                let k = choose|k: Seq<char>| token_set(o.summary@).contains(k) && token_set(t).contains(k) && token_set(c).contains(k);
                assert(st.seq().to_set().contains(k));
                assert(st.has(k) && shared.has(k));
            }
            assert(hit == meets(o, t, c));
        }
        if hit {
            r.push(obs[i].id);
        }
        i = i + 1;
    }
    assert(obs@.subrange(0, obs@.len() as int) =~= obs@);
    r
}

/// The text factor of the query tokens `qt` (of text `t`) against a corpus.
fn query_text_evidence(qt: &TextSet, Ghost(t): Ghost<Seq<char>>, corpus: &String, obs: &Vec<Observation>) -> (r: (Vec<MatchedEvidence>, u64))
    requires
        qt.wf(),
        forall|x: Seq<char>| #[trigger] qt.has(x) == significant_seq(t).contains(x),
        qt.seq().len() > 0,
    ensures
        evidence_views(r.0@) == query_text_part(t, corpus@, obs@),
        r.1 == text_score(t, corpus@),
        r.1 <= WEIGHT_TEXT_OVERLAP,
{
    let mut v: Vec<MatchedEvidence> = Vec::new();
    let ghost c = corpus@;
    let n = qt.len();
    let ct = significant_tokens(corpus.as_str());
    let shared = intersect_sets(qt, &ct);
    let m = shared.len();
    proof {
        lemma_token_set(*qt, t);
        lemma_token_set(ct, c);
        lemma_set_view(shared);
        lemma_set_view(*qt);
        lemma_set_view(ct);
        assert(shared.seq().to_set() =~= token_set(t).intersect(token_set(c))) by {
            assert forall|x: Seq<char>| #[trigger] shared.seq().to_set().contains(x) == token_set(t).intersect(token_set(c)).contains(x) by {
                assert(shared.seq().to_set().contains(x) == shared.has(x));
                assert(qt.seq().to_set().contains(x) == qt.has(x));
                assert(ct.seq().to_set().contains(x) == ct.has(x));
            }
        }
        assert(m == matched_tokens(t, c));
        assert(shared.seq().to_set().subset_of(qt.seq().to_set()));
        vstd::set_lib::lemma_len_subset(shared.seq().to_set(), qt.seq().to_set());
        assert forall|k: Seq<char>| #[trigger] shared.has(k) == (token_set(t).contains(k) && token_set(c).contains(k)) by {
            assert(shared.seq().to_set().contains(k) == shared.has(k));
            assert(qt.seq().to_set().contains(k) == qt.has(k));
            assert(ct.seq().to_set().contains(k) == ct.has(k));
        }
    }
    if m == 0 {
        assert(evidence_views(v@) =~= query_text_part(t, c, obs@));
        return (v, 0);
    }
    assert((WEIGHT_TEXT_OVERLAP as int * m as int) / (n as int) <= WEIGHT_TEXT_OVERLAP as int) by (nonlinear_arith)
        requires
            m <= n,
            0 < n,
            WEIGHT_TEXT_OVERLAP == 350,
    ;
    let contribution = (WEIGHT_TEXT_OVERLAP as u128 * m as u128 / n as u128) as u64;
    proof {
        assert(sorted_texts(shared.seq()));
        let chosen = matched_list(t, c);
        assert forall|k: Seq<char>| #[trigger] shared.seq().contains(k) == (token_set(t).contains(k) && token_set(c).contains(k)) by {
            assert(shared.has(k) == shared.seq().contains(k));
        }
        assert(sorted_texts(chosen) && forall|k: Seq<char>| #[trigger] chosen.contains(k) == (token_set(t).contains(k) && token_set(c).contains(k)));
        lemma_sorted_same(shared.seq(), chosen);
    }
    let joined = join_chars(&shared.items, ", ");
    let mut detail: Vec<char> = Vec::new();
    push_str(&mut detail, "text tokens [");
    push_chars(&mut detail, &joined);
    push_str(&mut detail, "] (");
    push_fixed2(&mut detail, WEIGHT_TEXT_OVERLAP as u128 * m as u128, 1000 * n as u128);
    push_str(&mut detail, ")");
    let ids = hit_ids_of(obs, &shared, Ghost(t), Ghost(c));
    push_evidence(&mut v, RankingFactor::TextOverlap, detail, ids);
    assert(evidence_views(v@) =~= query_text_part(t, c, obs@));
    (v, contribution)
}

/// The semantic factor of a cosine similarity in thousandths.
fn semantic_evidence(sim: Option<u32>) -> (r: (Vec<MatchedEvidence>, u64))
    requires
        sim matches Some(x) ==> x <= 1000,
    ensures
        evidence_views(r.0@) == semantic_part(sim),
        r.1 == semantic_score(sim),
        r.1 <= WEIGHT_SEMANTIC_SIMILARITY,
{
    let mut v: Vec<MatchedEvidence> = Vec::new();
    match sim {
        Some(x) => {
            if x >= SEMANTIC_MIN_SIMILARITY {
                let mut d: Vec<char> = Vec::new();
                push_str(&mut d, "semantic similarity ");
                push_fixed2(&mut d, x as u128, 1000);
                push_str(&mut d, " (");
                push_fixed2(&mut d, WEIGHT_SEMANTIC_SIMILARITY as u128 * x as u128, 1_000_000);
                push_str(&mut d, ")");
                push_evidence(&mut v, RankingFactor::SemanticSimilarity, d, Vec::new());
                assert(evidence_views(v@) =~= semantic_part(sim));
                return (v, (WEIGHT_SEMANTIC_SIMILARITY as u64 * x as u64) / 1000);
            }
        },
        None => {},
    }
    assert(evidence_views(v@) =~= semantic_part(sim));
    (v, 0)
}

/// The factors that fire for one Investigation, in order: the structured
/// filters, the text and semantic factors, recency.
pub open spec fn search_fired(q: SearchQuery, inv: Investigation, b: ContextBundle, sim: Option<u32>, age: nat, span: nat) -> Seq<EvidenceView> {
    filter_fired(q, b) + text_fired(q, inv, b, sim) + recency_part(age, span)
}

/// The summed contributions of the fired factors.
pub open spec fn search_raw(q: SearchQuery, inv: Investigation, b: ContextBundle, sim: Option<u32>, age: nat, span: nat) -> nat {
    filter_score(q, b) + text_raw(q, inv, b, sim) + recency_score(age, span)
}

/// `r` is the search result for one Investigation that passed the filters:
/// nothing when the score is zero or only recency fired, otherwise the fired
/// factors, the score (capped at 1000) and the explanation.
pub open spec fn search_with(r: Option<SearchResult>, q: SearchQuery, inv: Investigation, b: ContextBundle, sim: Option<u32>, age: nat, span: nat) -> bool {
    let fired = search_fired(q, inv, b, sim, age, span);
    let raw = search_raw(q, inv, b, sim, age, span);
    match r {
        None => !(raw > 0 && has_signal(fired)),
        Some(s) => {
            &&& raw > 0 && has_signal(fired)
            &&& evidence_views(s.matched_evidence@) == fired
            &&& s.score == if raw > 1000 { 1000 } else { raw }
            &&& s.explanation@ == explanation_spec(s.score as nat, s.matched_evidence@)
            &&& s.investigation_id == inv.id
            &&& s.title@ == inv.title@
            &&& s.status == inv.status
            &&& s.relationship is None
            &&& s.outcomes@ == dispositions(b.learning@)
            &&& s.created_at == inv.created_at
            &&& s.updated_at == inv.updated_at
        },
    }
}

/// The query tokens as held by the caller: the significant tokens of the
/// query text, when there is one.
pub open spec fn query_tokens_ok(q: SearchQuery, qt: Option<TextSet>) -> bool {
    match q.text {
        Some(t) => qt matches Some(ts) && ts.wf() && forall|x: Seq<char>| #[trigger] ts.has(x) == significant_seq(t@).contains(x),
        None => qt is None,
    }
}

/// Scores one Investigation that passed the filters.
fn search_result(
    query: &SearchQuery,
    want: &Option<Vec<char>>,
    qt: &Option<TextSet>,
    inv: &Investigation,
    b: &ContextBundle,
    sim: Option<u32>,
    age: u64,
    span: u64,
) -> (r: Option<SearchResult>)
    requires
        match *want {
            Some(w) => query.repository is Some && w@ == lowercase_of(query.repository->0@),
            None => query.repository is None,
        },
        query_tokens_ok(*query, *qt),
        sim matches Some(x) ==> x <= 1000,
        age <= span,
    ensures
        search_with(r, *query, *inv, *b, sim, age as nat, span as nat),
{
    let (mut fired, s1) = filter_signals(query, want, b);
    let ghost f1 = evidence_views(fired@);
    let mut s2: u64 = 0;
    match (&query.text, qt) {
        (Some(t), Some(ts)) => {
            proof {
                lemma_token_set(*ts, t@);
            }
            if ts.len() > 0 {
                let corpus = search_corpus(inv, b);
                let (tv, ts_score) = query_text_evidence(ts, Ghost(t@), &corpus, &b.observations);
                let (sv, ss_score) = semantic_evidence(sim);
                crate::similarity::append_evidence(&mut fired, tv);
                crate::similarity::append_evidence(&mut fired, sv);
                s2 = ts_score + ss_score;
            }
        },
        _ => {},
    }
    assert(evidence_views(fired@) =~= f1 + text_fired(*query, *inv, *b, sim));
    assert(s2 == text_raw(*query, *inv, *b, sim));
    let ghost f2 = evidence_views(fired@);
    let (rv, s3) = crate::similarity::recency_evidence(age, span);
    crate::similarity::append_evidence(&mut fired, rv);
    assert(evidence_views(fired@) =~= f2 + recency_part(age as nat, span as nat));
    let raw = s1 + s2 + s3 as u64;
    if raw == 0 || !crate::similarity::any_signal(&fired) {
        return None;
    }
    let score: u32 = if raw > 1000 { 1000 } else { raw as u32 };
    let explanation = compose_explanation(score, &fired);
    Some(SearchResult {
        investigation_id: inv.id,
        title: inv.title.as_str().to_owned(),
        status: inv.status,
        score,
        explanation,
        matched_evidence: fired,
        relationship: None,
        outcomes: crate::similarity::dispositions_of(&b.learning),
        created_at: inv.created_at,
        updated_at: inv.updated_at,
    })
}

/// Positions of the Investigations that pass every structured filter.
pub open spec fn kept_indices(q: SearchQuery, rels: Seq<InvestigationRelationship>, rows: Seq<Row>) -> Seq<int>
    decreases rows.len(),
{
    if rows.len() == 0 {
        seq![]
    } else if passes(q, rels, rows.last().0, rows.last().1) {
        kept_indices(q, rels, rows.drop_last()).push(rows.len() - 1)
    } else {
        kept_indices(q, rels, rows.drop_last())
    }
}

/// The rows at the given positions.
pub open spec fn rows_at(rows: Seq<Row>, kept: Seq<int>) -> Seq<Row> {
    kept.map_values(|i: int| rows[i])
}

/// Kept position `p` scores above zero on a factor other than recency
/// (ages measured within the kept rows).
#[verifier::opaque]
pub open spec fn search_hit(
    q: SearchQuery,
    rows: Seq<Row>,
    rels: Seq<InvestigationRelationship>,
    sims: Seq<Option<u32>>,
    p: int,
) -> bool {
    let kept = kept_indices(q, rels, rows);
    let fr = rows_at(rows, kept);
    &&& 0 <= p < kept.len()
    &&& search_raw(q, fr[p].0, fr[p].1, sims[kept[p]], row_age(fr, p), row_span(fr)) > 0
    &&& has_signal(search_fired(q, fr[p].0, fr[p].1, sims[kept[p]], row_age(fr, p), row_span(fr)))
}

/// `s` is the search result of kept position `p`.
#[verifier::opaque]
pub open spec fn search_candidate(
    s: SearchResult,
    q: SearchQuery,
    rows: Seq<Row>,
    rels: Seq<InvestigationRelationship>,
    sims: Seq<Option<u32>>,
    p: int,
) -> bool {
    let kept = kept_indices(q, rels, rows);
    let fr = rows_at(rows, kept);
    &&& 0 <= p < kept.len()
    &&& search_with(Some(s), q, fr[p].0, fr[p].1, sims[kept[p]], row_age(fr, p), row_span(fr))
}

/// `full` are the results of the kept positions `src` (each hit exactly
/// once), in rank order, and `r` is its first `limit` results.
pub open spec fn search_from(
    r: Seq<SearchResult>,
    full: Seq<SearchResult>,
    src: Seq<int>,
    q: SearchQuery,
    rows: Seq<Row>,
    rels: Seq<InvestigationRelationship>,
    sims: Seq<Option<u32>>,
) -> bool {
    &&& full.len() == src.len()
    &&& src.no_duplicates()
    &&& forall|i: int| 0 <= i < src.len() ==> #[trigger] search_candidate(full[i], q, rows, rels, sims, src[i])
    &&& forall|p: int| 0 <= p < kept_indices(q, rels, rows).len() && #[trigger] search_hit(q, rows, rels, sims, p) ==> src.contains(p)
    &&& ordered_results(full)
    &&& r == match q.limit {
        Some(k) => if k < full.len() { full.take(k as int) } else { full },
        None => full,
    }
}

/// `j` is the first row with this identifier.
pub open spec fn first_with_id(rows: Seq<Row>, id: InvestigationId, j: int) -> bool {
    &&& 0 <= j < rows.len()
    &&& rows[j].0.id == id
    &&& forall|k: int| 0 <= k < j ==> (#[trigger] rows[k]).0.id != id
}

/// The result for an exact identifier match.
pub open spec fn exact_result(s: SearchResult, inv: Investigation, b: ContextBundle) -> bool {
    &&& evidence_views(s.matched_evidence@) == seq![(RankingFactor::ExactId, "exact Investigation id `"@ + uuid_text(inv.id.value) + "`"@, Seq::<ObjectId>::empty())]
    &&& s.score == WEIGHT_EXACT_ID
    &&& s.explanation@ == explanation_spec(WEIGHT_EXACT_ID as nat, s.matched_evidence@)
    &&& s.investigation_id == inv.id
    &&& s.title@ == inv.title@
    &&& s.status == inv.status
    &&& s.relationship is None
    &&& s.outcomes@ == dispositions(b.learning@)
    &&& s.created_at == inv.created_at
    &&& s.updated_at == inv.updated_at
}

/// The positions of the rows that pass the filters.
fn kept_positions(query: &SearchQuery, want: &Option<Vec<char>>, rels: &Vec<InvestigationRelationship>, rows: &Vec<Row>) -> (kept: Vec<usize>)
    requires
        match *want {
            Some(w) => query.repository is Some && w@ == lowercase_of(query.repository->0@),
            None => query.repository is None,
        },
    ensures
        kept@.map_values(|i: usize| i as int) == kept_indices(*query, rels@, rows@),
        forall|p: int| 0 <= p < kept@.len() ==> (#[trigger] kept@[p]) < rows@.len(),
{
    let mut kept: Vec<usize> = Vec::new();
    let mut i: usize = 0;
    while i < rows.len()
        invariant
            i <= rows@.len(),
            match *want {
                Some(w) => query.repository is Some && w@ == lowercase_of(query.repository->0@),
                None => query.repository is None,
            },
            kept@.map_values(|x: usize| x as int) == kept_indices(*query, rels@, rows@.subrange(0, i as int)),
            forall|p: int| 0 <= p < kept@.len() ==> (#[trigger] kept@[p]) < i,
        decreases rows.len() - i,
    {
        let ghost sub = rows@.subrange(0, i + 1);
        assert(sub.drop_last() =~= rows@.subrange(0, i as int));
        assert(sub.last() == rows@[i as int]);
        let ghost before = kept@.map_values(|x: usize| x as int);
        if passes_filters(query, want, rels, &rows[i].0, &rows[i].1) {
            kept.push(i);
            assert(kept@.map_values(|x: usize| x as int) =~= before.push(i as int));
        }
        i = i + 1;
    }
    assert(rows@.subrange(0, rows@.len() as int) =~= rows@);
    kept
}

/// Earliest and latest creation times of the kept rows.
fn kept_range(rows: &Vec<Row>, kept: &Vec<usize>, Ghost(kv): Ghost<Seq<int>>) -> (r: (i64, i64))
    requires
        kept@.map_values(|i: usize| i as int) == kv,
        forall|p: int| 0 <= p < kept@.len() ==> (#[trigger] kept@[p]) < rows@.len(),
    ensures
        r.0 == min_created(rows_at(rows@, kv)),
        r.1 == max_created(rows_at(rows@, kv)),
{
    let ghost fr = rows_at(rows@, kv);
    if kept.len() == 0 {
        return (0, 0);
    }
    assert(fr[0] == rows@[kept@[0] as int]);
    let mut lo = rows[kept[0]].0.created_at;
    let mut hi = lo;
    let mut p: usize = 1;
    while p < kept.len()
        invariant
            1 <= p <= kept@.len(),
            kept@.map_values(|i: usize| i as int) == kv,
            forall|q: int| 0 <= q < kept@.len() ==> (#[trigger] kept@[q]) < rows@.len(),
            fr == rows_at(rows@, kv),
            lo == min_created(fr.subrange(0, p as int)),
            hi == max_created(fr.subrange(0, p as int)),
        decreases kept.len() - p,
    {
        assert(fr.subrange(0, p + 1).drop_last() =~= fr.subrange(0, p as int));
        assert(fr[p as int] == rows@[kept@[p as int] as int]);
        let c = rows[kept[p]].0.created_at;
        if c < lo {
            lo = c;
        }
        if c > hi {
            hi = c;
        }
        p = p + 1;
    }
    assert(fr.subrange(0, kept@.len() as int) =~= fr);
    (lo, hi)
}

/// The bookkeeping of one inserted search result keeps the loop facts.
proof fn lemma_search_inserted(
    results: Seq<SearchResult>,
    src: Seq<int>,
    pos: int,
    s: SearchResult,
    p: int,
    q: SearchQuery,
    rows: Seq<Row>,
    rels: Seq<InvestigationRelationship>,
    sims: Seq<Option<u32>>,
)
    requires
        0 <= pos <= results.len(),
        0 <= p,
        results.len() == src.len(),
        src.no_duplicates(),
        forall|i: int| 0 <= i < src.len() ==> 0 <= #[trigger] src[i] < p,
        forall|i: int| 0 <= i < src.len() ==> #[trigger] search_candidate(results[i], q, rows, rels, sims, src[i]),
        forall|x: int| 0 <= x < p && #[trigger] search_hit(q, rows, rels, sims, x) ==> src.contains(x),
        search_candidate(s, q, rows, rels, sims, p),
    ensures
        ({
            let r2 = results.insert(pos, s);
            let s2 = src.insert(pos, p);
            &&& r2.len() == s2.len()
            &&& s2.no_duplicates()
            &&& forall|i: int| 0 <= i < s2.len() ==> 0 <= #[trigger] s2[i] < p + 1
            &&& forall|i: int| 0 <= i < s2.len() ==> #[trigger] search_candidate(r2[i], q, rows, rels, sims, s2[i])
            &&& forall|x: int| 0 <= x < p + 1 && #[trigger] search_hit(q, rows, rels, sims, x) ==> s2.contains(x)
        }),
{
    let r2 = results.insert(pos, s);
    let s2 = src.insert(pos, p);
    assert forall|i: int| 0 <= i < s2.len() implies #[trigger] search_candidate(r2[i], q, rows, rels, sims, s2[i]) by {
        if i < pos {
            assert(r2[i] == results[i] && s2[i] == src[i]);
        } else if i > pos {
            assert(r2[i] == results[i - 1] && s2[i] == src[i - 1]);
        }
    }
    assert forall|i: int| 0 <= i < s2.len() implies 0 <= #[trigger] s2[i] < p + 1 by {
        if i < pos {
            assert(s2[i] == src[i]);
        } else if i > pos {
            assert(s2[i] == src[i - 1]);
        }
    }
    assert forall|x: int, y: int| 0 <= x < s2.len() && 0 <= y < s2.len() && x != y implies s2[x] != s2[y] by {
        if x != pos && y != pos {
            let ox = if x < pos { x } else { x - 1 };
            let oy = if y < pos { y } else { y - 1 };
            assert(s2[x] == src[ox] && s2[y] == src[oy]);
        } else if x == pos {
            let oy = if y < pos { y } else { y - 1 };
            assert(s2[y] == src[oy]);
        } else {
            let ox = if x < pos { x } else { x - 1 };
            assert(s2[x] == src[ox]);
        }
    }
    assert forall|x: int| 0 <= x < p + 1 && #[trigger] search_hit(q, rows, rels, sims, x) implies s2.contains(x) by {
        if x == p {
            assert(s2[pos] == x);
        } else {
            assert(src.contains(x));
            let k = choose|k: int| 0 <= k < src.len() && src[k] == x;
            if k < pos {
                assert(s2[k] == x);
            } else {
                assert(s2[k + 1] == x);
            }
        }
    }
}

/// The exact-identifier result of one Investigation.
fn exact_id_result(inv: &Investigation, b: &ContextBundle) -> (s: SearchResult)
    ensures
        exact_result(s, *inv, *b),
{
    let mut d: Vec<char> = Vec::new();
    push_str(&mut d, "exact Investigation id `");
    let u = uuid_chars(inv.id.value);
    push_chars(&mut d, &u);
    push_str(&mut d, "`");
    let mut fired: Vec<MatchedEvidence> = Vec::new();
    let ghost dv = d@;
    push_evidence(&mut fired, RankingFactor::ExactId, d, Vec::new());
    assert(evidence_views(fired@) =~= seq![(RankingFactor::ExactId, dv, Seq::<ObjectId>::empty())]);
    let explanation = compose_explanation(WEIGHT_EXACT_ID, &fired);
    SearchResult {
        investigation_id: inv.id,
        title: inv.title.as_str().to_owned(),
        status: inv.status,
        score: WEIGHT_EXACT_ID,
        explanation,
        matched_evidence: fired,
        relationship: None,
        outcomes: crate::similarity::dispositions_of(&b.learning),
        created_at: inv.created_at,
        updated_at: inv.updated_at,
    }
}

/// Searches Investigations with structured filters and text.
///
/// `rows` are all Investigations with their durable context,
/// `relationships` all stored relationships, and `semantic[i]` the cosine
/// similarity (thousandths) of the query text to the corpus of `rows[i]`,
/// when one was computed. An empty query is refused. An exact identifier
/// short-circuits to that Investigation. Otherwise the Investigations that
/// pass every filter are scored; those that score nothing, or only recency
/// (measured within them), are left out. Results rank by score, then
/// creation time (newest first), then identifier, and are cut to the limit.
#[verifier::rlimit(50)]
#[verifier::spinoff_prover]
pub fn search_investigations(
    query: &SearchQuery,
    rows: &Vec<Row>,
    relationships: &Vec<InvestigationRelationship>,
    semantic: &Vec<Option<u32>>,
) -> (r: Result<Vec<SearchResult>, RivoraError>)
    requires
        semantic@.len() == rows@.len(),
        forall|i: int| 0 <= i < semantic@.len() ==> (#[trigger] semantic@[i] matches Some(x) ==> x <= 1000),
    ensures
        query.empty_spec() ==> (r matches Err(RivoraError::Validation { message }) && message@
            == "search query is empty: provide text or at least one filter"@),
        !query.empty_spec() && query.investigation_id is Some ==> match r {
            Ok(v) => v@.len() == 1 && exists|j: int| first_with_id(rows@, query.investigation_id->0, j) && exact_result(
                v@[0],
                rows@[j].0,
                rows@[j].1,
            ),
            Err(e) => (forall|j: int| 0 <= j < rows@.len() ==> (#[trigger] rows@[j]).0.id != query.investigation_id->0) && (e matches RivoraError::ObjectNotFound {
                kind,
                id,
            } && kind@ == "investigation"@ && id@ == uuid_text(query.investigation_id->0.value)),
        },
        !query.empty_spec() && query.investigation_id is None ==> (r matches Ok(v) && exists|full: Seq<SearchResult>, src: Seq<int>|
            #[trigger] search_from(v@, full, src, *query, rows@, relationships@, semantic@)),
{
    if query.is_empty() {
        return Err(RivoraError::validation("search query is empty: provide text or at least one filter"));
    }
    if let Some(id) = query.investigation_id {
        let mut j: usize = 0;
        while j < rows.len()
            invariant
                j <= rows@.len(),
                !query.empty_spec(),
                query.investigation_id == Some(id),
                forall|k: int| 0 <= k < j ==> (#[trigger] rows@[k]).0.id != id,
            decreases rows.len() - j,
        {
            if rows[j].0.id == id {
                let s = exact_id_result(&rows[j].0, &rows[j].1);
                let ghost sg = s;
                let mut v: Vec<SearchResult> = Vec::new();
                v.push(s);
                assert(v@[0] == sg);
                assert(first_with_id(rows@, id, j as int));
                assert(exact_result(v@[0], rows@[j as int].0, rows@[j as int].1));
                assert(first_with_id(rows@, query.investigation_id->0, j as int) && exact_result(v@[0], rows@[j as int].0, rows@[j as int].1));
                return Ok(v);
            }
            j = j + 1;
        }
        return Err(RivoraError::not_found("investigation", ObjectId { value: id.value }));
    }
    let want = match &query.repository {
        Some(repo) => Some(lower_chars(repo.as_str())),
        None => None,
    };
    let qt = match &query.text {
        Some(t) => Some(significant_tokens(t.as_str())),
        None => None,
    };
    let kept = kept_positions(query, &want, relationships, rows);
    let ghost kv = kept_indices(*query, relationships@, rows@);
    let ghost fr = rows_at(rows@, kv);
    let (oldest, newest) = kept_range(rows, &kept, Ghost(kv));
    proof {
        lemma_created_bounds(fr);
    }
    let mut results: Vec<SearchResult> = Vec::new();
    let ghost mut src: Seq<int> = seq![];
    let mut p: usize = 0;
    while p < kept.len()
        invariant
            p <= kept@.len(),
            kept@.map_values(|i: usize| i as int) == kv,
            kv == kept_indices(*query, relationships@, rows@),
            fr == rows_at(rows@, kv),
            forall|q: int| 0 <= q < kept@.len() ==> (#[trigger] kept@[q]) < rows@.len(),
            semantic@.len() == rows@.len(),
            forall|i: int| 0 <= i < semantic@.len() ==> (#[trigger] semantic@[i] matches Some(x) ==> x <= 1000),
            match want {
                Some(w) => query.repository is Some && w@ == lowercase_of(query.repository->0@),
                None => query.repository is None,
            },
            query_tokens_ok(*query, qt),
            oldest == min_created(fr),
            newest == max_created(fr),
            forall|q: int| 0 <= q < fr.len() ==> oldest <= (#[trigger] fr[q]).0.created_at <= newest,
            results@.len() == src.len(),
            src.no_duplicates(),
            forall|i: int| 0 <= i < src.len() ==> 0 <= #[trigger] src[i] < p,
            forall|i: int| 0 <= i < src.len() ==> #[trigger] search_candidate(results@[i], *query, rows@, relationships@, semantic@, src[i]),
            forall|x: int| 0 <= x < p && #[trigger] search_hit(*query, rows@, relationships@, semantic@, x) ==> src.contains(x),
            ordered_results(results@),
        decreases kept.len() - p,
    {
        let j = kept[p];
        assert(kv[p as int] == j as int);
        assert(fr[p as int] == rows@[j as int]);
        let inv = &rows[j].0;
        let b = &rows[j].1;
        let age = (inv.created_at as i128 - oldest as i128) as u64;
        let span = (newest as i128 - oldest as i128) as u64;
        assert(age as nat == row_age(fr, p as int));
        assert(span as nat == row_span(fr));
        let found = search_result(query, &want, &qt, inv, b, semantic[j], age, span);
        match found {
            None => {
                assert(!search_hit(*query, rows@, relationships@, semantic@, p as int)) by {
                    reveal(search_hit);
                }
            },
            Some(s) => {
                assert(search_candidate(s, *query, rows@, relationships@, semantic@, p as int)) by {
                    reveal(search_candidate);
                }
                let ghost old_results = results@;
                let pos = crate::similarity::insert_ranked(&mut results, s);
                proof {
                    lemma_search_inserted(old_results, src, pos as int, s, p as int, *query, rows@, relationships@, semantic@);
                    src = src.insert(pos as int, p as int);
                }
            },
        }
        p = p + 1;
    }
    let ghost full = results@;
    match query.limit {
        Some(k) => {
            results.truncate(k);
            proof {
                if k < full.len() {
                    assert(results@ =~= full.take(k as int));
                } else {
                    assert(results@ =~= full);
                }
            }
        },
        None => {},
    }
    assert(search_from(results@, full, src, *query, rows@, relationships@, semantic@));
    let ghost out = results@;
    let r: Result<Vec<SearchResult>, RivoraError> = Ok(results);
    assert(r matches Ok(v) && v@ == out);
    assert(search_from(out, full, src, *query, rows@, relationships@, semantic@));
    r
}

/// A kept position names a row that passes the filters.
#[verifier::rlimit(30)]
proof fn lemma_kept_at(q: SearchQuery, rels: Seq<InvestigationRelationship>, rows: Seq<Row>, p: int)
    requires
        0 <= p < kept_indices(q, rels, rows).len(),
    ensures
        0 <= kept_indices(q, rels, rows)[p] < rows.len(),
        passes(q, rels, rows[kept_indices(q, rels, rows)[p]].0, rows[kept_indices(q, rels, rows)[p]].1),
    decreases rows.len(),
{
    let prev = kept_indices(q, rels, rows.drop_last());
    if p < prev.len() {
        lemma_kept_at(q, rels, rows.drop_last(), p);
        assert(kept_indices(q, rels, rows)[p] == prev[p]);
        assert(rows.drop_last()[prev[p]] == rows[prev[p]]);
    }
}

/// A status filter is honoured: when the query names a status, every
/// Investigation found has exactly that status, and is a stored
/// Investigation with that status.
pub proof fn lemma_search_status_filter(
    v: Seq<SearchResult>,
    full: Seq<SearchResult>,
    src: Seq<int>,
    q: SearchQuery,
    rows: Seq<Row>,
    rels: Seq<InvestigationRelationship>,
    sims: Seq<Option<u32>>,
    status: crate::vocab::InvestigationStatus,
)
    requires
        search_from(v, full, src, q, rows, rels, sims),
        q.status == Some(status),
    ensures
        forall|i: int| 0 <= i < v.len() ==> (#[trigger] v[i]).status == status,
        forall|i: int| 0 <= i < v.len() ==> exists|j: int| 0 <= j < rows.len() && rows[j].0.id == (#[trigger] v[i]).investigation_id
            && rows[j].0.status == status,
{
    let kept = kept_indices(q, rels, rows);
    assert forall|i: int| 0 <= i < v.len() implies (#[trigger] v[i]).status == status && exists|j: int| 0 <= j < rows.len()
        && rows[j].0.id == v[i].investigation_id && rows[j].0.status == status by {
        assert(v[i] == full[i]);
        assert(search_candidate(full[i], q, rows, rels, sims, src[i]));
        reveal(search_candidate);
        let p = src[i];
        lemma_kept_at(q, rels, rows, p);
        let j = kept[p];
        assert(0 <= j < rows.len());
        assert(passes(q, rels, rows[j].0, rows[j].1));
        assert(rows_at(rows, kept)[p] == rows[j]);
    }
}

/// The other structured filters are honoured too: every Investigation found
/// was created within the requested range, is touched by a stored
/// relationship of the requested kind, and no more are returned than the
/// limit allows.
pub proof fn lemma_search_filters(
    v: Seq<SearchResult>,
    full: Seq<SearchResult>,
    src: Seq<int>,
    q: SearchQuery,
    rows: Seq<Row>,
    rels: Seq<InvestigationRelationship>,
    sims: Seq<Option<u32>>,
)
    requires
        search_from(v, full, src, q, rows, rels, sims),
    ensures
        forall|i: int| 0 <= i < v.len() && q.created_after is Some ==> (#[trigger] v[i]).created_at >= q.created_after->0,
        forall|i: int| 0 <= i < v.len() && q.created_before is Some ==> (#[trigger] v[i]).created_at <= q.created_before->0,
        forall|i: int| 0 <= i < v.len() && q.relationship_kind is Some ==> exists|m: int| 0 <= m < rels.len()
            && rels[m].kind == q.relationship_kind->0 && rels[m].touches_spec((#[trigger] v[i]).investigation_id),
        q.limit matches Some(n) ==> v.len() <= n,
{
    let kept = kept_indices(q, rels, rows);
    assert forall|i: int| 0 <= i < v.len() implies {
        &&& (q.created_after is Some ==> (#[trigger] v[i]).created_at >= q.created_after->0)
        &&& (q.created_before is Some ==> v[i].created_at <= q.created_before->0)
        &&& (q.relationship_kind is Some ==> exists|m: int| 0 <= m < rels.len()
            && rels[m].kind == q.relationship_kind->0 && rels[m].touches_spec(v[i].investigation_id))
    } by {
        assert(v[i] == full[i]);
        assert(search_candidate(full[i], q, rows, rels, sims, src[i]));
        reveal(search_candidate);
        let p = src[i];
        lemma_kept_at(q, rels, rows, p);
        let j = kept[p];
        assert(passes(q, rels, rows[j].0, rows[j].1));
        assert(rows_at(rows, kept)[p] == rows[j]);
        if q.relationship_kind is Some {
            assert(kind_touches(rels, q.relationship_kind->0, rows[j].0.id));
        }
    }
}

/// Search results come best first (scores never rise down the list), and
/// are Investigations that passed the filters with some signal besides
/// recency.
pub proof fn lemma_search_ranked(
    v: Seq<SearchResult>,
    full: Seq<SearchResult>,
    src: Seq<int>,
    q: SearchQuery,
    rows: Seq<Row>,
    rels: Seq<InvestigationRelationship>,
    sims: Seq<Option<u32>>,
)
    requires
        search_from(v, full, src, q, rows, rels, sims),
    ensures
        forall|a: int, b: int| 0 <= a < b < v.len() ==> (#[trigger] v[a]).score >= (#[trigger] v[b]).score,
        forall|i: int| 0 <= i < v.len() ==> (#[trigger] v[i]).score > 0 && exists|k: int| 0 <= k < v[i].matched_evidence@.len()
            && v[i].matched_evidence@[k].factor != RankingFactor::Recency,
{
    crate::similarity::lemma_ranked_best_first(full);
    assert forall|a: int, b: int| 0 <= a < b < v.len() implies (#[trigger] v[a]).score >= (#[trigger] v[b]).score by {
        assert(v[a] == full[a] && v[b] == full[b]);
    }
    assert forall|i: int| 0 <= i < v.len() implies (#[trigger] v[i]).score > 0 && exists|k: int| 0 <= k < v[i].matched_evidence@.len()
        && v[i].matched_evidence@[k].factor != RankingFactor::Recency by {
        assert(v[i] == full[i]);
        assert(search_candidate(full[i], q, rows, rels, sims, src[i]));
        reveal(search_candidate);
        let kept = kept_indices(q, rels, rows);
        let fr = rows_at(rows, kept);
        let p = src[i];
        let fired = search_fired(q, fr[p].0, fr[p].1, sims[kept[p]], row_age(fr, p), row_span(fr));
        let k = choose|k: int| 0 <= k < fired.len() && #[trigger] fired[k].0 != RankingFactor::Recency;
        assert(evidence_views(v[i].matched_evidence@)[k] == fired[k]);
    }
}

} // verus!
