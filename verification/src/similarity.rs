//! Similar-Investigation scoring: which inspectable signals two
//! Investigations share, what each contributes to the score, and the
//! deterministic order of the results.
//!
//! Scores are thousandths. Each fired factor contributes its weight (or its
//! weight scaled by an overlap ratio, rounded down); the details print the
//! exact ratio with two decimals.

use vstd::prelude::*;
use crate::graph::{fixed2, lemma_set_view, push_fixed2, significant_seq, significant_tokens, SharedArtifact};
use crate::ids::{uuid_chars, uuid_text, InvestigationId, ObjectId};
use crate::keymap::{group, sorted_texts, TextSet};
use crate::model::{ContextBundle, Investigation, InvestigationRelationship, KnowledgeObject, LearningOutcome, RelationshipEvidence};
use crate::relationships::{artifact_keys, intersect_artifacts, kind_maps, kind_pairs, shared_artifacts, shared_in};
use crate::search::{
    compose_explanation, corpus_spec, explanation_spec, search_corpus, MatchedEvidence, RankingFactor, SearchResult,
    WEIGHT_DERIVED_RELATIONSHIP, WEIGHT_EVALUATION_OVERLAP, WEIGHT_EXPLICIT_RELATIONSHIP, WEIGHT_FAILURE_SIGNATURE,
    WEIGHT_KNOWLEDGE_OVERLAP, WEIGHT_RECENCY, WEIGHT_SHARED_ARTIFACT, WEIGHT_SHARED_REPOSITORY, WEIGHT_TEXT_OVERLAP,
    WEIGHT_VERIFICATION_OVERLAP,
};
use crate::text::{decimal, join_seqs, lemma_lex_asymmetric, lemma_lex_irreflexive, lemma_lex_total, lex_lt, push_chars, push_decimal, push_str, to_string};
use crate::vocab::{ConfirmationState, KnowledgeKind, OutcomeDisposition, RelationshipKind};

verus! {

/// A fired factor as plain values: factor, detail, object ids.
pub type EvidenceView = (RankingFactor, Seq<char>, Seq<ObjectId>);

/// The plain values of a fired factor.
pub open spec fn evidence_view(m: MatchedEvidence) -> EvidenceView {
    (m.factor, m.detail@, m.object_ids@)
}

/// The plain values of fired factors.
pub open spec fn evidence_views(v: Seq<MatchedEvidence>) -> Seq<EvidenceView> {
    v.map_values(|m: MatchedEvidence| evidence_view(m))
}

/// A shared artifact as plain values: description, context-side ids,
/// candidate-side ids.
pub type ArtView = (Seq<char>, Seq<ObjectId>, Seq<ObjectId>);

/// The plain values of shared artifacts.
pub open spec fn art_views(arts: Seq<SharedArtifact>) -> Seq<ArtView> {
    arts.map_values(|x: SharedArtifact| (x.description@, x.a_ids@, x.b_ids@))
}

/// The keys both sides hold, in ascending order.
pub open spec fn shared_key_list(pa: Seq<(Option<Seq<char>>, ObjectId)>, pb: Seq<(Option<Seq<char>>, ObjectId)>) -> Seq<Seq<char>> {
    choose|ks: Seq<Seq<char>>| sorted_texts(ks) && forall|k: Seq<char>| #[trigger] ks.contains(k) == shared_in(pa, pb, k)
}

/// The shared artifacts of two key groupings: each shared key, in ascending
/// order, described as `prefix<key>`` ` with both sides' identifiers.
pub open spec fn shared_views(pa: Seq<(Option<Seq<char>>, ObjectId)>, pb: Seq<(Option<Seq<char>>, ObjectId)>, prefix: Seq<char>) -> Seq<ArtView> {
    shared_key_list(pa, pb).map_values(|k: Seq<char>| (prefix + k + "`"@, group(pa, k), group(pb, k)))
}

/// The shared artifacts of one relationship kind between two bundles.
pub open spec fn kind_views(kind: RelationshipKind, a: ContextBundle, b: ContextBundle, prefix: Seq<char>) -> Seq<ArtView> {
    shared_views(kind_pairs(kind, a), kind_pairs(kind, b), prefix)
}

/// The descriptions of shared artifacts.
pub open spec fn descriptions(arts: Seq<ArtView>) -> Seq<Seq<char>> {
    arts.map_values(|x: ArtView| x.0)
}

/// The context-side identifiers of shared artifacts, in order.
pub open spec fn context_ids(arts: Seq<ArtView>) -> Seq<ObjectId>
    decreases arts.len(),
{
    if arts.len() == 0 {
        seq![]
    } else {
        context_ids(arts.drop_last()) + arts.last().1
    }
}

/// The candidate-side identifiers of shared artifacts, in order.
pub open spec fn candidate_ids(arts: Seq<ArtView>) -> Seq<ObjectId>
    decreases arts.len(),
{
    if arts.len() == 0 {
        seq![]
    } else {
        candidate_ids(arts.drop_last()) + arts.last().2
    }
}

/// A factor that fires when some key is shared: `label` and the shared keys,
/// with the identifiers of one side.
pub open spec fn list_part(factor: RankingFactor, label: Seq<char>, arts: Seq<ArtView>, use_context: bool) -> Seq<EvidenceView> {
    if arts.len() == 0 {
        seq![]
    } else {
        seq![(factor, label + join_seqs(descriptions(arts), ", "@), if use_context { context_ids(arts) } else { candidate_ids(arts) })]
    }
}

/// The weight of a list factor when it fires.
pub open spec fn list_score(arts: Seq<ArtView>, weight: nat) -> nat {
    if arts.len() == 0 { 0 } else { weight }
}

/// The identifiers cited by relationship evidence, in order.
pub open spec fn relationship_ids(ev: Seq<RelationshipEvidence>) -> Seq<ObjectId>
    decreases ev.len(),
{
    if ev.len() == 0 {
        seq![]
    } else {
        relationship_ids(ev.drop_last()) + ev.last().object_ids@
    }
}

/// The stored relationship factor.
pub open spec fn relationship_part(rel: Option<InvestigationRelationship>) -> Seq<EvidenceView> {
    match rel {
        None => seq![],
        Some(r) => seq![(
            if r.kind == RelationshipKind::ExplicitLink { RankingFactor::ExplicitRelationship } else { RankingFactor::DerivedRelationship },
            r.kind.text() + " relationship `"@ + uuid_text(r.id.value) + "`"@
                + if r.confirmation.state == ConfirmationState::Confirmed { " (confirmed)"@ } else { seq![] },
            relationship_ids(r.evidence@),
        )],
    }
}

/// The weight of the relationship factor.
pub open spec fn relationship_score(rel: Option<InvestigationRelationship>) -> nat {
    match rel {
        None => 0,
        Some(r) => if r.kind == RelationshipKind::ExplicitLink { WEIGHT_EXPLICIT_RELATIONSHIP as nat } else { WEIGHT_DERIVED_RELATIONSHIP as nat },
    }
}

/// Some Knowledge object has this kind.
pub open spec fn kind_present(ks: Seq<KnowledgeObject>, k: KnowledgeKind) -> bool {
    exists|i: int| 0 <= i < ks.len() && #[trigger] ks[i].kind == k
}

/// 1 when the condition holds, 0 otherwise.
pub open spec fn one_if(c: bool) -> nat {
    if c { 1 } else { 0 }
}

/// How many Knowledge kinds both sides hold.
pub open spec fn shared_kinds(a: Seq<KnowledgeObject>, b: Seq<KnowledgeObject>) -> nat {
    one_if(kind_present(a, KnowledgeKind::Summary) && kind_present(b, KnowledgeKind::Summary))
        + one_if(kind_present(a, KnowledgeKind::Activity) && kind_present(b, KnowledgeKind::Activity))
        + one_if(kind_present(a, KnowledgeKind::RiskSignal) && kind_present(b, KnowledgeKind::RiskSignal))
        + one_if(kind_present(a, KnowledgeKind::Pattern) && kind_present(b, KnowledgeKind::Pattern))
}

/// How many Knowledge kinds either side holds.
pub open spec fn union_kinds(a: Seq<KnowledgeObject>, b: Seq<KnowledgeObject>) -> nat {
    one_if(kind_present(a, KnowledgeKind::Summary) || kind_present(b, KnowledgeKind::Summary))
        + one_if(kind_present(a, KnowledgeKind::Activity) || kind_present(b, KnowledgeKind::Activity))
        + one_if(kind_present(a, KnowledgeKind::RiskSignal) || kind_present(b, KnowledgeKind::RiskSignal))
        + one_if(kind_present(a, KnowledgeKind::Pattern) || kind_present(b, KnowledgeKind::Pattern))
}

/// The identifiers of Knowledge objects.
pub open spec fn knowledge_ids(ks: Seq<KnowledgeObject>) -> Seq<ObjectId> {
    ks.map_values(|k: KnowledgeObject| k.id)
}

/// The knowledge-overlap factor fires when both sides hold Knowledge and
/// share a kind.
pub open spec fn knowledge_fires(a: Seq<KnowledgeObject>, b: Seq<KnowledgeObject>) -> bool {
    a.len() > 0 && b.len() > 0 && shared_kinds(a, b) > 0
}

/// The knowledge-overlap factor: shared over union kinds, scaled.
pub open spec fn knowledge_part(a: Seq<KnowledgeObject>, b: Seq<KnowledgeObject>) -> Seq<EvidenceView> {
    if knowledge_fires(a, b) {
        let s = shared_kinds(a, b);
        let u = union_kinds(a, b);
        seq![(
            RankingFactor::KnowledgeOverlap,
            "knowledge overlap "@ + decimal(s) + "/"@ + decimal(u) + " kinds ("@
                + fixed2(WEIGHT_KNOWLEDGE_OVERLAP as nat * s, 1000 * u) + ")"@,
            knowledge_ids(b),
        )]
    } else {
        seq![]
    }
}

/// The knowledge-overlap contribution (thousandths, rounded down).
pub open spec fn knowledge_score(a: Seq<KnowledgeObject>, b: Seq<KnowledgeObject>) -> nat {
    if knowledge_fires(a, b) {
        (WEIGHT_KNOWLEDGE_OVERLAP as nat * shared_kinds(a, b) / union_kinds(a, b)) as nat
    } else {
        0
    }
}

/// The significant tokens of a text, as a set.
pub open spec fn token_set(text: Seq<char>) -> Set<Seq<char>> {
    significant_seq(text).to_set()
}

/// How many context tokens the candidate corpus also holds.
pub open spec fn matched_tokens(context: Seq<char>, candidate: Seq<char>) -> nat {
    token_set(context).intersect(token_set(candidate)).len()
}

/// The text-overlap factor fires when the context has tokens and some are matched.
pub open spec fn text_fires(context: Seq<char>, candidate: Seq<char>) -> bool {
    token_set(context).len() > 0 && matched_tokens(context, candidate) > 0
}

/// The text-overlap factor: matched over context tokens, scaled.
pub open spec fn text_part(context: Seq<char>, candidate: Seq<char>) -> Seq<EvidenceView> {
    if text_fires(context, candidate) {
        let m = matched_tokens(context, candidate);
        seq![(
            RankingFactor::TextOverlap,
            "token overlap "@ + decimal(m) + " tokens ("@
                + fixed2(WEIGHT_TEXT_OVERLAP as nat * m, 1000 * token_set(context).len()) + ")"@,
            seq![],
        )]
    } else {
        seq![]
    }
}

/// The text-overlap contribution (thousandths, rounded down).
pub open spec fn text_score(context: Seq<char>, candidate: Seq<char>) -> nat {
    if text_fires(context, candidate) {
        (WEIGHT_TEXT_OVERLAP as nat * matched_tokens(context, candidate) / token_set(context).len()) as nat
    } else {
        0
    }
}

/// The recency factor fires for any Investigation newer than the oldest.
pub open spec fn recency_part(age: nat, span: nat) -> Seq<EvidenceView> {
    if span > 0 && age > 0 {
        seq![(RankingFactor::Recency, "recency ("@ + fixed2(WEIGHT_RECENCY as nat * age, 1000 * span) + ")"@, seq![])]
    } else {
        seq![]
    }
}

/// The recency contribution (thousandths, rounded down).
pub open spec fn recency_score(age: nat, span: nat) -> nat {
    if span > 0 { (WEIGHT_RECENCY as nat * age / span) as nat } else { 0 }
}

/// The repository keys both sides hold.
pub open spec fn shared_repositories(a: ContextBundle, b: ContextBundle) -> Seq<ArtView> {
    kind_views(RelationshipKind::SharedRepository, a, b, "`"@)
}

/// The commits, then pull requests, then files both sides hold.
pub open spec fn shared_artifact_views(a: ContextBundle, b: ContextBundle) -> Seq<ArtView> {
    kind_views(RelationshipKind::SharedCommit, a, b, "commit `"@) + kind_views(RelationshipKind::SharedPullRequest, a, b, "pull request `"@)
        + kind_views(RelationshipKind::SharedFilePath, a, b, "file `"@)
}

/// The failure signatures both sides hold.
pub open spec fn shared_signatures(a: ContextBundle, b: ContextBundle) -> Seq<ArtView> {
    kind_views(RelationshipKind::RepeatedFailureSignature, a, b, "`"@)
}

/// The evaluation categories both sides hold.
pub open spec fn shared_categories(a: ContextBundle, b: ContextBundle) -> Seq<ArtView> {
    kind_views(RelationshipKind::SharedEvaluationCategory, a, b, "`"@)
}

/// The verification results both sides hold.
pub open spec fn shared_results(a: ContextBundle, b: ContextBundle) -> Seq<ArtView> {
    kind_views(RelationshipKind::RelatedVerificationOutcome, a, b, "`"@)
}

/// The factors that fire, in order: relationship, repository, artifacts,
/// failure signature, knowledge, evaluation, verification, text, recency.
pub open spec fn similarity_fired(
    rel: Option<InvestigationRelationship>,
    context: Investigation,
    a: ContextBundle,
    inv: Investigation,
    b: ContextBundle,
    age: nat,
    span: nat,
) -> Seq<EvidenceView> {
    relationship_part(rel) + list_part(RankingFactor::SharedRepository, "shared repository "@, shared_repositories(a, b), true)
        + list_part(RankingFactor::SharedArtifact, "shared "@, shared_artifact_views(a, b), true)
        + list_part(RankingFactor::FailureSignatureMatch, "failure signature "@, shared_signatures(a, b), true)
        + knowledge_part(a.knowledge@, b.knowledge@)
        + list_part(RankingFactor::EvaluationOverlap, "evaluation category "@, shared_categories(a, b), false)
        + list_part(RankingFactor::VerificationOverlap, "verification result "@, shared_results(a, b), false)
        + text_part(corpus_spec(context, a), corpus_spec(inv, b)) + recency_part(age, span)
}

/// The summed contributions of the fired factors, before confirmation.
pub open spec fn similarity_raw(
    rel: Option<InvestigationRelationship>,
    context: Investigation,
    a: ContextBundle,
    inv: Investigation,
    b: ContextBundle,
    age: nat,
    span: nat,
) -> nat {
    relationship_score(rel) + list_score(shared_repositories(a, b), WEIGHT_SHARED_REPOSITORY as nat)
        + list_score(shared_artifact_views(a, b), WEIGHT_SHARED_ARTIFACT as nat)
        + list_score(shared_signatures(a, b), WEIGHT_FAILURE_SIGNATURE as nat) + knowledge_score(a.knowledge@, b.knowledge@)
        + list_score(shared_categories(a, b), WEIGHT_EVALUATION_OVERLAP as nat)
        + list_score(shared_results(a, b), WEIGHT_VERIFICATION_OVERLAP as nat)
        + text_score(corpus_spec(context, a), corpus_spec(inv, b)) + recency_score(age, span)
}

/// The relationship was confirmed by a person.
pub open spec fn confirmed(rel: Option<InvestigationRelationship>) -> bool {
    rel matches Some(r) && r.confirmation.state == ConfirmationState::Confirmed
}

/// The final score: confirmed relationships multiply by 1.2 (rounded down),
/// then the score is capped at 1000.
pub open spec fn similarity_score(raw: nat, is_confirmed: bool) -> nat {
    let s = if is_confirmed { raw * 6 / 5 } else { raw };
    if s > 1000 { 1000 } else { s }
}

/// Some factor other than recency fired.
pub open spec fn has_signal(fired: Seq<EvidenceView>) -> bool {
    exists|i: int| 0 <= i < fired.len() && #[trigger] fired[i].0 != RankingFactor::Recency
}

/// The learning dispositions of a bundle, in order.
pub open spec fn dispositions(learning: Seq<LearningOutcome>) -> Seq<OutcomeDisposition> {
    learning.map_values(|o: LearningOutcome| o.disposition)
}

/// `r` is the similarity result for `inv` against the context: nothing when
/// only recency (or nothing) fired, otherwise the fired factors, their score
/// and explanation.
pub open spec fn similarity_with(
    r: Option<SearchResult>,
    context: Investigation,
    a: ContextBundle,
    inv: Investigation,
    b: ContextBundle,
    rel: Option<InvestigationRelationship>,
    age: nat,
    span: nat,
) -> bool {
    let fired = similarity_fired(rel, context, a, inv, b, age, span);
    match r {
        None => !has_signal(fired),
        Some(s) => {
            &&& has_signal(fired)
            &&& evidence_views(s.matched_evidence@) == fired
            &&& s.score == similarity_score(similarity_raw(rel, context, a, inv, b, age, span), confirmed(rel))
            &&& s.explanation@ == explanation_spec(s.score as nat, s.matched_evidence@)
            &&& s.investigation_id == inv.id
            &&& s.title@ == inv.title@
            &&& s.status == inv.status
            &&& s.relationship == rel
            &&& s.outcomes@ == dispositions(b.learning@)
            &&& s.created_at == inv.created_at
            &&& s.updated_at == inv.updated_at
        },
    }
}


/// Two ascending text sequences with the same members are equal.
pub proof fn lemma_sorted_same(x: Seq<Seq<char>>, y: Seq<Seq<char>>)
    requires
        sorted_texts(x),
        sorted_texts(y),
        forall|k: Seq<char>| #[trigger] x.contains(k) == y.contains(k),
    ensures
        x == y,
    decreases x.len(),
{
    if x.len() == 0 {
        if y.len() > 0 {
            assert(y.contains(y[0]));
            assert(x.contains(y[0]));
        }
        assert(x =~= y);
    } else if y.len() == 0 {
        assert(x.contains(x[0]));
    } else {
        assert(x.contains(x[0]));
        assert(y.contains(y[0]));
        assert(y.contains(x[0]));
        assert(x.contains(y[0]));
        let jy = choose|j: int| 0 <= j < y.len() && y[j] == x[0];
        let jx = choose|j: int| 0 <= j < x.len() && x[j] == y[0];
        lemma_lex_total(x[0], y[0]);
        if lex_lt(x[0], y[0]) {
            if jy == 0 {
                lemma_lex_irreflexive(x[0]);
            } else {
                assert(lex_lt(y[0], y[jy]));
                lemma_lex_asymmetric(x[0], y[0]);
            }
        }
        if lex_lt(y[0], x[0]) {
            if jx == 0 {
                lemma_lex_irreflexive(y[0]);
            } else {
                assert(lex_lt(x[0], x[jx]));
                lemma_lex_asymmetric(y[0], x[0]);
            }
        }
        assert(x[0] == y[0]);
        let xs = x.drop_first();
        let ys = y.drop_first();
        assert(sorted_texts(xs)) by {
            assert forall|i: int, j: int| 0 <= i < j < xs.len() implies lex_lt(#[trigger] xs[i], #[trigger] xs[j]) by {
                assert(xs[i] == x[i + 1] && xs[j] == x[j + 1]);
            }
        }
        assert(sorted_texts(ys)) by {
            assert forall|i: int, j: int| 0 <= i < j < ys.len() implies lex_lt(#[trigger] ys[i], #[trigger] ys[j]) by {
                assert(ys[i] == y[i + 1] && ys[j] == y[j + 1]);
            }
        }
        assert forall|k: Seq<char>| #[trigger] xs.contains(k) == ys.contains(k) by {
            if xs.contains(k) {
                let i = choose|i: int| 0 <= i < xs.len() && xs[i] == k;
                assert(x[i + 1] == k);
                assert(lex_lt(x[0], x[i + 1]));
                assert(x.contains(k));
                assert(y.contains(k));
                let j = choose|j: int| 0 <= j < y.len() && y[j] == k;
                if j == 0 {
                    lemma_lex_irreflexive(k);
                }
                assert(ys[j - 1] == k);
            }
            if ys.contains(k) {
                let i = choose|i: int| 0 <= i < ys.len() && ys[i] == k;
                assert(y[i + 1] == k);
                assert(lex_lt(y[0], y[i + 1]));
                assert(y.contains(k));
                assert(x.contains(k));
                let j = choose|j: int| 0 <= j < x.len() && x[j] == k;
                if j == 0 {
                    lemma_lex_irreflexive(k);
                }
                assert(xs[j - 1] == k);
            }
        }
        lemma_sorted_same(xs, ys);
        assert(x =~= seq![x[0]] + xs);
        assert(y =~= seq![y[0]] + ys);
    }
}

/// Artifacts that are exactly the shared keys, described and in order, are
/// the shared views.
pub proof fn lemma_shared_views(
    arts: Seq<SharedArtifact>,
    pa: Seq<(Option<Seq<char>>, ObjectId)>,
    pb: Seq<(Option<Seq<char>>, ObjectId)>,
    prefix: Seq<char>,
)
    requires
        intersect_artifacts(arts, pa, pb, prefix),
    ensures
        art_views(arts) == shared_views(pa, pb, prefix),
{
    let ks = artifact_keys(arts);
    assert forall|k: Seq<char>| #[trigger] ks.contains(k) == shared_in(pa, pb, k) by {
        if ks.contains(k) {
            let i = choose|i: int| 0 <= i < ks.len() && ks[i] == k;
            assert(ks[i] == arts[i].key@);
            assert(shared_in(pa, pb, arts[i].key@));
        }
    }
    assert(sorted_texts(ks) && forall|k: Seq<char>| #[trigger] ks.contains(k) == shared_in(pa, pb, k));
    let c = shared_key_list(pa, pb);
    assert(sorted_texts(c) && forall|k: Seq<char>| #[trigger] c.contains(k) == shared_in(pa, pb, k));
    assert forall|k: Seq<char>| #[trigger] c.contains(k) == ks.contains(k) by {}
    lemma_sorted_same(c, ks);
    assert forall|i: int| 0 <= i < arts.len() implies #[trigger] art_views(arts)[i] == shared_views(pa, pb, prefix)[i] by {
        assert(ks[i] == arts[i].key@);
    }
    assert(art_views(arts) =~= shared_views(pa, pb, prefix));
}


/// Pushes every identifier of `ids` onto `out`.
fn push_ids(out: &mut Vec<ObjectId>, ids: &Vec<ObjectId>)
    ensures
        final(out)@ == old(out)@ + ids@,
{
    let mut i: usize = 0;
    while i < ids.len()
        invariant
            i <= ids@.len(),
            out@ == old(out)@ + ids@.subrange(0, i as int),
        decreases ids.len() - i,
    {
        out.push(ids[i]);
        i = i + 1;
        assert(out@ =~= old(out)@ + ids@.subrange(0, i as int));
    }
    assert(ids@.subrange(0, ids@.len() as int) =~= ids@);
}

/// A list factor from shared artifacts.
fn list_evidence(factor: RankingFactor, label: &str, arts: &Vec<SharedArtifact>, use_context: bool) -> (r: Vec<MatchedEvidence>)
    ensures
        evidence_views(r@) == list_part(factor, label@, art_views(arts@), use_context),
{
    let ghost views = art_views(arts@);
    let mut r: Vec<MatchedEvidence> = Vec::new();
    if arts.len() == 0 {
        assert(evidence_views(r@) =~= list_part(factor, label@, views, use_context));
        return r;
    }
    let mut pieces: Vec<Vec<char>> = Vec::new();
    let mut ids: Vec<ObjectId> = Vec::new();
    let mut i: usize = 0;
    while i < arts.len()
        invariant
            i <= arts@.len(),
            views == art_views(arts@),
            pieces@.map_values(|p: Vec<char>| p@) == descriptions(views.subrange(0, i as int)),
            ids@ == if use_context { context_ids(views.subrange(0, i as int)) } else { candidate_ids(views.subrange(0, i as int)) },
        decreases arts.len() - i,
    {
        let ghost sub = views.subrange(0, i + 1);
        let ghost prev = pieces@.map_values(|p: Vec<char>| p@);
        assert(sub.drop_last() =~= views.subrange(0, i as int));
        assert(sub =~= views.subrange(0, i as int).push(views[i as int]));
        assert(descriptions(sub) =~= descriptions(views.subrange(0, i as int)).push(arts@[i as int].description@));
        let mut d: Vec<char> = Vec::new();
        push_chars(&mut d, &arts[i].description);
        pieces.push(d);
        assert(pieces@.map_values(|p: Vec<char>| p@) =~= prev.push(d@));
        if use_context {
            push_ids(&mut ids, &arts[i].a_ids);
        } else {
            push_ids(&mut ids, &arts[i].b_ids);
        }
        i = i + 1;
    }
    assert(views.subrange(0, arts@.len() as int) =~= views);
    let mut detail: Vec<char> = Vec::new();
    push_str(&mut detail, label);
    let joined = crate::text::join_chars(&pieces, ", ");
    push_chars(&mut detail, &joined);
    r.push(MatchedEvidence { factor, detail: to_string(&detail), object_ids: ids });
    assert(evidence_views(r@) =~= list_part(factor, label@, views, use_context));
    r
}

/// Concatenates three artifact lists.
fn concat_artifacts(a: Vec<SharedArtifact>, b: Vec<SharedArtifact>, c: Vec<SharedArtifact>) -> (r: Vec<SharedArtifact>)
    ensures
        art_views(r@) == art_views(a@) + art_views(b@) + art_views(c@),
{
    let ghost (av, bv, cv) = (a@, b@, c@);
    let mut r = a;
    let mut b = b;
    let mut c = c;
    r.append(&mut b);
    r.append(&mut c);
    assert(r@ == av + bv + cv);
    assert(art_views(r@) =~= art_views(av) + art_views(bv) + art_views(cv));
    r
}

/// The identifiers cited by relationship evidence.
pub fn relationship_ids_of(ev: &Vec<RelationshipEvidence>) -> (r: Vec<ObjectId>)
    ensures
        r@ == relationship_ids(ev@),
{
    let mut r: Vec<ObjectId> = Vec::new();
    let mut i: usize = 0;
    while i < ev.len()
        invariant
            i <= ev@.len(),
            r@ == relationship_ids(ev@.subrange(0, i as int)),
        decreases ev.len() - i,
    {
        assert(ev@.subrange(0, i + 1).drop_last() =~= ev@.subrange(0, i as int));
        push_ids(&mut r, &ev[i].object_ids);
        i = i + 1;
    }
    assert(ev@.subrange(0, ev@.len() as int) =~= ev@);
    r
}

/// The stored relationship factor and its weight.
fn relationship_evidence(rel: &Option<InvestigationRelationship>) -> (r: (Vec<MatchedEvidence>, u32))
    ensures
        evidence_views(r.0@) == relationship_part(*rel),
        r.1 == relationship_score(*rel),
{
    let mut v: Vec<MatchedEvidence> = Vec::new();
    match rel {
        None => {
            assert(evidence_views(v@) =~= relationship_part(*rel));
            (v, 0)
        },
        Some(r) => {
            let explicit = r.kind == RelationshipKind::ExplicitLink;
            let mut detail: Vec<char> = Vec::new();
            push_str(&mut detail, r.kind.as_str());
            push_str(&mut detail, " relationship `");
            let id = uuid_chars(r.id.value);
            push_chars(&mut detail, &id);
            push_str(&mut detail, "`");
            if r.confirmation.state == ConfirmationState::Confirmed {
                push_str(&mut detail, " (confirmed)");
            }
            let factor = if explicit { RankingFactor::ExplicitRelationship } else { RankingFactor::DerivedRelationship };
            v.push(MatchedEvidence { factor, detail: to_string(&detail), object_ids: relationship_ids_of(&r.evidence) });
            assert(evidence_views(v@) =~= relationship_part(*rel));
            (v, if explicit { WEIGHT_EXPLICIT_RELATIONSHIP } else { WEIGHT_DERIVED_RELATIONSHIP })
        },
    }
}

/// Whether some Knowledge object has this kind.
fn has_kind(ks: &Vec<KnowledgeObject>, k: KnowledgeKind) -> (b: bool)
    ensures
        b == kind_present(ks@, k),
{
    let mut i: usize = 0;
    while i < ks.len()
        invariant
            i <= ks@.len(),
            forall|j: int| 0 <= j < i ==> #[trigger] ks@[j].kind != k,
        decreases ks.len() - i,
    {
        if ks[i].kind == k {
            return true;
        }
        i = i + 1;
    }
    false
}

/// The knowledge-overlap factor and its contribution.
fn knowledge_evidence(a: &Vec<KnowledgeObject>, b: &Vec<KnowledgeObject>) -> (r: (Vec<MatchedEvidence>, u32))
    ensures
        evidence_views(r.0@) == knowledge_part(a@, b@),
        r.1 == knowledge_score(a@, b@),
        r.1 <= WEIGHT_KNOWLEDGE_OVERLAP,
{
    let mut v: Vec<MatchedEvidence> = Vec::new();
    let s1 = has_kind(a, KnowledgeKind::Summary);
    let s2 = has_kind(b, KnowledgeKind::Summary);
    let a1 = has_kind(a, KnowledgeKind::Activity);
    let a2 = has_kind(b, KnowledgeKind::Activity);
    let r1 = has_kind(a, KnowledgeKind::RiskSignal);
    let r2 = has_kind(b, KnowledgeKind::RiskSignal);
    let p1 = has_kind(a, KnowledgeKind::Pattern);
    let p2 = has_kind(b, KnowledgeKind::Pattern);
    let shared: u64 = (if s1 && s2 { 1u64 } else { 0 }) + (if a1 && a2 { 1u64 } else { 0 }) + (if r1 && r2 { 1u64 } else { 0 })
        + (if p1 && p2 { 1u64 } else { 0 });
    let union: u64 = (if s1 || s2 { 1u64 } else { 0 }) + (if a1 || a2 { 1u64 } else { 0 }) + (if r1 || r2 { 1u64 } else { 0 })
        + (if p1 || p2 { 1u64 } else { 0 });
    assert(shared == shared_kinds(a@, b@));
    assert(union == union_kinds(a@, b@));
    if a.len() == 0 || b.len() == 0 || shared == 0 {
        assert(evidence_views(v@) =~= knowledge_part(a@, b@));
        return (v, 0);
    }
    assert(shared <= union);
    assert((WEIGHT_KNOWLEDGE_OVERLAP as int * shared as int) / (union as int) <= WEIGHT_KNOWLEDGE_OVERLAP as int) by (nonlinear_arith)
        requires
            shared <= union,
            0 < shared,
            WEIGHT_KNOWLEDGE_OVERLAP == 350,
    ;
    let contribution = (WEIGHT_KNOWLEDGE_OVERLAP as u64 * shared / union) as u32;
    let mut detail: Vec<char> = Vec::new();
    push_str(&mut detail, "knowledge overlap ");
    push_decimal(&mut detail, shared as u128);
    push_str(&mut detail, "/");
    push_decimal(&mut detail, union as u128);
    push_str(&mut detail, " kinds (");
    push_fixed2(&mut detail, WEIGHT_KNOWLEDGE_OVERLAP as u128 * shared as u128, 1000 * union as u128);
    push_str(&mut detail, ")");
    let mut ids: Vec<ObjectId> = Vec::new();
    let mut i: usize = 0;
    while i < b.len()
        invariant
            i <= b@.len(),
            ids@ == knowledge_ids(b@.subrange(0, i as int)),
        decreases b.len() - i,
    {
        ids.push(b[i].id);
        i = i + 1;
        assert(ids@ =~= knowledge_ids(b@.subrange(0, i as int)));
    }
    assert(b@.subrange(0, b@.len() as int) =~= b@);
    v.push(MatchedEvidence { factor: RankingFactor::KnowledgeOverlap, detail: to_string(&detail), object_ids: ids });
    assert(evidence_views(v@) =~= knowledge_part(a@, b@));
    (v, contribution)
}

/// The texts both sets hold.
pub fn intersect_sets(a: &TextSet, b: &TextSet) -> (r: TextSet)
    requires
        a.wf(),
        b.wf(),
    ensures
        r.wf(),
        forall|x: Seq<char>| #[trigger] r.has(x) == (a.has(x) && b.has(x)),
{
    let mut shared = TextSet::new();
    let mut k: usize = 0;
    while k < a.items.len()
        invariant
            k <= a.items@.len(),
            shared.wf(),
            a.wf(),
            b.wf(),
            forall|x: Seq<char>| #[trigger] shared.has(x) == (a.seq().subrange(0, k as int).contains(x) && b.has(x)),
        decreases a.items.len() - k,
    {
        let ghost s0 = a.seq().subrange(0, k as int);
        let ghost s1 = a.seq().subrange(0, k + 1);
        assert(s1 == s0.push(a.seq()[k as int]));
        if b.contains(&a.items[k]) {
            let mut t: Vec<char> = Vec::new();
            push_chars(&mut t, &a.items[k]);
            shared.insert(t);
        }
        assert forall|x: Seq<char>| #[trigger] shared.has(x) == (s1.contains(x) && b.has(x)) by {
            if s1.contains(x) && x != a.seq()[k as int] {
                let q = choose|q: int| 0 <= q < s1.len() && s1[q] == x;
                assert(s0[q] == x);
            }
            if s0.contains(x) {
                let q = choose|q: int| 0 <= q < s0.len() && s0[q] == x;
                assert(s1[q] == x);
            }
            if x == a.seq()[k as int] {
                assert(s1[k as int] == x);
            }
        }
        k = k + 1;
    }
    assert(a.seq().subrange(0, a.items@.len() as int) =~= a.seq());
    shared
}

/// The token set of a text is the set view of its significant tokens.
pub proof fn lemma_token_set(t: TextSet, text: Seq<char>)
    requires
        t.wf(),
        forall|x: Seq<char>| #[trigger] t.has(x) == significant_seq(text).contains(x),
    ensures
        token_set(text) == t.seq().to_set(),
        token_set(text).len() == t.seq().len(),
{
    lemma_set_view(t);
    assert(token_set(text) =~= t.seq().to_set()) by {
        assert forall|x: Seq<char>| #[trigger] token_set(text).contains(x) == t.seq().to_set().contains(x) by {
            assert(t.seq().to_set().contains(x) == t.has(x));
        }
    }
}

/// The text-overlap factor and its contribution.
fn text_evidence(context_text: &String, candidate_text: &String) -> (r: (Vec<MatchedEvidence>, u32))
    ensures
        evidence_views(r.0@) == text_part(context_text@, candidate_text@),
        r.1 == text_score(context_text@, candidate_text@),
        r.1 <= WEIGHT_TEXT_OVERLAP,
{
    let mut v: Vec<MatchedEvidence> = Vec::new();
    let ct = significant_tokens(context_text.as_str());
    proof {
        lemma_token_set(ct, context_text@);
    }
    let n = ct.len();
    if n == 0 {
        assert(evidence_views(v@) =~= text_part(context_text@, candidate_text@));
        return (v, 0);
    }
    let bt = significant_tokens(candidate_text.as_str());
    let shared = intersect_sets(&ct, &bt);
    let m = shared.len();
    proof {
        lemma_token_set(bt, candidate_text@);
        lemma_set_view(shared);
        assert(shared.seq().to_set() =~= token_set(context_text@).intersect(token_set(candidate_text@))) by {
            assert forall|x: Seq<char>| #[trigger] shared.seq().to_set().contains(x) == token_set(context_text@).intersect(
                token_set(candidate_text@),
            ).contains(x) by {
                assert(shared.seq().to_set().contains(x) == shared.has(x));
                assert(ct.seq().to_set().contains(x) == ct.has(x)) by {
                    lemma_set_view(ct);
                }
                assert(bt.seq().to_set().contains(x) == bt.has(x)) by {
                    lemma_set_view(bt);
                }
            }
        }
        assert(m == matched_tokens(context_text@, candidate_text@));
        assert(shared.seq().to_set().subset_of(ct.seq().to_set()));
        vstd::set_lib::lemma_len_subset(shared.seq().to_set(), ct.seq().to_set());
    }
    if m == 0 {
        assert(evidence_views(v@) =~= text_part(context_text@, candidate_text@));
        return (v, 0);
    }
    assert((WEIGHT_TEXT_OVERLAP as int * m as int) / (n as int) <= WEIGHT_TEXT_OVERLAP as int) by (nonlinear_arith)
        requires
            m <= n,
            0 < n,
            WEIGHT_TEXT_OVERLAP == 350,
    ;
    let contribution = (WEIGHT_TEXT_OVERLAP as u128 * m as u128 / n as u128) as u32;
    let mut detail: Vec<char> = Vec::new();
    push_str(&mut detail, "token overlap ");
    push_decimal(&mut detail, m as u128);
    push_str(&mut detail, " tokens (");
    push_fixed2(&mut detail, WEIGHT_TEXT_OVERLAP as u128 * m as u128, 1000 * n as u128);
    push_str(&mut detail, ")");
    v.push(MatchedEvidence { factor: RankingFactor::TextOverlap, detail: to_string(&detail), object_ids: Vec::new() });
    assert(evidence_views(v@) =~= text_part(context_text@, candidate_text@));
    (v, contribution)
}

/// The recency factor and its contribution.
pub fn recency_evidence(age: u64, span: u64) -> (r: (Vec<MatchedEvidence>, u32))
    requires
        age <= span,
    ensures
        evidence_views(r.0@) == recency_part(age as nat, span as nat),
        r.1 == recency_score(age as nat, span as nat),
        r.1 <= WEIGHT_RECENCY,
{
    let mut v: Vec<MatchedEvidence> = Vec::new();
    if span == 0 {
        assert(evidence_views(v@) =~= recency_part(age as nat, span as nat));
        return (v, 0);
    }
    assert((WEIGHT_RECENCY as int * age as int) / (span as int) <= WEIGHT_RECENCY as int) by (nonlinear_arith)
        requires
            age <= span,
            0 < span,
            WEIGHT_RECENCY == 100,
    ;
    let contribution = (WEIGHT_RECENCY as u128 * age as u128 / span as u128) as u32;
    if age > 0 {
        let mut detail: Vec<char> = Vec::new();
        push_str(&mut detail, "recency (");
        push_fixed2(&mut detail, WEIGHT_RECENCY as u128 * age as u128, 1000 * span as u128);
        push_str(&mut detail, ")");
        v.push(MatchedEvidence { factor: RankingFactor::Recency, detail: to_string(&detail), object_ids: Vec::new() });
    }
    assert(evidence_views(v@) =~= recency_part(age as nat, span as nat));
    (v, contribution)
}

/// Appends fired factors.
pub fn append_evidence(a: &mut Vec<MatchedEvidence>, b: Vec<MatchedEvidence>)
    ensures
        evidence_views(final(a)@) == evidence_views(old(a)@) + evidence_views(b@),
{
    let mut b = b;
    let ghost bv = b@;
    a.append(&mut b);
    assert(evidence_views(a@) =~= evidence_views(old(a)@) + evidence_views(bv));
}

/// The shared artifacts of one kind, described with `prefix`.
fn shared_of(kind: RelationshipKind, a: &ContextBundle, b: &ContextBundle, prefix: &str) -> (arts: Vec<SharedArtifact>)
    requires
        kind != RelationshipKind::SimilarObservations,
        kind != RelationshipKind::ExplicitLink,
    ensures
        art_views(arts@) == kind_views(kind, *a, *b, prefix@),
{
    let (ma, mb) = kind_maps(kind, a, b);
    let arts = shared_artifacts(&ma, &mb, prefix, Ghost(kind_pairs(kind, *a)), Ghost(kind_pairs(kind, *b)));
    proof {
        lemma_shared_views(arts@, kind_pairs(kind, *a), kind_pairs(kind, *b), prefix@);
    }
    arts
}

/// The fired factors of one comparison and their summed contributions.
fn similarity_signals(
    context: &Investigation,
    a: &ContextBundle,
    inv: &Investigation,
    b: &ContextBundle,
    relationship: &Option<InvestigationRelationship>,
    age: u64,
    span: u64,
) -> (r: (Vec<MatchedEvidence>, u64))
    requires
        age <= span,
    ensures
        evidence_views(r.0@) == similarity_fired(*relationship, *context, *a, *inv, *b, age as nat, span as nat),
        r.1 == similarity_raw(*relationship, *context, *a, *inv, *b, age as nat, span as nat),
        r.1 <= 4000,
{
    let repos = shared_of(RelationshipKind::SharedRepository, a, b, "`");
    let commits = shared_of(RelationshipKind::SharedCommit, a, b, "commit `");
    let prs = shared_of(RelationshipKind::SharedPullRequest, a, b, "pull request `");
    let files = shared_of(RelationshipKind::SharedFilePath, a, b, "file `");
    let signatures = shared_of(RelationshipKind::RepeatedFailureSignature, a, b, "`");
    let categories = shared_of(RelationshipKind::SharedEvaluationCategory, a, b, "`");
    let results = shared_of(RelationshipKind::RelatedVerificationOutcome, a, b, "`");
    let artifacts = concat_artifacts(commits, prs, files);

    let (mut fired, rel_score) = relationship_evidence(relationship);
    let mut raw: u64 = rel_score as u64;
    append_evidence(&mut fired, list_evidence(RankingFactor::SharedRepository, "shared repository ", &repos, true));
    if repos.len() > 0 {
        raw = raw + WEIGHT_SHARED_REPOSITORY as u64;
    }
    append_evidence(&mut fired, list_evidence(RankingFactor::SharedArtifact, "shared ", &artifacts, true));
    if artifacts.len() > 0 {
        raw = raw + WEIGHT_SHARED_ARTIFACT as u64;
    }
    append_evidence(&mut fired, list_evidence(RankingFactor::FailureSignatureMatch, "failure signature ", &signatures, true));
    if signatures.len() > 0 {
        raw = raw + WEIGHT_FAILURE_SIGNATURE as u64;
    }
    let (kev, kscore) = knowledge_evidence(&a.knowledge, &b.knowledge);
    append_evidence(&mut fired, kev);
    raw = raw + kscore as u64;
    append_evidence(&mut fired, list_evidence(RankingFactor::EvaluationOverlap, "evaluation category ", &categories, false));
    if categories.len() > 0 {
        raw = raw + WEIGHT_EVALUATION_OVERLAP as u64;
    }
    append_evidence(&mut fired, list_evidence(RankingFactor::VerificationOverlap, "verification result ", &results, false));
    if results.len() > 0 {
        raw = raw + WEIGHT_VERIFICATION_OVERLAP as u64;
    }
    let ct = search_corpus(context, a);
    let bt = search_corpus(inv, b);
    let (tev, tscore) = text_evidence(&ct, &bt);
    append_evidence(&mut fired, tev);
    raw = raw + tscore as u64;
    let (rev, rscore) = recency_evidence(age, span);
    append_evidence(&mut fired, rev);
    raw = raw + rscore as u64;
    (fired, raw)
}

/// Whether some fired factor is not recency.
pub fn any_signal(fired: &Vec<MatchedEvidence>) -> (b: bool)
    ensures
        b == has_signal(evidence_views(fired@)),
{
    let ghost views = evidence_views(fired@);
    let mut i: usize = 0;
    while i < fired.len()
        invariant
            i <= fired@.len(),
            views == evidence_views(fired@),
            forall|j: int| 0 <= j < i ==> (#[trigger] views[j]).0 == RankingFactor::Recency,
        decreases fired.len() - i,
    {
        if fired[i].factor != RankingFactor::Recency {
            assert(views[i as int].0 != RankingFactor::Recency);
            return true;
        }
        i = i + 1;
    }
    false
}

/// The learning dispositions of a bundle.
pub fn dispositions_of(learning: &Vec<LearningOutcome>) -> (r: Vec<OutcomeDisposition>)
    ensures
        r@ == dispositions(learning@),
{
    let mut r: Vec<OutcomeDisposition> = Vec::new();
    let mut i: usize = 0;
    while i < learning.len()
        invariant
            i <= learning@.len(),
            r@ == dispositions(learning@.subrange(0, i as int)),
        decreases learning.len() - i,
    {
        r.push(learning[i].disposition);
        i = i + 1;
        assert(r@ =~= dispositions(learning@.subrange(0, i as int)));
    }
    assert(learning@.subrange(0, learning@.len() as int) =~= learning@);
    r
}

fn copy_text(s: &String) -> (r: String)
    ensures
        r@ == s@,
{
    s.as_str().to_owned()
}

/// Scores one candidate Investigation against the context Investigation.
///
/// `relationship` is the stored, not dismissed relationship between the two
/// (if any); `age` and `span` place the candidate's creation time within the
/// range of all Investigations (`age` from the oldest, `span` from oldest to
/// newest). No result when nothing but recency fired.
pub fn similarity_result(
    context: &Investigation,
    context_bundle: &ContextBundle,
    inv: &Investigation,
    bundle: &ContextBundle,
    relationship: Option<InvestigationRelationship>,
    age: u64,
    span: u64,
) -> (r: Option<SearchResult>)
    requires
        age <= span,
    ensures
        similarity_with(r, *context, *context_bundle, *inv, *bundle, relationship, age as nat, span as nat),
        r matches Some(s) ==> s.score <= 1000,
{
    let (fired, raw) = similarity_signals(context, context_bundle, inv, bundle, &relationship, age, span);
    if !any_signal(&fired) {
        return None;
    }
    let is_confirmed = match &relationship {
        Some(rel) => rel.confirmation.state == ConfirmationState::Confirmed,
        None => false,
    };
    let scaled: u64 = if is_confirmed { raw * 6 / 5 } else { raw };
    let score: u32 = if scaled > 1000 { 1000 } else { scaled as u32 };
    let explanation = compose_explanation(score, &fired);
    Some(SearchResult {
        investigation_id: inv.id,
        title: copy_text(&inv.title),
        status: inv.status,
        score,
        explanation,
        matched_evidence: fired,
        relationship,
        outcomes: dispositions_of(&bundle.learning),
        created_at: inv.created_at,
        updated_at: inv.updated_at,
    })
}


/// A stored relationship links the two Investigations and was not dismissed.
pub open spec fn relationship_between(r: InvestigationRelationship, a: InvestigationId, b: InvestigationId) -> bool {
    r.touches_spec(a) && r.touches_spec(b) && r.confirmation.state != ConfirmationState::Dismissed
}

/// `i` is the first relationship between the two Investigations.
pub open spec fn first_between_at(rels: Seq<InvestigationRelationship>, a: InvestigationId, b: InvestigationId, i: int) -> bool {
    &&& 0 <= i < rels.len()
    &&& relationship_between(rels[i], a, b)
    &&& forall|j: int| 0 <= j < i ==> !relationship_between(#[trigger] rels[j], a, b)
}

/// The first stored relationship between the two Investigations, if any.
pub open spec fn first_between(rels: Seq<InvestigationRelationship>, a: InvestigationId, b: InvestigationId) -> Option<InvestigationRelationship> {
    if exists|i: int| first_between_at(rels, a, b, i) {
        Some(rels[choose|i: int| first_between_at(rels, a, b, i)])
    } else {
        None
    }
}

/// A relationship evidence item as plain values.
pub open spec fn rel_evidence_view(e: RelationshipEvidence) -> (Seq<char>, Seq<ObjectId>) {
    (e.description@, e.object_ids@)
}

/// An optional text as plain values.
pub open spec fn opt_text(s: Option<String>) -> Option<Seq<char>> {
    match s {
        Some(t) => Some(t@),
        None => None,
    }
}

/// Two relationships hold the same values.
pub open spec fn same_relationship(x: InvestigationRelationship, y: InvestigationRelationship) -> bool {
    &&& x.id == y.id
    &&& x.kind == y.kind
    &&& x.source_investigation_id == y.source_investigation_id
    &&& x.target_investigation_id == y.target_investigation_id
    &&& x.confidence == y.confidence
    &&& x.evidence@.map_values(|e: RelationshipEvidence| rel_evidence_view(e)) == y.evidence@.map_values(
        |e: RelationshipEvidence| rel_evidence_view(e),
    )
    &&& x.method@ == y.method@
    &&& x.explanation@ == y.explanation@
    &&& x.confirmation.state == y.confirmation.state
    &&& opt_text(x.confirmation.actor) == opt_text(y.confirmation.actor)
    &&& x.confirmation.at == y.confirmation.at
    &&& x.created_at == y.created_at
    &&& x.identity_key@ == y.identity_key@
}

/// Two optional relationships hold the same values.
pub open spec fn same_relationship_opt(x: Option<InvestigationRelationship>, y: Option<InvestigationRelationship>) -> bool {
    match (x, y) {
        (Some(a), Some(b)) => same_relationship(a, b),
        (None, None) => true,
        _ => false,
    }
}

/// A copy of a relationship.
pub fn copy_relationship(r: &InvestigationRelationship) -> (c: InvestigationRelationship)
    ensures
        same_relationship(c, *r),
{
    let mut evidence: Vec<RelationshipEvidence> = Vec::new();
    let mut i: usize = 0;
    while i < r.evidence.len()
        invariant
            i <= r.evidence@.len(),
            evidence@.map_values(|e: RelationshipEvidence| rel_evidence_view(e)) == r.evidence@.subrange(0, i as int).map_values(
                |e: RelationshipEvidence| rel_evidence_view(e),
            ),
        decreases r.evidence.len() - i,
    {
        let ghost before = evidence@.map_values(|e: RelationshipEvidence| rel_evidence_view(e));
        let mut ids: Vec<ObjectId> = Vec::new();
        push_ids(&mut ids, &r.evidence[i].object_ids);
        assert(ids@ =~= r.evidence@[i as int].object_ids@);
        let item = RelationshipEvidence { description: copy_text(&r.evidence[i].description), object_ids: ids };
        assert(rel_evidence_view(item) == rel_evidence_view(r.evidence@[i as int]));
        evidence.push(item);
        assert(evidence@.map_values(|e: RelationshipEvidence| rel_evidence_view(e)) =~= before.push(rel_evidence_view(item)));
        assert(r.evidence@.subrange(0, i + 1) =~= r.evidence@.subrange(0, i as int).push(r.evidence@[i as int]));
        i = i + 1;
        assert(evidence@.map_values(|e: RelationshipEvidence| rel_evidence_view(e)) =~= r.evidence@.subrange(0, i as int).map_values(
            |e: RelationshipEvidence| rel_evidence_view(e),
        ));
    }
    assert(r.evidence@.subrange(0, r.evidence@.len() as int) =~= r.evidence@);
    InvestigationRelationship {
        id: r.id,
        kind: r.kind,
        source_investigation_id: r.source_investigation_id,
        target_investigation_id: r.target_investigation_id,
        confidence: r.confidence,
        evidence,
        method: copy_text(&r.method),
        explanation: copy_text(&r.explanation),
        confirmation: crate::model::RelationshipConfirmation {
            state: r.confirmation.state,
            actor: match &r.confirmation.actor {
                Some(a) => Some(copy_text(a)),
                None => None,
            },
            at: r.confirmation.at,
        },
        created_at: r.created_at,
        identity_key: copy_text(&r.identity_key),
    }
}

/// Position of the first relationship between the two Investigations.
pub fn first_between_index(rels: &Vec<InvestigationRelationship>, a: InvestigationId, b: InvestigationId) -> (r: Option<usize>)
    ensures
        match r {
            Some(i) => first_between_at(rels@, a, b, i as int) && first_between(rels@, a, b) == Some(rels@[i as int]),
            None => first_between(rels@, a, b) is None,
        },
{
    let mut i: usize = 0;
    while i < rels.len()
        invariant
            i <= rels@.len(),
            forall|j: int| 0 <= j < i ==> !relationship_between(#[trigger] rels@[j], a, b),
        decreases rels.len() - i,
    {
        let r = &rels[i];
        if r.touches(a) && r.touches(b) && r.confirmation.state != ConfirmationState::Dismissed {
            assert(first_between_at(rels@, a, b, i as int));
            let ghost c = choose|x: int| first_between_at(rels@, a, b, x);
            assert(c == i as int) by {
                if c < i {
                    assert(!relationship_between(rels@[c], a, b));
                } else if c > i {
                    assert(!relationship_between(rels@[i as int], a, b));
                }
            }
            return Some(i);
        }
        i = i + 1;
    }
    assert(!exists|x: int| first_between_at(rels@, a, b, x)) by {
        if exists|x: int| first_between_at(rels@, a, b, x) {
            let x = choose|x: int| first_between_at(rels@, a, b, x);
            assert(!relationship_between(rels@[x], a, b));
        }
    }
    None
}

/// Whether a signal other than recency fires does not depend on which copy
/// of the relationship is used.
pub proof fn lemma_signal_same(
    x: Option<InvestigationRelationship>,
    y: Option<InvestigationRelationship>,
    context: Investigation,
    a: ContextBundle,
    inv: Investigation,
    b: ContextBundle,
    age: nat,
    span: nat,
)
    requires
        same_relationship_opt(x, y),
    ensures
        has_signal(similarity_fired(x, context, a, inv, b, age, span)) == has_signal(similarity_fired(y, context, a, inv, b, age, span)),
{
    let fx = similarity_fired(x, context, a, inv, b, age, span);
    let fy = similarity_fired(y, context, a, inv, b, age, span);
    let rx = relationship_part(x);
    let ry = relationship_part(y);
    assert(rx.len() == ry.len());
    assert(fx.len() == fy.len());
    assert forall|i: int| 0 <= i < fx.len() implies (#[trigger] fx[i]).0 == fy[i].0 by {
        if i < rx.len() {
            assert(fx[i] == rx[i]);
            assert(fy[i] == ry[i]);
        } else {
            assert(fx[i] == fy[i]);
        }
    }
    if has_signal(fx) {
        let i = choose|i: int| 0 <= i < fx.len() && #[trigger] fx[i].0 != RankingFactor::Recency;
        assert(fy[i].0 != RankingFactor::Recency);
    }
    if has_signal(fy) {
        let i = choose|i: int| 0 <= i < fy.len() && #[trigger] fy[i].0 != RankingFactor::Recency;
        assert(fx[i].0 == fy[i].0);
    }
}


/// A candidate row: an Investigation with its durable context.
pub type Row = (Investigation, ContextBundle);

/// The earliest creation time of the rows (0 for none).
pub open spec fn min_created(rows: Seq<Row>) -> i64
    decreases rows.len(),
{
    if rows.len() == 0 {
        0
    } else if rows.len() == 1 {
        rows[0].0.created_at
    } else {
        let m = min_created(rows.drop_last());
        if rows.last().0.created_at < m { rows.last().0.created_at } else { m }
    }
}

/// The latest creation time of the rows (0 for none).
pub open spec fn max_created(rows: Seq<Row>) -> i64
    decreases rows.len(),
{
    if rows.len() == 0 {
        0
    } else if rows.len() == 1 {
        rows[0].0.created_at
    } else {
        let m = max_created(rows.drop_last());
        if rows.last().0.created_at > m { rows.last().0.created_at } else { m }
    }
}

/// Every row lies between the earliest and the latest creation time.
pub proof fn lemma_created_bounds(rows: Seq<Row>)
    ensures
        forall|j: int| 0 <= j < rows.len() ==> min_created(rows) <= (#[trigger] rows[j]).0.created_at <= max_created(rows),
    decreases rows.len(),
{
    if rows.len() > 1 {
        lemma_created_bounds(rows.drop_last());
        assert forall|j: int| 0 <= j < rows.len() implies min_created(rows) <= (#[trigger] rows[j]).0.created_at <= max_created(rows) by {
            if j < rows.len() - 1 {
                assert(rows[j] == rows.drop_last()[j]);
            }
        }
    }
}

/// How long after the earliest row this row was created.
pub open spec fn row_age(rows: Seq<Row>, j: int) -> nat {
    (rows[j].0.created_at - min_created(rows)) as nat
}

/// The span of creation times of the rows.
pub open spec fn row_span(rows: Seq<Row>) -> nat {
    (max_created(rows) - min_created(rows)) as nat
}

/// Row `j` is another Investigation for which a signal other than recency fires.
#[verifier::opaque]
pub open spec fn signalling(context: Investigation, cb: ContextBundle, rows: Seq<Row>, rels: Seq<InvestigationRelationship>, j: int) -> bool {
    &&& rows[j].0.id != context.id
    &&& has_signal(similarity_fired(first_between(rels, context.id, rows[j].0.id), context, cb, rows[j].0, rows[j].1, row_age(rows, j), row_span(rows)))
}

/// `s` is the similarity result of row `j` against the context.
#[verifier::opaque]
pub open spec fn candidate_result(
    s: SearchResult,
    context: Investigation,
    cb: ContextBundle,
    rows: Seq<Row>,
    rels: Seq<InvestigationRelationship>,
    j: int,
) -> bool {
    &&& 0 <= j < rows.len()
    &&& rows[j].0.id != context.id
    &&& same_relationship_opt(s.relationship, first_between(rels, context.id, rows[j].0.id))
    &&& similarity_with(Some(s), context, cb, rows[j].0, rows[j].1, s.relationship, row_age(rows, j), row_span(rows))
}

/// `a` ranks before `b`: higher score, then newer, then smaller identifier.
pub open spec fn search_before(a: SearchResult, b: SearchResult) -> bool {
    a.score > b.score || (a.score == b.score && (a.created_at > b.created_at || (a.created_at == b.created_at
        && a.investigation_id.value < b.investigation_id.value)))
}

/// No result ranks before one listed earlier.
pub open spec fn ordered_results(r: Seq<SearchResult>) -> bool {
    forall|a: int, b: int| 0 <= a < b < r.len() ==> !search_before(#[trigger] r[b], #[trigger] r[a])
}

/// `full` are the results of the rows `src` (each signalling row exactly
/// once), in rank order, and `r` is its first `limit` results.
pub open spec fn similar_from(
    r: Seq<SearchResult>,
    full: Seq<SearchResult>,
    src: Seq<int>,
    context: Investigation,
    cb: ContextBundle,
    rows: Seq<Row>,
    rels: Seq<InvestigationRelationship>,
    limit: Option<usize>,
) -> bool {
    &&& full.len() == src.len()
    &&& src.no_duplicates()
    &&& forall|i: int| 0 <= i < src.len() ==> #[trigger] candidate_result(full[i], context, cb, rows, rels, src[i])
    &&& forall|j: int| 0 <= j < rows.len() && #[trigger] signalling(context, cb, rows, rels, j) ==> src.contains(j)
    &&& ordered_results(full)
    &&& r == match limit {
        Some(k) => if k < full.len() { full.take(k as int) } else { full },
        None => full,
    }
}

/// Whether `a` ranks before `b`.
fn result_before(a: &SearchResult, b: &SearchResult) -> (r: bool)
    ensures
        r == search_before(*a, *b),
{
    a.score > b.score || (a.score == b.score && (a.created_at > b.created_at || (a.created_at == b.created_at
        && a.investigation_id.value < b.investigation_id.value)))
}

/// Inserts a result at its rank position, after every result it does not
/// rank before.
pub fn insert_ranked(results: &mut Vec<SearchResult>, s: SearchResult) -> (pos: usize)
    requires
        ordered_results(old(results)@),
    ensures
        pos <= old(results)@.len(),
        final(results)@ == old(results)@.insert(pos as int, s),
        ordered_results(final(results)@),
{
    let n = results.len();
    let mut pos: usize = 0;
    while pos < n && !result_before(&s, &results[pos])
        invariant
            pos <= n,
            n == results@.len(),
            forall|q: int| 0 <= q < pos ==> !search_before(s, #[trigger] results@[q]),
        decreases n - pos,
    {
        pos = pos + 1;
    }
    let ghost old_results = results@;
    proof {
        assert forall|q: int| pos <= q < n implies !search_before(#[trigger] old_results[q], s) by {
            if q > pos {
                assert(!search_before(old_results[q], old_results[pos as int]));
            }
        }
    }
    results.insert(pos, s);
    proof {
        assert forall|a: int, b: int| 0 <= a < b < results@.len() implies !search_before(#[trigger] results@[b], #[trigger] results@[a]) by {
            if b < pos {
                assert(results@[a] == old_results[a] && results@[b] == old_results[b]);
            } else if b == pos {
                assert(results@[a] == old_results[a]);
            } else if a == pos {
                assert(results@[b] == old_results[b - 1]);
            } else if a < pos {
                assert(results@[a] == old_results[a] && results@[b] == old_results[b - 1]);
            } else {
                assert(results@[a] == old_results[a - 1] && results@[b] == old_results[b - 1]);
            }
        }
    }
    pos
}

/// The bookkeeping of one inserted result keeps the loop facts.
proof fn lemma_inserted(
    results: Seq<SearchResult>,
    src: Seq<int>,
    pos: int,
    s: SearchResult,
    j: int,
    context: Investigation,
    cb: ContextBundle,
    rows: Seq<Row>,
    rels: Seq<InvestigationRelationship>,
)
    requires
        0 <= pos <= results.len(),
        0 <= j,
        results.len() == src.len(),
        src.no_duplicates(),
        forall|i: int| 0 <= i < src.len() ==> 0 <= #[trigger] src[i] < j,
        forall|i: int| 0 <= i < src.len() ==> #[trigger] candidate_result(results[i], context, cb, rows, rels, src[i]),
        forall|q: int| 0 <= q < j && #[trigger] signalling(context, cb, rows, rels, q) ==> src.contains(q),
        candidate_result(s, context, cb, rows, rels, j),
    ensures
        ({
            let r2 = results.insert(pos, s);
            let s2 = src.insert(pos, j);
            &&& r2.len() == s2.len()
            &&& s2.no_duplicates()
            &&& forall|i: int| 0 <= i < s2.len() ==> 0 <= #[trigger] s2[i] < j + 1
            &&& forall|i: int| 0 <= i < s2.len() ==> #[trigger] candidate_result(r2[i], context, cb, rows, rels, s2[i])
            &&& forall|q: int| 0 <= q < j + 1 && #[trigger] signalling(context, cb, rows, rels, q) ==> s2.contains(q)
        }),
{
    let r2 = results.insert(pos, s);
    let s2 = src.insert(pos, j);
    assert forall|i: int| 0 <= i < s2.len() implies #[trigger] candidate_result(r2[i], context, cb, rows, rels, s2[i]) by {
        if i < pos {
            assert(r2[i] == results[i] && s2[i] == src[i]);
        } else if i > pos {
            assert(r2[i] == results[i - 1] && s2[i] == src[i - 1]);
        }
    }
    assert forall|i: int| 0 <= i < s2.len() implies 0 <= #[trigger] s2[i] < j + 1 by {
        if i < pos {
            assert(s2[i] == src[i]);
        } else if i > pos {
            assert(s2[i] == src[i - 1]);
        }
    }
    assert forall|x: int, y: int| 0 <= x < s2.len() && 0 <= y < s2.len() && x != y implies s2[x] != s2[y] by {
        if x != pos && y != pos {
            let ox = if x < pos { x } else { x - 1 };
            let oy = if y < pos { y } else { y - 1 };
            assert(s2[x] == src[ox] && s2[y] == src[oy]);
        } else if x == pos {
            let oy = if y < pos { y } else { y - 1 };
            assert(s2[y] == src[oy]);
            assert(src[oy] < j);
        } else {
            let ox = if x < pos { x } else { x - 1 };
            assert(s2[x] == src[ox]);
            assert(src[ox] < j);
        }
    }
    assert forall|q: int| 0 <= q < j + 1 && #[trigger] signalling(context, cb, rows, rels, q) implies s2.contains(q) by {
        if q == j {
            assert(s2[pos] == q);
        } else {
            assert(src.contains(q));
            let k = choose|k: int| 0 <= k < src.len() && src[k] == q;
            if k < pos {
                assert(s2[k] == q);
            } else {
                assert(s2[k + 1] == q);
            }
        }
    }
}

/// Earliest and latest creation times of the rows.
fn created_range(rows: &Vec<Row>) -> (r: (i64, i64))
    ensures
        r.0 == min_created(rows@),
        r.1 == max_created(rows@),
{
    if rows.len() == 0 {
        return (0, 0);
    }
    let mut lo = rows[0].0.created_at;
    let mut hi = rows[0].0.created_at;
    let mut i: usize = 1;
    while i < rows.len()
        invariant
            1 <= i <= rows@.len(),
            lo == min_created(rows@.subrange(0, i as int)),
            hi == max_created(rows@.subrange(0, i as int)),
        decreases rows.len() - i,
    {
        assert(rows@.subrange(0, i + 1).drop_last() =~= rows@.subrange(0, i as int));
        let c = rows[i].0.created_at;
        if c < lo {
            lo = c;
        }
        if c > hi {
            hi = c;
        }
        i = i + 1;
    }
    assert(rows@.subrange(0, rows@.len() as int) =~= rows@);
    (lo, hi)
}

/// Finds Investigations similar to the context Investigation, best first.
///
/// `rows` are all Investigations with their durable context (the context
/// Investigation itself is never returned) and `relationships` all stored
/// relationships. Each other Investigation is scored on the signals it shares
/// with the context; those for which only recency fires are left out. The
/// results rank by score, then creation time (newest first), then
/// identifier, and are cut to `limit`.
#[verifier::rlimit(50)]
#[verifier::spinoff_prover]
pub fn find_similar_investigations(
    context: &Investigation,
    context_bundle: &ContextBundle,
    rows: &Vec<Row>,
    relationships: &Vec<InvestigationRelationship>,
    limit: Option<usize>,
) -> (r: Vec<SearchResult>)
    ensures
        exists|full: Seq<SearchResult>, src: Seq<int>|
            #[trigger] similar_from(r@, full, src, *context, *context_bundle, rows@, relationships@, limit),
{
    let (oldest, newest) = created_range(rows);
    proof {
        lemma_created_bounds(rows@);
    }
    let mut results: Vec<SearchResult> = Vec::new();
    let ghost mut src: Seq<int> = seq![];
    let mut j: usize = 0;
    while j < rows.len()
        invariant
            j <= rows@.len(),
            oldest == min_created(rows@),
            newest == max_created(rows@),
            forall|q: int| 0 <= q < rows@.len() ==> oldest <= (#[trigger] rows@[q]).0.created_at <= newest,
            results@.len() == src.len(),
            src.no_duplicates(),
            forall|i: int| 0 <= i < src.len() ==> 0 <= #[trigger] src[i] < j,
            forall|i: int| 0 <= i < src.len() ==> #[trigger] candidate_result(results@[i], *context, *context_bundle, rows@, relationships@, src[i]),
            forall|q: int| 0 <= q < j && #[trigger] signalling(*context, *context_bundle, rows@, relationships@, q) ==> src.contains(q),
            ordered_results(results@),
        decreases rows.len() - j,
    {
        let inv = &rows[j].0;
        let bundle = &rows[j].1;
        if inv.id == context.id {
            assert(!signalling(*context, *context_bundle, rows@, relationships@, j as int)) by {
                reveal(signalling);
            }
            j = j + 1;
            continue;
        }
        let rel = match first_between_index(relationships, context.id, inv.id) {
            Some(k) => Some(copy_relationship(&relationships[k])),
            None => None,
        };
        let ghost original = first_between(relationships@, context.id, inv.id);
        assert(same_relationship_opt(rel, original));
        let age = (inv.created_at as i128 - oldest as i128) as u64;
        let span = (newest as i128 - oldest as i128) as u64;
        assert(age as nat == row_age(rows@, j as int));
        assert(span as nat == row_span(rows@));
        let ghost relv = rel;
        let found = similarity_result(context, context_bundle, inv, bundle, rel, age, span);
        proof {
            lemma_signal_same(relv, original, *context, *context_bundle, *inv, *bundle, age as nat, span as nat);
        }
        match found {
            None => {
                assert(!signalling(*context, *context_bundle, rows@, relationships@, j as int)) by {
                    reveal(signalling);
                }
            },
            Some(s) => {
                assert(candidate_result(s, *context, *context_bundle, rows@, relationships@, j as int)) by {
                    reveal(candidate_result);
                }
                let ghost old_results = results@;
                let pos = insert_ranked(&mut results, s);
                proof {
                    lemma_inserted(old_results, src, pos as int, s, j as int, *context, *context_bundle, rows@, relationships@);
                    src = src.insert(pos as int, j as int);
                }
            },
        }
        j = j + 1;
    }
    let ghost full = results@;
    match limit {
        Some(k) => {
            results.truncate(k);
            proof {
                if k < full.len() {
                    assert(results@ =~= full.take(k as int));
                } else {
                    assert(results@ =~= full);
                }
            }
        },
        None => {},
    }
    assert(similar_from(results@, full, src, *context, *context_bundle, rows@, relationships@, limit));
    results
}

/// No factor of `s` is a relationship factor.
pub open spec fn no_relationship_factor(s: Seq<EvidenceView>) -> bool {
    forall|i: int| 0 <= i < s.len() ==> (#[trigger] s[i]).0 != RankingFactor::ExplicitRelationship
        && s[i].0 != RankingFactor::DerivedRelationship
}

proof fn lemma_no_rel_add(a: Seq<EvidenceView>, b: Seq<EvidenceView>)
    requires
        no_relationship_factor(a),
        no_relationship_factor(b),
    ensures
        no_relationship_factor(a + b),
{
    assert forall|i: int| 0 <= i < (a + b).len() implies (#[trigger] (a + b)[i]).0 != RankingFactor::ExplicitRelationship
        && (a + b)[i].0 != RankingFactor::DerivedRelationship by {
        if i < a.len() {
            assert((a + b)[i] == a[i]);
        } else {
            assert((a + b)[i] == b[i - a.len()]);
        }
    }
}

/// Without a relationship, no relationship factor fires.
proof fn lemma_fired_without_relationship(context: Investigation, a: ContextBundle, inv: Investigation, b: ContextBundle, age: nat, span: nat)
    ensures
        no_relationship_factor(similarity_fired(None, context, a, inv, b, age, span)),
{
    let p0 = relationship_part(None);
    let p1 = list_part(RankingFactor::SharedRepository, "shared repository "@, shared_repositories(a, b), true);
    let p2 = list_part(RankingFactor::SharedArtifact, "shared "@, shared_artifact_views(a, b), true);
    let p3 = list_part(RankingFactor::FailureSignatureMatch, "failure signature "@, shared_signatures(a, b), true);
    let p4 = knowledge_part(a.knowledge@, b.knowledge@);
    let p5 = list_part(RankingFactor::EvaluationOverlap, "evaluation category "@, shared_categories(a, b), false);
    let p6 = list_part(RankingFactor::VerificationOverlap, "verification result "@, shared_results(a, b), false);
    let p7 = text_part(corpus_spec(context, a), corpus_spec(inv, b));
    let p8 = recency_part(age, span);
    assert(no_relationship_factor(p0));
    assert(no_relationship_factor(p1));
    assert(no_relationship_factor(p2));
    assert(no_relationship_factor(p3));
    assert(no_relationship_factor(p4));
    assert(no_relationship_factor(p5));
    assert(no_relationship_factor(p6));
    assert(no_relationship_factor(p7));
    assert(no_relationship_factor(p8));
    lemma_no_rel_add(p0, p1);
    lemma_no_rel_add(p0 + p1, p2);
    lemma_no_rel_add(p0 + p1 + p2, p3);
    lemma_no_rel_add(p0 + p1 + p2 + p3, p4);
    lemma_no_rel_add(p0 + p1 + p2 + p3 + p4, p5);
    lemma_no_rel_add(p0 + p1 + p2 + p3 + p4 + p5, p6);
    lemma_no_rel_add(p0 + p1 + p2 + p3 + p4 + p5 + p6, p7);
    lemma_no_rel_add(p0 + p1 + p2 + p3 + p4 + p5 + p6 + p7, p8);
}

/// A dismissed relationship never counts: every similar Investigation that
/// carries a relationship carries a stored one that joins it to the context
/// and that no person dismissed, and one that carries none shows no
/// relationship factor. So an Investigation tied to the context only by a
/// dismissed relationship is found only through its other signals.
pub proof fn lemma_similar_ignores_dismissed(
    r: Seq<SearchResult>,
    full: Seq<SearchResult>,
    src: Seq<int>,
    context: Investigation,
    cb: ContextBundle,
    rows: Seq<Row>,
    rels: Seq<InvestigationRelationship>,
    limit: Option<usize>,
)
    requires
        similar_from(r, full, src, context, cb, rows, rels, limit),
    ensures
        forall|i: int| 0 <= i < r.len() ==> match (#[trigger] r[i]).relationship {
            Some(rel) => {
                &&& rel.confirmation.state != ConfirmationState::Dismissed
                &&& rel.touches_spec(context.id)
                &&& exists|k: int| 0 <= k < rels.len() && rels[k].confirmation.state == rel.confirmation.state
                    && rels[k].id == rel.id && rels[k].kind == rel.kind
            },
            None => no_relationship_factor(evidence_views(r[i].matched_evidence@)),
        },
{
    assert forall|i: int| 0 <= i < r.len() implies match (#[trigger] r[i]).relationship {
        Some(rel) => {
            &&& rel.confirmation.state != ConfirmationState::Dismissed
            &&& rel.touches_spec(context.id)
            &&& exists|k: int| 0 <= k < rels.len() && rels[k].confirmation.state == rel.confirmation.state
                && rels[k].id == rel.id && rels[k].kind == rel.kind
        },
        None => no_relationship_factor(evidence_views(r[i].matched_evidence@)),
    } by {
        assert(r[i] == full[i]);
        assert(candidate_result(full[i], context, cb, rows, rels, src[i]));
        reveal(candidate_result);
        let other = rows[src[i]].0.id;
        if exists|k: int| first_between_at(rels, context.id, other, k) {
            let k = choose|k: int| first_between_at(rels, context.id, other, k);
            assert(first_between(rels, context.id, other) == Some(rels[k]));
            assert(relationship_between(rels[k], context.id, other));
        } else {
            lemma_fired_without_relationship(context, cb, rows[src[i]].0, rows[src[i]].1, row_age(rows, src[i]), row_span(rows));
        }
    }
}

/// Ranked results come best first: scores never rise down the list, equal
/// scores list newer Investigations first, and equal scores and times list
/// smaller identifiers first.
pub proof fn lemma_ranked_best_first(r: Seq<SearchResult>)
    requires
        ordered_results(r),
    ensures
        forall|a: int, b: int| 0 <= a < b < r.len() ==> {
            &&& (#[trigger] r[a]).score >= (#[trigger] r[b]).score
            &&& r[a].score == r[b].score ==> r[a].created_at >= r[b].created_at
            &&& r[a].score == r[b].score && r[a].created_at == r[b].created_at ==> r[a].investigation_id.value <= r[b].investigation_id.value
        },
{
    assert forall|a: int, b: int| 0 <= a < b < r.len() implies {
        &&& (#[trigger] r[a]).score >= (#[trigger] r[b]).score
        &&& r[a].score == r[b].score ==> r[a].created_at >= r[b].created_at
        &&& r[a].score == r[b].score && r[a].created_at == r[b].created_at ==> r[a].investigation_id.value <= r[b].investigation_id.value
    } by {
        assert(!search_before(r[b], r[a]));
    }
}

/// Similar Investigations come best first, and never more than the limit.
pub proof fn lemma_similar_ranked(
    r: Seq<SearchResult>,
    full: Seq<SearchResult>,
    src: Seq<int>,
    context: Investigation,
    cb: ContextBundle,
    rows: Seq<Row>,
    rels: Seq<InvestigationRelationship>,
    limit: Option<usize>,
)
    requires
        similar_from(r, full, src, context, cb, rows, rels, limit),
    ensures
        forall|a: int, b: int| 0 <= a < b < r.len() ==> (#[trigger] r[a]).score >= (#[trigger] r[b]).score,
        limit matches Some(n) ==> r.len() <= n,
        forall|i: int| 0 <= i < r.len() ==> (#[trigger] r[i]).investigation_id != context.id,
{
    lemma_ranked_best_first(full);
    assert forall|a: int, b: int| 0 <= a < b < r.len() implies (#[trigger] r[a]).score >= (#[trigger] r[b]).score by {
        assert(r[a] == full[a] && r[b] == full[b]);
    }
    assert forall|i: int| 0 <= i < r.len() implies (#[trigger] r[i]).investigation_id != context.id by {
        assert(r[i] == full[i]);
        assert(candidate_result(full[i], context, cb, rows, rels, src[i]));
        reveal(candidate_result);
    }
}

} // verus!
