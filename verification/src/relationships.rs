//! Derived relationships between two Investigations, from the engineering
//! artifacts both of them observed.

use vstd::prelude::*;
use crate::graph::{
    commit_keys, commit_pairs, connector_sources, disposition_pairs, evaluation_categories, evaluation_pairs,
    failure_pairs, failure_signatures, file_pairs, file_path_keys, kinds_artifact_ok, learning_dispositions,
    pull_request_keys, pull_request_pairs, recommendation_pairs, recommendation_signatures, repository_keys,
    repository_pairs, shared_token_set, similar_confidence, similar_observations, source_pairs, token_artifact_ok,
    verification_outcomes, verification_pairs, SharedArtifact,
};
use crate::ids::{derived_relationship_id, relationship_id, InvestigationId, ObjectId};
use crate::keymap::{group, grouped, intersect, shared_keys, sorted_texts, KeyMap};
use crate::model::{Confidence, ContextBundle, InvestigationRelationship, RelationshipConfirmation, RelationshipEvidence};
use crate::text::{join_seqs, push_chars, push_str, to_string};
use crate::vocab::{ConfirmationState, RelationshipKind};

verus! {

/// `k` keys artifacts on both sides.
pub open spec fn shared_in(pa: Seq<(Option<Seq<char>>, ObjectId)>, pb: Seq<(Option<Seq<char>>, ObjectId)>, k: Seq<char>) -> bool {
    grouped(pa, k) is Some && grouped(pb, k) is Some
}

/// The keys of artifacts.
pub open spec fn artifact_keys(arts: Seq<SharedArtifact>) -> Seq<Seq<char>> {
    arts.map_values(|x: SharedArtifact| x.key@)
}

/// `arts` are exactly the keys shared by both sides, in key order, each
/// described as `prefix<key>`` ` and carrying both sides' identifiers.
pub open spec fn intersect_artifacts(
    arts: Seq<SharedArtifact>,
    pa: Seq<(Option<Seq<char>>, ObjectId)>,
    pb: Seq<(Option<Seq<char>>, ObjectId)>,
    prefix: Seq<char>,
) -> bool {
    &&& sorted_texts(artifact_keys(arts))
    &&& forall|i: int| 0 <= i < arts.len() ==> {
        &&& shared_in(pa, pb, (#[trigger] arts[i]).key@)
        &&& arts[i].description@ == prefix + arts[i].key@ + "`"@
        &&& arts[i].a_ids@ == group(pa, arts[i].key@)
        &&& arts[i].b_ids@ == group(pb, arts[i].key@)
    }
    &&& forall|k: Seq<char>| #[trigger] shared_in(pa, pb, k) ==> artifact_keys(arts).contains(k)
}

/// The shared keys of two maps as described artifacts.
pub fn shared_artifacts(
    a: &KeyMap,
    b: &KeyMap,
    prefix: &str,
    Ghost(pa): Ghost<Seq<(Option<Seq<char>>, ObjectId)>>,
    Ghost(pb): Ghost<Seq<(Option<Seq<char>>, ObjectId)>>,
) -> (arts: Vec<SharedArtifact>)
    requires
        a.wf(),
        b.wf(),
        forall|k: Seq<char>| #[trigger] a.get(k) == grouped(pa, k),
        forall|k: Seq<char>| #[trigger] b.get(k) == grouped(pb, k),
    ensures
        intersect_artifacts(arts@, pa, pb, prefix@),
{
    let shared = intersect(a, b);
    let mut arts: Vec<SharedArtifact> = Vec::new();
    let mut i: usize = 0;
    while i < shared.len()
        invariant
            i <= shared@.len(),
            arts@.len() == i,
            forall|q: int| 0 <= q < i ==> {
                &&& (#[trigger] arts@[q]).key@ == shared@[q].key@
                &&& arts@[q].description@ == prefix@ + shared@[q].key@ + "`"@
                &&& arts@[q].a_ids@ == shared@[q].a_ids@
                &&& arts@[q].b_ids@ == shared@[q].b_ids@
            },
        decreases shared.len() - i,
    {
        let mut description: Vec<char> = Vec::new();
        push_str(&mut description, prefix);
        push_chars(&mut description, &shared[i].key);
        push_str(&mut description, "`");
        arts.push(SharedArtifact {
            key: shared[i].key.clone(),
            description,
            a_ids: shared[i].a_ids.clone(),
            b_ids: shared[i].b_ids.clone(),
        });
        i = i + 1;
    }
    proof {
        a.lemma_keys();
        let keys = artifact_keys(arts@);
        assert(keys =~= shared@.map_values(|s: crate::keymap::SharedKey| s.key@));
        assert(keys == shared_keys(a.keys(), *b));
        assert(sorted_texts(keys)) by {
            assert forall|x: int, y: int| 0 <= x < y < keys.len() implies crate::text::lex_lt(#[trigger] keys[x], #[trigger] keys[y]) by {
                let f = a.keys().filter(|k: Seq<char>| b.has(k));
                lemma_filter_sorted_pair(a.keys(), *b, x, y);
            }
        }
        assert forall|q: int| 0 <= q < arts@.len() implies {
            &&& shared_in(pa, pb, (#[trigger] arts@[q]).key@)
            &&& arts@[q].description@ == prefix@ + arts@[q].key@ + "`"@
            &&& arts@[q].a_ids@ == group(pa, arts@[q].key@)
            &&& arts@[q].b_ids@ == group(pb, arts@[q].key@)
        } by {
            assert(a.get(shared@[q].key@) == Some(shared@[q].a_ids@));
            assert(b.get(shared@[q].key@) == Some(shared@[q].b_ids@));
        }
        assert forall|k: Seq<char>| #[trigger] shared_in(pa, pb, k) implies artifact_keys(arts@).contains(k) by {
            assert(a.get(k) is Some);
            assert(a.has(k));
            assert(a.keys().contains(k));
            assert(b.get(k) is Some);
            assert(b.has(k));
            let j = choose|j: int| 0 <= j < a.keys().len() && a.keys()[j] == k;
            a.keys().lemma_filter_contains(|kk: Seq<char>| b.has(kk), j);
        }
    }
    arts
}

/// Filtering a sorted sequence keeps it sorted.
proof fn lemma_filter_sorted_pair(ks: Seq<Seq<char>>, b: KeyMap, x: int, y: int)
    requires
        sorted_texts(ks),
        0 <= x < y < ks.filter(|k: Seq<char>| b.has(k)).len(),
    ensures
        crate::text::lex_lt(ks.filter(|k: Seq<char>| b.has(k))[x], ks.filter(|k: Seq<char>| b.has(k))[y]),
{
    crate::keymap::lemma_filter_sorted(ks, |k: Seq<char>| b.has(k));
}

/// `c` is the relationship of `kind` between `a_id` and `b_id` drawn from
/// `arts`.
pub open spec fn candidate_for(
    c: InvestigationRelationship,
    kind: RelationshipKind,
    a_id: InvestigationId,
    b_id: InvestigationId,
    confidence: nat,
    arts: Seq<SharedArtifact>,
    method: Seq<char>,
    explanation: Seq<char>,
) -> bool {
    &&& c.kind == kind
    &&& c.source_investigation_id == a_id
    &&& c.target_investigation_id == b_id
    &&& c.confidence.permille == confidence
    &&& arts.len() > 0
    &&& c.evidence@.len() == arts.len()
    &&& forall|i: int| 0 <= i < arts.len() ==> {
        &&& (#[trigger] c.evidence@[i]).description@ == arts[i].description@
        &&& c.evidence@[i].object_ids@ == arts[i].a_ids@ + arts[i].b_ids@
    }
    &&& c.method@ == method
    &&& c.explanation@ == explanation
    &&& c.identity_key@ == kind.text() + "|"@ + join_seqs(artifact_keys(arts), ","@)
    &&& c.id == derived_relationship_id(a_id.value, b_id.value, c.identity_key@)
    &&& c.confirmation.state == ConfirmationState::Unconfirmed
    &&& c.confirmation.actor is None
    &&& c.confirmation.at is None
}

/// Appends the relationship of `kind` drawn from `artifacts`, unless there
/// are none.
fn push_candidate(
    candidates: &mut Vec<InvestigationRelationship>,
    kind: RelationshipKind,
    a_id: InvestigationId,
    b_id: InvestigationId,
    confidence: u64,
    artifacts: Vec<SharedArtifact>,
    method: &str,
    explanation: &str,
    now: i64,
)
    requires
        confidence <= 1000,
    ensures
        artifacts@.len() == 0 ==> final(candidates)@ == old(candidates)@,
        artifacts@.len() > 0 ==> {
            &&& final(candidates)@.len() == old(candidates)@.len() + 1
            &&& final(candidates)@.subrange(0, old(candidates)@.len() as int) == old(candidates)@
            &&& candidate_for(final(candidates)@.last(), kind, a_id, b_id, confidence as nat, artifacts@, method@, explanation@)
        },
{
    if artifacts.len() == 0 {
        return;
    }
    let mut key: Vec<char> = Vec::new();
    push_str(&mut key, kind.as_str());
    push_str(&mut key, "|");
    let ghost head = key@;
    let mut i: usize = 0;
    while i < artifacts.len()
        invariant
            i <= artifacts@.len(),
            key@ == head + join_seqs(artifact_keys(artifacts@).subrange(0, i as int), ","@),
        decreases artifacts.len() - i,
    {
        if i > 0 {
            push_str(&mut key, ",");
        }
        push_chars(&mut key, &artifacts[i].key);
        proof {
            let sub = artifact_keys(artifacts@).subrange(0, i + 1);
            assert(sub.drop_last() =~= artifact_keys(artifacts@).subrange(0, i as int));
            assert(sub.last() == artifacts@[i as int].key@);
            if i == 0 {
                assert(join_seqs(sub, ","@) == sub[0]);
            }
        }
        i = i + 1;
        assert(key@ =~= head + join_seqs(artifact_keys(artifacts@).subrange(0, i as int), ","@));
    }
    assert(artifact_keys(artifacts@).subrange(0, artifacts@.len() as int) =~= artifact_keys(artifacts@));
    let mut evidence: Vec<RelationshipEvidence> = Vec::new();
    let mut j: usize = 0;
    while j < artifacts.len()
        invariant
            j <= artifacts@.len(),
            evidence@.len() == j,
            forall|q: int| 0 <= q < j ==> {
                &&& (#[trigger] evidence@[q]).description@ == artifacts@[q].description@
                &&& evidence@[q].object_ids@ == artifacts@[q].a_ids@ + artifacts@[q].b_ids@
            },
        decreases artifacts.len() - j,
    {
        let mut ids = artifacts[j].a_ids.clone();
        let mut k: usize = 0;
        while k < artifacts[j].b_ids.len()
            invariant
                j < artifacts@.len(),
                k <= artifacts@[j as int].b_ids@.len(),
                ids@ == artifacts@[j as int].a_ids@ + artifacts@[j as int].b_ids@.subrange(0, k as int),
            decreases artifacts@[j as int].b_ids@.len() - k,
        {
            ids.push(artifacts[j].b_ids[k]);
            k = k + 1;
            assert(ids@ =~= artifacts@[j as int].a_ids@ + artifacts@[j as int].b_ids@.subrange(0, k as int));
        }
        assert(artifacts@[j as int].b_ids@.subrange(0, k as int) =~= artifacts@[j as int].b_ids@);
        evidence.push(RelationshipEvidence { description: to_string(&artifacts[j].description), object_ids: ids });
        j = j + 1;
    }
    let id = relationship_id(a_id.value, b_id.value, &key);
    candidates.push(InvestigationRelationship {
        id,
        kind,
        source_investigation_id: a_id,
        target_investigation_id: b_id,
        confidence: Confidence::new(confidence),
        evidence,
        method: method.to_owned(),
        explanation: explanation.to_owned(),
        confirmation: RelationshipConfirmation { state: ConfirmationState::Unconfirmed, actor: None, at: None },
        created_at: now,
        identity_key: to_string(&key),
    });
    assert(candidates@.subrange(0, old(candidates)@.len() as int) =~= old(candidates)@);
}

/// Position of a derived kind in derivation order.
pub open spec fn kind_rank(k: RelationshipKind) -> int {
    match k {
        RelationshipKind::SharedRepository => 0,
        RelationshipKind::SharedCommit => 1,
        RelationshipKind::SharedPullRequest => 2,
        RelationshipKind::SharedFilePath => 3,
        RelationshipKind::SharedConnectorSource => 4,
        RelationshipKind::SimilarObservations => 5,
        RelationshipKind::SharedEvaluationCategory => 6,
        RelationshipKind::RelatedVerificationOutcome => 7,
        RelationshipKind::RepeatedFailureSignature => 8,
        RelationshipKind::RelatedRecommendation => 9,
        RelationshipKind::RelatedLearningOutcome => 10,
        RelationshipKind::ExplicitLink => 11,
    }
}

/// The artifact keys each side contributes for an artifact-sharing kind.
pub open spec fn kind_pairs(k: RelationshipKind, x: ContextBundle) -> Seq<(Option<Seq<char>>, ObjectId)> {
    match k {
        RelationshipKind::SharedRepository => repository_pairs(x.observations@),
        RelationshipKind::SharedCommit => commit_pairs(x.observations@),
        RelationshipKind::SharedPullRequest => pull_request_pairs(x.observations@),
        RelationshipKind::SharedFilePath => file_pairs(x.observations@),
        RelationshipKind::SharedConnectorSource => source_pairs(x.observations@),
        RelationshipKind::SharedEvaluationCategory => evaluation_pairs(x.evaluations@),
        RelationshipKind::RelatedVerificationOutcome => verification_pairs(x.verifications@),
        RelationshipKind::RepeatedFailureSignature => failure_pairs(x.observations@),
        RelationshipKind::RelatedRecommendation => recommendation_pairs(x.recommendations@),
        RelationshipKind::RelatedLearningOutcome => disposition_pairs(x.learning@),
        _ => Seq::empty(),
    }
}

/// How an artifact of a kind is described (before its key).
pub open spec fn kind_prefix(k: RelationshipKind) -> Seq<char> {
    match k {
        RelationshipKind::SharedRepository => "Both investigations observed repository `"@,
        RelationshipKind::SharedCommit => "Both investigations observed commit `"@,
        RelationshipKind::SharedPullRequest => "Both investigations observed pull request `"@,
        RelationshipKind::SharedFilePath => "Both investigations observed changed file `"@,
        RelationshipKind::SharedConnectorSource => "Both investigations were observed through connector source `"@,
        RelationshipKind::SharedEvaluationCategory => "Both investigations share evaluation category `"@,
        RelationshipKind::RelatedVerificationOutcome => "Both investigations recorded verification outcome `"@,
        RelationshipKind::RepeatedFailureSignature => "Both investigations recorded failure signature `"@,
        RelationshipKind::RelatedRecommendation => "Both investigations produced recommendation signature `"@,
        RelationshipKind::RelatedLearningOutcome => "Both investigations recorded learning disposition `"@,
        _ => ""@,
    }
}

/// Confidence (thousandths) of a kind with `n` shared artifacts: fixed per
/// kind, except shared file paths (700 plus 50 per extra path, at most 900).
pub open spec fn kind_confidence(k: RelationshipKind, n: nat) -> nat {
    match k {
        RelationshipKind::SharedRepository => 900,
        RelationshipKind::SharedCommit => 950,
        RelationshipKind::SharedPullRequest => 950,
        RelationshipKind::SharedFilePath => if n == 0 { 700 } else if 700 + 50 * (n - 1) > 900 { 900 } else { (700 + 50 * (n - 1)) as nat },
        RelationshipKind::SharedConnectorSource => 400,
        RelationshipKind::SharedEvaluationCategory => 500,
        RelationshipKind::RelatedVerificationOutcome => 450,
        RelationshipKind::RepeatedFailureSignature => 850,
        RelationshipKind::RelatedRecommendation => 600,
        RelationshipKind::RelatedLearningOutcome => 550,
        _ => 0,
    }
}

/// The derivation method name of a kind.
pub open spec fn kind_method(k: RelationshipKind) -> Seq<char> {
    match k {
        RelationshipKind::SharedRepository => "shared_repository_v1"@,
        RelationshipKind::SharedCommit => "shared_commit_v1"@,
        RelationshipKind::SharedPullRequest => "shared_pull_request_v1"@,
        RelationshipKind::SharedFilePath => "shared_file_path_v1"@,
        RelationshipKind::SharedConnectorSource => "shared_connector_source_v1"@,
        RelationshipKind::SimilarObservations => "similar_observations_v1"@,
        RelationshipKind::SharedEvaluationCategory => "shared_evaluation_category_v1"@,
        RelationshipKind::RelatedVerificationOutcome => "related_verification_outcome_v1"@,
        RelationshipKind::RepeatedFailureSignature => "repeated_failure_signature_v1"@,
        RelationshipKind::RelatedRecommendation => "related_recommendation_v1"@,
        RelationshipKind::RelatedLearningOutcome => "related_learning_outcome_v1"@,
        RelationshipKind::ExplicitLink => ""@,
    }
}

/// The explanation of how a kind is derived.
pub open spec fn kind_explanation(k: RelationshipKind) -> Seq<char> {
    match k {
        RelationshipKind::SharedRepository => "Compares normalized repository names from Repository observations (payload `full_name`/`name`, else first backtick-quoted summary token)."@,
        RelationshipKind::SharedCommit => "Compares commit SHAs from Commit observations (payload `sha`, else hex prefix in the summary after `Commit `)."@,
        RelationshipKind::SharedPullRequest => "Compares pull request numbers from PullRequest observations, scoped by repository when the payload names one."@,
        RelationshipKind::SharedFilePath => "Compares changed file paths from ChangedFiles observation payloads (0.7 base confidence + 0.05 per extra shared path, capped at 0.9)."@,
        RelationshipKind::SharedConnectorSource => "Compares connector source names across all observations."@,
        RelationshipKind::SimilarObservations => "Compares observation kind sets (jaccard >= 0.5) and significant summary tokens (>= 2 shared alphanumeric tokens of length >= 4, stopwords excluded). Confidence is 0.3 + 0.5 * jaccard."@,
        RelationshipKind::SharedEvaluationCategory => "Compares (assessment type, severity) pairs across Evaluations."@,
        RelationshipKind::RelatedVerificationOutcome => "Compares Verification Receipt outcomes."@,
        RelationshipKind::RepeatedFailureSignature => "Normalizes failure signatures from failing CheckResult/TestOutput observations (`kind:name` from payload `name`/`conclusion`/`status`, plus `rollback` when the text mentions a rollback)."@,
        RelationshipKind::RelatedRecommendation => "Compares deterministic recommendation signatures (`remediate_failure_signals`, `continue_monitoring`, else first four words)."@,
        RelationshipKind::RelatedLearningOutcome => "Compares Learning Outcome dispositions."@,
        RelationshipKind::ExplicitLink => ""@,
    }
}

/// Both sides share something of this kind.
pub open spec fn kind_has_shared(k: RelationshipKind, a: ContextBundle, b: ContextBundle) -> bool {
    if k == RelationshipKind::SimilarObservations {
        similar_confidence(a.observations@, b.observations@) != 0
    } else {
        exists|key: Seq<char>| #[trigger] shared_in(kind_pairs(k, a), kind_pairs(k, b), key)
    }
}

/// `c` is the relationship derived between `a_id` and `b_id` for its kind.
pub open spec fn derived_from(c: InvestigationRelationship, a_id: InvestigationId, a: ContextBundle, b_id: InvestigationId, b: ContextBundle) -> bool {
    exists|arts: Seq<SharedArtifact>| {
        &&& candidate_for(c, c.kind, a_id, b_id,
            if c.kind == RelationshipKind::SimilarObservations { similar_confidence(a.observations@, b.observations@) } else { kind_confidence(c.kind, arts.len()) },
            arts, kind_method(c.kind), kind_explanation(c.kind))
        &&& if c.kind == RelationshipKind::SimilarObservations {
            &&& arts.len() == 1 + shared_token_set(a.observations@, b.observations@).len()
            &&& kinds_artifact_ok(arts[0], a.observations@, b.observations@)
            &&& forall|j: int| 1 <= j < arts.len() ==> token_artifact_ok(#[trigger] arts[j], a.observations@, b.observations@)
        } else {
            &&& c.kind != RelationshipKind::ExplicitLink
            &&& intersect_artifacts(arts, kind_pairs(c.kind, a), kind_pairs(c.kind, b), kind_prefix(c.kind))
        }
    }
}

/// The relationships derived for kinds ranked below `upto`: in kind order,
/// each derived from shared artifacts, and present exactly for the kinds
/// whose artifacts both sides share.
pub open spec fn derived_upto(r: Seq<InvestigationRelationship>, a_id: InvestigationId, a: ContextBundle, b_id: InvestigationId, b: ContextBundle, upto: int) -> bool {
    &&& forall|i: int, j: int| 0 <= i < j < r.len() ==> kind_rank((#[trigger] r[i]).kind) < kind_rank((#[trigger] r[j]).kind)
    &&& forall|i: int| 0 <= i < r.len() ==> kind_rank((#[trigger] r[i]).kind) < upto
    &&& forall|i: int| 0 <= i < r.len() ==> #[trigger] derived_from(r[i], a_id, a, b_id, b)
    &&& forall|k: RelationshipKind| kind_rank(k) < upto ==> (#[trigger] kind_has_shared(k, a, b) <==> exists|i: int| 0 <= i < r.len() && r[i].kind == k)
}

/// The two artifact maps of an artifact-sharing kind.
pub fn kind_maps(kind: RelationshipKind, a: &ContextBundle, b: &ContextBundle) -> (r: (KeyMap, KeyMap))
    requires
        kind != RelationshipKind::SimilarObservations,
        kind != RelationshipKind::ExplicitLink,
    ensures
        r.0.wf(),
        r.1.wf(),
        forall|k: Seq<char>| #[trigger] r.0.get(k) == grouped(kind_pairs(kind, *a), k),
        forall|k: Seq<char>| #[trigger] r.1.get(k) == grouped(kind_pairs(kind, *b), k),
{
    match kind {
        RelationshipKind::SharedRepository => (repository_keys(&a.observations), repository_keys(&b.observations)),
        RelationshipKind::SharedCommit => (commit_keys(&a.observations), commit_keys(&b.observations)),
        RelationshipKind::SharedPullRequest => (pull_request_keys(&a.observations), pull_request_keys(&b.observations)),
        RelationshipKind::SharedFilePath => (file_path_keys(&a.observations), file_path_keys(&b.observations)),
        RelationshipKind::SharedConnectorSource => (connector_sources(&a.observations), connector_sources(&b.observations)),
        RelationshipKind::SharedEvaluationCategory => (evaluation_categories(&a.evaluations), evaluation_categories(&b.evaluations)),
        RelationshipKind::RelatedVerificationOutcome => (verification_outcomes(&a.verifications), verification_outcomes(&b.verifications)),
        RelationshipKind::RepeatedFailureSignature => (failure_signatures(&a.observations), failure_signatures(&b.observations)),
        RelationshipKind::RelatedRecommendation => (recommendation_signatures(&a.recommendations), recommendation_signatures(&b.recommendations)),
        _ => (learning_dispositions(&a.learning), learning_dispositions(&b.learning)),
    }
}

/// The artifact prefix of a kind (exec).
fn prefix_text(kind: RelationshipKind) -> (s: &'static str)
    ensures
        s@ == kind_prefix(kind),
{
    match kind {
        RelationshipKind::SharedRepository => "Both investigations observed repository `",
        RelationshipKind::SharedCommit => "Both investigations observed commit `",
        RelationshipKind::SharedPullRequest => "Both investigations observed pull request `",
        RelationshipKind::SharedFilePath => "Both investigations observed changed file `",
        RelationshipKind::SharedConnectorSource => "Both investigations were observed through connector source `",
        RelationshipKind::SharedEvaluationCategory => "Both investigations share evaluation category `",
        RelationshipKind::RelatedVerificationOutcome => "Both investigations recorded verification outcome `",
        RelationshipKind::RepeatedFailureSignature => "Both investigations recorded failure signature `",
        RelationshipKind::RelatedRecommendation => "Both investigations produced recommendation signature `",
        RelationshipKind::RelatedLearningOutcome => "Both investigations recorded learning disposition `",
        _ => "",
    }
}

/// The derivation method of a kind (exec).
fn method_text(kind: RelationshipKind) -> (s: &'static str)
    ensures
        s@ == kind_method(kind),
{
    match kind {
        RelationshipKind::SharedRepository => "shared_repository_v1",
        RelationshipKind::SharedCommit => "shared_commit_v1",
        RelationshipKind::SharedPullRequest => "shared_pull_request_v1",
        RelationshipKind::SharedFilePath => "shared_file_path_v1",
        RelationshipKind::SharedConnectorSource => "shared_connector_source_v1",
        RelationshipKind::SimilarObservations => "similar_observations_v1",
        RelationshipKind::SharedEvaluationCategory => "shared_evaluation_category_v1",
        RelationshipKind::RelatedVerificationOutcome => "related_verification_outcome_v1",
        RelationshipKind::RepeatedFailureSignature => "repeated_failure_signature_v1",
        RelationshipKind::RelatedRecommendation => "related_recommendation_v1",
        RelationshipKind::RelatedLearningOutcome => "related_learning_outcome_v1",
        RelationshipKind::ExplicitLink => "",
    }
}

/// The derivation explanation of a kind (exec).
fn explanation_text(kind: RelationshipKind) -> (s: &'static str)
    ensures
        s@ == kind_explanation(kind),
{
    match kind {
        RelationshipKind::SharedRepository => "Compares normalized repository names from Repository observations (payload `full_name`/`name`, else first backtick-quoted summary token).",
        RelationshipKind::SharedCommit => "Compares commit SHAs from Commit observations (payload `sha`, else hex prefix in the summary after `Commit `).",
        RelationshipKind::SharedPullRequest => "Compares pull request numbers from PullRequest observations, scoped by repository when the payload names one.",
        RelationshipKind::SharedFilePath => "Compares changed file paths from ChangedFiles observation payloads (0.7 base confidence + 0.05 per extra shared path, capped at 0.9).",
        RelationshipKind::SharedConnectorSource => "Compares connector source names across all observations.",
        RelationshipKind::SimilarObservations => "Compares observation kind sets (jaccard >= 0.5) and significant summary tokens (>= 2 shared alphanumeric tokens of length >= 4, stopwords excluded). Confidence is 0.3 + 0.5 * jaccard.",
        RelationshipKind::SharedEvaluationCategory => "Compares (assessment type, severity) pairs across Evaluations.",
        RelationshipKind::RelatedVerificationOutcome => "Compares Verification Receipt outcomes.",
        RelationshipKind::RepeatedFailureSignature => "Normalizes failure signatures from failing CheckResult/TestOutput observations (`kind:name` from payload `name`/`conclusion`/`status`, plus `rollback` when the text mentions a rollback).",
        RelationshipKind::RelatedRecommendation => "Compares deterministic recommendation signatures (`remediate_failure_signals`, `continue_monitoring`, else first four words).",
        RelationshipKind::RelatedLearningOutcome => "Compares Learning Outcome dispositions.",
        RelationshipKind::ExplicitLink => "",
    }
}

/// Appending a relationship of `kind` after kinds ranked below it keeps
/// the kind order and bound.
proof fn lemma_append_order(before: Seq<InvestigationRelationship>, after: Seq<InvestigationRelationship>, kind: RelationshipKind)
    requires
        forall|i: int, j: int| 0 <= i < j < before.len() ==> kind_rank((#[trigger] before[i]).kind) < kind_rank((#[trigger] before[j]).kind),
        forall|i: int| 0 <= i < before.len() ==> kind_rank((#[trigger] before[i]).kind) < kind_rank(kind),
        after == before || (after.len() == before.len() + 1 && after.subrange(0, before.len() as int) == before
            && after.last().kind == kind),
    ensures
        forall|i: int, j: int| 0 <= i < j < after.len() ==> kind_rank((#[trigger] after[i]).kind) < kind_rank((#[trigger] after[j]).kind),
        forall|i: int| 0 <= i < after.len() ==> kind_rank((#[trigger] after[i]).kind) < kind_rank(kind) + 1,
{
    if after != before {
        assert forall|i: int| 0 <= i < before.len() implies #[trigger] after[i] == before[i] by {
            assert(after.subrange(0, before.len() as int)[i] == after[i]);
        }
    }
}

/// Extending the relationships derived below `kind`'s rank by one of
/// `kind`, exactly when the sides share something of it, keeps them derived.
proof fn lemma_derived_step(
    before: Seq<InvestigationRelationship>,
    after: Seq<InvestigationRelationship>,
    kind: RelationshipKind,
    a_id: InvestigationId,
    a: ContextBundle,
    b_id: InvestigationId,
    b: ContextBundle,
)
    requires
        derived_upto(before, a_id, a, b_id, b, kind_rank(kind)),
        kind_has_shared(kind, a, b) ==> (after.len() == before.len() + 1 && after.subrange(0, before.len() as int) == before
            && after.last().kind == kind && derived_from(after.last(), a_id, a, b_id, b)),
        !kind_has_shared(kind, a, b) ==> after == before,
    ensures
        derived_upto(after, a_id, a, b_id, b, kind_rank(kind) + 1),
{
    lemma_append_order(before, after, kind);
    assert forall|i: int| 0 <= i < before.len() implies #[trigger] after[i] == before[i] by {
        if after != before {
            assert(after.subrange(0, before.len() as int)[i] == after[i]);
        }
    }
    assert forall|i: int| 0 <= i < after.len() implies #[trigger] derived_from(after[i], a_id, a, b_id, b) by {
        if i < before.len() {
            assert(after[i] == before[i]);
        }
    }
    assert forall|k: RelationshipKind| kind_rank(k) < kind_rank(kind) + 1 implies (#[trigger] kind_has_shared(k, a, b)
        <==> exists|i: int| 0 <= i < after.len() && after[i].kind == k) by {
        if kind_rank(k) < kind_rank(kind) {
            if exists|i: int| 0 <= i < before.len() && before[i].kind == k {
                let i = choose|i: int| 0 <= i < before.len() && before[i].kind == k;
                assert(after[i] == before[i]);
            }
            if exists|i: int| 0 <= i < after.len() && after[i].kind == k {
                let i = choose|i: int| 0 <= i < after.len() && after[i].kind == k;
                if i < before.len() {
                    assert(after[i] == before[i]);
                } else {
                    assert(after[i].kind == kind);
                }
            }
        } else {
            assert(k == kind) by {
                assert(kind_rank(k) == kind_rank(kind));
            }
            if kind_has_shared(kind, a, b) {
                assert(after[before.len() as int].kind == k);
            } else {
                assert forall|i: int| 0 <= i < after.len() implies after[i].kind != k by {
                    assert(after[i] == before[i]);
                }
            }
        }
    }
}

/// Adds the similar-observations relationship, when there is one.
fn add_similar(
    candidates: &mut Vec<InvestigationRelationship>,
    a_id: InvestigationId,
    a: &ContextBundle,
    b_id: InvestigationId,
    b: &ContextBundle,
    now: i64,
)
    requires
        derived_upto(old(candidates)@, a_id, *a, b_id, *b, kind_rank(RelationshipKind::SimilarObservations)),
    ensures
        derived_upto(final(candidates)@, a_id, *a, b_id, *b, kind_rank(RelationshipKind::SimilarObservations) + 1),
{
    let ghost before = candidates@;
    let kind = RelationshipKind::SimilarObservations;
    let (confidence, artifacts) = similar_observations(&a.observations, &b.observations);
    let ghost arts = artifacts@;
    proof {
        crate::graph::lemma_similar_confidence_bound(a.observations@, b.observations@);
    }
    push_candidate(candidates, kind, a_id, b_id, confidence, artifacts, method_text(kind), explanation_text(kind), now);
    proof {
        if arts.len() > 0 {
            assert(derived_from(candidates@.last(), a_id, *a, b_id, *b));
        }
        lemma_derived_step(before, candidates@, kind, a_id, *a, b_id, *b);
    }
}

/// The confidence of an artifact-sharing kind (exec).
fn confidence_for(kind: RelationshipKind, n: usize) -> (c: u64)
    ensures
        c as nat == kind_confidence(kind, n as nat),
        c <= 1000,
{
    if kind == RelationshipKind::SharedFilePath {
        if n == 0 { 700 } else if n >= 5 { 900 } else { 700 + 50 * (n as u64 - 1) }
    } else {
        match kind {
            RelationshipKind::SharedRepository => 900,
            RelationshipKind::SharedCommit => 950,
            RelationshipKind::SharedPullRequest => 950,
            RelationshipKind::SharedConnectorSource => 400,
            RelationshipKind::SharedEvaluationCategory => 500,
            RelationshipKind::RelatedVerificationOutcome => 450,
            RelationshipKind::RepeatedFailureSignature => 850,
            RelationshipKind::RelatedRecommendation => 600,
            RelationshipKind::RelatedLearningOutcome => 550,
            _ => 0,
        }
    }
}

/// Adds the relationship of one artifact-sharing kind, when the two sides
/// share an artifact of it.
fn add_kind(
    candidates: &mut Vec<InvestigationRelationship>,
    kind: RelationshipKind,
    a_id: InvestigationId,
    a: &ContextBundle,
    b_id: InvestigationId,
    b: &ContextBundle,
    now: i64,
)
    requires
        kind != RelationshipKind::ExplicitLink,
        kind != RelationshipKind::SimilarObservations,
        derived_upto(old(candidates)@, a_id, *a, b_id, *b, kind_rank(kind)),
    ensures
        derived_upto(final(candidates)@, a_id, *a, b_id, *b, kind_rank(kind) + 1),
{
    let ghost before = candidates@;
    let (ma, mb) = kind_maps(kind, a, b);
    let artifacts = shared_artifacts(&ma, &mb, prefix_text(kind), Ghost(kind_pairs(kind, *a)), Ghost(kind_pairs(kind, *b)));
    let ghost arts = artifacts@;
    let confidence = confidence_for(kind, artifacts.len());
    push_candidate(candidates, kind, a_id, b_id, confidence, artifacts, method_text(kind), explanation_text(kind), now);
    proof {
        if arts.len() > 0 {
            assert(shared_in(kind_pairs(kind, *a), kind_pairs(kind, *b), arts[0].key@));
            assert(derived_from(candidates@.last(), a_id, *a, b_id, *b));
        }
        if kind_has_shared(kind, *a, *b) {
            let key = choose|key: Seq<char>| #[trigger] shared_in(kind_pairs(kind, *a), kind_pairs(kind, *b), key);
            assert(artifact_keys(arts).contains(key));
        }
        lemma_derived_step(before, candidates@, kind, a_id, *a, b_id, *b);
    }
}

/// The relationships derivable between two Investigations from the
/// artifacts both observed: one per kind whose artifacts they share, in a
/// fixed kind order.
pub fn derive_pair(a_id: InvestigationId, a: &ContextBundle, b_id: InvestigationId, b: &ContextBundle, now: i64) -> (r: Vec<InvestigationRelationship>)
    ensures
        derived_upto(r@, a_id, *a, b_id, *b, 11),
{
    let mut r: Vec<InvestigationRelationship> = Vec::new();
    add_kind(&mut r, RelationshipKind::SharedRepository, a_id, a, b_id, b, now);
    add_kind(&mut r, RelationshipKind::SharedCommit, a_id, a, b_id, b, now);
    add_kind(&mut r, RelationshipKind::SharedPullRequest, a_id, a, b_id, b, now);
    add_kind(&mut r, RelationshipKind::SharedFilePath, a_id, a, b_id, b, now);
    add_kind(&mut r, RelationshipKind::SharedConnectorSource, a_id, a, b_id, b, now);
    add_similar(&mut r, a_id, a, b_id, b, now);
    add_kind(&mut r, RelationshipKind::SharedEvaluationCategory, a_id, a, b_id, b, now);
    add_kind(&mut r, RelationshipKind::RelatedVerificationOutcome, a_id, a, b_id, b, now);
    add_kind(&mut r, RelationshipKind::RepeatedFailureSignature, a_id, a, b_id, b, now);
    add_kind(&mut r, RelationshipKind::RelatedRecommendation, a_id, a, b_id, b, now);
    add_kind(&mut r, RelationshipKind::RelatedLearningOutcome, a_id, a, b_id, b, now);
    r
}


/// The relationships derived for a pair have pairwise distinct kinds (at
/// most one per kind), none is an explicit link, and each joins the pair.
pub proof fn lemma_derived_kinds_distinct(
    r: Seq<InvestigationRelationship>,
    a_id: InvestigationId,
    a: ContextBundle,
    b_id: InvestigationId,
    b: ContextBundle,
)
    requires
        derived_upto(r, a_id, a, b_id, b, 11),
    ensures
        forall|i: int, j: int| 0 <= i < j < r.len() ==> (#[trigger] r[i]).kind != (#[trigger] r[j]).kind,
        forall|i: int| 0 <= i < r.len() ==> (#[trigger] r[i]).kind != RelationshipKind::ExplicitLink,
        forall|i: int| 0 <= i < r.len() ==> (#[trigger] r[i]).source_investigation_id == a_id && r[i].target_investigation_id == b_id,
{
    assert forall|i: int| 0 <= i < r.len() implies (#[trigger] r[i]).kind != RelationshipKind::ExplicitLink
        && r[i].source_investigation_id == a_id && r[i].target_investigation_id == b_id by {
        assert(derived_from(r[i], a_id, a, b_id, b));
        assert(kind_rank(r[i].kind) < 11);
    }
}


/// Two strictly increasing sequences of ranks with the same members are
/// equal.
proof fn lemma_increasing_same(x: Seq<int>, y: Seq<int>)
    requires
        forall|i: int, j: int| 0 <= i < j < x.len() ==> #[trigger] x[i] < #[trigger] x[j],
        forall|i: int, j: int| 0 <= i < j < y.len() ==> #[trigger] y[i] < #[trigger] y[j],
        forall|v: int| #[trigger] x.contains(v) == y.contains(v),
    ensures
        x == y,
    decreases x.len() + y.len(),
{
    if x.len() == 0 {
        if y.len() > 0 {
            assert(y.contains(y[0]));
            assert(x.contains(y[0]) == y.contains(y[0]));
        }
        assert(x =~= y);
    } else if y.len() == 0 {
        assert(x.contains(x[0]));
    } else {
        // The largest members agree.
        assert(x.contains(x.last()));
        assert(y.contains(x.last()));
        assert(y.contains(y.last()));
        assert(x.contains(y.last()));
        let jx = choose|j: int| 0 <= j < y.len() && y[j] == x.last();
        let jy = choose|j: int| 0 <= j < x.len() && x[j] == y.last();
        if jy < x.len() - 1 {
            assert(x[jy] < x[x.len() - 1]);
        }
        if jx < y.len() - 1 {
            assert(y[jx] < y[y.len() - 1]);
        }
        assert(x.last() == y.last());
        let xs = x.drop_last();
        let ys = y.drop_last();
        assert forall|v: int| #[trigger] xs.contains(v) == ys.contains(v) by {
            if xs.contains(v) {
                let i = choose|i: int| 0 <= i < xs.len() && xs[i] == v;
                assert(x[i] < x[x.len() - 1]);
                assert(x[i] == v);
                assert(x.contains(v));
                assert(y.contains(v));
                let k = choose|k: int| 0 <= k < y.len() && y[k] == v;
                assert(k != y.len() - 1);
                assert(ys[k] == v);
            }
            if ys.contains(v) {
                let i = choose|i: int| 0 <= i < ys.len() && ys[i] == v;
                assert(y[i] < y[y.len() - 1]);
                assert(y[i] == v);
                assert(y.contains(v));
                assert(x.contains(v));
                let k = choose|k: int| 0 <= k < x.len() && x[k] == v;
                assert(k != x.len() - 1);
                assert(xs[k] == v);
            }
        }
        lemma_increasing_same(xs, ys);
        assert(x =~= xs.push(x.last()));
        assert(y =~= ys.push(y.last()));
    }
}

/// Deriving the same pair twice gives relationships of the same kinds, in
/// the same order, each identified by its endpoints and identity key.
pub proof fn lemma_derived_kinds_deterministic(
    r1: Seq<InvestigationRelationship>,
    r2: Seq<InvestigationRelationship>,
    a_id: InvestigationId,
    a: ContextBundle,
    b_id: InvestigationId,
    b: ContextBundle,
)
    requires
        derived_upto(r1, a_id, a, b_id, b, 11),
        derived_upto(r2, a_id, a, b_id, b, 11),
    ensures
        r1.len() == r2.len(),
        forall|i: int| 0 <= i < r1.len() ==> (#[trigger] r1[i]).kind == r2[i].kind,
        forall|i: int| 0 <= i < r1.len() ==> (#[trigger] r1[i]).id == derived_relationship_id(a_id.value, b_id.value, r1[i].identity_key@),
{
    let k1 = r1.map_values(|r: InvestigationRelationship| kind_rank(r.kind));
    let k2 = r2.map_values(|r: InvestigationRelationship| kind_rank(r.kind));
    assert forall|v: int| #[trigger] k1.contains(v) == k2.contains(v) by {
        if k1.contains(v) {
            let i = choose|i: int| 0 <= i < k1.len() && k1[i] == v;
            let kd = r1[i].kind;
            assert(kind_rank(kd) < 11);
            assert(exists|q: int| 0 <= q < r1.len() && r1[q].kind == kd);
            assert(kind_has_shared(kd, a, b));
            let q = choose|q: int| 0 <= q < r2.len() && r2[q].kind == kd;
            assert(k2[q] == v);
        }
        if k2.contains(v) {
            let i = choose|i: int| 0 <= i < k2.len() && k2[i] == v;
            let kd = r2[i].kind;
            assert(kind_rank(kd) < 11);
            assert(exists|q: int| 0 <= q < r2.len() && r2[q].kind == kd);
            assert(kind_has_shared(kd, a, b));
            let q = choose|q: int| 0 <= q < r1.len() && r1[q].kind == kd;
            assert(k1[q] == v);
        }
    }
    assert forall|i: int, j: int| 0 <= i < j < k1.len() implies #[trigger] k1[i] < #[trigger] k1[j] by {
        assert(kind_rank(r1[i].kind) < kind_rank(r1[j].kind));
    }
    assert forall|i: int, j: int| 0 <= i < j < k2.len() implies #[trigger] k2[i] < #[trigger] k2[j] by {
        assert(kind_rank(r2[i].kind) < kind_rank(r2[j].kind));
    }
    lemma_increasing_same(k1, k2);
    assert forall|i: int| 0 <= i < r1.len() implies (#[trigger] r1[i]).kind == r2[i].kind by {
        assert(k1[i] == k2[i]);
        lemma_rank_injective(r1[i].kind, r2[i].kind);
    }
    assert forall|i: int| 0 <= i < r1.len() implies (#[trigger] r1[i]).id == derived_relationship_id(a_id.value, b_id.value,
        r1[i].identity_key@) by {
        assert(derived_from(r1[i], a_id, a, b_id, b));
    }
}

proof fn lemma_rank_injective(x: RelationshipKind, y: RelationshipKind)
    requires
        kind_rank(x) == kind_rank(y),
    ensures
        x == y,
{
}

} // verus!
