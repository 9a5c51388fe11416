//! Investigation Graph signals: the normalized artifact keys that relate
//! Investigations, and the derivation of candidate relationships.

use vstd::prelude::*;
use vstd::string::*;
use crate::ids::ObjectId;
use crate::json::{JsonValue, json_get, json_str, json_u64};
use crate::keymap::{lemma_pair_views_push, pair_view, build_map, grouped, intersect, lemma_filter_sorted, lemma_sorted_unique, lemma_text_set_distinct, pair_views, shared_keys, sorted_texts, KeyMap, SharedKey, TextSet};
use crate::model::{Evaluation, LearningOutcome, Observation, Recommendation, VerificationReceipt};
use crate::text::{occurs_at, text_eq, chars_of, contains_seq, contains_str, decimal, digit_chars, digit_char_pub, find_chars, first_occurrence, hex_prefix, hex_prefix_from, join_chars, join_seqs, lex_lt, lower_chars, lower_of, lowercase_of, push_chars, push_decimal, push_str, slice_chars, split_chars, split_pieces, to_string, trim_chars, trimmed, utf8_len, utf8_len_seq, Separator};
use crate::vocab::ObservationKind;

verus! {

/// A trimmed, non-empty string field of a payload.
pub open spec fn payload_str_spec(payload: JsonValue, field: Seq<char>) -> Option<Seq<char>> {
    match json_str(json_get(payload, field)) {
        Some(s) => if trimmed(s).len() > 0 {
            Some(trimmed(s))
        } else {
            None
        },
        None => None,
    }
}

/// Trimmed, non-empty string value of a payload field.
pub fn payload_str(payload: &JsonValue, field: &str) -> (r: Option<Vec<char>>)
    ensures
        match r {
            Some(v) => payload_str_spec(*payload, field@) == Some(v@),
            None => payload_str_spec(*payload, field@) is None,
        },
{
    match payload.get(field) {
        Some(v) => match v.as_str() {
            Some(s) => {
                let chars = chars_of(s.as_str());
                let t = trim_chars(&chars);
                if t.len() > 0 {
                    Some(t)
                } else {
                    None
                }
            },
            None => None,
        },
        None => None,
    }
}

/// The first backtick-quoted token of a summary, trimmed and lowercased.
pub open spec fn backtick_token(s: Seq<char>) -> Option<Seq<char>> {
    match first_occurrence(s, seq!['`']) {
        None => None,
        Some(start) => {
            let rest = s.subrange(start + 1, s.len() as int);
            match first_occurrence(rest, seq!['`']) {
                None => None,
                Some(end) => {
                    let token = trimmed(rest.subrange(0, end));
                    if token.len() > 0 {
                        Some(lowercase_of(token))
                    } else {
                        None
                    }
                },
            }
        },
    }
}

/// Normalized repository key: payload `full_name`, else `name`, else the first
/// backtick-quoted summary token; lowercased.
pub open spec fn repository_key_spec(o: Observation) -> Option<Seq<char>> {
    match payload_str_spec(o.payload, "full_name"@) {
        Some(v) => Some(lowercase_of(v)),
        None => match payload_str_spec(o.payload, "name"@) {
            Some(v) => Some(lowercase_of(v)),
            None => backtick_token(o.summary@),
        },
    }
}

/// Normalized repository key of a Repository observation.
pub fn repository_key(observation: &Observation) -> (r: Option<String>)
    ensures
        match r {
            Some(k) => repository_key_spec(*observation) == Some(k@),
            None => repository_key_spec(*observation) is None,
        },
{
    match payload_str(&observation.payload, "full_name") {
        Some(v) => {
            return Some(to_string(&lower_of(&v)));
        },
        None => {},
    }
    match payload_str(&observation.payload, "name") {
        Some(v) => {
            return Some(to_string(&lower_of(&v)));
        },
        None => {},
    }
    let summary = chars_of(observation.summary.as_str());
    let mut tick: Vec<char> = Vec::new();
    tick.push('`');
    assert(tick@ =~= seq!['`']);
    let start = match find_chars(&summary, &tick) {
        Some(i) => i,
        None => {
            return None;
        },
    };
    assert(occurs_at(summary@, tick@, start as int));
    assert(tick@.len() == 1);
    assert(start < summary.len());
    let rest = slice_chars(&summary, start + 1, summary.len());
    let end = match find_chars(&rest, &tick) {
        Some(i) => i,
        None => {
            return None;
        },
    };
    let token = trim_chars(&slice_chars(&rest, 0, end));
    if token.len() > 0 {
        Some(to_string(&lower_of(&token)))
    } else {
        None
    }
}

/// Normalized commit key: payload `sha`, else the hexadecimal run after
/// `Commit ` in the summary; lowercased.
pub open spec fn commit_key_spec(o: Observation) -> Option<Seq<char>> {
    match payload_str_spec(o.payload, "sha"@) {
        Some(v) => Some(lowercase_of(v)),
        None => match first_occurrence(o.summary@, "Commit "@) {
            None => None,
            Some(i) => {
                let hex = hex_prefix(o.summary@.subrange(i + 7, o.summary@.len() as int));
                if hex.len() > 0 {
                    Some(lowercase_of(hex))
                } else {
                    None
                }
            },
        },
    }
}

/// Normalized commit key of a Commit observation.
pub fn commit_key(observation: &Observation) -> (r: Option<String>)
    ensures
        match r {
            Some(k) => commit_key_spec(*observation) == Some(k@),
            None => commit_key_spec(*observation) is None,
        },
{
    match payload_str(&observation.payload, "sha") {
        Some(v) => {
            return Some(to_string(&lower_of(&v)));
        },
        None => {},
    }
    let summary = chars_of(observation.summary.as_str());
    let marker = chars_of("Commit ");
    proof {
        reveal_strlit("Commit ");
    }
    let start = match find_chars(&summary, &marker) {
        Some(i) => i,
        None => {
            return None;
        },
    };
    assert(occurs_at(summary@, marker@, start as int));
    assert(start + 7 <= summary.len());
    let hex = hex_prefix_from(&summary, start + 7);
    if hex.len() > 0 {
        Some(to_string(&lower_of(&hex)))
    } else {
        None
    }
}

/// Normalized pull request key: `{repository}#{number}` when the payload names
/// a repository (`repository`, `repo`, `full_name`; lowercased), else `#{number}`.
pub open spec fn pull_request_key_spec(o: Observation) -> Option<Seq<char>> {
    match json_u64(json_get(o.payload, "number"@)) {
        None => None,
        Some(n) => {
            let suffix = seq!['#'] + decimal(n as nat);
            match payload_str_spec(o.payload, "repository"@) {
                Some(r) => Some(lowercase_of(r) + suffix),
                None => match payload_str_spec(o.payload, "repo"@) {
                    Some(r) => Some(lowercase_of(r) + suffix),
                    None => match payload_str_spec(o.payload, "full_name"@) {
                        Some(r) => Some(lowercase_of(r) + suffix),
                        None => Some(suffix),
                    },
                },
            }
        },
    }
}

/// Normalized pull request key of a PullRequest observation.
pub fn pull_request_key(observation: &Observation) -> (r: Option<String>)
    ensures
        match r {
            Some(k) => pull_request_key_spec(*observation) == Some(k@),
            None => pull_request_key_spec(*observation) is None,
        },
{
    let number = match observation.payload.get("number") {
        Some(v) => match v.as_u64() {
            Some(n) => n,
            None => {
                return None;
            },
        },
        None => {
            return None;
        },
    };
    let mut suffix: Vec<char> = Vec::new();
    suffix.push('#');
    push_decimal(&mut suffix, number as u128);
    let repo = match payload_str(&observation.payload, "repository") {
        Some(r) => Some(r),
        None => match payload_str(&observation.payload, "repo") {
            Some(r) => Some(r),
            None => payload_str(&observation.payload, "full_name"),
        },
    };
    match repo {
        Some(r) => {
            let mut key = lower_of(&r);
            push_chars(&mut key, &suffix);
            Some(to_string(&key))
        },
        None => Some(to_string(&suffix)),
    }
}

/// The characters of an optional string.
pub fn option_chars(s: Option<String>) -> (r: Option<Vec<char>>)
    ensures
        match s {
            Some(t) => r matches Some(v) && v@ == t@,
            None => r is None,
        },
{
    match s {
        Some(t) => Some(chars_of(t.as_str())),
        None => None,
    }
}

/// Key/identifier pairs behind `repository_keys`.
pub open spec fn repository_pairs(obs: Seq<Observation>) -> Seq<(Option<Seq<char>>, ObjectId)> {
    obs.map_values(|o: Observation| (if o.kind == ObservationKind::Repository { repository_key_spec(o) } else { None }, o.id))
}

/// The key/identifier pairs behind `repository_keys`, in order.
pub fn repository_pair_list(observations: &Vec<Observation>) -> (pairs: Vec<(Option<Vec<char>>, ObjectId)>)
    ensures
        pair_views(pairs@) == repository_pairs(observations@),
{
    let mut pairs: Vec<(Option<Vec<char>>, ObjectId)> = Vec::new();
    let mut i: usize = 0;
    while i < observations.len()
        invariant
            i <= observations.len(),
            pairs@.len() == i,
            forall|j: int| 0 <= j < i ==> #[trigger] pair_views(pairs@)[j] == repository_pairs(observations@)[j],
        decreases observations.len() - i,
    {
        let o = &observations[i];
        let key: Option<Vec<char>> = if o.kind == ObservationKind::Repository { option_chars(repository_key(o)) } else { None };
        let ghost before = pairs@;
        let pr = (key, o.id);
        proof {
            lemma_pair_views_push(before, pr);
        }
        assert(pair_view(pr) == repository_pairs(observations@)[i as int]);
        pairs.push(pr);
        i = i + 1;
    }
    assert(pair_views(pairs@) =~= repository_pairs(observations@));
    pairs
}

/// Normalized repository keys from Repository observations.
pub fn repository_keys(observations: &Vec<Observation>) -> (m: KeyMap)
    ensures
        m.wf(),
        forall|k: Seq<char>| #[trigger] m.get(k) == grouped(repository_pairs(observations@), k),
{
    build_map(&repository_pair_list(observations))
}

/// Key/identifier pairs behind `commit_keys`.
pub open spec fn commit_pairs(obs: Seq<Observation>) -> Seq<(Option<Seq<char>>, ObjectId)> {
    obs.map_values(|o: Observation| (if o.kind == ObservationKind::Commit { commit_key_spec(o) } else { None }, o.id))
}

/// Normalized commit keys from Commit observations.
pub fn commit_keys(observations: &Vec<Observation>) -> (m: KeyMap)
    ensures
        m.wf(),
        forall|k: Seq<char>| #[trigger] m.get(k) == grouped(commit_pairs(observations@), k),
{
    let mut pairs: Vec<(Option<Vec<char>>, ObjectId)> = Vec::new();
    let mut i: usize = 0;
    while i < observations.len()
        invariant
            i <= observations.len(),
            pairs@.len() == i,
            forall|j: int| 0 <= j < i ==> #[trigger] pair_views(pairs@)[j] == commit_pairs(observations@)[j],
        decreases observations.len() - i,
    {
        let o = &observations[i];
        let key: Option<Vec<char>> = if o.kind == ObservationKind::Commit { option_chars(commit_key(o)) } else { None };
        let ghost before = pairs@;
        let pr = (key, o.id);
        proof {
            lemma_pair_views_push(before, pr);
        }
        assert(pair_view(pr) == commit_pairs(observations@)[i as int]);
        pairs.push(pr);
        i = i + 1;
    }
    assert(pair_views(pairs@) =~= commit_pairs(observations@));
    build_map(&pairs)
}

/// Key/identifier pairs behind `pull_request_keys`.
pub open spec fn pull_request_pairs(obs: Seq<Observation>) -> Seq<(Option<Seq<char>>, ObjectId)> {
    obs.map_values(|o: Observation| (if o.kind == ObservationKind::PullRequest { pull_request_key_spec(o) } else { None }, o.id))
}

/// Normalized pull request keys from PullRequest observations.
pub fn pull_request_keys(observations: &Vec<Observation>) -> (m: KeyMap)
    ensures
        m.wf(),
        forall|k: Seq<char>| #[trigger] m.get(k) == grouped(pull_request_pairs(observations@), k),
{
    let mut pairs: Vec<(Option<Vec<char>>, ObjectId)> = Vec::new();
    let mut i: usize = 0;
    while i < observations.len()
        invariant
            i <= observations.len(),
            pairs@.len() == i,
            forall|j: int| 0 <= j < i ==> #[trigger] pair_views(pairs@)[j] == pull_request_pairs(observations@)[j],
        decreases observations.len() - i,
    {
        let o = &observations[i];
        let key: Option<Vec<char>> = if o.kind == ObservationKind::PullRequest { option_chars(pull_request_key(o)) } else { None };
        let ghost before = pairs@;
        let pr = (key, o.id);
        proof {
            lemma_pair_views_push(before, pr);
        }
        assert(pair_view(pr) == pull_request_pairs(observations@)[i as int]);
        pairs.push(pr);
        i = i + 1;
    }
    assert(pair_views(pairs@) =~= pull_request_pairs(observations@));
    build_map(&pairs)
}

/// Key/identifier pairs behind `connector_sources`.
pub open spec fn source_pairs(obs: Seq<Observation>) -> Seq<(Option<Seq<char>>, ObjectId)> {
    obs.map_values(|o: Observation| (Some(o.source@), o.id))
}

/// The key/identifier pairs behind `connector_sources`, in order.
pub fn source_pair_list(observations: &Vec<Observation>) -> (pairs: Vec<(Option<Vec<char>>, ObjectId)>)
    ensures
        pair_views(pairs@) == source_pairs(observations@),
{
    let mut pairs: Vec<(Option<Vec<char>>, ObjectId)> = Vec::new();
    let mut i: usize = 0;
    while i < observations.len()
        invariant
            i <= observations.len(),
            pairs@.len() == i,
            forall|j: int| 0 <= j < i ==> #[trigger] pair_views(pairs@)[j] == source_pairs(observations@)[j],
        decreases observations.len() - i,
    {
        let o = &observations[i];
        let key: Option<Vec<char>> = Some(chars_of(o.source.as_str()));
        let ghost before = pairs@;
        let pr = (key, o.id);
        proof {
            lemma_pair_views_push(before, pr);
        }
        assert(pair_view(pr) == source_pairs(observations@)[i as int]);
        pairs.push(pr);
        i = i + 1;
    }
    assert(pair_views(pairs@) =~= source_pairs(observations@));
    pairs
}

/// Connector source names across all observations.
pub fn connector_sources(observations: &Vec<Observation>) -> (m: KeyMap)
    ensures
        m.wf(),
        forall|k: Seq<char>| #[trigger] m.get(k) == grouped(source_pairs(observations@), k),
{
    build_map(&source_pair_list(observations))
}

/// Key of an Evaluation category: `{assessment type}/{severity}`.
pub open spec fn evaluation_category(e: Evaluation) -> Seq<char> {
    e.assessment_type.text() + seq!['/'] + e.severity.text()
}

/// Pairs behind `evaluation_categories`.
pub open spec fn evaluation_pairs(evals: Seq<Evaluation>) -> Seq<(Option<Seq<char>>, ObjectId)> {
    evals.map_values(|e: Evaluation| (Some(evaluation_category(e)), e.id))
}

/// (Assessment type, severity) category keys from Evaluations.
pub fn evaluation_categories(evaluations: &Vec<Evaluation>) -> (m: KeyMap)
    ensures
        m.wf(),
        forall|k: Seq<char>| #[trigger] m.get(k) == grouped(evaluation_pairs(evaluations@), k),
{
    let mut pairs: Vec<(Option<Vec<char>>, ObjectId)> = Vec::new();
    let mut i: usize = 0;
    while i < evaluations.len()
        invariant
            i <= evaluations.len(),
            pairs@.len() == i,
            forall|j: int| 0 <= j < i ==> #[trigger] pair_views(pairs@)[j] == evaluation_pairs(evaluations@)[j],
        decreases evaluations.len() - i,
    {
        let e = &evaluations[i];
        let mut key = chars_of(e.assessment_type.as_str());
        key.push('/');
        push_str(&mut key, e.severity.as_str());
        assert(key@ =~= evaluation_category(*e));
        let ghost before = pairs@;
        let pr = (Some(key), e.id);
        proof {
            lemma_pair_views_push(before, pr);
        }
        assert(pair_view(pr) == evaluation_pairs(evaluations@)[i as int]);
        pairs.push(pr);
        i = i + 1;
    }
    assert(pair_views(pairs@) =~= evaluation_pairs(evaluations@));
    build_map(&pairs)
}

/// Pairs behind `verification_outcomes`.
pub open spec fn verification_pairs(rs: Seq<VerificationReceipt>) -> Seq<(Option<Seq<char>>, ObjectId)> {
    rs.map_values(|r: VerificationReceipt| (Some(r.result.text()), r.id))
}

/// Outcome keys from Verification Receipts.
pub fn verification_outcomes(verifications: &Vec<VerificationReceipt>) -> (m: KeyMap)
    ensures
        m.wf(),
        forall|k: Seq<char>| #[trigger] m.get(k) == grouped(verification_pairs(verifications@), k),
{
    let mut pairs: Vec<(Option<Vec<char>>, ObjectId)> = Vec::new();
    let mut i: usize = 0;
    while i < verifications.len()
        invariant
            i <= verifications.len(),
            pairs@.len() == i,
            forall|j: int| 0 <= j < i ==> #[trigger] pair_views(pairs@)[j] == verification_pairs(verifications@)[j],
        decreases verifications.len() - i,
    {
        let r = &verifications[i];
        let ghost before = pairs@;
        let pr = (Some(chars_of(r.result.as_str())), r.id);
        proof {
            lemma_pair_views_push(before, pr);
        }
        assert(pair_view(pr) == verification_pairs(verifications@)[i as int]);
        pairs.push(pr);
        i = i + 1;
    }
    assert(pair_views(pairs@) =~= verification_pairs(verifications@));
    build_map(&pairs)
}

/// Pairs behind `learning_dispositions`.
pub open spec fn disposition_pairs(ls: Seq<LearningOutcome>) -> Seq<(Option<Seq<char>>, ObjectId)> {
    ls.map_values(|l: LearningOutcome| (Some(l.disposition.text()), l.id))
}

/// Disposition keys from Learning Outcomes.
pub fn learning_dispositions(learning: &Vec<LearningOutcome>) -> (m: KeyMap)
    ensures
        m.wf(),
        forall|k: Seq<char>| #[trigger] m.get(k) == grouped(disposition_pairs(learning@), k),
{
    let mut pairs: Vec<(Option<Vec<char>>, ObjectId)> = Vec::new();
    let mut i: usize = 0;
    while i < learning.len()
        invariant
            i <= learning.len(),
            pairs@.len() == i,
            forall|j: int| 0 <= j < i ==> #[trigger] pair_views(pairs@)[j] == disposition_pairs(learning@)[j],
        decreases learning.len() - i,
    {
        let l = &learning[i];
        let ghost before = pairs@;
        let pr = (Some(chars_of(l.disposition.as_str())), l.id);
        proof {
            lemma_pair_views_push(before, pr);
        }
        assert(pair_view(pr) == disposition_pairs(learning@)[i as int]);
        pairs.push(pr);
        i = i + 1;
    }
    assert(pair_views(pairs@) =~= disposition_pairs(learning@));
    build_map(&pairs)
}

/// The non-empty whitespace-separated words of `s` (`str::split_whitespace`).
pub open spec fn words(s: Seq<char>) -> Seq<Seq<char>> {
    split_pieces(s, Separator::Whitespace).filter(|p: Seq<char>| p.len() > 0)
}

/// At most the first `n` items.
pub open spec fn first_n<T>(s: Seq<T>, n: nat) -> Seq<T> {
    if s.len() <= n {
        s
    } else {
        s.subrange(0, n as int)
    }
}

/// Deterministic recommendation signature: `remediate_failure_signals`,
/// `continue_monitoring`, else the first four lowercased words joined by `_`.
pub open spec fn recommendation_signature_spec(summary: Seq<char>) -> Seq<char> {
    let lower = lowercase_of(summary);
    if contains_seq(lower, "remediate failure"@) {
        "remediate_failure_signals"@
    } else if contains_seq(lower, "continue monitoring"@) {
        "continue_monitoring"@
    } else {
        join_seqs(first_n(words(lower), 4), "_"@)
    }
}

/// The non-empty pieces, at most `limit` of them.
pub fn leading_nonempty(pieces: &Vec<Vec<char>>, limit: usize) -> (r: Vec<Vec<char>>)
    ensures
        r@.map_values(|p: Vec<char>| p@) == first_n(
            pieces@.map_values(|p: Vec<char>| p@).filter(|p: Seq<char>| p.len() > 0),
            limit as nat,
        ),
{
    let ghost views = pieces@.map_values(|p: Vec<char>| p@);
    let mut r: Vec<Vec<char>> = Vec::new();
    let mut i: usize = 0;
    while i < pieces.len()
        invariant
            i <= pieces.len(),
            views == pieces@.map_values(|p: Vec<char>| p@),
            r@.map_values(|p: Vec<char>| p@) == first_n(
                views.subrange(0, i as int).filter(|p: Seq<char>| p.len() > 0),
                limit as nat,
            ),
        decreases pieces.len() - i,
    {
        let ghost sub = views.subrange(0, i + 1);
        assert(sub.drop_last() =~= views.subrange(0, i as int));
        proof {
            reveal(Seq::filter);
        }
        let ghost f0 = views.subrange(0, i as int).filter(|p: Seq<char>| p.len() > 0);
        let ghost f1 = sub.filter(|p: Seq<char>| p.len() > 0);
        if pieces[i].len() > 0 {
            assert(f1 == f0.push(views[i as int]));
            assert(r@.map_values(|p: Vec<char>| p@).len() == r@.len());
            if r.len() < limit {
                assert(f0.len() < limit);
                r.push(pieces[i].clone());
                assert(r@.map_values(|p: Vec<char>| p@) =~= first_n(f1, limit as nat));
            } else {
                assert(first_n(f1, limit as nat) =~= first_n(f0, limit as nat));
            }
        } else {
            assert(f1 == f0);
        }
        i = i + 1;
    }
    assert(views.subrange(0, pieces.len() as int) =~= views);
    r
}

/// Deterministic signature key of a Recommendation summary.
pub fn recommendation_signature(summary: &str) -> (r: String)
    ensures
        r@ == recommendation_signature_spec(summary@),
{
    let lower = lower_chars(summary);
    if contains_str(&lower, "remediate failure") {
        return String::from_str("remediate_failure_signals");
    }
    if contains_str(&lower, "continue monitoring") {
        return String::from_str("continue_monitoring");
    }
    let pieces = split_chars(&lower, &Separator::Whitespace);
    assert(pieces@.map_values(|p: Vec<char>| p@) =~= split_pieces(lower@, Separator::Whitespace));
    let leading = leading_nonempty(&pieces, 4);
    to_string(&join_chars(&leading, "_"))
}

/// Pairs behind `recommendation_signatures`.
pub open spec fn recommendation_pairs(rs: Seq<Recommendation>) -> Seq<(Option<Seq<char>>, ObjectId)> {
    rs.map_values(|r: Recommendation| (
        if recommendation_signature_spec(r.summary@).len() > 0 {
            Some(recommendation_signature_spec(r.summary@))
        } else {
            None
        },
        r.id,
    ))
}

/// The key/identifier pairs behind `recommendation_signatures`, in order.
pub fn recommendation_pair_list(recommendations: &Vec<Recommendation>) -> (pairs: Vec<(Option<Vec<char>>, ObjectId)>)
    ensures
        pair_views(pairs@) == recommendation_pairs(recommendations@),
{
    let mut pairs: Vec<(Option<Vec<char>>, ObjectId)> = Vec::new();
    let mut i: usize = 0;
    while i < recommendations.len()
        invariant
            i <= recommendations.len(),
            pairs@.len() == i,
            forall|j: int| 0 <= j < i ==> #[trigger] pair_views(pairs@)[j] == recommendation_pairs(recommendations@)[j],
        decreases recommendations.len() - i,
    {
        let r = &recommendations[i];
        let sig = recommendation_signature(r.summary.as_str());
        let sig_chars = chars_of(sig.as_str());
        let key = if sig_chars.len() > 0 {
            Some(sig_chars)
        } else {
            None
        };
        let ghost before = pairs@;
        let pr = (key, r.id);
        proof {
            lemma_pair_views_push(before, pr);
        }
        assert(pair_view(pr) == recommendation_pairs(recommendations@)[i as int]);
        pairs.push(pr);
        i = i + 1;
    }
    assert(pair_views(pairs@) =~= recommendation_pairs(recommendations@));
    pairs
}

/// Deterministic signature keys from Recommendations.
pub fn recommendation_signatures(recommendations: &Vec<Recommendation>) -> (m: KeyMap)
    ensures
        m.wf(),
        forall|k: Seq<char>| #[trigger] m.get(k) == grouped(recommendation_pairs(recommendations@), k),
{
    build_map(&recommendation_pair_list(recommendations))
}

/// Lowercased summary and payload text of an observation, space-separated.
pub open spec fn observation_text(o: Observation) -> Seq<char> {
    lowercase_of(o.summary@) + seq![' '] + lowercase_of(o.payload_text@)
}

/// The lowercased summary and payload text of an observation, space-separated.
pub fn lowered_observation_text(o: &Observation) -> (t: Vec<char>)
    ensures
        t@ == observation_text(*o),
{
    let mut text = lower_chars(o.summary.as_str());
    text.push(' ');
    let lp = lower_chars(o.payload_text.as_str());
    push_chars(&mut text, &lp);
    assert(text@ =~= observation_text(*o));
    text
}

/// Name used in a failure signature: payload `name`, `conclusion`, `status`,
/// else `test_output`.
pub open spec fn failure_name(o: Observation) -> Seq<char> {
    match payload_str_spec(o.payload, "name"@) {
        Some(v) => v,
        None => match payload_str_spec(o.payload, "conclusion"@) {
            Some(v) => v,
            None => match payload_str_spec(o.payload, "status"@) {
                Some(v) => v,
                None => "test_output"@,
            },
        },
    }
}

/// Whether an observation is a failing CheckResult/TestOutput.
pub open spec fn is_failing_check(o: Observation) -> bool {
    (o.kind == ObservationKind::CheckResult || o.kind == ObservationKind::TestOutput) && (contains_seq(
        observation_text(o),
        "fail"@,
    ) || contains_seq(observation_text(o), "error"@))
}

/// The failure signature pairs one observation contributes.
pub open spec fn failure_obs_pairs(o: Observation) -> Seq<(Option<Seq<char>>, ObjectId)> {
    if is_failing_check(o) {
        let first = seq![(Some(o.kind.text() + seq![':'] + lowercase_of(failure_name(o))), o.id)];
        if contains_seq(observation_text(o), "rollback"@) {
            first.push((Some("rollback"@), o.id))
        } else {
            first
        }
    } else {
        Seq::empty()
    }
}

/// Pairs behind `failure_signatures`.
pub open spec fn failure_pairs(obs: Seq<Observation>) -> Seq<(Option<Seq<char>>, ObjectId)>
    decreases obs.len(),
{
    if obs.len() == 0 {
        Seq::empty()
    } else {
        failure_pairs(obs.drop_last()) + failure_obs_pairs(obs.last())
    }
}

/// Exec name for a failure signature.
fn failure_name_exec(o: &Observation) -> (r: Vec<char>)
    ensures
        r@ == failure_name(*o),
{
    match payload_str(&o.payload, "name") {
        Some(v) => v,
        None => match payload_str(&o.payload, "conclusion") {
            Some(v) => v,
            None => match payload_str(&o.payload, "status") {
                Some(v) => v,
                None => chars_of("test_output"),
            },
        },
    }
}

/// The key/identifier pairs behind `failure_signatures`, in order.
pub fn failure_pair_list(observations: &Vec<Observation>) -> (pairs: Vec<(Option<Vec<char>>, ObjectId)>)
    ensures
        pair_views(pairs@) == failure_pairs(observations@),
{
    let mut pairs: Vec<(Option<Vec<char>>, ObjectId)> = Vec::new();
    let mut i: usize = 0;
    while i < observations.len()
        invariant
            i <= observations.len(),
            pair_views(pairs@) == failure_pairs(observations@.subrange(0, i as int)),
        decreases observations.len() - i,
    {
        let o = &observations[i];
        let ghost before = pairs@;
        let ghost sub = observations@.subrange(0, i + 1);
        assert(sub.drop_last() =~= observations@.subrange(0, i as int));
        assert(sub.last() == *o);
        if o.kind == ObservationKind::CheckResult || o.kind == ObservationKind::TestOutput {
            let text = lowered_observation_text(o);
            if contains_str(&text, "fail") || contains_str(&text, "error") {
                let mut key = chars_of(o.kind.as_str());
                key.push(':');
                let name = failure_name_exec(o);
                let lname = lower_of(&name);
                push_chars(&mut key, &lname);
                assert(key@ =~= o.kind.text() + seq![':'] + lowercase_of(failure_name(*o)));
                pairs.push((Some(key), o.id));
                if contains_str(&text, "rollback") {
                    pairs.push((Some(chars_of("rollback")), o.id));
                }
            }
        }
        i = i + 1;
        assert(pair_views(pairs@) =~= failure_pairs(sub));
    }
    assert(observations@.subrange(0, observations.len() as int) =~= observations@);
    pairs
}

/// Normalized failure signatures from failing CheckResult/TestOutput
/// observations (`kind:name`, plus `rollback` when the text mentions one).
pub fn failure_signatures(observations: &Vec<Observation>) -> (m: KeyMap)
    ensures
        m.wf(),
        forall|k: Seq<char>| #[trigger] m.get(k) == grouped(failure_pairs(observations@), k),
{
    build_map(&failure_pair_list(observations))
}

/// The file path pairs of a `files` array.
pub open spec fn file_items(items: Seq<JsonValue>, id: ObjectId) -> Seq<(Option<Seq<char>>, ObjectId)>
    decreases items.len(),
{
    if items.len() == 0 {
        Seq::empty()
    } else {
        file_items(items.drop_last(), id) + match items.last() {
            JsonValue::Str(s) => if trimmed(s@).len() > 0 {
                seq![(Some(trimmed(s@)), id)]
            } else {
                Seq::empty()
            },
            _ => Seq::empty(),
        }
    }
}

/// The file path pairs one observation contributes.
pub open spec fn file_obs_pairs(o: Observation) -> Seq<(Option<Seq<char>>, ObjectId)> {
    if o.kind == ObservationKind::ChangedFiles {
        match json_get(o.payload, "files"@) {
            Some(JsonValue::Array(items)) => file_items(items@, o.id),
            _ => Seq::empty(),
        }
    } else {
        Seq::empty()
    }
}

/// Pairs behind `file_path_keys`.
pub open spec fn file_pairs(obs: Seq<Observation>) -> Seq<(Option<Seq<char>>, ObjectId)>
    decreases obs.len(),
{
    if obs.len() == 0 {
        Seq::empty()
    } else {
        file_pairs(obs.drop_last()) + file_obs_pairs(obs.last())
    }
}

/// Changed file paths from ChangedFiles observation payloads.
pub fn file_path_keys(observations: &Vec<Observation>) -> (m: KeyMap)
    ensures
        m.wf(),
        forall|k: Seq<char>| #[trigger] m.get(k) == grouped(file_pairs(observations@), k),
{
    let mut pairs: Vec<(Option<Vec<char>>, ObjectId)> = Vec::new();
    let mut i: usize = 0;
    while i < observations.len()
        invariant
            i <= observations.len(),
            pair_views(pairs@) == file_pairs(observations@.subrange(0, i as int)),
        decreases observations.len() - i,
    {
        let o = &observations[i];
        let ghost sub = observations@.subrange(0, i + 1);
        assert(sub.drop_last() =~= observations@.subrange(0, i as int));
        assert(sub.last() == *o);
        if o.kind == ObservationKind::ChangedFiles {
            match o.payload.get("files") {
                Some(JsonValue::Array(items)) => {
                    let ghost base = pairs@;
                    let mut j: usize = 0;
                    while j < items.len()
                        invariant
                            j <= items.len(),
                            pair_views(pairs@) == pair_views(base) + file_items(items@.subrange(0, j as int), o.id),
                        decreases items.len() - j,
                    {
                        let ghost isub = items@.subrange(0, j + 1);
                        assert(isub.drop_last() =~= items@.subrange(0, j as int));
                        assert(isub.last() == items@[j as int]);
                        match &items[j] {
                            JsonValue::Str(f) => {
                                let t = trim_chars(&chars_of(f.as_str()));
                                if t.len() > 0 {
                                    let ghost before = pairs@;
                                    let pr = (Some(t), o.id);
                                    proof {
                                        lemma_pair_views_push(before, pr);
                                    }
                                    pairs.push(pr);
                                }
                            },
                            _ => {},
                        }
                        j = j + 1;
                        assert(pair_views(pairs@) =~= pair_views(base) + file_items(isub, o.id));
                    }
                    assert(items@.subrange(0, items.len() as int) =~= items@);
                },
                _ => {},
            }
        }
        i = i + 1;
        assert(pair_views(pairs@) =~= file_pairs(sub));
    }
    assert(observations@.subrange(0, observations.len() as int) =~= observations@);
    build_map(&pairs)
}

/// Stopwords excluded from significant-token comparison.
pub open spec fn stopwords() -> Seq<Seq<char>> {
    seq!["this"@, "that"@, "with"@, "from"@, "have"@, "been"@, "were"@, "when"@, "then"@, "than"@, "into"@, "your"@]
}

/// A token counts when it is at least four bytes long and not a stopword.
pub open spec fn is_significant(p: Seq<char>) -> bool {
    utf8_len_seq(p) >= 4 && !stopwords().contains(p)
}

/// The significant tokens of a text: lowercase alphanumeric runs of at least
/// four bytes, minus stopwords.
pub open spec fn significant_seq(text: Seq<char>) -> Seq<Seq<char>> {
    split_pieces(lowercase_of(text), Separator::NonAlphanumeric).filter(|p: Seq<char>| is_significant(p))
}

/// UTF-8 byte length of a character.
pub fn char_utf8_len(c: char) -> (n: usize)
    ensures
        n == utf8_len(c),
{
    let v = c as u32;
    if v < 0x80 {
        1
    } else if v < 0x800 {
        2
    } else if v < 0x10000 {
        3
    } else {
        4
    }
}

/// The byte length of a prefix never exceeds that of the whole.
pub proof fn lemma_utf8_prefix(s: Seq<char>, i: int)
    requires
        0 <= i <= s.len(),
    ensures
        utf8_len_seq(s.subrange(0, i)) <= utf8_len_seq(s),
    decreases s.len() - i,
{
    if i < s.len() {
        lemma_utf8_prefix(s, i + 1);
        assert(s.subrange(0, i + 1).drop_last() =~= s.subrange(0, i));
    } else {
        assert(s.subrange(0, i) =~= s);
    }
}

/// Whether the UTF-8 byte length of `v` (`str::len`) is at least `k`.
pub fn utf8_len_at_least(v: &Vec<char>, k: usize) -> (b: bool)
    requires
        k <= 1000,
    ensures
        b == (utf8_len_seq(v@) >= k),
{
    if k == 0 {
        return true;
    }
    let mut n: usize = 0;
    let mut i: usize = 0;
    while i < v.len()
        invariant
            i <= v.len(),
            n == utf8_len_seq(v@.subrange(0, i as int)),
            n < k,
            k <= 1000,
        decreases v.len() - i,
    {
        let ghost sub = v@.subrange(0, i + 1);
        assert(sub.drop_last() =~= v@.subrange(0, i as int));
        n = n + char_utf8_len(v[i]);
        i = i + 1;
        if n >= k {
            proof {
                lemma_utf8_prefix(v@, i as int);
            }
            return true;
        }
    }
    assert(v@.subrange(0, v.len() as int) =~= v@);
    false
}

/// Whether a token is one of the stopwords.
pub fn is_stopword(t: &Vec<char>) -> (b: bool)
    ensures
        b == stopwords().contains(t@),
{
    let mut stop: Vec<Vec<char>> = Vec::new();
    stop.push(chars_of("this"));
    stop.push(chars_of("that"));
    stop.push(chars_of("with"));
    stop.push(chars_of("from"));
    stop.push(chars_of("have"));
    stop.push(chars_of("been"));
    stop.push(chars_of("were"));
    stop.push(chars_of("when"));
    stop.push(chars_of("then"));
    stop.push(chars_of("than"));
    stop.push(chars_of("into"));
    stop.push(chars_of("your"));
    assert(stop@.map_values(|w: Vec<char>| w@) =~= stopwords());
    let mut i: usize = 0;
    while i < stop.len()
        invariant
            i <= stop.len(),
            stop@.map_values(|w: Vec<char>| w@) == stopwords(),
            forall|q: int| 0 <= q < i ==> stopwords()[q] != t@,
        decreases stop.len() - i,
    {
        if text_eq(&stop[i], t) {
            assert(stopwords()[i as int] == t@);
            return true;
        }
        i = i + 1;
    }
    false
}

/// Lowercase alphanumeric tokens of length >= 4 (bytes), minus stopwords.
pub fn significant_tokens(text: &str) -> (s: TextSet)
    ensures
        s.wf(),
        forall|x: Seq<char>| #[trigger] s.has(x) == significant_seq(text@).contains(x),
{
    let lower = lower_chars(text);
    let pieces = split_chars(&lower, &Separator::NonAlphanumeric);
    let ghost views = pieces@.map_values(|p: Vec<char>| p@);
    assert(views =~= split_pieces(lower@, Separator::NonAlphanumeric));
    let mut set = TextSet::new();
    let mut i: usize = 0;
    while i < pieces.len()
        invariant
            i <= pieces.len(),
            set.wf(),
            views == pieces@.map_values(|p: Vec<char>| p@),
            forall|x: Seq<char>| #[trigger] set.has(x) == views.subrange(0, i as int).filter(|p: Seq<char>| is_significant(p)).contains(x),
        decreases pieces.len() - i,
    {
        let ghost sub = views.subrange(0, i + 1);
        assert(sub.drop_last() =~= views.subrange(0, i as int));
        proof {
            reveal(Seq::filter);
        }
        let ghost f0 = views.subrange(0, i as int).filter(|p: Seq<char>| is_significant(p));
        let ghost f1 = sub.filter(|p: Seq<char>| is_significant(p));
        let piece = &pieces[i];
        if utf8_len_at_least(piece, 4) && !is_stopword(piece) {
            assert(f1 == f0.push(views[i as int]));
            set.insert(piece.clone());
            assert forall|x: Seq<char>| #[trigger] set.has(x) == f1.contains(x) by {
                if f1.contains(x) && x != views[i as int] {
                    let q = choose|q: int| 0 <= q < f1.len() && f1[q] == x;
                    assert(f0[q] == x);
                }
                if f0.contains(x) {
                    let q = choose|q: int| 0 <= q < f0.len() && f0[q] == x;
                    assert(f1[q] == x);
                }
                if x == views[i as int] {
                    assert(f1[f0.len() as int] == x);
                }
            }
        } else {
            assert(f1 == f0);
        }
        i = i + 1;
    }
    assert(views.subrange(0, pieces.len() as int) =~= views);
    set
}

/// Identifiers (in order) of observations whose summary has significant token `k`.
pub open spec fn token_ids(obs: Seq<Observation>, k: Seq<char>) -> Seq<ObjectId> {
    obs.filter(|o: Observation| significant_seq(o.summary@).contains(k)).map_values(|o: Observation| o.id)
}

/// `Some` of a non-empty identifier list.
pub open spec fn nonempty_ids(ids: Seq<ObjectId>) -> Option<Seq<ObjectId>> {
    if ids.len() > 0 {
        Some(ids)
    } else {
        None
    }
}

/// Significant summary tokens mapped to the observations that mention them.
pub fn token_map(observations: &Vec<Observation>) -> (m: KeyMap)
    ensures
        m.wf(),
        forall|k: Seq<char>| #[trigger] m.get(k) == nonempty_ids(token_ids(observations@, k)),
{
    let mut m = KeyMap::new();
    let mut i: usize = 0;
    while i < observations.len()
        invariant
            i <= observations.len(),
            m.wf(),
            forall|k: Seq<char>| #[trigger] m.get(k) == nonempty_ids(token_ids(observations@.subrange(0, i as int), k)),
        decreases observations.len() - i,
    {
        let o = &observations[i];
        let tokens = significant_tokens(o.summary.as_str());
        proof {
            lemma_text_set_distinct(tokens);
        }
        let ghost before = m;
        let ghost prev = observations@.subrange(0, i as int);
        let mut j: usize = 0;
        while j < tokens.items.len()
            invariant
                j <= tokens.items@.len(),
                tokens.wf(),
                tokens.seq().no_duplicates(),
                m.wf(),
                forall|k: Seq<char>| #[trigger] m.get(k) == nonempty_ids(
                    token_ids(prev, k) + if tokens.seq().subrange(0, j as int).contains(k) {
                        seq![o.id]
                    } else {
                        Seq::empty()
                    },
                ),
            decreases tokens.items.len() - j,
        {
            let ghost m0 = m;
            let ghost tk = tokens.seq()[j as int];
            m.record(tokens.items[j].clone(), o.id);
            proof {
                assert forall|k: Seq<char>| #[trigger] m.get(k) == nonempty_ids(
                    token_ids(prev, k) + if tokens.seq().subrange(0, j + 1).contains(k) {
                        seq![o.id]
                    } else {
                        Seq::empty()
                    },
                ) by {
                    let s0 = tokens.seq().subrange(0, j as int);
                    let s1 = tokens.seq().subrange(0, j + 1);
                    assert(s1 == s0.push(tk));
                    if k == tk {
                        assert(s1.contains(k)) by {
                            assert(s1[j as int] == k);
                        }
                        assert(!s0.contains(k)) by {
                            if s0.contains(k) {
                                let q = choose|q: int| 0 <= q < s0.len() && s0[q] == k;
                                assert(tokens.seq()[q] == tokens.seq()[j as int]);
                            }
                        }
                        assert(m0.get(k) == nonempty_ids(token_ids(prev, k)));
                        match m0.get(k) {
                            Some(ids) => {
                                assert(token_ids(prev, k) + seq![o.id] =~= ids.push(o.id));
                            },
                            None => {
                                assert(token_ids(prev, k).len() == 0);
                                assert(token_ids(prev, k) + seq![o.id] =~= seq![o.id]);
                            },
                        }
                    } else {
                        assert(s1.contains(k) == s0.contains(k)) by {
                            if s1.contains(k) {
                                let q = choose|q: int| 0 <= q < s1.len() && s1[q] == k;
                                assert(q < j);
                                assert(s0[q] == k);
                            }
                            if s0.contains(k) {
                                let q = choose|q: int| 0 <= q < s0.len() && s0[q] == k;
                                assert(s1[q] == k);
                            }
                        }
                    }
                }
            }
            j = j + 1;
        }
        proof {
            let next = observations@.subrange(0, i + 1);
            assert(next.drop_last() =~= prev);
            assert(next.last() == *o);
            assert(tokens.seq().subrange(0, tokens.items@.len() as int) =~= tokens.seq());
            assert forall|k: Seq<char>| #[trigger] m.get(k) == nonempty_ids(token_ids(next, k)) by {
                reveal(Seq::filter);
                let f0 = prev.filter(|o: Observation| significant_seq(o.summary@).contains(k));
                let f1 = next.filter(|o: Observation| significant_seq(o.summary@).contains(k));
                assert(tokens.has(k) == significant_seq(o.summary@).contains(k));
                if significant_seq(o.summary@).contains(k) {
                    assert(f1 == f0.push(*o));
                    assert(token_ids(next, k) =~= token_ids(prev, k) + seq![o.id]);
                } else {
                    assert(f1 == f0);
                    assert(token_ids(next, k) =~= token_ids(prev, k) + Seq::<ObjectId>::empty());
                }
            }
        }
        i = i + 1;
    }
    assert(observations@.subrange(0, observations.len() as int) =~= observations@);
    m
}

/// A shared artifact discovered between two Investigations.
pub struct SharedArtifact {
    pub key: Vec<char>,
    pub description: Vec<char>,
    pub a_ids: Vec<ObjectId>,
    pub b_ids: Vec<ObjectId>,
}

/// The kind texts of observations.
pub open spec fn kind_texts(obs: Seq<Observation>) -> Seq<Seq<char>> {
    obs.map_values(|o: Observation| o.kind.text())
}

/// Keys present in both sides' significant-token maps.
pub open spec fn shared_token_set(a: Seq<Observation>, b: Seq<Observation>) -> Set<Seq<char>> {
    Set::new(|k: Seq<char>| token_ids(a, k).len() > 0 && token_ids(b, k).len() > 0)
}


/// A ratio `s/u` printed with two decimals (half-up rounding).
pub open spec fn fixed2(s: nat, u: nat) -> Seq<char> {
    let h = ((200 * s + u) / (2 * u)) as nat;
    decimal(h / 100) + seq!['.', digit_chars()[((h % 100) / 10) as int], digit_chars()[(h % 10) as int]]
}

/// Confidence (thousandths) of the similar-observations signal: zero unless
/// the kind-set jaccard is at least one half and at least two significant
/// tokens are shared; then `300 + 500 * jaccard`.
pub open spec fn similar_confidence(a: Seq<Observation>, b: Seq<Observation>) -> nat {
    let sa = kind_texts(a).to_set();
    let sb = kind_texts(b).to_set();
    let shared = sa.intersect(sb);
    let union = sa.union(sb);
    if union.len() == 0 || 2 * shared.len() < union.len() || shared_token_set(a, b).len() < 2 {
        0
    } else {
        300 + (500 * shared.len()) / union.len()
    }
}

/// The similar-observations confidence never exceeds 800 thousandths.
pub proof fn lemma_similar_confidence_bound(a: Seq<Observation>, b: Seq<Observation>)
    ensures
        similar_confidence(a, b) <= 800,
{
    let sa = kind_texts(a).to_set();
    let sb = kind_texts(b).to_set();
    let shared = sa.intersect(sb);
    let union = sa.union(sb);
    vstd::seq_lib::seq_to_set_is_finite(kind_texts(a));
    vstd::seq_lib::seq_to_set_is_finite(kind_texts(b));
    assert(union.finite());
    assert(shared.subset_of(union));
    vstd::set_lib::lemma_len_subset(shared, union);
    if union.len() > 0 {
        assert((500 * shared.len()) / union.len() <= 500) by (nonlinear_arith)
            requires shared.len() <= union.len(), union.len() > 0;
    }
}

/// The set of kind texts of observations.
fn kind_set(observations: &Vec<Observation>) -> (s: TextSet)
    ensures
        s.wf(),
        forall|x: Seq<char>| #[trigger] s.has(x) == kind_texts(observations@).contains(x),
{
    let mut set = TextSet::new();
    let mut i: usize = 0;
    while i < observations.len()
        invariant
            i <= observations.len(),
            set.wf(),
            forall|x: Seq<char>| #[trigger] set.has(x) == kind_texts(observations@.subrange(0, i as int)).contains(x),
        decreases observations.len() - i,
    {
        let ghost prev = kind_texts(observations@.subrange(0, i as int));
        let ghost next = kind_texts(observations@.subrange(0, i + 1));
        assert(next =~= prev.push(observations@[i as int].kind.text()));
        set.insert(chars_of(observations[i].kind.as_str()));
        assert forall|x: Seq<char>| #[trigger] set.has(x) == next.contains(x) by {
            if next.contains(x) {
                let q = choose|q: int| 0 <= q < next.len() && next[q] == x;
                if q < prev.len() {
                    assert(prev[q] == x);
                }
            }
            if prev.contains(x) {
                let q = choose|q: int| 0 <= q < prev.len() && prev[q] == x;
                assert(next[q] == x);
            }
            if x == observations@[i as int].kind.text() {
                assert(next[i as int] == x);
            }
        }
        i = i + 1;
    }
    assert(observations@.subrange(0, observations.len() as int) =~= observations@);
    set
}

/// In a well-formed set, its sequence's set view is the membership relation.
pub proof fn lemma_set_view(s: TextSet)
    requires
        s.wf(),
    ensures
        s.seq().to_set().len() == s.seq().len(),
        forall|x: Seq<char>| #[trigger] s.seq().to_set().contains(x) == s.has(x),
{
    lemma_text_set_distinct(s);
    s.seq().unique_seq_to_set();
}

/// Identifiers of observations whose kind text lies in `kinds`.
pub open spec fn ids_with_kinds(obs: Seq<Observation>, kinds: Set<Seq<char>>) -> Seq<ObjectId> {
    obs.filter(|o: Observation| kinds.contains(o.kind.text())).map_values(|o: Observation| o.id)
}

/// Exec `ids_with_kinds`.
fn ids_with_kind_set(observations: &Vec<Observation>, kinds: &TextSet) -> (r: Vec<ObjectId>)
    requires
        kinds.wf(),
    ensures
        r@ == ids_with_kinds(observations@, kinds.seq().to_set()),
{
    proof {
        lemma_set_view(*kinds);
    }
    let mut r: Vec<ObjectId> = Vec::new();
    let mut i: usize = 0;
    while i < observations.len()
        invariant
            i <= observations.len(),
            kinds.wf(),
            forall|x: Seq<char>| #[trigger] kinds.seq().to_set().contains(x) == kinds.has(x),
            r@ == ids_with_kinds(observations@.subrange(0, i as int), kinds.seq().to_set()),
        decreases observations.len() - i,
    {
        let ghost prev = observations@.subrange(0, i as int);
        let ghost next = observations@.subrange(0, i + 1);
        assert(next.drop_last() =~= prev);
        proof {
            reveal(Seq::filter);
        }
        let o = &observations[i];
        if kinds.contains(&chars_of(o.kind.as_str())) {
            r.push(o.id);
            assert(r@ =~= ids_with_kinds(next, kinds.seq().to_set()));
        } else {
            assert(r@ =~= ids_with_kinds(next, kinds.seq().to_set()));
        }
        i = i + 1;
    }
    assert(observations@.subrange(0, observations.len() as int) =~= observations@);
    r
}

/// The description of a shared-token artifact.
pub open spec fn token_description(k: Seq<char>) -> Seq<char> {
    "Both investigations mention `"@ + k + "` in observation summaries"@
}

/// The kinds artifact of the similar-observations signal.
pub open spec fn kinds_artifact_ok(r: SharedArtifact, a: Seq<Observation>, b: Seq<Observation>) -> bool {
    let shared = kind_texts(a).to_set().intersect(kind_texts(b).to_set());
    let union = kind_texts(a).to_set().union(kind_texts(b).to_set());
    exists|ks: Seq<Seq<char>>| {
        &&& sorted_texts(ks)
        &&& ks.to_set() == shared
        &&& r.key@ == "kinds:"@ + join_seqs(ks, ","@)
        &&& r.description@ == "Both investigations share observation kinds ("@ + join_seqs(ks, ", "@)
            + ") with jaccard "@ + fixed2(shared.len(), union.len())
        &&& r.a_ids@ == ids_with_kinds(a, shared)
        &&& r.b_ids@ == ids_with_kinds(b, shared)
    }
}

/// A shared-token artifact: key, description and each side's observations.
pub open spec fn token_artifact_ok(r: SharedArtifact, a: Seq<Observation>, b: Seq<Observation>) -> bool {
    &&& shared_token_set(a, b).contains(r.key@)
    &&& r.description@ == token_description(r.key@)
    &&& r.a_ids@ == token_ids(a, r.key@)
    &&& r.b_ids@ == token_ids(b, r.key@)
}

/// Appends `v` printed as a ratio with two decimals.
pub fn push_fixed2(out: &mut Vec<char>, s: u128, u: u128)
    requires
        0 < u,
        s <= u,
        u <= 0xFFFF_FFFF_FFFF_FFFF_FFFF_FFFF,
    ensures
        final(out)@ == old(out)@ + fixed2(s as nat, u as nat),
{
    let h = (200 * s + u) / (2 * u);
    assert(h <= 100) by (nonlinear_arith)
        requires
            h == (200 * s + u) / (2 * u),
            s <= u,
            0 < u,
    ;
    push_decimal(out, h / 100);
    out.push('.');
    out.push(digit_char_pub(((h % 100) / 10) as u64));
    out.push(digit_char_pub((h % 10) as u64));
    assert(final(out)@ =~= old(out)@ + fixed2(s as nat, u as nat));
}

/// Observation-similarity signal: kind-set jaccard plus token overlap.
///
/// Returns `(confidence, artifacts)`; artifacts are empty unless jaccard >= 0.5
/// and at least two significant tokens are shared.
pub fn similar_observations(a: &Vec<Observation>, b: &Vec<Observation>) -> (r: (u64, Vec<SharedArtifact>))
    ensures
        r.0 == similar_confidence(a@, b@),
        r.0 == 0 ==> r.1@.len() == 0,
        r.0 != 0 ==> r.1@.len() == 1 + shared_token_set(a@, b@).len(),
        r.0 != 0 ==> kinds_artifact_ok(r.1@[0], a@, b@),
        forall|i: int| 1 <= i < r.1@.len() ==> token_artifact_ok(#[trigger] r.1@[i], a@, b@),
        r.1@.len() > 0 ==> sorted_texts(r.1@.subrange(1, r.1@.len() as int).map_values(|x: SharedArtifact| x.key@)),
{
    let ka = kind_set(a);
    let kb = kind_set(b);
    let ghost sa = kind_texts(a@).to_set();
    let ghost sb = kind_texts(b@).to_set();
    let mut union = TextSet::new();
    let mut i: usize = 0;
    while i < ka.items.len()
        invariant
            i <= ka.items@.len(),
            union.wf(),
            ka.wf(),
            forall|x: Seq<char>| #[trigger] union.has(x) == ka.seq().subrange(0, i as int).contains(x),
        decreases ka.items.len() - i,
    {
        let ghost s0 = ka.seq().subrange(0, i as int);
        let ghost s1 = ka.seq().subrange(0, i + 1);
        assert(s1 == s0.push(ka.seq()[i as int]));
        union.insert(ka.items[i].clone());
        assert forall|x: Seq<char>| #[trigger] union.has(x) == s1.contains(x) by {
            if s1.contains(x) && x != ka.seq()[i as int] {
                let q = choose|q: int| 0 <= q < s1.len() && s1[q] == x;
                assert(s0[q] == x);
            }
            if s0.contains(x) {
                let q = choose|q: int| 0 <= q < s0.len() && s0[q] == x;
                assert(s1[q] == x);
            }
            if x == ka.seq()[i as int] {
                assert(s1[i as int] == x);
            }
        }
        i = i + 1;
    }
    assert(ka.seq().subrange(0, ka.items@.len() as int) =~= ka.seq());
    let mut j: usize = 0;
    while j < kb.items.len()
        invariant
            j <= kb.items@.len(),
            union.wf(),
            kb.wf(),
            forall|x: Seq<char>| #[trigger] ka.has(x) == kind_texts(a@).contains(x),
            forall|x: Seq<char>| #[trigger] union.has(x) == (ka.has(x) || kb.seq().subrange(0, j as int).contains(x)),
        decreases kb.items.len() - j,
    {
        let ghost s0 = kb.seq().subrange(0, j as int);
        let ghost s1 = kb.seq().subrange(0, j + 1);
        assert(s1 == s0.push(kb.seq()[j as int]));
        union.insert(kb.items[j].clone());
        assert forall|x: Seq<char>| #[trigger] union.has(x) == (ka.has(x) || s1.contains(x)) by {
            if s1.contains(x) && x != kb.seq()[j as int] {
                let q = choose|q: int| 0 <= q < s1.len() && s1[q] == x;
                assert(s0[q] == x);
            }
            if s0.contains(x) {
                let q = choose|q: int| 0 <= q < s0.len() && s0[q] == x;
                assert(s1[q] == x);
            }
            if x == kb.seq()[j as int] {
                assert(s1[j as int] == x);
            }
        }
        j = j + 1;
    }
    assert(kb.seq().subrange(0, kb.items@.len() as int) =~= kb.seq());
    proof {
        lemma_set_view(union);
        assert forall|x: Seq<char>| #[trigger] union.seq().to_set().contains(x) == sa.union(sb).contains(x) by {
            assert(sa.contains(x) == kind_texts(a@).contains(x));
            assert(sb.contains(x) == kind_texts(b@).contains(x));
            assert(union.seq().to_set().contains(x) == union.has(x));
            assert(ka.has(x) == kind_texts(a@).contains(x));
            assert(kb.has(x) == kind_texts(b@).contains(x));
        }
        assert(union.seq().to_set() =~= sa.union(sb));
    }
    if union.len() == 0 {
        return (0, Vec::new());
    }
    let mut shared = TextSet::new();
    let mut k: usize = 0;
    while k < ka.items.len()
        invariant
            k <= ka.items@.len(),
            shared.wf(),
            ka.wf(),
            kb.wf(),
            forall|x: Seq<char>| #[trigger] ka.has(x) == kind_texts(a@).contains(x),
            forall|x: Seq<char>| #[trigger] kb.has(x) == kind_texts(b@).contains(x),
            forall|x: Seq<char>| #[trigger] shared.has(x) == (ka.seq().subrange(0, k as int).contains(x) && kb.has(x)),
        decreases ka.items.len() - k,
    {
        let ghost s0 = ka.seq().subrange(0, k as int);
        let ghost s1 = ka.seq().subrange(0, k + 1);
        assert(s1 == s0.push(ka.seq()[k as int]));
        if kb.contains(&ka.items[k]) {
            shared.insert(ka.items[k].clone());
        }
        assert forall|x: Seq<char>| #[trigger] shared.has(x) == (s1.contains(x) && kb.has(x)) by {
            if s1.contains(x) && x != ka.seq()[k as int] {
                let q = choose|q: int| 0 <= q < s1.len() && s1[q] == x;
                assert(s0[q] == x);
            }
            if s0.contains(x) {
                let q = choose|q: int| 0 <= q < s0.len() && s0[q] == x;
                assert(s1[q] == x);
            }
            if x == ka.seq()[k as int] {
                assert(s1[k as int] == x);
            }
        }
        k = k + 1;
    }
    assert(ka.seq().subrange(0, ka.items@.len() as int) =~= ka.seq());
    proof {
        lemma_set_view(shared);
        assert forall|x: Seq<char>| #[trigger] shared.seq().to_set().contains(x) == sa.intersect(sb).contains(x) by {
            assert(sa.contains(x) == kind_texts(a@).contains(x));
            assert(sb.contains(x) == kind_texts(b@).contains(x));
            assert(shared.seq().to_set().contains(x) == shared.has(x));
            assert(shared.has(x) == (ka.has(x) && kb.has(x)));
        }
        assert(shared.seq().to_set() =~= sa.intersect(sb));
    }
    let ta = token_map(a);
    let tb = token_map(b);
    let tok = intersect(&ta, &tb);
    proof {
        ta.lemma_keys();
        tb.lemma_keys();
        let sk = shared_keys(ta.keys(), tb);
        lemma_filter_sorted(ta.keys(), |k: Seq<char>| tb.has(k));
        lemma_sorted_unique(sk);
        sk.unique_seq_to_set();
        assert(sk.to_set() =~= shared_token_set(a@, b@)) by {
            assert forall|x: Seq<char>| sk.to_set().contains(x) == shared_token_set(a@, b@).contains(x) by {
                assert(ta.get(x) == nonempty_ids(token_ids(a@, x)));
                assert(tb.get(x) == nonempty_ids(token_ids(b@, x)));
            }
        }
        assert(tok@.map_values(|s: SharedKey| s.key@).len() == tok@.len());
    }
    let su = union.len() as u128;
    let ss = shared.len() as u128;
    proof {
        assert(shared.seq().len() <= union.seq().len()) by {
            assert(sa.intersect(sb).subset_of(sa.union(sb)));
            vstd::set_lib::lemma_len_subset(sa.intersect(sb), sa.union(sb));
        }
    }
    if 2 * ss < su || tok.len() < 2 {
        return (0, Vec::new());
    }
    let mut key = chars_of("kinds:");
    push_chars(&mut key, &join_chars(&shared.items, ","));
    let mut description = chars_of("Both investigations share observation kinds (");
    push_chars(&mut description, &join_chars(&shared.items, ", "));
    push_str(&mut description, ") with jaccard ");
    push_fixed2(&mut description, ss, su);
    let mut artifacts: Vec<SharedArtifact> = Vec::new();
    artifacts.push(SharedArtifact {
        key,
        description,
        a_ids: ids_with_kind_set(a, &shared),
        b_ids: ids_with_kind_set(b, &shared),
    });
    proof {
        assert(sorted_texts(shared.seq()));
        assert(kinds_artifact_ok(artifacts@[0], a@, b@));
    }
    let mut t: usize = 0;
    while t < tok.len()
        invariant
            t <= tok@.len(),
            artifacts@.len() == 1 + t,
            kinds_artifact_ok(artifacts@[0], a@, b@),
            forall|q: int| 1 <= q < artifacts@.len() ==> token_artifact_ok(#[trigger] artifacts@[q], a@, b@),
            forall|q: int| 1 <= q < artifacts@.len() ==> #[trigger] artifacts@[q].key@ == tok@[q - 1].key@,
            forall|q: int| 0 <= q < tok@.len() ==> ta.get(#[trigger] tok@[q].key@) == Some(tok@[q].a_ids@) && tb.get(
                tok@[q].key@,
            ) == Some(tok@[q].b_ids@),
            forall|k: Seq<char>| #[trigger] ta.get(k) == nonempty_ids(token_ids(a@, k)),
            forall|k: Seq<char>| #[trigger] tb.get(k) == nonempty_ids(token_ids(b@, k)),
        decreases tok.len() - t,
    {
        proof {
            let kk = tok@[t as int].key@;
            assert(ta.get(kk) == Some(tok@[t as int].a_ids@));
            assert(tb.get(kk) == Some(tok@[t as int].b_ids@));
            assert(shared_token_set(a@, b@).contains(kk));
        }
        let mut d = chars_of("Both investigations mention `");
        push_chars(&mut d, &tok[t].key);
        push_str(&mut d, "` in observation summaries");
        artifacts.push(SharedArtifact {
            key: tok[t].key.clone(),
            description: d,
            a_ids: tok[t].a_ids.clone(),
            b_ids: tok[t].b_ids.clone(),
        });
        t = t + 1;
    }
    let q = (500 * ss) / su;
    assert(q <= 500) by (nonlinear_arith)
        requires
            q == (500 * ss) / (su as int),
            ss <= su,
            0 < su,
    ;
    let conf = 300 + q;
    proof {
        let keys = artifacts@.subrange(1, artifacts@.len() as int).map_values(|x: SharedArtifact| x.key@);
        assert(keys =~= tok@.map_values(|s: SharedKey| s.key@));
    }
    (conf as u64, artifacts)
}

} // verus!
