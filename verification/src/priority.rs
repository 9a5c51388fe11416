//! Prioritized Recommendations with inspectable factors. Proposals only.

use vstd::prelude::*;
use crate::assess::texts;
use crate::forecast::{any_unsuccessful_prior, has_unsuccessful_prior};
use crate::graph::{fixed2, push_fixed2};
use crate::ids::ObjectId;
use crate::model::{Evaluation, Recommendation, VerificationReceipt};
use crate::pipeline::percent_of;
use crate::readiness::{any_result, first_risk, first_risk_index, has_result};
use crate::search::PriorOutcome;
use crate::text::{contains_seq, contains_str, decimal, digit_chars, digit_char_pub, lower_chars, lowercase_of, push_decimal, push_str, to_string};
use crate::vocab::{OutcomeDisposition, Severity, VerificationResult};

verus! {

/// One weighted factor of a Recommendation's priority.
pub struct PriorityFactor {
    pub name: String,
    /// The factor's weight, in hundredths.
    pub weight_percent: u32,
    /// The factor's contribution to the score, in millionths (rounded down).
    pub contribution: u64,
    pub explanation: String,
}

/// A Recommendation with its rank, score and factors.
pub struct PrioritizedRecommendation {
    pub recommendation_id: ObjectId,
    /// Position from 1.
    pub rank: u32,
    /// Sum of the factor contributions, in millionths.
    pub score: u64,
    pub summary: String,
    pub factors: Vec<PriorityFactor>,
    pub explanation: String,
}

/// A factor as plain values: name, weight (hundredths), contribution
/// (millionths) and explanation.
pub type FactorView = (Seq<char>, u32, u64, Seq<char>);

/// A prioritized Recommendation as plain values, without its rank:
/// Recommendation, score, summary, factors and explanation.
pub type PriorityView = (ObjectId, u64, Seq<char>, Seq<FactorView>, Seq<char>);

/// The plain values of a factor.
pub open spec fn factor_view(f: PriorityFactor) -> FactorView {
    (f.name@, f.weight_percent, f.contribution, f.explanation@)
}

/// The plain values of factors.
pub open spec fn factor_views(v: Seq<PriorityFactor>) -> Seq<FactorView> {
    v.map_values(|f: PriorityFactor| factor_view(f))
}

/// The plain values of a prioritized Recommendation.
pub open spec fn priority_view(p: PrioritizedRecommendation) -> PriorityView {
    (p.recommendation_id, p.score, p.summary@, factor_views(p.factors@), p.explanation@)
}

/// The plain values of prioritized Recommendations.
pub open spec fn priority_views(v: Seq<PrioritizedRecommendation>) -> Seq<PriorityView> {
    v.map_values(|p: PrioritizedRecommendation| priority_view(p))
}

/// Some prior outcome was successful.
pub open spec fn has_successful_prior(prior: Seq<PriorOutcome>) -> bool {
    exists|i: int| 0 <= i < prior.len() && #[trigger] prior[i].outcome.disposition == OutcomeDisposition::Successful
}

/// Evidence strength: a quarter of the cited evaluations and receipts over
/// six, kept within [0.1, 1] before weighting (millionths).
pub open spec fn evidence_contribution(references: nat) -> u64 {
    if references == 0 { 25_000 } else if references >= 6 { 250_000 } else { (250_000 * references / 6) as u64 }
}

/// Verification status: 0.2 × (0.9 with a pass, else 0.2 with a failure,
/// else 0.4), in millionths.
pub open spec fn verification_contribution(rs: Seq<VerificationReceipt>) -> u64 {
    if has_result(rs, VerificationResult::Pass) {
        180_000
    } else if has_result(rs, VerificationResult::Fail) {
        40_000
    } else {
        80_000
    }
}

/// Urgency: 0.2 × the weight of the first Risk Evaluation's severity (0.4
/// without one), in millionths.
pub open spec fn urgency_contribution(es: Seq<Evaluation>) -> u64 {
    match first_risk(es) {
        Some(e) => match e.severity {
            Severity::Critical => 200_000,
            Severity::High => 170_000,
            Severity::Medium => 100_000,
            Severity::Low => 60_000,
            Severity::Info => 40_000,
        },
        None => 80_000,
    }
}

/// Prior outcome success: 0.1 × (0.7 with a successful prior outcome, else
/// 0.35 with an unsuccessful one, else 0.5), in millionths.
pub open spec fn prior_contribution(prior: Seq<PriorOutcome>) -> u64 {
    if has_successful_prior(prior) {
        70_000
    } else if has_unsuccessful_prior(prior) {
        35_000
    } else {
        50_000
    }
}

/// Reversibility: 0.1 × (0.9 for monitoring Recommendations, else 0.55).
pub open spec fn reversibility_contribution(summary: Seq<char>) -> u64 {
    if contains_seq(lowercase_of(summary), "monitor"@) { 90_000 } else { 55_000 }
}

/// The six factors of a Recommendation, in order.
pub open spec fn factors_of(rec: Recommendation, rs: Seq<VerificationReceipt>, es: Seq<Evaluation>, prior: Seq<PriorOutcome>) -> Seq<FactorView> {
    seq![
        (
            "evidence_strength"@,
            25,
            evidence_contribution(rec.evaluation_ids@.len() + rec.verification_ids@.len()),
            decimal(rec.evaluation_ids@.len()) + " evaluation + "@ + decimal(rec.verification_ids@.len()) + " verification references"@,
        ),
        ("verification_status"@, 20, verification_contribution(rs), decimal(rs.len()) + " verification receipt(s) considered"@),
        ("urgency"@, 20, urgency_contribution(es), "Derived from Risk Evaluation severity."@),
        (
            "confidence"@,
            15,
            (150 * rec.confidence.permille) as u64,
            "Recommendation confidence "@ + decimal(percent_of(rec.confidence.permille)) + "%"@,
        ),
        ("prior_outcome_success"@, 10, prior_contribution(prior), "Historical outcomes are labeled context only."@),
        ("reversibility"@, 10, reversibility_contribution(rec.summary@), "Monitoring recommendations are treated as more reversible."@),
    ]
}

/// The sum of the contributions.
pub open spec fn score_of(fs: Seq<FactorView>) -> nat
    decreases fs.len(),
{
    if fs.len() == 0 {
        0
    } else {
        score_of(fs.drop_last()) + fs.last().2 as nat
    }
}

/// A weight in hundredths printed with two decimals.
pub open spec fn weight_text(w: u32) -> Seq<char> {
    "0."@ + seq![digit_chars()[(w / 10) as int], digit_chars()[(w % 10) as int]]
}

/// `name=contribution (w=weight)` for each factor, joined with `"; "`.
pub open spec fn factor_list(fs: Seq<FactorView>) -> Seq<char>
    decreases fs.len(),
{
    if fs.len() == 0 {
        seq![]
    } else {
        let f = fs.last();
        let item = f.0 + "="@ + fixed2(f.2 as nat, 1_000_000) + " (w="@ + weight_text(f.1) + ")"@;
        if fs.len() == 1 { item } else { factor_list(fs.drop_last()) + "; "@ + item }
    }
}

/// A ratio `s/u` printed with three decimals (half-up rounding).
pub open spec fn fixed3(s: nat, u: nat) -> Seq<char> {
    let h = ((2000 * s + u) / (2 * u)) as nat;
    decimal(h / 1000) + seq![
        '.',
        digit_chars()[((h % 1000) / 100) as int],
        digit_chars()[((h % 100) / 10) as int],
        digit_chars()[(h % 10) as int],
    ]
}

/// The priority of one Recommendation, before ranking.
pub open spec fn priority_of(rec: Recommendation, rs: Seq<VerificationReceipt>, es: Seq<Evaluation>, prior: Seq<PriorOutcome>) -> PriorityView {
    let fs = factors_of(rec, rs, es, prior);
    (
        rec.id,
        score_of(fs) as u64,
        rec.summary@,
        fs,
        "Score "@ + fixed3(score_of(fs), 1_000_000) + " from inspectable factors: "@ + factor_list(fs)
            + ". Proposal only; never auto-applied."@,
    )
}

/// `a` ranks before `b`: a higher score, then a smaller identifier.
pub open spec fn ranks_before(a: PriorityView, b: PriorityView) -> bool {
    a.1 > b.1 || (a.1 == b.1 && a.0.value < b.0.value)
}

/// Inserts `x` before the first item it ranks before.
pub open spec fn insert_ranked(s: Seq<PriorityView>, x: PriorityView) -> Seq<PriorityView>
    decreases s.len(),
{
    if s.len() == 0 {
        seq![x]
    } else if ranks_before(x, s[0]) {
        seq![x] + s
    } else {
        seq![s[0]] + insert_ranked(s.drop_first(), x)
    }
}

/// The priorities of the Recommendations, in rank order (ties keep order).
pub open spec fn ranked_priorities(
    recs: Seq<Recommendation>,
    rs: Seq<VerificationReceipt>,
    es: Seq<Evaluation>,
    prior: Seq<PriorOutcome>,
) -> Seq<PriorityView>
    decreases recs.len(),
{
    if recs.len() == 0 {
        seq![]
    } else {
        insert_ranked(ranked_priorities(recs.drop_last(), rs, es, prior), priority_of(recs.last(), rs, es, prior))
    }
}

/// Inserting keeps every item and adds one.
proof fn lemma_insert_ranked_len(s: Seq<PriorityView>, x: PriorityView)
    ensures
        insert_ranked(s, x).len() == s.len() + 1,
    decreases s.len(),
{
    if s.len() > 0 && !ranks_before(x, s[0]) {
        lemma_insert_ranked_len(s.drop_first(), x);
    }
}

/// One priority per Recommendation.
proof fn lemma_ranked_len(recs: Seq<Recommendation>, rs: Seq<VerificationReceipt>, es: Seq<Evaluation>, prior: Seq<PriorOutcome>)
    ensures
        ranked_priorities(recs, rs, es, prior).len() == recs.len(),
    decreases recs.len(),
{
    if recs.len() > 0 {
        lemma_ranked_len(recs.drop_last(), rs, es, prior);
        lemma_insert_ranked_len(ranked_priorities(recs.drop_last(), rs, es, prior), priority_of(recs.last(), rs, es, prior));
    }
}

/// Inserting at the first item `x` ranks before is `insert_ranked`.
proof fn lemma_insert_ranked_at(s: Seq<PriorityView>, x: PriorityView, pos: int)
    requires
        0 <= pos <= s.len(),
        forall|q: int| 0 <= q < pos ==> !ranks_before(x, #[trigger] s[q]),
        pos < s.len() ==> ranks_before(x, s[pos]),
    ensures
        insert_ranked(s, x) == s.insert(pos, x),
    decreases s.len(),
{
    if s.len() == 0 {
        assert(s.insert(pos, x) =~= seq![x]);
    } else if pos == 0 {
        assert(s.insert(0, x) =~= seq![x] + s);
    } else {
        assert(!ranks_before(x, s[0]));
        let t = s.drop_first();
        assert forall|q: int| 0 <= q < pos - 1 implies !ranks_before(x, #[trigger] t[q]) by {
            assert(t[q] == s[q + 1]);
        }
        if pos - 1 < t.len() {
            assert(t[pos - 1] == s[pos]);
        }
        lemma_insert_ranked_at(t, x, pos - 1);
        assert(s.insert(pos, x) =~= seq![s[0]] + t.insert(pos - 1, x));
    }
}

/// Some prior outcome was successful (exec).
fn any_successful_prior(prior: &Vec<PriorOutcome>) -> (b: bool)
    ensures
        b == has_successful_prior(prior@),
{
    let mut i: usize = 0;
    while i < prior.len()
        invariant
            i <= prior@.len(),
            forall|j: int| 0 <= j < i ==> #[trigger] prior@[j].outcome.disposition != OutcomeDisposition::Successful,
        decreases prior.len() - i,
    {
        if prior[i].outcome.disposition == OutcomeDisposition::Successful {
            return true;
        }
        i = i + 1;
    }
    false
}

fn text_string(s: &str) -> (r: String)
    ensures
        r@ == s@,
{
    s.to_owned()
}

/// Appends `s/u` printed with three decimals.
fn push_fixed3(out: &mut Vec<char>, s: u128, u: u128)
    requires
        0 < u,
        s <= 1000 * u,
        u <= 0xFFFF_FFFF_FFFF,
    ensures
        final(out)@ == old(out)@ + fixed3(s as nat, u as nat),
{
    let h = (2000 * s + u) / (2 * u);
    push_decimal(out, h / 1000);
    out.push('.');
    out.push(digit_char_pub(((h % 1000) / 100) as u64));
    out.push(digit_char_pub(((h % 100) / 10) as u64));
    out.push(digit_char_pub((h % 10) as u64));
    assert(final(out)@ =~= old(out)@ + fixed3(s as nat, u as nat));
}

/// Appends a weight in hundredths printed with two decimals.
fn push_weight(out: &mut Vec<char>, w: u32)
    requires
        w < 100,
    ensures
        final(out)@ == old(out)@ + weight_text(w),
{
    push_str(out, "0.");
    out.push(digit_char_pub((w / 10) as u64));
    out.push(digit_char_pub((w % 10) as u64));
    assert(final(out)@ =~= old(out)@ + weight_text(w));
}

/// Appends a factor.
fn push_factor(out: &mut Vec<PriorityFactor>, name: &str, weight_percent: u32, contribution: u64, explanation: String)
    ensures
        factor_views(final(out)@) == factor_views(old(out)@).push((name@, weight_percent, contribution, explanation@)),
{
    let f = PriorityFactor { name: text_string(name), weight_percent, contribution, explanation };
    out.push(f);
    assert(factor_views(out@) =~= factor_views(old(out)@).push(factor_view(f)));
}

/// The factors of one Recommendation.
fn factors_for(
    rec: &Recommendation,
    receipts_len: usize,
    verification: u64,
    urgency: u64,
    prior: u64,
) -> (fs: Vec<PriorityFactor>)
    requires
        rec.confidence.permille <= 1000,
    ensures
        factor_views(fs@) == seq![
            (
                "evidence_strength"@,
                25u32,
                evidence_contribution(rec.evaluation_ids@.len() + rec.verification_ids@.len()),
                decimal(rec.evaluation_ids@.len()) + " evaluation + "@ + decimal(rec.verification_ids@.len()) + " verification references"@,
            ),
            ("verification_status"@, 20u32, verification, decimal(receipts_len as nat) + " verification receipt(s) considered"@),
            ("urgency"@, 20u32, urgency, "Derived from Risk Evaluation severity."@),
            (
                "confidence"@,
                15u32,
                (150 * rec.confidence.permille) as u64,
                "Recommendation confidence "@ + decimal(percent_of(rec.confidence.permille)) + "%"@,
            ),
            ("prior_outcome_success"@, 10u32, prior, "Historical outcomes are labeled context only."@),
            ("reversibility"@, 10u32, reversibility_contribution(rec.summary@), "Monitoring recommendations are treated as more reversible."@),
        ],
{
    let mut fs: Vec<PriorityFactor> = Vec::new();
    let e = rec.evaluation_ids.len();
    let v = rec.verification_ids.len();
    let references = e as u128 + v as u128;
    let evidence: u64 = if references == 0 {
        25_000
    } else if references >= 6 {
        250_000
    } else {
        (250_000 * references / 6) as u64
    };
    let mut t: Vec<char> = Vec::new();
    push_decimal(&mut t, e as u128);
    push_str(&mut t, " evaluation + ");
    push_decimal(&mut t, v as u128);
    push_str(&mut t, " verification references");
    push_factor(&mut fs, "evidence_strength", 25, evidence, to_string(&t));
    let mut t: Vec<char> = Vec::new();
    push_decimal(&mut t, receipts_len as u128);
    push_str(&mut t, " verification receipt(s) considered");
    push_factor(&mut fs, "verification_status", 20, verification, to_string(&t));
    push_factor(&mut fs, "urgency", 20, urgency, text_string("Derived from Risk Evaluation severity."));
    let mut t: Vec<char> = Vec::new();
    push_str(&mut t, "Recommendation confidence ");
    push_decimal(&mut t, ((rec.confidence.permille as u64 + 5) / 10) as u128);
    push_str(&mut t, "%");
    push_factor(&mut fs, "confidence", 15, 150 * rec.confidence.permille as u64, to_string(&t));
    push_factor(&mut fs, "prior_outcome_success", 10, prior, text_string("Historical outcomes are labeled context only."));
    let lower = lower_chars(rec.summary.as_str());
    let reversible: u64 = if contains_str(&lower, "monitor") { 90_000 } else { 55_000 };
    push_factor(&mut fs, "reversibility", 10, reversible, text_string("Monitoring recommendations are treated as more reversible."));
    let ghost want = seq![
        (
            "evidence_strength"@,
            25u32,
            evidence_contribution(rec.evaluation_ids@.len() + rec.verification_ids@.len()),
            decimal(rec.evaluation_ids@.len()) + " evaluation + "@ + decimal(rec.verification_ids@.len()) + " verification references"@,
        ),
        ("verification_status"@, 20u32, verification, decimal(receipts_len as nat) + " verification receipt(s) considered"@),
        ("urgency"@, 20u32, urgency, "Derived from Risk Evaluation severity."@),
        (
            "confidence"@,
            15u32,
            (150 * rec.confidence.permille) as u64,
            "Recommendation confidence "@ + decimal(percent_of(rec.confidence.permille)) + "%"@,
        ),
        ("prior_outcome_success"@, 10u32, prior, "Historical outcomes are labeled context only."@),
        ("reversibility"@, 10u32, reversibility_contribution(rec.summary@), "Monitoring recommendations are treated as more reversible."@),
    ];
    assert(factor_views(fs@) =~= want);
    fs
}

/// The score and explanation of factors.
fn explain_factors(fs: &Vec<PriorityFactor>) -> (r: (u64, String))
    requires
        fs@.len() <= 6,
        forall|i: int| 0 <= i < fs@.len() ==> (#[trigger] fs@[i]).contribution <= 250_000 && fs@[i].weight_percent < 100,
    ensures
        r.0 == score_of(factor_views(fs@)),
        r.1@ == "Score "@ + fixed3(score_of(factor_views(fs@)), 1_000_000) + " from inspectable factors: "@ + factor_list(factor_views(fs@))
            + ". Proposal only; never auto-applied."@,
{
    let ghost views = factor_views(fs@);
    let mut score: u64 = 0;
    let mut list: Vec<char> = Vec::new();
    let mut i: usize = 0;
    while i < fs.len()
        invariant
            i <= fs@.len(),
            fs@.len() <= 6,
            views == factor_views(fs@),
            forall|q: int| 0 <= q < fs@.len() ==> (#[trigger] fs@[q]).contribution <= 250_000 && fs@[q].weight_percent < 100,
            score == score_of(views.subrange(0, i as int)),
            score <= 250_000 * i,
            list@ == factor_list(views.subrange(0, i as int)),
        decreases fs.len() - i,
    {
        let ghost sub = views.subrange(0, i + 1);
        assert(sub.drop_last() =~= views.subrange(0, i as int));
        assert(sub.last() == factor_view(fs@[i as int]));
        let f = &fs[i];
        if i > 0 {
            push_str(&mut list, "; ");
        }
        push_str(&mut list, f.name.as_str());
        push_str(&mut list, "=");
        push_fixed2(&mut list, f.contribution as u128, 1_000_000);
        push_str(&mut list, " (w=");
        push_weight(&mut list, f.weight_percent);
        push_str(&mut list, ")");
        score = score + f.contribution;
        i = i + 1;
        assert(list@ =~= factor_list(views.subrange(0, i as int)));
    }
    assert(views.subrange(0, fs@.len() as int) =~= views);
    let mut t: Vec<char> = Vec::new();
    push_str(&mut t, "Score ");
    push_fixed3(&mut t, score as u128, 1_000_000);
    push_str(&mut t, " from inspectable factors: ");
    push_chars_of(&mut t, &list);
    push_str(&mut t, ". Proposal only; never auto-applied.");
    (score, to_string(&t))
}

fn push_chars_of(out: &mut Vec<char>, v: &Vec<char>)
    ensures
        final(out)@ == old(out)@ + v@,
{
    crate::text::push_chars(out, v);
}

/// Inserts a prioritized Recommendation at its rank position.
fn insert_by_rank(out: &mut Vec<PrioritizedRecommendation>, p: PrioritizedRecommendation)
    ensures
        priority_views(final(out)@) == insert_ranked(priority_views(old(out)@), priority_view(p)),
{
    let ghost views = priority_views(out@);
    let ghost x = priority_view(p);
    let mut pos: usize = 0;
    while pos < out.len() && !(p.score > out[pos].score || (p.score == out[pos].score
        && p.recommendation_id.value < out[pos].recommendation_id.value))
        invariant
            pos <= out@.len(),
            views == priority_views(out@),
            x == priority_view(p),
            forall|q: int| 0 <= q < pos ==> !ranks_before(x, #[trigger] views[q]),
        decreases out.len() - pos,
    {
        assert(views[pos as int] == priority_view(out@[pos as int]));
        pos = pos + 1;
    }
    proof {
        if pos < out@.len() {
            assert(views[pos as int] == priority_view(out@[pos as int]));
        }
        lemma_insert_ranked_at(views, x, pos as int);
    }
    out.insert(pos, p);
    assert(priority_views(out@) =~= views.insert(pos as int, x));
}

/// Prioritizes the Recommendations of an Investigation with inspectable
/// factors, from its Verification Receipts and Evaluations and the prior
/// outcomes recalled for it.
///
/// Each Recommendation scores the sum of six weighted factors: evidence
/// strength, verification status, urgency (from the first Risk Evaluation),
/// confidence, prior outcome success and reversibility. The list is ordered
/// by score, highest first, then by identifier, and ranked from 1. Every
/// entry remains a proposal.
pub fn prioritize_recommendations(
    recommendations: &Vec<Recommendation>,
    receipts: &Vec<VerificationReceipt>,
    evaluations: &Vec<Evaluation>,
    prior: &Vec<PriorOutcome>,
) -> (r: Vec<PrioritizedRecommendation>)
    requires
        forall|i: int| 0 <= i < recommendations@.len() ==> (#[trigger] recommendations@[i]).confidence.wf(),
        recommendations@.len() < 0xFFFF_FFFF,
    ensures
        priority_views(r@) == ranked_priorities(recommendations@, receipts@, evaluations@, prior@),
        forall|i: int| 0 <= i < r@.len() ==> (#[trigger] r@[i]).rank == i + 1,
{
    let verification: u64 = if any_result(receipts, VerificationResult::Pass) {
        180_000
    } else if any_result(receipts, VerificationResult::Fail) {
        40_000
    } else {
        80_000
    };
    let urgency: u64 = match first_risk_index(evaluations) {
        Some(k) => match evaluations[k].severity {
            Severity::Critical => 200_000,
            Severity::High => 170_000,
            Severity::Medium => 100_000,
            Severity::Low => 60_000,
            Severity::Info => 40_000,
        },
        None => 80_000,
    };
    let prior_score: u64 = if any_successful_prior(prior) {
        70_000
    } else if any_unsuccessful_prior(prior) {
        35_000
    } else {
        50_000
    };
    let mut out: Vec<PrioritizedRecommendation> = Vec::new();
    let mut i: usize = 0;
    while i < recommendations.len()
        invariant
            i <= recommendations@.len(),
            forall|q: int| 0 <= q < recommendations@.len() ==> (#[trigger] recommendations@[q]).confidence.wf(),
            verification == verification_contribution(receipts@),
            urgency == urgency_contribution(evaluations@),
            prior_score == prior_contribution(prior@),
            priority_views(out@) == ranked_priorities(recommendations@.subrange(0, i as int), receipts@, evaluations@, prior@),
        decreases recommendations.len() - i,
    {
        let ghost sub = recommendations@.subrange(0, i + 1);
        assert(sub.drop_last() =~= recommendations@.subrange(0, i as int));
        assert(sub.last() == recommendations@[i as int]);
        let rec = &recommendations[i];
        assert(rec.confidence.wf());
        let fs = factors_for(rec, receipts.len(), verification, urgency, prior_score);
        let ghost fv = factor_views(fs@);
        assert(fv == factors_of(*rec, receipts@, evaluations@, prior@));
        proof {
            assert forall|q: int| 0 <= q < fs@.len() implies (#[trigger] fs@[q]).contribution <= 250_000 && fs@[q].weight_percent < 100 by {
                assert(factor_view(fs@[q]) == fv[q]);
            }
        }
        let (score, explanation) = explain_factors(&fs);
        let p = PrioritizedRecommendation {
            recommendation_id: rec.id,
            rank: 0,
            score,
            summary: rec.summary.as_str().to_owned(),
            factors: fs,
            explanation,
        };
        assert(priority_view(p) == priority_of(*rec, receipts@, evaluations@, prior@));
        insert_by_rank(&mut out, p);
        i = i + 1;
    }
    assert(recommendations@.subrange(0, recommendations@.len() as int) =~= recommendations@);
    let ghost ranked = priority_views(out@);
    assert(ranked.len() == recommendations@.len()) by {
        lemma_ranked_len(recommendations@, receipts@, evaluations@, prior@);
    }
    let n = out.len();
    let mut k: usize = 0;
    while k < n
        invariant
            k <= n,
            n == out@.len(),
            n < 0xFFFF_FFFF,
            priority_views(out@) == ranked,
            forall|q: int| 0 <= q < k ==> (#[trigger] out@[q]).rank == q + 1,
        decreases n - k,
    {
        let ghost before = out@;
        let mut item = out.remove(k);
        item.rank = (k + 1) as u32;
        out.insert(k, item);
        assert(out@ =~= before.update(k as int, item));
        assert(priority_views(out@) =~= priority_views(before));
        k = k + 1;
    }
    out
}

/// The score of a Recommendation is the sum of its six contributions.
proof fn lemma_score_six(fs: Seq<FactorView>)
    requires
        fs.len() == 6,
    ensures
        score_of(fs) == fs[0].2 as nat + fs[1].2 as nat + fs[2].2 as nat + fs[3].2 as nat + fs[4].2 as nat + fs[5].2 as nat,
{
    reveal_with_fuel(score_of, 7);
    assert(fs.drop_last().drop_last().drop_last().drop_last().drop_last().drop_last().len() == 0);
}

/// History weighs in the right direction: for the same Recommendation,
/// receipts and Evaluations, a history with some successful outcome
/// contributes more, and scores higher, than no decisive history, which in
/// turn contributes more, and scores higher, than a history of
/// unsuccessful outcomes only.
pub proof fn lemma_prior_success_order(
    rec: Recommendation,
    rs: Seq<VerificationReceipt>,
    es: Seq<Evaluation>,
    good: Seq<PriorOutcome>,
    none: Seq<PriorOutcome>,
    bad: Seq<PriorOutcome>,
)
    requires
        exists|i: int| 0 <= i < good.len() && good[i].outcome.disposition == OutcomeDisposition::Successful,
        forall|i: int| 0 <= i < none.len() ==> none[i].outcome.disposition != OutcomeDisposition::Successful
            && none[i].outcome.disposition != OutcomeDisposition::Unsuccessful,
        exists|i: int| 0 <= i < bad.len() && bad[i].outcome.disposition == OutcomeDisposition::Unsuccessful,
        forall|i: int| 0 <= i < bad.len() ==> bad[i].outcome.disposition != OutcomeDisposition::Successful,
    ensures
        factors_of(rec, rs, es, good)[4].0 == "prior_outcome_success"@,
        factors_of(rec, rs, es, good)[4].2 > factors_of(rec, rs, es, none)[4].2,
        factors_of(rec, rs, es, none)[4].2 > factors_of(rec, rs, es, bad)[4].2,
        score_of(factors_of(rec, rs, es, good)) > score_of(factors_of(rec, rs, es, none)),
        score_of(factors_of(rec, rs, es, none)) > score_of(factors_of(rec, rs, es, bad)),
{
    let i = choose|i: int| 0 <= i < good.len() && good[i].outcome.disposition == OutcomeDisposition::Successful;
    assert(has_successful_prior(good));
    let k = choose|k: int| 0 <= k < bad.len() && bad[k].outcome.disposition == OutcomeDisposition::Unsuccessful;
    assert(has_unsuccessful_prior(bad));
    assert(!has_successful_prior(bad));
    assert(!has_successful_prior(none));
    assert(!has_unsuccessful_prior(none));
    lemma_score_six(factors_of(rec, rs, es, good));
    lemma_score_six(factors_of(rec, rs, es, none));
    lemma_score_six(factors_of(rec, rs, es, bad));
}

/// Verification weighs in the right direction: for the same
/// Recommendation, Evaluations and history, receipts with a pass score
/// higher than receipts with neither a pass nor a failure, which score
/// higher than receipts with a failure and no pass.
pub proof fn lemma_verification_order(
    rec: Recommendation,
    es: Seq<Evaluation>,
    prior: Seq<PriorOutcome>,
    passed: Seq<VerificationReceipt>,
    neither: Seq<VerificationReceipt>,
    failed: Seq<VerificationReceipt>,
)
    requires
        exists|i: int| 0 <= i < passed.len() && passed[i].result == VerificationResult::Pass,
        forall|i: int| 0 <= i < neither.len() ==> neither[i].result != VerificationResult::Pass
            && neither[i].result != VerificationResult::Fail,
        exists|i: int| 0 <= i < failed.len() && failed[i].result == VerificationResult::Fail,
        forall|i: int| 0 <= i < failed.len() ==> failed[i].result != VerificationResult::Pass,
    ensures
        factors_of(rec, passed, es, prior)[1].0 == "verification_status"@,
        factors_of(rec, passed, es, prior)[1].2 > factors_of(rec, neither, es, prior)[1].2,
        factors_of(rec, neither, es, prior)[1].2 > factors_of(rec, failed, es, prior)[1].2,
        score_of(factors_of(rec, passed, es, prior)) > score_of(factors_of(rec, neither, es, prior)),
        score_of(factors_of(rec, neither, es, prior)) > score_of(factors_of(rec, failed, es, prior)),
{
    let i = choose|i: int| 0 <= i < passed.len() && passed[i].result == VerificationResult::Pass;
    assert(has_result(passed, VerificationResult::Pass));
    let k = choose|k: int| 0 <= k < failed.len() && failed[k].result == VerificationResult::Fail;
    assert(has_result(failed, VerificationResult::Fail));
    assert(!has_result(failed, VerificationResult::Pass));
    assert(!has_result(neither, VerificationResult::Pass));
    assert(!has_result(neither, VerificationResult::Fail));
    lemma_score_six(factors_of(rec, passed, es, prior));
    lemma_score_six(factors_of(rec, neither, es, prior));
    lemma_score_six(factors_of(rec, failed, es, prior));
}

/// How severe a severity is: informational lowest, critical highest.
pub open spec fn severity_level(s: Severity) -> int {
    match s {
        Severity::Info => 0,
        Severity::Low => 1,
        Severity::Medium => 2,
        Severity::High => 3,
        Severity::Critical => 4,
    }
}

/// Urgency weighs in the right direction: for the same Recommendation,
/// receipts and history, Evaluations whose first Risk Evaluation is more
/// severe give the larger urgency contribution and the higher score.
pub proof fn lemma_urgency_order(
    rec: Recommendation,
    rs: Seq<VerificationReceipt>,
    prior: Seq<PriorOutcome>,
    more: Seq<Evaluation>,
    less: Seq<Evaluation>,
    i: int,
    j: int,
)
    requires
        crate::readiness::first_risk_at(more, i),
        crate::readiness::first_risk_at(less, j),
        severity_level(more[i].severity) > severity_level(less[j].severity),
    ensures
        factors_of(rec, rs, more, prior)[2].0 == "urgency"@,
        factors_of(rec, rs, more, prior)[2].2 > factors_of(rec, rs, less, prior)[2].2,
        score_of(factors_of(rec, rs, more, prior)) > score_of(factors_of(rec, rs, less, prior)),
{
    let a = choose|a: int| crate::readiness::first_risk_at(more, a);
    let b = choose|b: int| crate::readiness::first_risk_at(less, b);
    if a < i {
        assert(more[a].assessment_type != crate::vocab::AssessmentType::Risk);
    }
    if i < a {
        assert(more[i].assessment_type != crate::vocab::AssessmentType::Risk);
    }
    if b < j {
        assert(less[b].assessment_type != crate::vocab::AssessmentType::Risk);
    }
    if j < b {
        assert(less[j].assessment_type != crate::vocab::AssessmentType::Risk);
    }
    assert(first_risk(more) == Some(more[i]));
    assert(first_risk(less) == Some(less[j]));
    lemma_score_six(factors_of(rec, rs, more, prior));
    lemma_score_six(factors_of(rec, rs, less, prior));
}

/// No item ranks before one listed earlier.
pub open spec fn sorted_views(s: Seq<PriorityView>) -> bool {
    forall|a: int, b: int| 0 <= a < b < s.len() ==> !ranks_before(#[trigger] s[b], #[trigger] s[a])
}

/// Inserting into a ranked list keeps it ranked and adds only the item.
proof fn lemma_insert_sorted(s: Seq<PriorityView>, x: PriorityView)
    requires
        sorted_views(s),
    ensures
        sorted_views(insert_ranked(s, x)),
        insert_ranked(s, x).len() == s.len() + 1,
        forall|k: int| 0 <= k < insert_ranked(s, x).len() ==> #[trigger] insert_ranked(s, x)[k] == x || s.contains(insert_ranked(s, x)[k]),
    decreases s.len(),
{
    if s.len() == 0 {
    } else if ranks_before(x, s[0]) {
        let t = seq![x] + s;
        assert(insert_ranked(s, x) == t);
        assert forall|a: int, b: int| 0 <= a < b < t.len() implies !ranks_before(#[trigger] t[b], #[trigger] t[a]) by {
            if a == 0 {
                assert(t[b] == s[b - 1]);
                if b - 1 > 0 {
                    assert(!ranks_before(s[b - 1], s[0]));
                }
            } else {
                assert(t[a] == s[a - 1] && t[b] == s[b - 1]);
            }
        }
        assert forall|k: int| 0 <= k < t.len() implies #[trigger] t[k] == x || s.contains(t[k]) by {
            if k > 0 {
                assert(t[k] == s[k - 1]);
            }
        }
    } else {
        let rest = s.drop_first();
        assert forall|a: int, b: int| 0 <= a < b < rest.len() implies !ranks_before(#[trigger] rest[b], #[trigger] rest[a]) by {
            assert(rest[a] == s[a + 1] && rest[b] == s[b + 1]);
        }
        lemma_insert_sorted(rest, x);
        let ins = insert_ranked(rest, x);
        let t = seq![s[0]] + ins;
        assert(insert_ranked(s, x) == t);
        assert forall|a: int, b: int| 0 <= a < b < t.len() implies !ranks_before(#[trigger] t[b], #[trigger] t[a]) by {
            if a == 0 {
                assert(t[b] == ins[b - 1]);
                if ins[b - 1] != x {
                    assert(rest.contains(ins[b - 1]));
                    let m = choose|m: int| 0 <= m < rest.len() && rest[m] == ins[b - 1];
                    assert(rest[m] == s[m + 1]);
                }
            } else {
                assert(t[a] == ins[a - 1] && t[b] == ins[b - 1]);
            }
        }
        assert forall|k: int| 0 <= k < t.len() implies #[trigger] t[k] == x || s.contains(t[k]) by {
            if k == 0 {
                assert(s.contains(s[0]));
            } else {
                assert(t[k] == ins[k - 1]);
                if ins[k - 1] != x {
                    let m = choose|m: int| 0 <= m < rest.len() && rest[m] == ins[k - 1];
                    assert(rest[m] == s[m + 1]);
                    assert(s.contains(s[m + 1]));
                }
            }
        }
    }
}

/// Prioritized Recommendations come best first: scores never rise down the
/// list, and equal scores list smaller identifiers first; every
/// Recommendation is ranked once.
pub proof fn lemma_priorities_best_first(
    recs: Seq<Recommendation>,
    rs: Seq<VerificationReceipt>,
    es: Seq<Evaluation>,
    prior: Seq<PriorOutcome>,
)
    ensures
        ranked_priorities(recs, rs, es, prior).len() == recs.len(),
        forall|a: int, b: int| 0 <= a < b < recs.len() ==> {
            &&& (#[trigger] ranked_priorities(recs, rs, es, prior)[a]).1 >= (#[trigger] ranked_priorities(recs, rs, es, prior)[b]).1
            &&& ranked_priorities(recs, rs, es, prior)[a].1 == ranked_priorities(recs, rs, es, prior)[b].1
                ==> ranked_priorities(recs, rs, es, prior)[a].0.value <= ranked_priorities(recs, rs, es, prior)[b].0.value
        },
{
    lemma_ranked_len(recs, rs, es, prior);
    lemma_ranked_sorted(recs, rs, es, prior);
    let r = ranked_priorities(recs, rs, es, prior);
    assert forall|a: int, b: int| 0 <= a < b < recs.len() implies {
        &&& (#[trigger] r[a]).1 >= (#[trigger] r[b]).1
        &&& r[a].1 == r[b].1 ==> r[a].0.value <= r[b].0.value
    } by {
        assert(!ranks_before(r[b], r[a]));
    }
}

proof fn lemma_ranked_sorted(recs: Seq<Recommendation>, rs: Seq<VerificationReceipt>, es: Seq<Evaluation>, prior: Seq<PriorOutcome>)
    ensures
        sorted_views(ranked_priorities(recs, rs, es, prior)),
    decreases recs.len(),
{
    if recs.len() > 0 {
        lemma_ranked_sorted(recs.drop_last(), rs, es, prior);
        lemma_insert_sorted(ranked_priorities(recs.drop_last(), rs, es, prior), priority_of(recs.last(), rs, es, prior));
    }
}

} // verus!
