//! The content of generated Improvement Proposals, their comparison
//! factors, and redaction of secrets from quoted text.

use vstd::prelude::*;
use crate::assess::{owned_strings, texts};
use crate::graph::{leading_nonempty, words};
use crate::ids::{InvestigationId, ObjectId};
use crate::json::json_str;
use crate::json::json_get;
use crate::model::{Evaluation, Hypothesis, Observation, Recommendation, VerificationReceipt};
use crate::proposal::{EvidenceReference, ImprovementProposal, ProposalAlternative, ProposalRisk, ProposalVerificationPlan};
use crate::proposal_rules::{clean_strings, trims_to};
use crate::keymap::sorted_texts;
use crate::text::{
    chars_of, contains_seq, contains_str, decimal, join_chars, join_seqs, lower_chars, lower_of, lowercase_of, occurs_at,
    push_decimal, push_str, split_chars, split_pieces, starts_with_str, to_string, Separator,
};
use crate::vocab::{EvidenceScope, ProposalEffort, ProposalPriority, Severity};

verus! {

/// Rank of a severity (info lowest).
pub open spec fn severity_rank(s: Severity) -> int {
    match s {
        Severity::Info => 0,
        Severity::Low => 1,
        Severity::Medium => 2,
        Severity::High => 3,
        Severity::Critical => 4,
    }
}

/// The highest Evaluation severity, if any.
pub open spec fn max_severity(evals: Seq<Evaluation>) -> Option<Severity>
    decreases evals.len(),
{
    if evals.len() == 0 {
        None
    } else {
        match max_severity(evals.drop_last()) {
            Some(m) => if severity_rank(evals.last().severity) >= severity_rank(m) { Some(evals.last().severity) } else { Some(m) },
            None => Some(evals.last().severity),
        }
    }
}

/// An observation summary signals failure.
pub open spec fn failure_signal(o: Observation) -> bool {
    let t = lowercase_of(o.summary@);
    contains_seq(t, "fail"@) || contains_seq(t, "error"@) || contains_seq(t, "timeout"@)
}

/// How many observations signal failure.
pub open spec fn failure_signal_count(obs: Seq<Observation>) -> nat
    decreases obs.len(),
{
    if obs.len() == 0 {
        0
    } else {
        failure_signal_count(obs.drop_last()) + if failure_signal(obs.last()) { 1nat } else { 0nat }
    }
}

/// The Proposal priority for a highest severity and a failure-signal count.
pub open spec fn priority_spec(severity: Option<Severity>, failures: nat) -> ProposalPriority {
    match severity {
        Some(Severity::Critical) => ProposalPriority::Critical,
        Some(Severity::High) => ProposalPriority::High,
        Some(Severity::Medium) => if failures > 0 { ProposalPriority::High } else { ProposalPriority::Medium },
        Some(_) => if failures > 1 { ProposalPriority::Medium } else { ProposalPriority::Low },
        None => if failures > 0 { ProposalPriority::Medium } else { ProposalPriority::Exploratory },
    }
}

/// The explanation that accompanies an inferred priority.
pub open spec fn priority_explanation_spec(p: ProposalPriority, severity: Option<Severity>, failures: nat) -> Seq<char> {
    "Priority "@ + p.text() + " reflects the highest current Evaluation severity ("@
        + match severity { Some(s) => s.text(), None => "unknown"@ }
        + ") and "@ + decimal(failures)
        + " explicit failure signal(s); confidence alone did not set priority."@
}

/// Infers a Proposal priority from the highest Evaluation severity and the
/// number of observations that signal failure, with its explanation.
pub fn infer_priority(evaluations: &Vec<Evaluation>, observations: &Vec<Observation>) -> (r: (ProposalPriority, String))
    ensures
        r.0 == priority_spec(max_severity(evaluations@), failure_signal_count(observations@)),
        r.1@ == priority_explanation_spec(r.0, max_severity(evaluations@), failure_signal_count(observations@)),
{
    let mut severity: Option<Severity> = None;
    let mut i: usize = 0;
    while i < evaluations.len()
        invariant
            i <= evaluations@.len(),
            severity == max_severity(evaluations@.subrange(0, i as int)),
        decreases evaluations.len() - i,
    {
        assert(evaluations@.subrange(0, i + 1).drop_last() =~= evaluations@.subrange(0, i as int));
        let s = evaluations[i].severity;
        let rank = |x: Severity| -> (r: u8)
            ensures r as int == severity_rank(x),
        {
            match x {
                Severity::Info => 0,
                Severity::Low => 1,
                Severity::Medium => 2,
                Severity::High => 3,
                Severity::Critical => 4,
            }
        };
        severity = match severity {
            Some(m) => if rank(s) >= rank(m) { Some(s) } else { Some(m) },
            None => Some(s),
        };
        i = i + 1;
    }
    assert(evaluations@.subrange(0, evaluations@.len() as int) =~= evaluations@);
    let mut failures: usize = 0;
    let mut j: usize = 0;
    while j < observations.len()
        invariant
            j <= observations@.len(),
            failures <= j,
            failures == failure_signal_count(observations@.subrange(0, j as int)),
        decreases observations.len() - j,
    {
        assert(observations@.subrange(0, j + 1).drop_last() =~= observations@.subrange(0, j as int));
        let t = lower_chars(observations[j].summary.as_str());
        if contains_str(&t, "fail") || contains_str(&t, "error") || contains_str(&t, "timeout") {
            failures = failures + 1;
        }
        j = j + 1;
    }
    assert(observations@.subrange(0, observations@.len() as int) =~= observations@);
    let priority = match severity {
        Some(Severity::Critical) => ProposalPriority::Critical,
        Some(Severity::High) => ProposalPriority::High,
        Some(Severity::Medium) => if failures > 0 { ProposalPriority::High } else { ProposalPriority::Medium },
        Some(_) => if failures > 1 { ProposalPriority::Medium } else { ProposalPriority::Low },
        None => if failures > 0 { ProposalPriority::Medium } else { ProposalPriority::Exploratory },
    };
    let mut out: Vec<char> = Vec::new();
    push_str(&mut out, "Priority ");
    push_str(&mut out, priority.as_str());
    push_str(&mut out, " reflects the highest current Evaluation severity (");
    match severity {
        Some(s) => push_str(&mut out, s.as_str()),
        None => push_str(&mut out, "unknown"),
    }
    push_str(&mut out, ") and ");
    push_decimal(&mut out, failures as u128);
    push_str(&mut out, " explicit failure signal(s); confidence alone did not set priority.");
    (priority, to_string(&out))
}

/// The `component` strings named by observation payloads, in order.
pub open spec fn payload_components(obs: Seq<Observation>) -> Seq<Seq<char>>
    decreases obs.len(),
{
    if obs.len() == 0 {
        Seq::empty()
    } else {
        let prev = payload_components(obs.drop_last());
        match json_str(json_get(obs.last().payload, "component"@)) {
            Some(c) => prev.push(c),
            None => prev,
        }
    }
}

/// The affected components of generated Proposals: the cleaned payload
/// components, or `runtime` when no observation names one.
pub fn infer_components(observations: &Vec<Observation>) -> (r: Vec<String>)
    ensures
        sorted_texts(texts(r@)),
        payload_components(observations@).len() == 0 ==> texts(r@) == seq!["runtime"@],
        payload_components(observations@).len() > 0 ==> forall|x: Seq<char>| #[trigger] texts(r@).contains(x) <==> (x.len() > 0
            && exists|i: int| 0 <= i < payload_components(observations@).len()
                && crate::text::trimmed(#[trigger] payload_components(observations@)[i]) == x),
{
    let mut components: Vec<String> = Vec::new();
    let mut i: usize = 0;
    while i < observations.len()
        invariant
            i <= observations@.len(),
            texts(components@) == payload_components(observations@.subrange(0, i as int)),
        decreases observations.len() - i,
    {
        assert(observations@.subrange(0, i + 1).drop_last() =~= observations@.subrange(0, i as int));
        assert(observations@.subrange(0, i + 1).last() == observations@[i as int]);
        match observations[i].payload.get("component") {
            Some(v) => match v.as_str() {
                Some(c) => {
                    let ghost before = texts(components@);
                    components.push(c.clone());
                    assert(texts(components@) =~= before.push(c@));
                },
                None => {},
            },
            None => {},
        }
        i = i + 1;
    }
    assert(observations@.subrange(0, observations@.len() as int) =~= observations@);
    if components.len() == 0 {
        let mut r: Vec<String> = Vec::new();
        r.push("runtime".to_owned());
        assert(texts(r@) =~= seq!["runtime"@]);
        return r;
    }
    let ghost cs = components@;
    let r = clean_strings(components);
    proof {
        assert forall|x: Seq<char>| #[trigger] texts(r@).contains(x) <==> (x.len() > 0
            && exists|i: int| 0 <= i < payload_components(observations@).len()
                && crate::text::trimmed(#[trigger] payload_components(observations@)[i]) == x) by {
            if texts(r@).contains(x) {
                assert(trims_to(cs, x));
                let q = choose|q: int| 0 <= q < cs.len() && crate::text::trimmed((#[trigger] cs[q])@) == x;
                assert(texts(cs)[q] == cs[q]@);
            }
            if x.len() > 0 && exists|i: int| 0 <= i < payload_components(observations@).len()
                && crate::text::trimmed(#[trigger] payload_components(observations@)[i]) == x {
                let q = choose|i: int| 0 <= i < payload_components(observations@).len()
                    && crate::text::trimmed(#[trigger] payload_components(observations@)[i]) == x;
                assert(texts(cs)[q] == cs[q]@);
                assert(trims_to(cs, x));
            }
        }
    }
    r
}

/// A word of quoted text that looks like a credential.
pub open spec fn secret_like(w: Seq<char>) -> bool {
    let l = lowercase_of(w);
    occurs_at(l, "ghp_"@, 0) || occurs_at(l, "sk_"@, 0) || contains_seq(l, "token="@)
        || contains_seq(l, "password="@) || contains_seq(l, "secret="@)
}

/// A word, or `[REDACTED]` when it looks like a credential.
pub open spec fn redacted_word(w: Seq<char>) -> Seq<char> {
    if secret_like(w) { "[REDACTED]"@ } else { w }
}

/// Text with whitespace collapsed to single spaces and credential-like
/// words replaced by `[REDACTED]`.
pub open spec fn sanitize_spec(text: Seq<char>) -> Seq<char> {
    join_seqs(words(text).map_values(|w: Seq<char>| redacted_word(w)), " "@)
}

/// Keeping the non-empty pieces never adds any.
proof fn lemma_nonempty_filter_bound(s: Seq<Seq<char>>)
    ensures
        s.filter(|p: Seq<char>| p.len() > 0).len() <= s.len(),
    decreases s.len(),
{
    reveal(Seq::filter);
    if s.len() > 0 {
        lemma_nonempty_filter_bound(s.drop_last());
    }
}

/// Redacts credential-like words (`ghp_…`, `sk_…`, `token=`, `password=`,
/// `secret=`) and collapses whitespace.
pub fn sanitize_text(text: &str) -> (r: String)
    ensures
        r@ == sanitize_spec(text@),
{
    let chars = chars_of(text);
    let pieces = split_chars(&chars, &Separator::Whitespace);
    assert(pieces@.map_values(|p: Vec<char>| p@) =~= split_pieces(chars@, Separator::Whitespace));
    let ws = leading_nonempty(&pieces, usize::MAX);
    let np = pieces.len();
    let ghost wv = ws@.map_values(|p: Vec<char>| p@);
    proof {
        let f = split_pieces(chars@, Separator::Whitespace).filter(|p: Seq<char>| p.len() > 0);
        lemma_nonempty_filter_bound(split_pieces(chars@, Separator::Whitespace));
        assert(f.len() <= split_pieces(chars@, Separator::Whitespace).len());
        assert(split_pieces(chars@, Separator::Whitespace).len() == pieces@.len());
        assert(f.len() <= usize::MAX);
        assert(chars@ == text@);
        assert(wv == f);
        assert(wv == words(text@));
    }
    let mut out: Vec<Vec<char>> = Vec::new();
    let mut i: usize = 0;
    while i < ws.len()
        invariant
            i <= ws@.len(),
            wv == ws@.map_values(|p: Vec<char>| p@),
            out@.map_values(|p: Vec<char>| p@) == wv.subrange(0, i as int).map_values(|w: Seq<char>| redacted_word(w)),
        decreases ws.len() - i,
    {
        let l = lower_of(&ws[i]);
        let secret = starts_with_str(&l, "ghp_") || starts_with_str(&l, "sk_") || contains_str(&l, "token=")
            || contains_str(&l, "password=") || contains_str(&l, "secret=");
        let ghost before = out@.map_values(|p: Vec<char>| p@);
        if secret {
            out.push(chars_of("[REDACTED]"));
        } else {
            out.push(ws[i].clone());
        }
        assert(out@.map_values(|p: Vec<char>| p@) =~= before.push(redacted_word(wv[i as int])));
        assert(wv.subrange(0, i + 1).map_values(|w: Seq<char>| redacted_word(w))
            =~= wv.subrange(0, i as int).map_values(|w: Seq<char>| redacted_word(w)).push(redacted_word(wv[i as int])));
        i = i + 1;
    }
    assert(wv.subrange(0, ws@.len() as int) =~= wv);
    to_string(&join_chars(&out, " "))
}

/// The two summarized alternatives attached to generated Proposals.
pub fn alternative_summaries() -> (r: Vec<ProposalAlternative>)
    ensures
        r@.len() == 2,
        r@[0].title@ == "Minimal targeted validation"@,
        r@[0].effort == ProposalEffort::Small,
        r@[0].implementation_risk@ == "low"@,
        texts(r@[0].drawbacks@) == seq!["May not prevent equivalent failures in sibling components."@],
        r@[1].title@ == "Shared validation boundary"@,
        r@[1].effort == ProposalEffort::Medium,
        r@[1].implementation_risk@ == "medium"@,
        texts(r@[1].drawbacks@) == seq!["Broader change surface."@, "Higher backward-compatibility risk."@],
{
    let mut r: Vec<ProposalAlternative> = Vec::new();
    r.push(ProposalAlternative {
        title: "Minimal targeted validation".to_owned(),
        expected_benefit: "Addresses the observed failure with the smallest useful scope.".to_owned(),
        effort: ProposalEffort::Small,
        implementation_risk: "low".to_owned(),
        verification_complexity: "focused fixtures and regression checks".to_owned(),
        reversibility: "localized validation can be reverted independently".to_owned(),
        architectural_fit: "extends the existing Runtime boundary".to_owned(),
        evidence_strength: "uses current verified and contradicting evidence".to_owned(),
        drawbacks: owned_strings(vec!["May not prevent equivalent failures in sibling components."]),
    });
    r.push(ProposalAlternative {
        title: "Shared validation boundary".to_owned(),
        expected_benefit: "Reduces recurrence across related components.".to_owned(),
        effort: ProposalEffort::Medium,
        implementation_risk: "medium".to_owned(),
        verification_complexity: "cross-component compatibility and regression checks".to_owned(),
        reversibility: "requires coordinated rollback across consumers".to_owned(),
        architectural_fit: "fits only if existing module boundaries support shared ownership".to_owned(),
        evidence_strength: "same evidence with a broader inferred scope".to_owned(),
        drawbacks: owned_strings(vec!["Broader change surface.", "Higher backward-compatibility risk."]),
    });
    r
}

/// The constraints of every generated Proposal.
pub open spec fn generated_constraints() -> Seq<Seq<char>> {
    seq![
        "Preserve existing Runtime and Capability boundaries."@,
        "Do not mutate source Engineering Objects or external systems."@,
        "Treat suggested modules and resources as expected scope only."@,
    ]
}

/// The test strategy of every generated Proposal.
pub open spec fn generated_test_strategy() -> Seq<Seq<char>> {
    seq![
        "Add a focused failing fixture for the verified condition."@,
        "Add boundary and malformed-input cases."@,
        "Run architecture and prior-release regression suites."@,
    ]
}

/// The implementation outline of a targeted or a shared Proposal.
pub open spec fn generated_outline(targeted: bool) -> Seq<Seq<char>> {
    if targeted {
        seq![
            "Inspect the current affected boundary and confirm the evidence references."@,
            "Add deterministic validation at the narrowest existing Runtime-owned boundary."@,
            "Expose failures through the existing structured error type."@,
            "Add malformed, boundary, and regression fixtures without changing connectors."@,
        ]
    } else {
        seq![
            "Confirm shared ownership and compatibility requirements across affected consumers."@,
            "Introduce one Runtime-owned validation abstraction behind existing interfaces."@,
            "Migrate consumers incrementally without destructive data migration."@,
            "Add cross-consumer compatibility, regression, and rollback coverage."@,
        ]
    }
}

/// The identifiers of hypotheses.
pub open spec fn hypothesis_ids(hs: Seq<Hypothesis>) -> Seq<ObjectId> {
    hs.map_values(|h: Hypothesis| h.id)
}

/// The identifiers of evaluations.
pub open spec fn evaluation_ids(es: Seq<Evaluation>) -> Seq<ObjectId> {
    es.map_values(|e: Evaluation| e.id)
}

/// The identifiers of verification receipts.
pub open spec fn verification_ids(vs: Seq<VerificationReceipt>) -> Seq<ObjectId> {
    vs.map_values(|v: VerificationReceipt| v.id)
}

/// The identifiers of recommendations.
pub open spec fn recommendation_ids(rs: Seq<Recommendation>) -> Seq<ObjectId> {
    rs.map_values(|r: Recommendation| r.id)
}

/// Fills in the generated content of a targeted (or shared) Proposal: its
/// alternative group, evidence, source identifiers, constraints, risk,
/// outline, tests, verification plan, success criteria, reversibility,
/// effort and derivation method.
pub fn populate_generated(
    proposal: &mut ImprovementProposal,
    group_id: ObjectId,
    priority_explanation: String,
    components: Vec<String>,
    supporting_evidence: Vec<EvidenceReference>,
    contradicting_evidence: Vec<EvidenceReference>,
    generation_inputs: Vec<EvidenceReference>,
    hypotheses: &Vec<Hypothesis>,
    evaluations: &Vec<Evaluation>,
    verifications: &Vec<VerificationReceipt>,
    recommendations: &Vec<Recommendation>,
    related_investigation_ids: Vec<InvestigationId>,
    assumptions: &Vec<String>,
    alternatives: Vec<ProposalAlternative>,
    effort: ProposalEffort,
    derivation_method: &str,
    targeted: bool,
)
    ensures
        final(proposal).id == old(proposal).id,
        final(proposal).investigation_id == old(proposal).investigation_id,
        final(proposal).lineage_id == old(proposal).lineage_id,
        final(proposal).revision_number == old(proposal).revision_number,
        final(proposal).title == old(proposal).title,
        final(proposal).summary == old(proposal).summary,
        final(proposal).rationale == old(proposal).rationale,
        final(proposal).category == old(proposal).category,
        final(proposal).confidence == old(proposal).confidence,
        final(proposal).status == old(proposal).status,
        final(proposal).generation_method == old(proposal).generation_method,
        final(proposal).provenance == old(proposal).provenance,
        final(proposal).created_at == old(proposal).created_at,
        final(proposal).priority == old(proposal).priority,
        final(proposal).alternative_group_id == Some(group_id),
        final(proposal).priority_explanation == priority_explanation,
        final(proposal).expected_impact@ == if targeted {
            "Prevent the observed invalid input from crossing the affected Runtime boundary."@
        } else {
            "Reduce recurrence across consumers of a shared validation boundary."@
        },
        final(proposal).affected_components == components,
        final(proposal).supporting_evidence == supporting_evidence,
        final(proposal).contradicting_evidence == contradicting_evidence,
        final(proposal).generation_inputs == generation_inputs,
        final(proposal).hypothesis_ids@ == hypothesis_ids(hypotheses@),
        final(proposal).evaluation_ids@ == evaluation_ids(evaluations@),
        final(proposal).verification_ids@ == verification_ids(verifications@),
        final(proposal).source_recommendation_ids@ == recommendation_ids(recommendations@),
        final(proposal).related_investigation_ids == related_investigation_ids,
        texts(final(proposal).assumptions@) == texts(assumptions@),
        texts(final(proposal).constraints@) == generated_constraints(),
        final(proposal).risks@.len() == 1,
        final(proposal).risks@[0].severity == if targeted { Severity::Low } else { Severity::Medium },
        final(proposal).alternatives == alternatives,
        texts(final(proposal).implementation_outline@) == generated_outline(targeted),
        texts(final(proposal).test_strategy@) == generated_test_strategy(),
        texts(final(proposal).verification_plan.tests@) == generated_test_strategy(),
        texts(final(proposal).verification_plan.success_criteria@)
            == seq!["Invalid input is rejected deterministically without external mutation."@],
        texts(final(proposal).success_criteria@)
            == seq!["Invalid input is rejected deterministically without external mutation."@],
        final(proposal).reversibility@ == if targeted {
            "Localized and independently reversible; verify old behavior restoration in isolation."@
        } else {
            "Requires coordinated consumer rollback; preserve the prior boundary until verification completes."@
        },
        final(proposal).estimated_effort == effort,
        final(proposal).derivation_method@ == derivation_method@,
{
    proposal.alternative_group_id = Some(group_id);
    proposal.priority_explanation = priority_explanation;
    proposal.expected_impact = if targeted {
        "Prevent the observed invalid input from crossing the affected Runtime boundary.".to_owned()
    } else {
        "Reduce recurrence across consumers of a shared validation boundary.".to_owned()
    };
    proposal.affected_components = components;
    proposal.supporting_evidence = supporting_evidence;
    proposal.contradicting_evidence = contradicting_evidence;
    proposal.generation_inputs = generation_inputs;
    let mut hids: Vec<ObjectId> = Vec::new();
    let mut i: usize = 0;
    while i < hypotheses.len()
        invariant
            i <= hypotheses@.len(),
            hids@ == hypothesis_ids(hypotheses@.subrange(0, i as int)),
        decreases hypotheses.len() - i,
    {
        hids.push(hypotheses[i].id);
        i = i + 1;
        assert(hids@ =~= hypothesis_ids(hypotheses@.subrange(0, i as int)));
    }
    assert(hypotheses@.subrange(0, hypotheses@.len() as int) =~= hypotheses@);
    proposal.hypothesis_ids = hids;
    let mut eids: Vec<ObjectId> = Vec::new();
    let mut j: usize = 0;
    while j < evaluations.len()
        invariant
            j <= evaluations@.len(),
            eids@ == evaluation_ids(evaluations@.subrange(0, j as int)),
        decreases evaluations.len() - j,
    {
        eids.push(evaluations[j].id);
        j = j + 1;
        assert(eids@ =~= evaluation_ids(evaluations@.subrange(0, j as int)));
    }
    assert(evaluations@.subrange(0, evaluations@.len() as int) =~= evaluations@);
    proposal.evaluation_ids = eids;
    let mut vids: Vec<ObjectId> = Vec::new();
    let mut k: usize = 0;
    while k < verifications.len()
        invariant
            k <= verifications@.len(),
            vids@ == verification_ids(verifications@.subrange(0, k as int)),
        decreases verifications.len() - k,
    {
        vids.push(verifications[k].id);
        k = k + 1;
        assert(vids@ =~= verification_ids(verifications@.subrange(0, k as int)));
    }
    assert(verifications@.subrange(0, verifications@.len() as int) =~= verifications@);
    proposal.verification_ids = vids;
    let mut rids: Vec<ObjectId> = Vec::new();
    let mut m: usize = 0;
    while m < recommendations.len()
        invariant
            m <= recommendations@.len(),
            rids@ == recommendation_ids(recommendations@.subrange(0, m as int)),
        decreases recommendations.len() - m,
    {
        rids.push(recommendations[m].id);
        m = m + 1;
        assert(rids@ =~= recommendation_ids(recommendations@.subrange(0, m as int)));
    }
    assert(recommendations@.subrange(0, recommendations@.len() as int) =~= recommendations@);
    proposal.source_recommendation_ids = rids;
    proposal.related_investigation_ids = related_investigation_ids;
    let mut copied: Vec<String> = Vec::new();
    let mut q: usize = 0;
    while q < assumptions.len()
        invariant
            q <= assumptions@.len(),
            copied@.len() == q,
            forall|t: int| 0 <= t < q ==> #[trigger] copied@[t]@ == assumptions@[t]@,
        decreases assumptions.len() - q,
    {
        copied.push(assumptions[q].clone());
        q = q + 1;
    }
    assert(texts(copied@) =~= texts(assumptions@));
    proposal.assumptions = copied;
    proposal.constraints = owned_strings(vec![
        "Preserve existing Runtime and Capability boundaries.",
        "Do not mutate source Engineering Objects or external systems.",
        "Treat suggested modules and resources as expected scope only.",
    ]);
    let mut risks: Vec<ProposalRisk> = Vec::new();
    risks.push(ProposalRisk {
        description: if targeted {
            "A narrow fix may leave equivalent sibling paths uncovered.".to_owned()
        } else {
            "A shared abstraction may expand compatibility and migration risk.".to_owned()
        },
        severity: if targeted { Severity::Low } else { Severity::Medium },
        mitigation: "Add focused boundary, compatibility, and regression verification.".to_owned(),
    });
    proposal.risks = risks;
    proposal.alternatives = alternatives;
    proposal.implementation_outline = if targeted {
        owned_strings(vec![
            "Inspect the current affected boundary and confirm the evidence references.",
            "Add deterministic validation at the narrowest existing Runtime-owned boundary.",
            "Expose failures through the existing structured error type.",
            "Add malformed, boundary, and regression fixtures without changing connectors.",
        ])
    } else {
        owned_strings(vec![
            "Confirm shared ownership and compatibility requirements across affected consumers.",
            "Introduce one Runtime-owned validation abstraction behind existing interfaces.",
            "Migrate consumers incrementally without destructive data migration.",
            "Add cross-consumer compatibility, regression, and rollback coverage.",
        ])
    };
    let tests = vec![
        "Add a focused failing fixture for the verified condition.",
        "Add boundary and malformed-input cases.",
        "Run architecture and prior-release regression suites.",
    ];
    proposal.test_strategy = owned_strings(tests.clone());
    proposal.verification_plan = ProposalVerificationPlan {
        claims: owned_strings(vec!["The proposed validation prevents the observed failure condition."]),
        preconditions: owned_strings(vec!["Inspect current code and confirm the proposed boundary still exists."]),
        tests: owned_strings(tests),
        checks: owned_strings(vec![
            "Run formatting, denied-warning lint, full tests, and release build.",
            "Check backward compatibility and architecture boundaries.",
        ]),
        manual_workflows: owned_strings(vec!["Repeat the isolated failing workflow with valid and invalid fixtures."]),
        expected_evidence: owned_strings(vec!["A failing test before implementation and passing evidence afterward."]),
        success_criteria: owned_strings(vec!["Invalid input is rejected deterministically without external mutation."]),
        failure_criteria: owned_strings(vec!["Invalid input still crosses the boundary or valid input regresses."]),
        inconclusive_conditions: owned_strings(vec!["The original failure cannot be reproduced from current evidence."]),
        recovery_checks: owned_strings(vec!["Confirm the change can be reverted without data loss."]),
    };
    proposal.success_criteria = owned_strings(vec!["Invalid input is rejected deterministically without external mutation."]);
    proposal.reversibility = if targeted {
        "Localized and independently reversible; verify old behavior restoration in isolation.".to_owned()
    } else {
        "Requires coordinated consumer rollback; preserve the prior boundary until verification completes.".to_owned()
    };
    proposal.estimated_effort = effort;
    proposal.derivation_method = derivation_method.to_owned();
}

/// One weighted, explained comparison factor (weight and contribution in
/// thousandths).
pub struct ProposalComparisonFactor {
    pub name: String,
    pub weight: u32,
    pub contribution: u32,
    pub explanation: String,
}

/// A factor as (name, weight, contribution, explanation).
pub open spec fn factor_view(f: ProposalComparisonFactor) -> (Seq<char>, u32, u32, Seq<char>) {
    (f.name@, f.weight, f.contribution, f.explanation@)
}

/// Evidence strength (thousandths): an eighth per supporting reference,
/// between a tenth and one.
pub open spec fn evidence_raw(n: nat) -> nat {
    if n * 125 < 100 { 100 } else if n * 125 > 1000 { 1000 } else { n * 125 }
}

/// Contradiction level (thousandths): `1 / (1 + m)`, rounded up, so that it
/// stays positive however many contradictions there are.
pub open spec fn contradiction_raw(m: nat) -> nat {
    (1000nat + m) / (1 + m)
}

/// Expected impact (thousandths) of a priority.
pub open spec fn impact_raw(p: ProposalPriority) -> nat {
    match p {
        ProposalPriority::Critical => 1000,
        ProposalPriority::High => 850,
        ProposalPriority::Medium => 650,
        ProposalPriority::Low => 400,
        ProposalPriority::Exploratory => 250,
    }
}

/// Ease (thousandths) of an effort category.
pub open spec fn effort_raw(e: ProposalEffort) -> nat {
    match e {
        ProposalEffort::Small => 1000,
        ProposalEffort::Medium => 650,
        ProposalEffort::Large => 350,
    }
}

/// Reversibility (thousandths) of an effort category.
pub open spec fn reversibility_raw(e: ProposalEffort) -> nat {
    match e {
        ProposalEffort::Small => 900,
        ProposalEffort::Medium => 650,
        ProposalEffort::Large => 350,
    }
}

/// Some constraint keeps the Runtime and Capability boundary.
pub open spec fn keeps_boundary(constraints: Seq<String>) -> bool {
    exists|i: int| 0 <= i < constraints.len() && contains_seq((#[trigger] constraints[i])@, "Runtime and Capability"@)
}

/// Some generation input is historical.
pub open spec fn has_historical(inputs: Seq<EvidenceReference>) -> bool {
    exists|i: int| 0 <= i < inputs.len() && (#[trigger] inputs[i]).scope == EvidenceScope::Historical
}

/// `weight * raw / 1000`, rounded up to the next thousandth: a positive
/// factor never contributes nothing.
pub open spec fn contribution(weight: nat, raw: nat) -> nat {
    (weight * raw + 999) / 1000
}

/// A positive raw value of at most one gives a positive contribution of at
/// most the weight.
pub proof fn lemma_contribution_bounds(weight: nat, raw: nat)
    requires
        1 <= weight <= 1000,
        1 <= raw <= 1000,
    ensures
        1 <= contribution(weight, raw) <= weight,
{
    assert(1 <= weight * raw <= weight * 1000) by (nonlinear_arith)
        requires 1 <= weight <= 1000, 1 <= raw <= 1000;
    assert((weight * raw + 999) / 1000 <= weight) by (nonlinear_arith)
        requires weight * raw <= weight * 1000;
}

/// The eight comparison factors of a Proposal.
pub open spec fn comparison_spec(p: ImprovementProposal) -> Seq<(Seq<char>, u32, u32, Seq<char>)> {
    let n = p.supporting_evidence@.len();
    let m = p.contradicting_evidence@.len();
    let arch: nat = if keeps_boundary(p.constraints@) { 900 } else { 500 };
    let ver: nat = if p.verification_plan.tests@.len() == 0 { 200 } else { 900 };
    let hist: nat = if has_historical(p.generation_inputs@) { 700 } else { 500 };
    seq![
        ("evidence_strength"@, 200u32, contribution(200, evidence_raw(n)) as u32, decimal(n) + " supporting reference(s)."@),
        ("contradiction_level"@, 120u32, contribution(120, contradiction_raw(m)) as u32, decimal(m) + " contradiction(s) remain visible."@),
        ("expected_impact"@, 150u32, contribution(150, impact_raw(p.priority)) as u32, p.priority_explanation@),
        ("implementation_effort"@, 150u32, contribution(150, effort_raw(p.estimated_effort)) as u32,
            "Effort category is "@ + p.estimated_effort.text() + "."@),
        ("architectural_fit"@, 100u32, contribution(100, arch) as u32, "Preserves the declared Runtime and Capability boundary."@),
        ("reversibility"@, 100u32, contribution(100, reversibility_raw(p.estimated_effort)) as u32, p.reversibility@),
        ("verification_feasibility"@, 100u32, contribution(100, ver) as u32,
            decimal(p.verification_plan.tests@.len()) + " proposed verification test(s)."@),
        ("historical_context"@, 80u32, contribution(80, hist) as u32, "Historical inputs are labeled and never treated as current proof."@),
    ]
}

/// Every comparison factor contributes something, and at most its weight;
/// the weights sum to one.
pub proof fn lemma_comparison_factors_bounded(p: ImprovementProposal)
    ensures
        comparison_spec(p).len() == 8,
        forall|i: int| 0 <= i < 8 ==> 0 < (#[trigger] comparison_spec(p)[i]).2 <= comparison_spec(p)[i].1,
        comparison_spec(p)[0].1 + comparison_spec(p)[1].1 + comparison_spec(p)[2].1 + comparison_spec(p)[3].1
            + comparison_spec(p)[4].1 + comparison_spec(p)[5].1 + comparison_spec(p)[6].1 + comparison_spec(p)[7].1 == 1000,
{
    let n = p.supporting_evidence@.len();
    let m = p.contradicting_evidence@.len();
    assert(1 <= (1000nat + m) / (1 + m) <= 1000) by (nonlinear_arith) requires m >= 0;
    let arch: nat = if keeps_boundary(p.constraints@) { 900 } else { 500 };
    let ver: nat = if p.verification_plan.tests@.len() == 0 { 200 } else { 900 };
    let hist: nat = if has_historical(p.generation_inputs@) { 700 } else { 500 };
    lemma_contribution_bounds(200, evidence_raw(n));
    lemma_contribution_bounds(120, contradiction_raw(m));
    lemma_contribution_bounds(150, impact_raw(p.priority));
    lemma_contribution_bounds(150, effort_raw(p.estimated_effort));
    lemma_contribution_bounds(100, arch);
    lemma_contribution_bounds(100, reversibility_raw(p.estimated_effort));
    lemma_contribution_bounds(100, ver);
    lemma_contribution_bounds(80, hist);
}

/// One factor.
fn factor(name: &str, weight: u32, raw: u32, explanation: String) -> (f: ProposalComparisonFactor)
    requires
        weight <= 1000,
        raw <= 1000,
    ensures
        factor_view(f) == (name@, weight, contribution(weight as nat, raw as nat) as u32, explanation@),
{
    assert((weight as int) * (raw as int) <= 1000000) by (nonlinear_arith)
        requires weight <= 1000, raw <= 1000;
    let prod: u64 = (weight as u64) * (raw as u64);
    let c: u32 = ((prod + 999) / 1000) as u32;
    ProposalComparisonFactor { name: name.to_owned(), weight, contribution: c, explanation }
}

/// `n` followed by `suffix`.
fn counted_text(n: usize, suffix: &str) -> (s: String)
    ensures
        s@ == decimal(n as nat) + suffix@,
{
    let mut out: Vec<char> = Vec::new();
    push_decimal(&mut out, n as u128);
    push_str(&mut out, suffix);
    to_string(&out)
}

/// The inspectable factors a Proposal is compared by: evidence,
/// contradiction, impact, effort, architecture, reversibility, verification
/// and history, each weighted.
pub fn comparison_factors(proposal: &ImprovementProposal) -> (r: Vec<ProposalComparisonFactor>)
    ensures
        r@.map_values(|f: ProposalComparisonFactor| factor_view(f)) == comparison_spec(*proposal),
        r@.len() == 8,
        forall|i: int| 0 <= i < r@.len() ==> 0 < (#[trigger] r@[i]).contribution <= r@[i].weight,
{
    let n = proposal.supporting_evidence.len();
    let m = proposal.contradicting_evidence.len();
    let evidence: u32 = if n >= 8 { 1000 } else if n == 0 { 100 } else { (n as u32) * 125 };
    let contradiction: u32 = ((1000u128 + m as u128) / (1 + m as u128)) as u32;
    proof {
        assert(1 <= (1000int + m as int) / (1 + m as int) <= 1000) by (nonlinear_arith) requires m >= 0;
    }
    let impact: u32 = match proposal.priority {
        ProposalPriority::Critical => 1000,
        ProposalPriority::High => 850,
        ProposalPriority::Medium => 650,
        ProposalPriority::Low => 400,
        ProposalPriority::Exploratory => 250,
    };
    let (effort, reversibility): (u32, u32) = match proposal.estimated_effort {
        ProposalEffort::Small => (1000, 900),
        ProposalEffort::Medium => (650, 650),
        ProposalEffort::Large => (350, 350),
    };
    let mut boundary = false;
    let mut i: usize = 0;
    while i < proposal.constraints.len()
        invariant
            i <= proposal.constraints@.len(),
            boundary == exists|q: int| 0 <= q < i && contains_seq((#[trigger] proposal.constraints@[q])@, "Runtime and Capability"@),
        decreases proposal.constraints.len() - i,
    {
        let c = chars_of(proposal.constraints[i].as_str());
        if contains_str(&c, "Runtime and Capability") {
            boundary = true;
        }
        i = i + 1;
    }
    let architecture: u32 = if boundary { 900 } else { 500 };
    let verification: u32 = if proposal.verification_plan.tests.len() == 0 { 200 } else { 900 };
    let mut historical = false;
    let mut j: usize = 0;
    while j < proposal.generation_inputs.len()
        invariant
            j <= proposal.generation_inputs@.len(),
            historical == exists|q: int| 0 <= q < j && (#[trigger] proposal.generation_inputs@[q]).scope == EvidenceScope::Historical,
        decreases proposal.generation_inputs.len() - j,
    {
        if proposal.generation_inputs[j].scope == EvidenceScope::Historical {
            historical = true;
        }
        j = j + 1;
    }
    let hist: u32 = if historical { 700 } else { 500 };
    let mut effort_text: Vec<char> = Vec::new();
    push_str(&mut effort_text, "Effort category is ");
    push_str(&mut effort_text, proposal.estimated_effort.as_str());
    push_str(&mut effort_text, ".");
    let mut r: Vec<ProposalComparisonFactor> = Vec::new();
    r.push(factor("evidence_strength", 200, evidence, counted_text(n, " supporting reference(s).")));
    r.push(factor("contradiction_level", 120, contradiction, counted_text(m, " contradiction(s) remain visible.")));
    r.push(factor("expected_impact", 150, impact, proposal.priority_explanation.clone()));
    r.push(factor("implementation_effort", 150, effort, to_string(&effort_text)));
    r.push(factor("architectural_fit", 100, architecture, "Preserves the declared Runtime and Capability boundary.".to_owned()));
    r.push(factor("reversibility", 100, reversibility, proposal.reversibility.clone()));
    r.push(factor("verification_feasibility", 100, verification,
        counted_text(proposal.verification_plan.tests.len(), " proposed verification test(s).")));
    r.push(factor("historical_context", 80, hist, "Historical inputs are labeled and never treated as current proof.".to_owned()));
    assert(r@.map_values(|f: ProposalComparisonFactor| factor_view(f)) =~= comparison_spec(*proposal));
    proof {
        lemma_comparison_factors_bounded(*proposal);
        assert forall|i: int| 0 <= i < r@.len() implies 0 < (#[trigger] r@[i]).contribution <= r@[i].weight by {
            assert(factor_view(r@[i]) == comparison_spec(*proposal)[i]);
        }
    }
    r
}

/// A thousandths value printed with three decimals (`{:.3}`).
pub open spec fn fixed3(v: nat) -> Seq<char> {
    decimal(v / 1000) + seq!['.', crate::text::digit_chars()[((v % 1000) / 100) as int],
        crate::text::digit_chars()[((v % 100) / 10) as int], crate::text::digit_chars()[(v % 10) as int]]
}

/// Appends a thousandths value with three decimals.
fn push_fixed3(out: &mut Vec<char>, v: u32)
    ensures
        final(out)@ == old(out)@ + fixed3(v as nat),
{
    push_decimal(out, (v / 1000) as u128);
    out.push('.');
    out.push(crate::text::digit_char_pub(((v % 1000) / 100) as u64));
    out.push(crate::text::digit_char_pub(((v % 100) / 10) as u64));
    out.push(crate::text::digit_char_pub((v % 10) as u64));
    assert(final(out)@ =~= old(out)@ + fixed3(v as nat));
}

/// Sum of the contributions.
pub open spec fn contribution_sum(fs: Seq<(Seq<char>, u32, u32, Seq<char>)>) -> nat
    decreases fs.len(),
{
    if fs.len() == 0 { 0 } else { contribution_sum(fs.drop_last()) + (fs.last().2 as nat) }
}

/// `name=contribution` pairs joined with `"; "`.
pub open spec fn factor_details(fs: Seq<(Seq<char>, u32, u32, Seq<char>)>) -> Seq<char>
    decreases fs.len(),
{
    if fs.len() == 0 {
        Seq::empty()
    } else if fs.len() == 1 {
        fs[0].0 + "="@ + fixed3(fs[0].2 as nat)
    } else {
        factor_details(fs.drop_last()) + "; "@ + fs.last().0 + "="@ + fixed3(fs.last().2 as nat)
    }
}

/// A Proposal's comparison score (thousandths).
pub open spec fn proposal_score(p: ImprovementProposal) -> nat {
    contribution_sum(comparison_spec(p))
}

/// The explanation of a ranked Proposal.
pub open spec fn ranking_explanation(p: ImprovementProposal) -> Seq<char> {
    "Score "@ + fixed3(proposal_score(p)) + " from inspectable factors: "@ + factor_details(comparison_spec(p))
        + ". This ranking is guidance, not an implementation decision."@
}

/// One ranked Proposal.
pub struct RankedProposal {
    pub proposal_id: ObjectId,
    /// 1 for the best.
    pub rank: u32,
    /// Score in thousandths.
    pub score: u32,
    pub factors: Vec<ProposalComparisonFactor>,
    pub explanation: String,
}

/// Ranks before: higher score, then lower identifier.
pub open spec fn ranked_before(a: (nat, u128), b: (nat, u128)) -> bool {
    a.0 > b.0 || (a.0 == b.0 && a.1 < b.1)
}

/// Every contribution is at most one.
pub proof fn lemma_comparison_bounds(p: ImprovementProposal)
    ensures
        comparison_spec(p).len() == 8,
        forall|q: int| 0 <= q < 8 ==> #[trigger] comparison_spec(p)[q].2 <= 1000,
{
    lemma_comparison_factors_bounded(p);
    assert forall|q: int| 0 <= q < 8 implies #[trigger] comparison_spec(p)[q].2 <= 1000 by {
        assert(comparison_spec(p)[q].2 <= comparison_spec(p)[q].1);
    }
}

/// Scores the factors of a Proposal and explains the score.
#[verifier::rlimit(40)]
fn score_proposal(p: &ImprovementProposal) -> (r: (u32, Vec<ProposalComparisonFactor>, String))
    ensures
        r.0 as nat == proposal_score(*p),
        r.1@.map_values(|f: ProposalComparisonFactor| factor_view(f)) == comparison_spec(*p),
        r.2@ == ranking_explanation(*p),
{
    let factors = comparison_factors(p);
    let ghost views = factors@.map_values(|f: ProposalComparisonFactor| factor_view(f));
    proof {
        lemma_comparison_bounds(*p);
    }
    let mut sum: u32 = 0;
    let mut details: Vec<char> = Vec::new();
    let mut i: usize = 0;
    while i < factors.len()
        invariant
            i <= factors@.len(),
            factors@.len() == 8,
            views == factors@.map_values(|f: ProposalComparisonFactor| factor_view(f)),
            views == comparison_spec(*p),
            sum as nat == contribution_sum(views.subrange(0, i as int)),
            sum <= 1000 * i,
            forall|q: int| 0 <= q < 8 ==> #[trigger] views[q].2 <= 1000,
            views.len() == 8,
            details@ == factor_details(views.subrange(0, i as int)),
        decreases factors.len() - i,
    {
        proof {
            let sub = views.subrange(0, i + 1);
            assert(sub.drop_last() =~= views.subrange(0, i as int));
            assert(sub.last() == views[i as int]);
            assert(views[i as int] == factor_view(factors@[i as int]));
        }
        if i > 0 {
            push_str(&mut details, "; ");
        }
        push_str(&mut details, factors[i].name.as_str());
        push_str(&mut details, "=");
        push_fixed3(&mut details, factors[i].contribution);
        assert(factors@[i as int].contribution == views[i as int].2);
        assert(sum <= 8000);
        sum = sum + factors[i].contribution;
        proof {
            let sub = views.subrange(0, i + 1);
            if i == 0 {
                assert(factor_details(sub) == sub[0].0 + "="@ + fixed3(sub[0].2 as nat));
            }
        }
        i = i + 1;
        assert(details@ =~= factor_details(views.subrange(0, i as int)));
    }
    assert(views.subrange(0, 8) =~= views);
    let mut out: Vec<char> = Vec::new();
    push_str(&mut out, "Score ");
    push_fixed3(&mut out, sum);
    push_str(&mut out, " from inspectable factors: ");
    crate::text::push_chars(&mut out, &details);
    push_str(&mut out, ". This ranking is guidance, not an implementation decision.");
    (sum, factors, to_string(&out))
}

/// `a` is a smaller effort than `b` (small, then medium, then large).
pub open spec fn smaller_effort(a: ProposalEffort, b: ProposalEffort) -> bool {
    (a == ProposalEffort::Small && b != ProposalEffort::Small) || (a == ProposalEffort::Medium && b == ProposalEffort::Large)
}

/// A score is the sum of the eight contributions.
proof fn lemma_score_parts(p: ImprovementProposal)
    ensures
        proposal_score(p) == comparison_spec(p)[0].2 as nat + comparison_spec(p)[1].2 as nat + comparison_spec(p)[2].2 as nat
            + comparison_spec(p)[3].2 as nat + comparison_spec(p)[4].2 as nat + comparison_spec(p)[5].2 as nat
            + comparison_spec(p)[6].2 as nat + comparison_spec(p)[7].2 as nat,
{
    let fs = comparison_spec(p);
    reveal_with_fuel(contribution_sum, 9);
    assert(fs.drop_last().drop_last().drop_last().drop_last().drop_last().drop_last().drop_last().drop_last().len() == 0);
}

/// Smaller effort ranks higher: of two Proposals alike in evidence,
/// contradictions, priority, constraints, verification tests and
/// generation inputs, the one with the smaller estimated effort gets the
/// larger implementation-effort contribution and reversibility, so the
/// higher score, and ranks first.
pub proof fn lemma_smaller_effort_ranks_first(p: ImprovementProposal, q: ImprovementProposal)
    requires
        smaller_effort(p.estimated_effort, q.estimated_effort),
        p.supporting_evidence@.len() == q.supporting_evidence@.len(),
        p.contradicting_evidence@.len() == q.contradicting_evidence@.len(),
        p.priority == q.priority,
        p.constraints@ == q.constraints@,
        p.verification_plan.tests@.len() == q.verification_plan.tests@.len(),
        p.generation_inputs@ == q.generation_inputs@,
    ensures
        comparison_spec(p)[3].0 == "implementation_effort"@,
        comparison_spec(p)[3].2 > comparison_spec(q)[3].2,
        comparison_spec(p)[5].2 > comparison_spec(q)[5].2,
        proposal_score(p) > proposal_score(q),
        ranked_before((proposal_score(p), p.id.value), (proposal_score(q), q.id.value)),
{
    lemma_score_parts(p);
    lemma_score_parts(q);
    lemma_comparison_factors_bounded(p);
    lemma_comparison_factors_bounded(q);
    assert(contribution(150, 1000) == 150);
    assert(contribution(150, 650) == 98);
    assert(contribution(150, 350) == 53);
    assert(contribution(100, 900) == 90);
    assert(contribution(100, 650) == 65);
    assert(contribution(100, 350) == 35);
    assert(comparison_spec(p)[0].2 == comparison_spec(q)[0].2);
    assert(comparison_spec(p)[1].2 == comparison_spec(q)[1].2);
    assert(comparison_spec(p)[2].2 == comparison_spec(q)[2].2);
    assert(comparison_spec(p)[4].2 == comparison_spec(q)[4].2);
    assert(comparison_spec(p)[6].2 == comparison_spec(q)[6].2);
    assert(comparison_spec(p)[7].2 == comparison_spec(q)[7].2);
}

/// How urgent a priority is: exploratory lowest, critical highest.
pub open spec fn priority_level(p: ProposalPriority) -> int {
    match p {
        ProposalPriority::Exploratory => 0,
        ProposalPriority::Low => 1,
        ProposalPriority::Medium => 2,
        ProposalPriority::High => 3,
        ProposalPriority::Critical => 4,
    }
}

/// Higher priority ranks higher: of two Proposals alike in evidence,
/// contradictions, effort, constraints, verification tests and generation
/// inputs, the one with the higher priority gets the larger expected-impact
/// contribution, the higher score, and ranks first.
pub proof fn lemma_higher_priority_ranks_first(p: ImprovementProposal, q: ImprovementProposal)
    requires
        priority_level(p.priority) > priority_level(q.priority),
        p.supporting_evidence@.len() == q.supporting_evidence@.len(),
        p.contradicting_evidence@.len() == q.contradicting_evidence@.len(),
        p.estimated_effort == q.estimated_effort,
        p.constraints@ == q.constraints@,
        p.verification_plan.tests@.len() == q.verification_plan.tests@.len(),
        p.generation_inputs@ == q.generation_inputs@,
    ensures
        comparison_spec(p)[2].0 == "expected_impact"@,
        comparison_spec(p)[2].2 > comparison_spec(q)[2].2,
        proposal_score(p) > proposal_score(q),
        ranked_before((proposal_score(p), p.id.value), (proposal_score(q), q.id.value)),
{
    lemma_score_parts(p);
    lemma_score_parts(q);
    lemma_comparison_factors_bounded(p);
    lemma_comparison_factors_bounded(q);
    assert(contribution(150, 1000) == 150);
    assert(contribution(150, 850) == 128);
    assert(contribution(150, 650) == 98);
    assert(contribution(150, 400) == 60);
    assert(contribution(150, 250) == 38);
    assert(comparison_spec(p)[0].2 == comparison_spec(q)[0].2);
    assert(comparison_spec(p)[1].2 == comparison_spec(q)[1].2);
    assert(comparison_spec(p)[3].2 == comparison_spec(q)[3].2);
    assert(comparison_spec(p)[4].2 == comparison_spec(q)[4].2);
    assert(comparison_spec(p)[5].2 == comparison_spec(q)[5].2);
    assert(comparison_spec(p)[6].2 == comparison_spec(q)[6].2);
    assert(comparison_spec(p)[7].2 == comparison_spec(q)[7].2);
}

/// A weighted contribution grows with its raw value.
proof fn lemma_contribution_monotone(weight: nat, r1: nat, r2: nat)
    requires
        r1 <= r2,
    ensures
        contribution(weight, r1) <= contribution(weight, r2),
{
    assert(weight * r1 <= weight * r2) by (nonlinear_arith) requires r1 <= r2;
    assert((weight * r1 + 999) / 1000 <= (weight * r2 + 999) / 1000) by (nonlinear_arith)
        requires weight * r1 <= weight * r2;
}

/// Evidence helps and contradictions hurt: of two Proposals alike in
/// priority, effort, constraints, verification tests and generation inputs,
/// one with at least as much supporting evidence and at most as many
/// contradictions scores at least as high; with more supporting evidence
/// (below eight references) and no more contradictions, strictly higher.
pub proof fn lemma_evidence_and_contradictions_order(p: ImprovementProposal, q: ImprovementProposal)
    requires
        p.supporting_evidence@.len() >= q.supporting_evidence@.len(),
        p.contradicting_evidence@.len() <= q.contradicting_evidence@.len(),
        p.priority == q.priority,
        p.estimated_effort == q.estimated_effort,
        p.constraints@ == q.constraints@,
        p.verification_plan.tests@.len() == q.verification_plan.tests@.len(),
        p.generation_inputs@ == q.generation_inputs@,
    ensures
        comparison_spec(p)[0].2 >= comparison_spec(q)[0].2,
        comparison_spec(p)[1].2 >= comparison_spec(q)[1].2,
        proposal_score(p) >= proposal_score(q),
        1 <= q.supporting_evidence@.len() < p.supporting_evidence@.len() <= 8 ==> proposal_score(p) > proposal_score(q),
{
    let np = p.supporting_evidence@.len();
    let nq = q.supporting_evidence@.len();
    let mp = p.contradicting_evidence@.len();
    let mq = q.contradicting_evidence@.len();
    lemma_score_parts(p);
    lemma_score_parts(q);
    lemma_comparison_factors_bounded(p);
    lemma_comparison_factors_bounded(q);
    assert(evidence_raw(np) >= evidence_raw(nq)) by (nonlinear_arith) requires np >= nq;
    lemma_contribution_monotone(200, evidence_raw(nq), evidence_raw(np));
    assert(contradiction_raw(mp) >= contradiction_raw(mq) && 1 <= contradiction_raw(mp) <= 1000
        && 1 <= contradiction_raw(mq) <= 1000) by {
        let a: int = (1 + mp) as int;
        let b: int = (1 + mq) as int;
        vstd::arithmetic::div_mod::lemma_div_is_ordered_by_denominator(999, a, b);
        vstd::arithmetic::div_mod::lemma_div_plus_one(999, a);
        vstd::arithmetic::div_mod::lemma_div_plus_one(999, b);
        assert(contradiction_raw(mp) == (a + 999) / a);
        assert(contradiction_raw(mq) == (b + 999) / b);
        vstd::arithmetic::div_mod::lemma_div_is_ordered_by_denominator(999, 1, a);
        vstd::arithmetic::div_mod::lemma_div_is_ordered_by_denominator(999, 1, b);
        vstd::arithmetic::div_mod::lemma_div_pos_is_pos(999, a);
        vstd::arithmetic::div_mod::lemma_div_pos_is_pos(999, b);
        assert(999int / 1 == 999);
    }
    lemma_contribution_bounds(120, contradiction_raw(mp));
    lemma_contribution_bounds(120, contradiction_raw(mq));
    lemma_contribution_monotone(120, contradiction_raw(mq), contradiction_raw(mp));
    if 1 <= nq < np <= 8 {
        assert(evidence_raw(np) == np * 125);
        assert(evidence_raw(nq) == nq * 125);
        assert(contribution(200, np * 125) > contribution(200, nq * 125)) by (nonlinear_arith)
            requires 1 <= nq < np <= 8;
    }
    assert(comparison_spec(p)[2].2 == comparison_spec(q)[2].2);
    assert(comparison_spec(p)[3].2 == comparison_spec(q)[3].2);
    assert(comparison_spec(p)[4].2 == comparison_spec(q)[4].2);
    assert(comparison_spec(p)[5].2 == comparison_spec(q)[5].2);
    assert(comparison_spec(p)[6].2 == comparison_spec(q)[6].2);
    assert(comparison_spec(p)[7].2 == comparison_spec(q)[7].2);
}

/// A ranking comes best first: in a list where no entry ranks before an
/// earlier one, scores never rise, and equal scores list smaller
/// identifiers first.
pub proof fn lemma_ranking_best_first(r: Seq<RankedProposal>)
    requires
        forall|i: int, j: int| 0 <= i < j < r.len() ==> ranked_before(
            ((#[trigger] r[i]).score as nat, r[i].proposal_id.value), ((#[trigger] r[j]).score as nat, r[j].proposal_id.value)),
    ensures
        forall|i: int, j: int| 0 <= i < j < r.len() ==> (#[trigger] r[i]).score >= (#[trigger] r[j]).score
            && (r[i].score == r[j].score ==> r[i].proposal_id.value < r[j].proposal_id.value),
{
}

/// Identifiers are distinct.
pub open spec fn distinct_proposals(ps: Seq<ImprovementProposal>) -> bool {
    forall|i: int, j: int| 0 <= i < j < ps.len() ==> (#[trigger] ps[i]).id != (#[trigger] ps[j]).id
}

/// Position `k` occurs in `order`.
pub open spec fn placed(order: Seq<usize>, k: int) -> bool {
    exists|a: int| 0 <= a < order.len() && order[a] == k
}

/// The ranking key of Proposal `k`.
pub open spec fn rank_key(ps: Seq<ImprovementProposal>, k: int) -> (nat, u128) {
    (proposal_score(ps[k]), ps[k].id.value)
}

/// The order in which the Proposals rank: a permutation of their positions,
/// best first.
fn ranking_order(proposals: &Vec<ImprovementProposal>, scores: &Vec<u32>) -> (order: Vec<usize>)
    requires
        distinct_proposals(proposals@),
        scores@.len() == proposals@.len(),
        forall|k: int| 0 <= k < scores@.len() ==> #[trigger] scores@[k] as nat == proposal_score(proposals@[k]),
    ensures
        order@.len() == proposals@.len(),
        forall|a: int| 0 <= a < order@.len() ==> (#[trigger] order@[a]) < proposals@.len(),
        forall|k: int| 0 <= k < proposals@.len() ==> #[trigger] placed(order@, k),
        forall|a: int, b: int| 0 <= a < b < order@.len() ==> ranked_before(
            rank_key(proposals@, (#[trigger] order@[a]) as int), rank_key(proposals@, (#[trigger] order@[b]) as int)),
{
    let mut order: Vec<usize> = Vec::new();
    let mut i: usize = 0;
    while i < proposals.len()
        invariant
            i <= proposals@.len(),
            distinct_proposals(proposals@),
            scores@.len() == proposals@.len(),
            forall|k: int| 0 <= k < scores@.len() ==> #[trigger] scores@[k] as nat == proposal_score(proposals@[k]),
            order@.len() == i,
            forall|a: int| 0 <= a < order@.len() ==> (#[trigger] order@[a]) < i,
            forall|k: int| 0 <= k < i ==> #[trigger] placed(order@, k),
            forall|a: int, b: int| 0 <= a < b < order@.len() ==> ranked_before(
                rank_key(proposals@, (#[trigger] order@[a]) as int), rank_key(proposals@, (#[trigger] order@[b]) as int)),
        decreases proposals.len() - i,
    {
        let score = scores[i];
        let id = proposals[i].id.value;
        let ghost key = rank_key(proposals@, i as int);
        let n = order.len();
        let mut pos: usize = 0;
        while pos < n && (scores[order[pos]] > score || (scores[order[pos]] == score && proposals[order[pos]].id.value < id))
            invariant
                pos <= n,
                n == order@.len(),
                i < proposals@.len(),
                key == rank_key(proposals@, i as int),
                score as nat == key.0,
                id == key.1,
                scores@.len() == proposals@.len(),
                forall|k: int| 0 <= k < scores@.len() ==> #[trigger] scores@[k] as nat == proposal_score(proposals@[k]),
                forall|a: int| 0 <= a < order@.len() ==> (#[trigger] order@[a]) < i,
                forall|q: int| 0 <= q < pos ==> ranked_before(rank_key(proposals@, (#[trigger] order@[q]) as int), key),
            decreases n - pos,
        {
            pos = pos + 1;
        }
        let ghost old_order = order@;
        proof {
            assert forall|q: int| pos <= q < n implies ranked_before(key, rank_key(proposals@, (#[trigger] old_order[q]) as int)) by {
                let k = old_order[q] as int;
                assert(proposals@[k].id != proposals@[i as int].id);
                if q > pos {
                    assert(ranked_before(rank_key(proposals@, old_order[pos as int] as int), rank_key(proposals@, old_order[q] as int)));
                }
            }
        }
        order.insert(pos, i);
        proof {
            assert forall|a: int, b: int| 0 <= a < b < order@.len() implies ranked_before(
                rank_key(proposals@, (#[trigger] order@[a]) as int), rank_key(proposals@, (#[trigger] order@[b]) as int)) by {
                if b < pos {
                    assert(order@[a] == old_order[a] && order@[b] == old_order[b]);
                } else if b == pos {
                    assert(order@[a] == old_order[a]);
                } else if a == pos {
                    assert(order@[b] == old_order[b - 1]);
                } else if a < pos {
                    assert(order@[a] == old_order[a] && order@[b] == old_order[b - 1]);
                } else {
                    assert(order@[a] == old_order[a - 1] && order@[b] == old_order[b - 1]);
                }
            }
            assert forall|k: int| 0 <= k < i + 1 implies #[trigger] placed(order@, k) by {
                if k == i {
                    assert(order@[pos as int] == k);
                } else {
                    assert(placed(old_order, k));
                    let a = choose|a: int| 0 <= a < old_order.len() && old_order[a] == k;
                    if a < pos {
                        assert(order@[a] == k);
                    } else {
                        assert(order@[a + 1] == k);
                    }
                }
            }
        }
        i = i + 1;
    }
    order
}

/// `e` ranks Proposal `p`, with its score, factors and explanation.
pub open spec fn ranked_entry(e: RankedProposal, p: ImprovementProposal) -> bool {
    &&& e.proposal_id == p.id
    &&& e.score as nat == proposal_score(p)
    &&& e.explanation@ == ranking_explanation(p)
    &&& e.factors@.map_values(|f: ProposalComparisonFactor| factor_view(f)) == comparison_spec(p)
}

/// `e` ranks one of the Proposals.
pub open spec fn has_source(ps: Seq<ImprovementProposal>, e: RankedProposal) -> bool {
    exists|k: int| 0 <= k < ps.len() && ranked_entry(e, ps[k])
}

/// Some entry ranks the Proposal with this id.
pub open spec fn is_ranked(r: Seq<RankedProposal>, id: ObjectId) -> bool {
    exists|i: int| 0 <= i < r.len() && r[i].proposal_id == id
}

/// The Proposals a comparison names: fewer than two identifiers is a
/// validation error, and so is a list that names fewer than two distinct
/// Proposals; otherwise the distinct identifiers, ascending. Each is then
/// loaded once, so the Proposals ranked are distinct.
pub fn comparison_ids(ids: &Vec<ObjectId>) -> (r: Result<Vec<ObjectId>, crate::error::RivoraError>)
    ensures
        ids@.len() < 2 ==> (r matches Err(e) && e matches crate::error::RivoraError::Validation { message: m }
            && m@ == "at least two proposals are required for comparison"@),
        ids@.len() >= 2 && (forall|i: int, j: int| 0 <= i < ids@.len() && 0 <= j < ids@.len() ==> ids@[i] == ids@[j]) ==> (r matches Err(e)
            && e matches crate::error::RivoraError::Validation { message: m }
            && m@ == "at least two distinct proposals are required for comparison"@),
        r is Ok <==> ids@.len() >= 2 && exists|i: int, j: int| 0 <= i < ids@.len() && 0 <= j < ids@.len() && ids@[i] != ids@[j],
        r matches Ok(v) ==> {
            &&& crate::proposal_rules::ascending_ids(v@)
            &&& forall|y: ObjectId| #[trigger] v@.contains(y) <==> ids@.contains(y)
        },
{
    if ids.len() < 2 {
        return Err(crate::error::RivoraError::validation("at least two proposals are required for comparison"));
    }
    let mut unique: Vec<ObjectId> = Vec::new();
    let mut i: usize = 0;
    while i < ids.len()
        invariant
            i <= ids@.len(),
            unique@ == ids@.subrange(0, i as int),
        decreases ids.len() - i,
    {
        unique.push(ids[i]);
        i = i + 1;
    }
    assert(unique@ =~= ids@);
    crate::proposal_rules::dedupe_ids(&mut unique);
    if unique.len() < 2 {
        proof {
            assert forall|a: int, b: int| 0 <= a < ids@.len() && 0 <= b < ids@.len() implies ids@[a] == ids@[b] by {
                assert(ids@.contains(ids@[a]));
                assert(ids@.contains(ids@[b]));
                assert(unique@.contains(ids@[a]));
                assert(unique@.contains(ids@[b]));
            }
        }
        return Err(crate::error::RivoraError::validation("at least two distinct proposals are required for comparison"));
    }
    proof {
        assert(unique@.contains(unique@[0]));
        assert(unique@.contains(unique@[1]));
        assert(ids@.contains(unique@[0]));
        assert(ids@.contains(unique@[1]));
        let a = choose|a: int| 0 <= a < ids@.len() && ids@[a] == unique@[0];
        let b = choose|b: int| 0 <= b < ids@.len() && ids@[b] == unique@[1];
        assert(ids@[a] != ids@[b]);
    }
    Ok(unique)
}

/// Ranks Proposals by comparison score, best first (ties by identifier),
/// numbering them from 1.
pub fn rank_proposals(proposals: &Vec<ImprovementProposal>) -> (r: Vec<RankedProposal>)
    requires
        distinct_proposals(proposals@),
        proposals@.len() < u32::MAX,
    ensures
        r@.len() == proposals@.len(),
        forall|i: int| 0 <= i < r@.len() ==> (#[trigger] r@[i]).rank == i + 1,
        forall|i: int, j: int| 0 <= i < j < r@.len() ==> ranked_before(
            ((#[trigger] r@[i]).score as nat, r@[i].proposal_id.value), ((#[trigger] r@[j]).score as nat, r@[j].proposal_id.value)),
        forall|i: int| 0 <= i < r@.len() ==> #[trigger] has_source(proposals@, r@[i]),
        forall|k: int| 0 <= k < proposals@.len() ==> #[trigger] is_ranked(r@, proposals@[k].id),
{
    let mut scores: Vec<u32> = Vec::new();
    let mut i: usize = 0;
    while i < proposals.len()
        invariant
            i <= proposals@.len(),
            scores@.len() == i,
            forall|k: int| 0 <= k < i ==> #[trigger] scores@[k] as nat == proposal_score(proposals@[k]),
        decreases proposals.len() - i,
    {
        let (score, _, _) = score_proposal(&proposals[i]);
        scores.push(score);
        i = i + 1;
    }
    let order = ranking_order(proposals, &scores);
    let mut r: Vec<RankedProposal> = Vec::new();
    let mut a: usize = 0;
    while a < order.len()
        invariant
            a <= order@.len(),
            order@.len() == proposals@.len(),
            proposals@.len() < u32::MAX,
            forall|q: int| 0 <= q < order@.len() ==> (#[trigger] order@[q]) < proposals@.len(),
            r@.len() == a,
            forall|q: int| 0 <= q < a ==> {
                let k = order@[q] as int;
                &&& (#[trigger] r@[q]).rank == q + 1
                &&& r@[q].proposal_id == proposals@[k].id
                &&& r@[q].score as nat == proposal_score(proposals@[k])
                &&& r@[q].explanation@ == ranking_explanation(proposals@[k])
                &&& r@[q].factors@.map_values(|f: ProposalComparisonFactor| factor_view(f)) == comparison_spec(proposals@[k])
            },
        decreases order.len() - a,
    {
        let k = order[a];
        let (score, factors, explanation) = score_proposal(&proposals[k]);
        r.push(RankedProposal { proposal_id: proposals[k].id, rank: (a + 1) as u32, score, factors, explanation });
        a = a + 1;
    }
    proof {
        assert forall|x: int, y: int| 0 <= x < y < r@.len() implies ranked_before(
            ((#[trigger] r@[x]).score as nat, r@[x].proposal_id.value), ((#[trigger] r@[y]).score as nat, r@[y].proposal_id.value)) by {
            assert(ranked_before(rank_key(proposals@, order@[x] as int), rank_key(proposals@, order@[y] as int)));
        }
        assert forall|x: int| 0 <= x < r@.len() implies #[trigger] has_source(proposals@, r@[x]) by {
            let k = order@[x] as int;
            assert(ranked_entry(r@[x], proposals@[k]));
        }
        assert forall|k: int| 0 <= k < proposals@.len() implies #[trigger] is_ranked(r@, proposals@[k].id) by {
            assert(placed(order@, k));
            let x = choose|x: int| 0 <= x < order@.len() && order@[x] == k;
            assert(r@[x].proposal_id == proposals@[k].id);
        }
    }
    r
}

} // verus!
