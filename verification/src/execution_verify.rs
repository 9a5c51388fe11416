//! Independent verification of an executed attempt: from what the
//! capability observes of external state after each receipt, the checks,
//! per-receipt results, contradictions, status, confidence and revision of
//! the Execution Verification, and whether the plan advances to Verified.

use vstd::prelude::*;
use crate::assess::texts;
use crate::execution::{verification_status, verification_status_spec, ExecutionPlanStatus, ExecutionVerificationStatus};
use crate::ids::{uuid_chars, uuid_text, ObjectId};
use crate::model::Confidence;
use crate::text::{chars_of, debug_of, debug_text, occurs_at, push_chars, push_str, starts_with_str, text_eq, to_string};

verus! {

/// What a capability reports when it observes external state.
#[derive(Clone, Copy, PartialEq, Eq, Debug, Structural)]
pub enum CapabilityVerificationStatus {
    Passed,
    Failed,
    Inconclusive,
}

/// What verification reads of one Execution Receipt.
pub struct ReceiptFacts {
    pub id: ObjectId,
    pub action_id: String,
    pub response_summary: String,
    pub verification_requirements: Vec<String>,
    pub raw_evidence_refs: Vec<String>,
}

/// The capability's independent observation of the state a receipt changed.
pub struct StateObservation {
    pub verification_status: CapabilityVerificationStatus,
    pub observed: bool,
    pub error: Option<String>,
    pub summary: String,
    /// Observed fields, by name.
    pub fields: Vec<(String, String)>,
    pub resource_key: String,
}

/// A plan's expected effect on one resource type: field values it expects.
pub struct ExpectedEffect {
    pub resource_type: String,
    pub expected_fields: Vec<(String, String)>,
}

/// One check of a verification.
pub struct CheckResult {
    pub check: String,
    pub passed: bool,
    pub detail: String,
    pub evidence: Vec<String>,
}

/// What a verification concludes.
pub struct VerificationOutcome {
    pub checks: Vec<String>,
    pub results: Vec<CheckResult>,
    pub contradictions: Vec<String>,
    /// The observation summaries, one per receipt.
    pub evidence: Vec<String>,
    pub status: ExecutionVerificationStatus,
    pub confidence: Confidence,
    pub revision: u32,
}

/// A check as (name, passed, detail, evidence).
pub type CheckView = (Seq<char>, bool, Seq<char>, Seq<Seq<char>>);

/// The plain values of a check.
pub open spec fn check_view(c: CheckResult) -> CheckView {
    (c.check@, c.passed, c.detail@, texts(c.evidence@))
}

/// The plain values of checks.
pub open spec fn check_views(cs: Seq<CheckResult>) -> Seq<CheckView> {
    cs.map_values(|c: CheckResult| check_view(c))
}

/// The observation confirms the receipt: it passed, was observed and
/// reported no error.
pub open spec fn capability_passed(o: StateObservation) -> bool {
    o.verification_status == CapabilityVerificationStatus::Passed && o.observed && o.error is None
}

/// The contradiction a receipt's observation status raises, if any.
pub open spec fn status_contradiction(r: ReceiptFacts, o: StateObservation) -> Seq<Seq<char>> {
    if o.verification_status == CapabilityVerificationStatus::Passed && !capability_passed(o) {
        seq!["receipt "@ + uuid_text(r.id.value) + " returned an internally inconsistent passing observation"@]
    } else if o.verification_status == CapabilityVerificationStatus::Failed {
        seq!["receipt "@ + uuid_text(r.id.value) + " postcondition contradicted: "@ + o.summary@]
    } else {
        seq![]
    }
}

/// The observed value of a field (the first entry of that name), or empty.
pub open spec fn field_value(fields: Seq<(String, String)>, name: Seq<char>) -> Seq<char>
    decreases fields.len(),
{
    if fields.len() == 0 {
        seq![]
    } else if fields[0].0@ == name {
        fields[0].1@
    } else {
        field_value(fields.drop_first(), name)
    }
}

/// The result of one expected field.
pub open spec fn field_check(resource_type: Seq<char>, f: (String, String), o: StateObservation) -> CheckView {
    let actual = field_value(o.fields@, f.0@);
    (resource_type + ":"@ + f.0@, actual == f.1@, "expected="@ + f.1@ + " actual="@ + actual, seq![o.summary@])
}

/// The contradiction an expected field raises, if its value differs.
pub open spec fn field_contradiction(f: (String, String), o: StateObservation) -> Seq<Seq<char>> {
    let actual = field_value(o.fields@, f.0@);
    if actual == f.1@ { seq![] } else { seq!["expected "@ + f.0@ + "="@ + f.1@ + ", observed "@ + debug_of(actual)] }
}

/// Results of the expected fields of one effect.
pub open spec fn fields_checks(resource_type: Seq<char>, fs: Seq<(String, String)>, o: StateObservation) -> Seq<CheckView>
    decreases fs.len(),
{
    if fs.len() == 0 { seq![] } else { fields_checks(resource_type, fs.drop_last(), o).push(field_check(resource_type, fs.last(), o)) }
}

/// Contradictions of the expected fields of one effect.
pub open spec fn fields_contradictions(fs: Seq<(String, String)>, o: StateObservation) -> Seq<Seq<char>>
    decreases fs.len(),
{
    if fs.len() == 0 { seq![] } else { fields_contradictions(fs.drop_last(), o) + field_contradiction(fs.last(), o) }
}

/// Results of all expected effects against one observation.
pub open spec fn effects_checks(ex: Seq<ExpectedEffect>, o: StateObservation) -> Seq<CheckView>
    decreases ex.len(),
{
    if ex.len() == 0 {
        seq![]
    } else {
        effects_checks(ex.drop_last(), o) + fields_checks(ex.last().resource_type@, ex.last().expected_fields@, o)
    }
}

/// Contradictions of all expected effects against one observation.
pub open spec fn effects_contradictions(ex: Seq<ExpectedEffect>, o: StateObservation) -> Seq<Seq<char>>
    decreases ex.len(),
{
    if ex.len() == 0 {
        seq![]
    } else {
        effects_contradictions(ex.drop_last(), o) + fields_contradictions(ex.last().expected_fields@, o)
    }
}

/// The receipt's own check.
pub open spec fn receipt_check(r: ReceiptFacts, o: StateObservation) -> CheckView {
    (
        "receipt:"@ + r.action_id@,
        capability_passed(o),
        r.response_summary@ + "; independent observation: "@ + o.summary@,
        texts(r.raw_evidence_refs@).push(o.resource_key@),
    )
}

/// Results of the first `n` receipts, in order: each receipt's field
/// checks, then its own check.
pub open spec fn receipts_checks(rs: Seq<ReceiptFacts>, os: Seq<StateObservation>, ex: Seq<ExpectedEffect>, n: int) -> Seq<CheckView>
    decreases n,
{
    if n <= 0 {
        seq![]
    } else {
        receipts_checks(rs, os, ex, n - 1) + effects_checks(ex, os[n - 1]).push(receipt_check(rs[n - 1], os[n - 1]))
    }
}

/// Contradictions of the first `n` receipts, in order: the status one, then
/// the field ones.
pub open spec fn receipts_contradictions(rs: Seq<ReceiptFacts>, os: Seq<StateObservation>, ex: Seq<ExpectedEffect>, n: int) -> Seq<
    Seq<char>,
>
    decreases n,
{
    if n <= 0 {
        seq![]
    } else {
        receipts_contradictions(rs, os, ex, n - 1) + status_contradiction(rs[n - 1], os[n - 1]) + effects_contradictions(ex, os[n - 1])
    }
}

/// The check recorded when there are no receipts.
pub open spec fn no_receipts_check() -> CheckView {
    ("no receipts"@, false, "attempt has no receipts to verify"@, seq![])
}

/// All results of a verification.
pub open spec fn verification_checks_spec(rs: Seq<ReceiptFacts>, os: Seq<StateObservation>, ex: Seq<ExpectedEffect>) -> Seq<CheckView> {
    if rs.len() == 0 { seq![no_receipts_check()] } else { receipts_checks(rs, os, ex, rs.len() as int) }
}

/// The verification requirements of the receipts, in order.
pub open spec fn requirements(rs: Seq<ReceiptFacts>) -> Seq<Seq<char>>
    decreases rs.len(),
{
    if rs.len() == 0 { seq![] } else { requirements(rs.drop_last()) + texts(rs.last().verification_requirements@) }
}

/// The checks a verification runs: the plan's, else the receipts'
/// verification requirements, else that external identifiers are present.
pub open spec fn checks_spec(plan_checks: Seq<String>, rs: Seq<ReceiptFacts>) -> Seq<Seq<char>> {
    if plan_checks.len() > 0 {
        texts(plan_checks)
    } else if requirements(rs).len() > 0 {
        requirements(rs)
    } else {
        seq!["external identifiers present"@]
    }
}

/// How many checks passed.
pub open spec fn passed_count(vs: Seq<CheckView>) -> nat
    decreases vs.len(),
{
    if vs.len() == 0 { 0 } else { passed_count(vs.drop_last()) + if vs.last().1 { 1nat } else { 0nat } }
}

/// The receipts' own checks (names starting `receipt:`), in order.
pub open spec fn receipt_checks_of(vs: Seq<CheckView>) -> Seq<CheckView>
    decreases vs.len(),
{
    if vs.len() == 0 {
        seq![]
    } else {
        receipt_checks_of(vs.drop_last()) + if occurs_at(vs.last().0, "receipt:"@, 0) { seq![vs.last()] } else { seq![] }
    }
}

/// Some receipt was not confirmed by its observation (counting the
/// `receipt:` checks by position), and nothing contradicted.
pub open spec fn inconclusive_receipt_spec(vs: Seq<CheckView>, receipts: nat, contradicted: bool) -> bool {
    !contradicted && exists|i: int| 0 <= i < receipts && i < receipt_checks_of(vs).len() && !(#[trigger] receipt_checks_of(vs)[i]).1
}

/// Confidence (thousandths): the share of checks that passed.
pub open spec fn verification_confidence_spec(passed: nat, total: nat) -> nat {
    if total == 0 { 0 } else { 1000 * passed / total }
}

/// The revision of a new verification: one more than the prior one
/// (saturating), or 1.
pub open spec fn revision_spec(prior: Option<u32>) -> u32 {
    match prior {
        Some(r) => if r == u32::MAX { r } else { (r + 1) as u32 },
        None => 1,
    }
}

/// A passing verification advances an executed (or partially executed)
/// plan to Verified.
pub open spec fn advances_plan(status: ExecutionVerificationStatus, head: ExecutionPlanStatus) -> bool {
    status == ExecutionVerificationStatus::Passed && (head == ExecutionPlanStatus::Executed || head
        == ExecutionPlanStatus::PartiallyExecuted)
}

/// Whether the plan head advances to Verified (exec).
pub fn plan_advances(status: ExecutionVerificationStatus, head: ExecutionPlanStatus) -> (b: bool)
    ensures
        b == advances_plan(status, head),
{
    status == ExecutionVerificationStatus::Passed && (head == ExecutionPlanStatus::Executed || head
        == ExecutionPlanStatus::PartiallyExecuted)
}

fn copy_strings(v: &Vec<String>) -> (r: Vec<String>)
    ensures
        texts(r@) == texts(v@),
{
    let mut r: Vec<String> = Vec::new();
    let mut i: usize = 0;
    while i < v.len()
        invariant
            i <= v@.len(),
            r@.len() == i,
            forall|q: int| 0 <= q < i ==> (#[trigger] r@[q])@ == v@[q]@,
        decreases v.len() - i,
    {
        r.push(to_string(&chars_of(v[i].as_str())));
        i = i + 1;
    }
    assert(texts(r@) =~= texts(v@));
    r
}

fn text_string(s: &str) -> (r: String)
    ensures
        r@ == s@,
{
    to_string(&chars_of(s))
}

/// The observed value of a field.
fn lookup_field(fields: &Vec<(String, String)>, name: &Vec<char>) -> (r: Vec<char>)
    ensures
        r@ == field_value(fields@, name@),
{
    let mut i: usize = 0;
    assert(fields@.subrange(0, fields@.len() as int) =~= fields@);
    while i < fields.len()
        invariant
            i <= fields@.len(),
            field_value(fields@, name@) == field_value(fields@.subrange(i as int, fields@.len() as int), name@),
        decreases fields.len() - i,
    {
        let ghost rest = fields@.subrange(i as int, fields@.len() as int);
        assert(rest.drop_first() =~= fields@.subrange(i + 1, fields@.len() as int));
        assert(rest[0] == fields@[i as int]);
        if text_eq(&chars_of(fields[i].0.as_str()), name) {
            return chars_of(fields[i].1.as_str());
        }
        i = i + 1;
    }
    Vec::new()
}

/// Appends the checks and contradictions of one effect's fields.
fn add_field_checks(
    results: &mut Vec<CheckResult>,
    contradictions: &mut Vec<String>,
    resource_type: &String,
    fs: &Vec<(String, String)>,
    o: &StateObservation,
)
    ensures
        check_views(final(results)@) == check_views(old(results)@) + fields_checks(resource_type@, fs@, *o),
        texts(final(contradictions)@) == texts(old(contradictions)@) + fields_contradictions(fs@, *o),
{
    let ghost r0 = check_views(results@);
    let ghost c0 = texts(contradictions@);
    let mut j: usize = 0;
    while j < fs.len()
        invariant
            j <= fs@.len(),
            check_views(results@) == r0 + fields_checks(resource_type@, fs@.subrange(0, j as int), *o),
            texts(contradictions@) == c0 + fields_contradictions(fs@.subrange(0, j as int), *o),
        decreases fs.len() - j,
    {
        let ghost sub = fs@.subrange(0, j + 1);
        assert(sub.drop_last() =~= fs@.subrange(0, j as int));
        assert(sub.last() == fs@[j as int]);
        let field = chars_of(fs[j].0.as_str());
        let expected = chars_of(fs[j].1.as_str());
        let actual = lookup_field(&o.fields, &field);
        let passed = text_eq(&actual, &expected);
        if !passed {
            let mut c: Vec<char> = Vec::new();
            push_str(&mut c, "expected ");
            push_chars(&mut c, &field);
            push_str(&mut c, "=");
            push_chars(&mut c, &expected);
            push_str(&mut c, ", observed ");
            let shown = debug_text(to_string(&actual).as_str());
            push_chars(&mut c, &chars_of(shown.as_str()));
            let ghost before = texts(contradictions@);
            contradictions.push(to_string(&c));
            assert(texts(contradictions@) =~= before + field_contradiction(fs@[j as int], *o));
        } else {
            assert(field_contradiction(fs@[j as int], *o) =~= seq![]);
        }
        let mut name: Vec<char> = chars_of(resource_type.as_str());
        push_str(&mut name, ":");
        push_chars(&mut name, &field);
        let mut detail: Vec<char> = Vec::new();
        push_str(&mut detail, "expected=");
        push_chars(&mut detail, &expected);
        push_str(&mut detail, " actual=");
        push_chars(&mut detail, &actual);
        let mut evidence: Vec<String> = Vec::new();
        evidence.push(text_string(o.summary.as_str()));
        assert(texts(evidence@) =~= seq![o.summary@]);
        let ghost before = check_views(results@);
        results.push(CheckResult { check: to_string(&name), passed, detail: to_string(&detail), evidence });
        assert(check_views(results@) =~= before.push(field_check(resource_type@, fs@[j as int], *o)));
        j = j + 1;
    }
    assert(fs@.subrange(0, fs@.len() as int) =~= fs@);
}

/// Appends the checks and contradictions of all expected effects.
fn add_effect_checks(results: &mut Vec<CheckResult>, contradictions: &mut Vec<String>, ex: &Vec<ExpectedEffect>, o: &StateObservation)
    ensures
        check_views(final(results)@) == check_views(old(results)@) + effects_checks(ex@, *o),
        texts(final(contradictions)@) == texts(old(contradictions)@) + effects_contradictions(ex@, *o),
{
    let ghost r0 = check_views(results@);
    let ghost c0 = texts(contradictions@);
    let mut e: usize = 0;
    while e < ex.len()
        invariant
            e <= ex@.len(),
            check_views(results@) == r0 + effects_checks(ex@.subrange(0, e as int), *o),
            texts(contradictions@) == c0 + effects_contradictions(ex@.subrange(0, e as int), *o),
        decreases ex.len() - e,
    {
        let ghost sub = ex@.subrange(0, e + 1);
        assert(sub.drop_last() =~= ex@.subrange(0, e as int));
        assert(sub.last() == ex@[e as int]);
        add_field_checks(results, contradictions, &ex[e].resource_type, &ex[e].expected_fields, o);
        assert(check_views(results@) =~= r0 + effects_checks(ex@.subrange(0, e + 1), *o));
        assert(texts(contradictions@) =~= c0 + effects_contradictions(ex@.subrange(0, e + 1), *o));
        e = e + 1;
    }
    assert(ex@.subrange(0, ex@.len() as int) =~= ex@);
}

/// The contradiction of a receipt's observation status, if any.
fn add_status_contradiction(contradictions: &mut Vec<String>, r: &ReceiptFacts, o: &StateObservation)
    ensures
        texts(final(contradictions)@) == texts(old(contradictions)@) + status_contradiction(*r, *o),
{
    let passed_ok = o.verification_status == CapabilityVerificationStatus::Passed && o.observed && o.error.is_none();
    let ghost before = texts(contradictions@);
    if o.verification_status == CapabilityVerificationStatus::Passed && !passed_ok {
        let mut c: Vec<char> = Vec::new();
        push_str(&mut c, "receipt ");
        push_chars(&mut c, &uuid_chars(r.id.value));
        push_str(&mut c, " returned an internally inconsistent passing observation");
        contradictions.push(to_string(&c));
        assert(texts(contradictions@) =~= before + status_contradiction(*r, *o));
    } else if o.verification_status == CapabilityVerificationStatus::Failed {
        let mut c: Vec<char> = Vec::new();
        push_str(&mut c, "receipt ");
        push_chars(&mut c, &uuid_chars(r.id.value));
        push_str(&mut c, " postcondition contradicted: ");
        push_str(&mut c, o.summary.as_str());
        contradictions.push(to_string(&c));
        assert(texts(contradictions@) =~= before + status_contradiction(*r, *o));
    } else {
        assert(texts(contradictions@) =~= before + status_contradiction(*r, *o));
    }
}

/// The receipt's own check.
fn receipt_check_of(r: &ReceiptFacts, o: &StateObservation) -> (c: CheckResult)
    ensures
        check_view(c) == receipt_check(*r, *o),
{
    let passed = o.verification_status == CapabilityVerificationStatus::Passed && o.observed && o.error.is_none();
    let mut name: Vec<char> = Vec::new();
    push_str(&mut name, "receipt:");
    push_str(&mut name, r.action_id.as_str());
    let mut detail: Vec<char> = Vec::new();
    push_str(&mut detail, r.response_summary.as_str());
    push_str(&mut detail, "; independent observation: ");
    push_str(&mut detail, o.summary.as_str());
    let mut evidence = copy_strings(&r.raw_evidence_refs);
    let ghost before = texts(evidence@);
    evidence.push(text_string(o.resource_key.as_str()));
    assert(texts(evidence@) =~= before.push(o.resource_key@));
    CheckResult { check: to_string(&name), passed, detail: to_string(&detail), evidence }
}

/// Appends copies of `more`.
fn append_strings(out: &mut Vec<String>, more: &Vec<String>)
    ensures
        texts(final(out)@) == texts(old(out)@) + texts(more@),
{
    let ghost base = out@;
    let mut k: usize = 0;
    while k < more.len()
        invariant
            k <= more@.len(),
            out@.len() == base.len() + k,
            forall|q: int| 0 <= q < base.len() ==> (#[trigger] out@[q])@ == base[q]@,
            forall|q: int| 0 <= q < k ==> (#[trigger] out@[base.len() + q])@ == more@[q]@,
        decreases more.len() - k,
    {
        out.push(text_string(more[k].as_str()));
        k = k + 1;
    }
    assert forall|q: int| 0 <= q < out@.len() implies (#[trigger] texts(out@)[q]) == (texts(base) + texts(more@))[q] by {
        if q < base.len() {
            assert(out@[q]@ == base[q]@);
        } else {
            assert(out@[base.len() + (q - base.len())]@ == more@[q - base.len()]@);
        }
    }
    assert(texts(out@) =~= texts(base) + texts(more@));
}

/// The receipts' verification requirements.
fn requirements_of(rs: &Vec<ReceiptFacts>) -> (r: Vec<String>)
    ensures
        texts(r@) == requirements(rs@),
{
    let mut r: Vec<String> = Vec::new();
    let mut i: usize = 0;
    while i < rs.len()
        invariant
            i <= rs@.len(),
            texts(r@) == requirements(rs@.subrange(0, i as int)),
        decreases rs.len() - i,
    {
        let ghost sub = rs@.subrange(0, i + 1);
        assert(sub.drop_last() =~= rs@.subrange(0, i as int));
        append_strings(&mut r, &rs[i].verification_requirements);
        assert(sub.last() == rs@[i as int]);
        assert(texts(r@) == requirements(sub));
        i = i + 1;
    }
    assert(rs@.subrange(0, rs@.len() as int) =~= rs@);
    r
}

/// Some of the first `receipts` receipt checks did not pass.
pub open spec fn unconfirmed_within(rr: Seq<CheckView>, receipts: nat) -> bool {
    exists|q: int| 0 <= q < receipts && q < rr.len() && !(#[trigger] rr[q]).1
}

proof fn lemma_unconfirmed_push(rr: Seq<CheckView>, v: CheckView, receipts: nat)
    ensures
        unconfirmed_within(rr.push(v), receipts) == (unconfirmed_within(rr, receipts) || (rr.len() < receipts && !v.1)),
{
    let n = rr.push(v);
    if unconfirmed_within(rr, receipts) {
        let q = choose|q: int| 0 <= q < receipts && q < rr.len() && !(#[trigger] rr[q]).1;
        assert(n[q] == rr[q]);
    }
    if rr.len() < receipts && !v.1 {
        assert(!n[rr.len() as int].1);
    }
    if unconfirmed_within(n, receipts) {
        let q = choose|q: int| 0 <= q < receipts && q < n.len() && !(#[trigger] n[q]).1;
        if q < rr.len() {
            assert(n[q] == rr[q]);
        }
    }
}

proof fn lemma_passed_bounded(vs: Seq<CheckView>)
    ensures
        passed_count(vs) <= vs.len(),
    decreases vs.len(),
{
    if vs.len() > 0 {
        lemma_passed_bounded(vs.drop_last());
    }
}

/// How many results passed, and whether some receipt check among the first
/// `receipts` receipt checks did not.
fn tally(results: &Vec<CheckResult>, receipts: usize) -> (t: (usize, bool))
    ensures
        t.0 == passed_count(check_views(results@)),
        t.1 == exists|i: int| 0 <= i < receipts && i < receipt_checks_of(check_views(results@)).len()
            && !(#[trigger] receipt_checks_of(check_views(results@))[i]).1,
{
    let ghost vs = check_views(results@);
    let mut passed: usize = 0;
    let mut k: usize = 0;
    let mut unconfirmed = false;
    let mut i: usize = 0;
    while i < results.len()
        invariant
            i <= results@.len(),
            vs == check_views(results@),
            passed == passed_count(vs.subrange(0, i as int)),
            passed <= i,
            k <= i,
            k == receipt_checks_of(vs.subrange(0, i as int)).len(),
            unconfirmed == unconfirmed_within(receipt_checks_of(vs.subrange(0, i as int)), receipts as nat),
        decreases results.len() - i,
    {
        let ghost prev = vs.subrange(0, i as int);
        let ghost sub = vs.subrange(0, i + 1);
        assert(sub.drop_last() =~= prev);
        assert(sub.last() == vs[i as int]);
        assert(vs[i as int] == check_view(results@[i as int]));
        if results[i].passed {
            passed = passed + 1;
        }
        let is_receipt = starts_with_str(&chars_of(results[i].check.as_str()), "receipt:");
        assert(is_receipt == occurs_at(vs[i as int].0, "receipt:"@, 0));
        if is_receipt {
            proof {
                assert(receipt_checks_of(sub) == receipt_checks_of(prev).push(vs[i as int]));
                lemma_unconfirmed_push(receipt_checks_of(prev), vs[i as int], receipts as nat);
            }
            if k < receipts && !results[i].passed {
                unconfirmed = true;
            }
            k = k + 1;
        } else {
            assert(receipt_checks_of(sub) == receipt_checks_of(prev));
        }
        assert(passed == passed_count(sub));
        i = i + 1;
    }
    assert(vs.subrange(0, results@.len() as int) =~= vs);
    (passed, unconfirmed)
}

/// Concludes the independent verification of an attempt from its plan's
/// checks, its receipts with the capability's observation after each, the
/// plan's expected effects, whether actions failed or stayed uncertain, and
/// the revision of the prior verification, if any.
pub fn conclude_verification(
    plan_checks: &Vec<String>,
    receipts: &Vec<ReceiptFacts>,
    observations: &Vec<StateObservation>,
    expected: &Vec<ExpectedEffect>,
    failed_actions: bool,
    uncertain_actions: bool,
    prior_revision: Option<u32>,
) -> (v: VerificationOutcome)
    requires
        observations@.len() == receipts@.len(),
    ensures
        texts(v.checks@) == checks_spec(plan_checks@, receipts@),
        check_views(v.results@) == verification_checks_spec(receipts@, observations@, expected@),
        texts(v.contradictions@) == receipts_contradictions(receipts@, observations@, expected@, receipts@.len() as int),
        texts(v.evidence@) == observations@.map_values(|o: StateObservation| o.summary@),
        v.status == verification_status_spec(
            failed_actions,
            v.contradictions@.len() > 0,
            inconclusive_receipt_spec(check_views(v.results@), receipts@.len(), v.contradictions@.len() > 0),
            uncertain_actions,
            passed_count(check_views(v.results@)),
            v.results@.len(),
        ),
        v.confidence.permille == verification_confidence_spec(passed_count(check_views(v.results@)), v.results@.len()),
        v.revision == revision_spec(prior_revision),
{
    let mut checks = copy_strings(plan_checks);
    if checks.len() == 0 {
        checks = requirements_of(receipts);
        if checks.len() == 0 {
            checks.push(text_string("external identifiers present"));
            assert(texts(checks@) =~= seq!["external identifiers present"@]);
        }
    }
    let mut results: Vec<CheckResult> = Vec::new();
    let mut contradictions: Vec<String> = Vec::new();
    let mut evidence: Vec<String> = Vec::new();
    let mut i: usize = 0;
    while i < receipts.len()
        invariant
            i <= receipts@.len(),
            observations@.len() == receipts@.len(),
            check_views(results@) == receipts_checks(receipts@, observations@, expected@, i as int),
            texts(contradictions@) == receipts_contradictions(receipts@, observations@, expected@, i as int),
            evidence@.len() == i,
            forall|q: int| 0 <= q < i ==> (#[trigger] evidence@[q])@ == observations@[q].summary@,
        decreases receipts.len() - i,
    {
        let r = &receipts[i];
        let o = &observations[i];
        evidence.push(text_string(o.summary.as_str()));
        let ghost r0 = check_views(results@);
        let ghost c0 = texts(contradictions@);
        add_status_contradiction(&mut contradictions, r, o);
        add_effect_checks(&mut results, &mut contradictions, expected, o);
        let own = receipt_check_of(r, o);
        let ghost r1 = check_views(results@);
        results.push(own);
        assert(check_views(results@) =~= r1.push(receipt_check(*r, *o)));
        assert(check_views(results@) =~= receipts_checks(receipts@, observations@, expected@, i + 1));
        assert(texts(contradictions@) =~= receipts_contradictions(receipts@, observations@, expected@, i + 1));
        i = i + 1;
    }
    assert(texts(evidence@) =~= observations@.map_values(|o: StateObservation| o.summary@));
    if results.len() == 0 {
        let mut none: Vec<String> = Vec::new();
        results.push(CheckResult {
            check: text_string("no receipts"),
            passed: false,
            detail: text_string("attempt has no receipts to verify"),
            evidence: none,
        });
        assert(texts(none@) =~= seq![]);
        assert(check_views(results@) =~= seq![no_receipts_check()]);
    }
    proof {
        if receipts@.len() > 0 {
            assert(receipts_checks(receipts@, observations@, expected@, receipts@.len() as int).len() > 0);
        }
    }
    let (passed, unconfirmed) = tally(&results, receipts.len());
    proof {
        lemma_passed_bounded(check_views(results@));
    }
    let total = results.len();
    let contradicted = contradictions.len() > 0;
    let inconclusive = unconfirmed && !contradicted;
    let status = verification_status(failed_actions, contradicted, inconclusive, uncertain_actions, passed, total);
    proof {
        assert((1000 * (passed as int)) / (total as int) <= 1000) by (nonlinear_arith)
            requires (passed as int) <= (total as int), (total as int) > 0;
    }
    let permille: u64 = ((1000u128 * (passed as u128)) / (total as u128)) as u64;
    let revision: u32 = match prior_revision {
        Some(r) => if r == u32::MAX { r } else { r + 1 },
        None => 1,
    };
    VerificationOutcome { checks, results, contradictions, evidence, status, confidence: Confidence::new(permille), revision }
}

} // verus!
