//! Candidate-versus-control comparison: the comparability checks that decide
//! whether two result receipts may be compared at all, and the verdict that
//! follows from them and from the measured effect.

use crate::codec::{append_text, ascii_text, decimal, decimal_text};
use crate::config::{is_blank, trims_to_empty, Direction, EvidenceClass};
use crate::provider_incarnation::text_equal;
use vstd::prelude::*;

verus! {

/// The primary metric a comparison speaks of.
#[derive(Clone, Debug, PartialEq, Eq)]
pub struct ComparisonMetric {
    pub name: String,
    pub unit: String,
    pub statistic: String,
    pub direction: Direction,
}

/// One comparability check and what it observed.
#[derive(Clone, Debug, PartialEq, Eq)]
pub struct ComparisonCheck {
    pub id: String,
    pub passed: bool,
    pub detail: String,
}

/// The outcome of one comparison.
#[derive(Clone, Copy, Debug, PartialEq, Eq, Structural)]
pub enum ComparisonVerdict {
    Better,
    Worse,
    Inconclusive,
    Invalid,
}

/// The profile block of a result receipt.
#[derive(Clone, Debug, PartialEq, Eq)]
pub struct ResultProfile {
    pub id: String,
    pub hash: String,
    pub evidence_class: Option<EvidenceClass>,
    pub workload_profile_hash: Option<String>,
    pub machine: String,
    pub rustc: String,
    pub lockfile_hash: String,
}

/// One hard gate recorded in a result receipt.
#[derive(Clone, Debug, PartialEq, Eq)]
pub struct ResultHardGate {
    pub id: String,
    pub status: String,
}

/// What a comparison reads of one result receipt, besides its measured values.
#[derive(Clone, Debug, PartialEq, Eq)]
pub struct ResultIdentity {
    pub run_id: String,
    pub batch_id: Option<String>,
    pub lane: String,
    pub suite: String,
    pub suite_hash: String,
    pub profile: ResultProfile,
    pub candidate_commit: String,
    pub backend: String,
    pub seeds: Vec<u64>,
    pub hard_gates: Vec<ResultHardGate>,
    pub metric_name: String,
    pub metric_unit: String,
    pub metric_direction: Direction,
    pub metric_statistic: String,
    pub sample_count: u64,
    pub verdict: String,
}

/// What a program gate, or its paired control, expects of a receipt.
#[derive(Clone, Debug, PartialEq, Eq)]
pub struct ComparisonTarget {
    pub suite: String,
    pub suite_hash: String,
    pub profile: String,
    pub backend: String,
    pub lane: String,
    pub primary_metric_otel_name: String,
    pub statistic: String,
    pub direction: Direction,
    pub configured_repeats: u32,
}

/// A check as plain values: its id, whether it passed, and its detail.
pub open spec fn check_view(check: ComparisonCheck) -> (Seq<char>, bool, Seq<char>) {
    (check.id@, check.passed, check.detail@)
}

pub open spec fn checks_view(checks: Seq<ComparisonCheck>) -> Seq<(Seq<char>, bool, Seq<char>)> {
    checks.map_values(|c: ComparisonCheck| check_view(c))
}

pub open spec fn optional_text(value: Option<String>) -> Option<Seq<char>> {
    match value {
        Some(text) => Some(text@),
        None => None,
    }
}

/// A receipt carries workload evidence only when its profile declares the
/// workload class and a non-blank workload profile hash.
pub open spec fn workload_evidence(profile: ResultProfile) -> bool {
    &&& profile.evidence_class == Some(EvidenceClass::Workload)
    &&& match profile.workload_profile_hash {
        Some(hash) => !trims_to_empty(hash@),
        None => false,
    }
}

/// Whether a receipt may enter a performance or economics comparison.
pub fn has_workload_evidence(profile: &ResultProfile) -> (evidence: bool)
    ensures
        evidence == workload_evidence(*profile),
{
    let workload = match profile.evidence_class {
        Some(EvidenceClass::Workload) => true,
        _ => false,
    };
    if !workload {
        return false;
    }
    match &profile.workload_profile_hash {
        Some(hash) => !is_blank(hash.as_str()),
        None => false,
    }
}

/// Whether two directions agree.
pub fn same_direction(left: Direction, right: Direction) -> (same: bool)
    ensures
        same == (left == right),
{
    match (left, right) {
        (Direction::Higher, Direction::Higher) => true,
        (Direction::Lower, Direction::Lower) => true,
        _ => false,
    }
}

/// A check whose detail is `observed=<observed>,expected=<expected>`.
pub fn check(id: &str, passed: bool, observed: &str, expected: &str) -> (result: ComparisonCheck)
    ensures
        check_view(result) == (id@, passed, "observed="@ + observed@ + ",expected="@ + expected@),
{
    let mut detail = "observed=".to_owned();
    append_text(&mut detail, observed);
    append_text(&mut detail, ",expected=");
    append_text(&mut detail, expected);
    boolean_check(id, passed, detail)
}

/// A check with the given detail.
pub fn boolean_check(id: &str, passed: bool, detail: String) -> (result: ComparisonCheck)
    ensures
        check_view(result) == (id@, passed, detail@),
{
    ComparisonCheck { id: id.to_owned(), passed, detail }
}

/// `candidate=<candidate>,control=<control>`.
pub open spec fn pair_text(candidate: Seq<char>, control: Seq<char>) -> Seq<char> {
    "candidate="@ + candidate + ",control="@ + control
}

fn pair_detail(candidate: &str, control: &str) -> (detail: String)
    ensures
        detail@ == pair_text(candidate@, control@),
{
    let mut detail = "candidate=".to_owned();
    append_text(&mut detail, candidate);
    append_text(&mut detail, ",control=");
    append_text(&mut detail, control);
    detail
}

/// The `Debug` text of a direction.
pub open spec fn direction_text(direction: Direction) -> Seq<char> {
    match direction {
        Direction::Higher => "Higher"@,
        Direction::Lower => "Lower"@,
    }
}

fn direction_debug(direction: Direction) -> (text: &'static str)
    ensures
        text@ == direction_text(direction),
{
    match direction {
        Direction::Higher => "Higher",
        Direction::Lower => "Lower",
    }
}

/// The `Debug` text of an optional evidence class.
pub open spec fn evidence_class_text(class: Option<EvidenceClass>) -> Seq<char> {
    match class {
        None => "None"@,
        Some(EvidenceClass::Contract) => "Some(Contract)"@,
        Some(EvidenceClass::Smoke) => "Some(Smoke)"@,
        Some(EvidenceClass::Workload) => "Some(Workload)"@,
    }
}

fn evidence_class_debug(class: Option<EvidenceClass>) -> (text: &'static str)
    ensures
        text@ == evidence_class_text(class),
{
    match class {
        None => "None",
        Some(EvidenceClass::Contract) => "Some(Contract)",
        Some(EvidenceClass::Smoke) => "Some(Smoke)",
        Some(EvidenceClass::Workload) => "Some(Workload)",
    }
}

/// The `Debug` text of an optional string, as `format!("{:?}", ..)` writes it.
pub uninterp spec fn optional_debug_text(value: Option<Seq<char>>) -> Seq<char>;

/// Whether `c` is printable ASCII that string `Debug` output writes as it is.
pub open spec fn plain_debug_char(c: char) -> bool {
    ' ' <= c <= '~' && c != '"' && c != '\\' && c != '\''
}

/// `<Option<String> as Debug>::fmt` through `format!`. The contract names the
/// result; it states that `None` is written `None`, and that text made of
/// plain printable ASCII is written between `Some("` and `")` unchanged. How
/// other characters are escaped is left unsaid.
#[verifier::external_body]
fn optional_debug(value: &Option<String>) -> (text: String)
    ensures
        text@ == optional_debug_text(optional_text(*value)),
        value.is_none() ==> text@ == "None"@,
        value.is_some() && (forall|i: int|
            0 <= i < value.unwrap()@.len() ==> plain_debug_char(#[trigger] value.unwrap()@[i]))
            ==> text@ == "Some(\""@ + value.unwrap()@ + "\")"@,
{
    format!("{:?}", value)
}

/// The decimal digits of `n` as text.
pub open spec fn decimal_chars(n: u64) -> Seq<char> {
    ascii_text(decimal(n as nat))
}

/// The items of a list joined by `separator`.
pub open spec fn joined(parts: Seq<Seq<char>>, separator: Seq<char>) -> Seq<char>
    decreases parts.len(),
{
    if parts.len() == 0 {
        Seq::empty()
    } else if parts.len() == 1 {
        parts[0]
    } else {
        joined(parts.drop_last(), separator) + separator + parts.last()
    }
}

/// The `Debug` text of a list of seeds: `[1, 2, 3]`.
pub open spec fn seeds_text(seeds: Seq<u64>) -> Seq<char> {
    "["@ + joined(seeds.map_values(|seed: u64| decimal_chars(seed)), ", "@) + "]"@
}

pub(crate) fn seeds_debug(seeds: &Vec<u64>) -> (text: String)
    ensures
        text@ == seeds_text(seeds@),
{
    let ghost parts = seeds@.map_values(|seed: u64| decimal_chars(seed));
    let mut body = String::new();
    let mut index: usize = 0;
    while index < seeds.len()
        invariant
            index <= seeds@.len(),
            parts == seeds@.map_values(|seed: u64| decimal_chars(seed)),
            body@ == joined(parts.take(index as int), ", "@),
        decreases seeds@.len() - index,
    {
        if index > 0 {
            append_text(&mut body, ", ");
        }
        let digits = decimal_text(seeds[index]);
        append_text(&mut body, digits.as_str());
        proof {
            assert(parts.take(index + 1).drop_last() =~= parts.take(index as int));
            assert(parts.take(index + 1).last() == decimal_chars(seeds@[index as int]));
            if index == 0 {
                assert(body@ =~= joined(parts.take(1), ", "@));
            }
        }
        index = index + 1;
    }
    assert(parts.take(seeds@.len() as int) =~= parts);
    let mut text = "[".to_owned();
    append_text(&mut text, body.as_str());
    append_text(&mut text, "]");
    text
}

/// Whether two optional texts are equal.
fn same_optional_text(left: &Option<String>, right: &Option<String>) -> (same: bool)
    ensures
        same == (optional_text(*left) == optional_text(*right)),
{
    match (left, right) {
        (Some(l), Some(r)) => text_equal(l.as_str(), r.as_str()),
        (None, None) => true,
        _ => false,
    }
}

/// Whether two seed lists are equal.
fn same_seeds(left: &Vec<u64>, right: &Vec<u64>) -> (same: bool)
    ensures
        same == (left@ == right@),
{
    if left.len() != right.len() {
        return false;
    }
    let mut index: usize = 0;
    while index < left.len()
        invariant
            left@.len() == right@.len(),
            index <= left@.len(),
            forall|j: int| 0 <= j < index ==> left@[j] == right@[j],
        decreases left@.len() - index,
    {
        if left[index] != right[index] {
            return false;
        }
        index = index + 1;
    }
    assert(left@ =~= right@);
    true
}

/// Every hard gate of a receipt passed, and there is at least one.
pub open spec fn hard_gates_pass(gates: Seq<ResultHardGate>) -> bool {
    gates.len() > 0 && forall|i: int| 0 <= i < gates.len() ==> (#[trigger] gates[i]).status@ == "pass"@
}

/// Whether every hard gate passed, and there is at least one.
pub fn all_hard_gates_pass(gates: &Vec<ResultHardGate>) -> (pass: bool)
    ensures
        pass == hard_gates_pass(gates@),
{
    if gates.len() == 0 {
        return false;
    }
    let mut index: usize = 0;
    while index < gates.len()
        invariant
            index <= gates@.len(),
            forall|j: int| 0 <= j < index ==> (#[trigger] gates@[j]).status@ == "pass"@,
        decreases gates@.len() - index,
    {
        if !text_equal(gates[index].status.as_str(), "pass") {
            return false;
        }
        index = index + 1;
    }
    true
}

/// The `id=status` entries of the gates that did not pass, in order.
pub open spec fn failed_gate_entries(gates: Seq<ResultHardGate>) -> Seq<Seq<char>>
    decreases gates.len(),
{
    if gates.len() == 0 {
        Seq::empty()
    } else {
        let rest = failed_gate_entries(gates.drop_last());
        let last = gates.last();
        if last.status@ == "pass"@ {
            rest
        } else {
            rest.push(last.id@ + "="@ + last.status@)
        }
    }
}

/// `all_pass` when every gate passed, else the failed entries joined by commas.
pub open spec fn failed_gates_text(gates: Seq<ResultHardGate>) -> Seq<char> {
    if failed_gate_entries(gates).len() == 0 {
        "all_pass"@
    } else {
        joined(failed_gate_entries(gates), ","@)
    }
}

/// The hard gates of a receipt that did not pass.
pub fn failed_hard_gates(gates: &Vec<ResultHardGate>) -> (text: String)
    ensures
        text@ == failed_gates_text(gates@),
{
    let mut body = String::new();
    let mut count: usize = 0;
    let mut index: usize = 0;
    while index < gates.len()
        invariant
            index <= gates@.len(),
            count <= index,
            count == failed_gate_entries(gates@.take(index as int)).len(),
            body@ == joined(failed_gate_entries(gates@.take(index as int)), ","@),
        decreases gates@.len() - index,
    {
        let gate = &gates[index];
        proof {
            assert(gates@.take(index + 1).drop_last() =~= gates@.take(index as int));
        }
        if !text_equal(gate.status.as_str(), "pass") {
            if count > 0 {
                append_text(&mut body, ",");
            }
            append_text(&mut body, gate.id.as_str());
            append_text(&mut body, "=");
            append_text(&mut body, gate.status.as_str());
            proof {
                let entries = failed_gate_entries(gates@.take(index + 1));
                assert(entries.drop_last() =~= failed_gate_entries(gates@.take(index as int)));
                if count == 0 {
                    assert(entries.len() == 1);
                }
            }
            count = count + 1;
        }
        index = index + 1;
    }
    assert(gates@.take(gates@.len() as int) =~= gates@);
    if count == 0 {
        "all_pass".to_owned()
    } else {
        body
    }
}

/// A receipt whose verdict is `crash` or `discard` cannot be compared.
pub open spec fn usable_verdict(verdict: Seq<char>) -> bool {
    verdict != "crash"@ && verdict != "discard"@
}

/// The samples a comparison requires: at least five for a performance gate,
/// at least one otherwise.
pub open spec fn required_samples(performance: bool, configured_repeats: u32) -> u64 {
    if performance {
        if configured_repeats < 5 { 5 } else { configured_repeats as u64 }
    } else {
        if configured_repeats < 1 { 1 } else { configured_repeats as u64 }
    }
}

pub fn minimum_samples(performance: bool, configured_repeats: u32) -> (minimum: u64)
    ensures
        minimum == required_samples(performance, configured_repeats),
{
    let floor: u32 = if performance { 5 } else { 1 };
    if configured_repeats < floor {
        floor as u64
    } else {
        configured_repeats as u64
    }
}

/// `observed=<n>,required=<m>`.
pub open spec fn samples_text(observed: u64, required: u64) -> Seq<char> {
    "observed="@ + decimal_chars(observed) + ",required="@ + decimal_chars(required)
}

fn samples_detail(observed: u64, required: u64) -> (detail: String)
    ensures
        detail@ == samples_text(observed, required),
{
    let mut detail = "observed=".to_owned();
    let digits = decimal_text(observed);
    append_text(&mut detail, digits.as_str());
    append_text(&mut detail, ",required=");
    let digits = decimal_text(required);
    append_text(&mut detail, digits.as_str());
    detail
}

/// The evidence checks: each receipt must carry workload evidence.
pub open spec fn evidence_checks_spec(candidate: ResultIdentity, control: ResultIdentity) -> Seq<
    (Seq<char>, bool, Seq<char>),
> {
    seq![
        ("evidence.candidate_workload_profile"@, workload_evidence(candidate.profile), "class="@
            + evidence_class_text(candidate.profile.evidence_class) + ",profile_hash="@
            + optional_debug_text(optional_text(candidate.profile.workload_profile_hash))),
        ("evidence.control_workload_profile"@, workload_evidence(control.profile), "class="@
            + evidence_class_text(control.profile.evidence_class) + ",profile_hash="@
            + optional_debug_text(optional_text(control.profile.workload_profile_hash))),
    ]
}

fn evidence_detail(profile: &ResultProfile) -> (detail: String)
    ensures
        detail@ == "class="@ + evidence_class_text(profile.evidence_class) + ",profile_hash="@
            + optional_debug_text(optional_text(profile.workload_profile_hash)),
{
    let mut detail = "class=".to_owned();
    append_text(&mut detail, evidence_class_debug(profile.evidence_class));
    append_text(&mut detail, ",profile_hash=");
    let hash = optional_debug(&profile.workload_profile_hash);
    append_text(&mut detail, hash.as_str());
    detail
}

fn evidence_checks(candidate: &ResultIdentity, control: &ResultIdentity) -> (checks: Vec<
    ComparisonCheck,
>)
    ensures
        checks_view(checks@) == evidence_checks_spec(*candidate, *control),
{
    let mut checks: Vec<ComparisonCheck> = Vec::new();
    checks.push(
        boolean_check(
            "evidence.candidate_workload_profile",
            has_workload_evidence(&candidate.profile),
            evidence_detail(&candidate.profile),
        ),
    );
    checks.push(
        boolean_check(
            "evidence.control_workload_profile",
            has_workload_evidence(&control.profile),
            evidence_detail(&control.profile),
        ),
    );
    assert(checks_view(checks@) =~= evidence_checks_spec(*candidate, *control));
    checks
}

/// One `<side>.<field>` check of a receipt against its target.
pub open spec fn target_check(side: Seq<char>, field: Seq<char>, observed: Seq<char>, expected: Seq<char>) -> (
    Seq<char>,
    bool,
    Seq<char>,
) {
    (side + "."@ + field, observed == expected, "observed="@ + observed + ",expected="@ + expected)
}

/// The checks of one receipt against the suite, profile, backend and lane its
/// target names.
pub open spec fn target_checks_spec(side: Seq<char>, result: ResultIdentity, target: ComparisonTarget) -> Seq<
    (Seq<char>, bool, Seq<char>),
> {
    seq![
        target_check(side, "suite"@, result.suite@, target.suite@),
        target_check(side, "suite_hash"@, result.suite_hash@, target.suite_hash@),
        target_check(side, "profile"@, result.profile.id@, target.profile@),
        target_check(side, "backend"@, result.backend@, target.backend@),
        target_check(side, "lane"@, result.lane@, target.lane@),
    ]
}

fn target_field_check(side: &str, field: &str, observed: &str, expected: &str) -> (result: ComparisonCheck)
    ensures
        check_view(result) == target_check(side@, field@, observed@, expected@),
{
    let mut id = side.to_owned();
    append_text(&mut id, ".");
    append_text(&mut id, field);
    let passed = text_equal(observed, expected);
    check(id.as_str(), passed, observed, expected)
}

fn target_checks(side: &str, result: &ResultIdentity, target: &ComparisonTarget) -> (checks: Vec<
    ComparisonCheck,
>)
    ensures
        checks_view(checks@) == target_checks_spec(side@, *result, *target),
{
    let mut checks: Vec<ComparisonCheck> = Vec::new();
    checks.push(target_field_check(side, "suite", result.suite.as_str(), target.suite.as_str()));
    checks.push(
        target_field_check(side, "suite_hash", result.suite_hash.as_str(), target.suite_hash.as_str()),
    );
    checks.push(target_field_check(side, "profile", result.profile.id.as_str(), target.profile.as_str()));
    checks.push(target_field_check(side, "backend", result.backend.as_str(), target.backend.as_str()));
    checks.push(target_field_check(side, "lane", result.lane.as_str(), target.lane.as_str()));
    assert(checks_view(checks@) =~= target_checks_spec(side@, *result, *target));
    checks
}

/// The checks that both receipts report their program gate's metric, statistic,
/// direction, and one unit.
pub open spec fn metric_checks_spec(
    gate: ComparisonTarget,
    candidate: ResultIdentity,
    control: ResultIdentity,
) -> Seq<(Seq<char>, bool, Seq<char>)> {
    seq![
        ("metric.name"@, candidate.metric_name@ == gate.primary_metric_otel_name@ && control.metric_name@
            == gate.primary_metric_otel_name@, "observed="@ + pair_text(
            candidate.metric_name@,
            control.metric_name@,
        ) + ",expected="@ + gate.primary_metric_otel_name@),
        ("metric.statistic"@, candidate.metric_statistic@ == gate.statistic@ && control.metric_statistic@
            == gate.statistic@, "observed="@ + pair_text(
            candidate.metric_statistic@,
            control.metric_statistic@,
        ) + ",expected="@ + gate.statistic@),
        ("metric.direction"@, candidate.metric_direction == gate.direction && control.metric_direction
            == gate.direction, pair_text(
            direction_text(candidate.metric_direction),
            direction_text(control.metric_direction),
        ) + ",expected="@ + direction_text(gate.direction)),
        ("metric.unit"@, candidate.metric_unit@ == control.metric_unit@, pair_text(
            candidate.metric_unit@,
            control.metric_unit@,
        )),
    ]
}

fn metric_checks(gate: &ComparisonTarget, candidate: &ResultIdentity, control: &ResultIdentity) -> (checks:
    Vec<ComparisonCheck>)
    ensures
        checks_view(checks@) == metric_checks_spec(*gate, *candidate, *control),
{
    let mut checks: Vec<ComparisonCheck> = Vec::new();
    let names = pair_detail(candidate.metric_name.as_str(), control.metric_name.as_str());
    let passed = text_equal(candidate.metric_name.as_str(), gate.primary_metric_otel_name.as_str())
        && text_equal(control.metric_name.as_str(), gate.primary_metric_otel_name.as_str());
    checks.push(check("metric.name", passed, names.as_str(), gate.primary_metric_otel_name.as_str()));
    let statistics = pair_detail(candidate.metric_statistic.as_str(), control.metric_statistic.as_str());
    let passed = text_equal(candidate.metric_statistic.as_str(), gate.statistic.as_str()) && text_equal(
        control.metric_statistic.as_str(),
        gate.statistic.as_str(),
    );
    checks.push(check("metric.statistic", passed, statistics.as_str(), gate.statistic.as_str()));
    let mut directions = pair_detail(
        direction_debug(candidate.metric_direction),
        direction_debug(control.metric_direction),
    );
    append_text(&mut directions, ",expected=");
    append_text(&mut directions, direction_debug(gate.direction));
    let passed = same_direction(candidate.metric_direction, gate.direction) && same_direction(
        control.metric_direction,
        gate.direction,
    );
    checks.push(boolean_check("metric.direction", passed, directions));
    let units = pair_detail(candidate.metric_unit.as_str(), control.metric_unit.as_str());
    let passed = text_equal(candidate.metric_unit.as_str(), control.metric_unit.as_str());
    checks.push(boolean_check("metric.unit", passed, units));
    assert(checks_view(checks@) =~= metric_checks_spec(*gate, *candidate, *control));
    checks
}

/// Both receipts belong to one non-blank batch.
pub open spec fn same_batch(candidate: Option<Seq<char>>, control: Option<Seq<char>>) -> bool {
    &&& candidate.is_some()
    &&& candidate == control
    &&& !trims_to_empty(candidate.unwrap())
}

/// The checks that both receipts come from one batch, machine, toolchain,
/// lockfile, commit and seed list.
pub open spec fn identity_checks_spec(candidate: ResultIdentity, control: ResultIdentity) -> Seq<
    (Seq<char>, bool, Seq<char>),
> {
    seq![
        ("identity.batch"@, same_batch(optional_text(candidate.batch_id), optional_text(control.batch_id)), pair_text(
            optional_debug_text(optional_text(candidate.batch_id)),
            optional_debug_text(optional_text(control.batch_id)),
        )),
        ("identity.machine"@, candidate.profile.machine@ == control.profile.machine@, pair_text(
            candidate.profile.machine@,
            control.profile.machine@,
        )),
        ("identity.rustc"@, candidate.profile.rustc@ == control.profile.rustc@, pair_text(
            candidate.profile.rustc@,
            control.profile.rustc@,
        )),
        ("identity.lockfile"@, candidate.profile.lockfile_hash@ == control.profile.lockfile_hash@, pair_text(
            candidate.profile.lockfile_hash@,
            control.profile.lockfile_hash@,
        )),
        ("identity.commit"@, candidate.candidate_commit@ == control.candidate_commit@, pair_text(
            candidate.candidate_commit@,
            control.candidate_commit@,
        )),
        ("identity.seeds"@, candidate.seeds@ == control.seeds@, pair_text(
            seeds_text(candidate.seeds@),
            seeds_text(control.seeds@),
        )),
    ]
}

fn identity_checks(candidate: &ResultIdentity, control: &ResultIdentity) -> (checks: Vec<ComparisonCheck>)
    ensures
        checks_view(checks@) == identity_checks_spec(*candidate, *control),
{
    let mut checks: Vec<ComparisonCheck> = Vec::new();
    let candidate_batch = optional_debug(&candidate.batch_id);
    let control_batch = optional_debug(&control.batch_id);
    let batch_named = match &candidate.batch_id {
        Some(batch) => !is_blank(batch.as_str()),
        None => false,
    };
    let passed = candidate.batch_id.is_some() && same_optional_text(&candidate.batch_id, &control.batch_id)
        && batch_named;
    checks.push(
        boolean_check(
            "identity.batch",
            passed,
            pair_detail(candidate_batch.as_str(), control_batch.as_str()),
        ),
    );
    let c = &candidate.profile;
    let k = &control.profile;
    checks.push(
        boolean_check(
            "identity.machine",
            text_equal(c.machine.as_str(), k.machine.as_str()),
            pair_detail(c.machine.as_str(), k.machine.as_str()),
        ),
    );
    checks.push(
        boolean_check(
            "identity.rustc",
            text_equal(c.rustc.as_str(), k.rustc.as_str()),
            pair_detail(c.rustc.as_str(), k.rustc.as_str()),
        ),
    );
    checks.push(
        boolean_check(
            "identity.lockfile",
            text_equal(c.lockfile_hash.as_str(), k.lockfile_hash.as_str()),
            pair_detail(c.lockfile_hash.as_str(), k.lockfile_hash.as_str()),
        ),
    );
    checks.push(
        boolean_check(
            "identity.commit",
            text_equal(candidate.candidate_commit.as_str(), control.candidate_commit.as_str()),
            pair_detail(candidate.candidate_commit.as_str(), control.candidate_commit.as_str()),
        ),
    );
    let candidate_seeds = seeds_debug(&candidate.seeds);
    let control_seeds = seeds_debug(&control.seeds);
    checks.push(
        boolean_check(
            "identity.seeds",
            same_seeds(&candidate.seeds, &control.seeds),
            pair_detail(candidate_seeds.as_str(), control_seeds.as_str()),
        ),
    );
    assert(checks_view(checks@) =~= identity_checks_spec(*candidate, *control));
    checks
}

/// The checks that each receipt passed its hard gates, has a usable verdict
/// and enough samples.
pub open spec fn outcome_checks_spec(
    candidate: ResultIdentity,
    control: ResultIdentity,
    candidate_minimum: u64,
    control_minimum: u64,
) -> Seq<(Seq<char>, bool, Seq<char>)> {
    seq![
        ("candidate.hard_gates"@, hard_gates_pass(candidate.hard_gates@), failed_gates_text(candidate.hard_gates@)),
        ("control.hard_gates"@, hard_gates_pass(control.hard_gates@), failed_gates_text(control.hard_gates@)),
        ("candidate.verdict"@, usable_verdict(candidate.verdict@), candidate.verdict@),
        ("control.verdict"@, usable_verdict(control.verdict@), control.verdict@),
        ("candidate.samples"@, candidate.sample_count >= candidate_minimum, samples_text(
            candidate.sample_count,
            candidate_minimum,
        )),
        ("control.samples"@, control.sample_count >= control_minimum, samples_text(
            control.sample_count,
            control_minimum,
        )),
    ]
}

fn verdict_usable(verdict: &str) -> (usable: bool)
    ensures
        usable == usable_verdict(verdict@),
{
    !text_equal(verdict, "crash") && !text_equal(verdict, "discard")
}

fn outcome_checks(
    candidate: &ResultIdentity,
    control: &ResultIdentity,
    candidate_minimum: u64,
    control_minimum: u64,
) -> (checks: Vec<ComparisonCheck>)
    ensures
        checks_view(checks@) == outcome_checks_spec(*candidate, *control, candidate_minimum, control_minimum),
{
    let mut checks: Vec<ComparisonCheck> = Vec::new();
    checks.push(
        boolean_check(
            "candidate.hard_gates",
            all_hard_gates_pass(&candidate.hard_gates),
            failed_hard_gates(&candidate.hard_gates),
        ),
    );
    checks.push(
        boolean_check(
            "control.hard_gates",
            all_hard_gates_pass(&control.hard_gates),
            failed_hard_gates(&control.hard_gates),
        ),
    );
    checks.push(
        boolean_check(
            "candidate.verdict",
            verdict_usable(candidate.verdict.as_str()),
            candidate.verdict.clone(),
        ),
    );
    checks.push(
        boolean_check("control.verdict", verdict_usable(control.verdict.as_str()), control.verdict.clone()),
    );
    checks.push(
        boolean_check(
            "candidate.samples",
            candidate.sample_count >= candidate_minimum,
            samples_detail(candidate.sample_count, candidate_minimum),
        ),
    );
    checks.push(
        boolean_check(
            "control.samples",
            control.sample_count >= control_minimum,
            samples_detail(control.sample_count, control_minimum),
        ),
    );
    assert(checks_view(checks@) =~= outcome_checks_spec(*candidate, *control, candidate_minimum, control_minimum));
    checks
}

/// The checks made only when a program gate and its control share a suite, or a
/// profile: then the receipts must carry the same hash of it.
pub open spec fn pairing_checks_spec(
    gate: ComparisonTarget,
    control_plan: ComparisonTarget,
    candidate: ResultIdentity,
    control: ResultIdentity,
) -> Seq<(Seq<char>, bool, Seq<char>)> {
    (if gate.suite@ == control_plan.suite@ {
        seq![
            ("identity.suite_hash"@, candidate.suite_hash@ == control.suite_hash@, pair_text(
                candidate.suite_hash@,
                control.suite_hash@,
            )),
        ]
    } else {
        Seq::empty()
    }) + (if gate.profile@ == control_plan.profile@ {
        seq![
            ("identity.profile_hash"@, candidate.profile.hash@ == control.profile.hash@, pair_text(
                candidate.profile.hash@,
                control.profile.hash@,
            )),
        ]
    } else {
        Seq::empty()
    })
}

fn pairing_checks(
    gate: &ComparisonTarget,
    control_plan: &ComparisonTarget,
    candidate: &ResultIdentity,
    control: &ResultIdentity,
) -> (checks: Vec<ComparisonCheck>)
    ensures
        checks_view(checks@) == pairing_checks_spec(*gate, *control_plan, *candidate, *control),
{
    let mut checks: Vec<ComparisonCheck> = Vec::new();
    if text_equal(gate.suite.as_str(), control_plan.suite.as_str()) {
        checks.push(
            boolean_check(
                "identity.suite_hash",
                text_equal(candidate.suite_hash.as_str(), control.suite_hash.as_str()),
                pair_detail(candidate.suite_hash.as_str(), control.suite_hash.as_str()),
            ),
        );
    }
    if text_equal(gate.profile.as_str(), control_plan.profile.as_str()) {
        checks.push(
            boolean_check(
                "identity.profile_hash",
                text_equal(candidate.profile.hash.as_str(), control.profile.hash.as_str()),
                pair_detail(candidate.profile.hash.as_str(), control.profile.hash.as_str()),
            ),
        );
    }
    assert(checks_view(checks@) =~= pairing_checks_spec(*gate, *control_plan, *candidate, *control));
    checks
}

/// Every comparability check of a candidate and its control, in the order the
/// receipt lists them.
pub open spec fn comparability_checks_spec(
    gate: ComparisonTarget,
    control_plan: ComparisonTarget,
    performance: bool,
    candidate: ResultIdentity,
    control: ResultIdentity,
) -> Seq<(Seq<char>, bool, Seq<char>)> {
    evidence_checks_spec(candidate, control) + target_checks_spec("candidate"@, candidate, gate)
        + target_checks_spec("control"@, control, control_plan) + metric_checks_spec(gate, candidate, control)
        + identity_checks_spec(candidate, control) + outcome_checks_spec(
        candidate,
        control,
        required_samples(performance, gate.configured_repeats),
        required_samples(performance, control_plan.configured_repeats),
    ) + pairing_checks_spec(gate, control_plan, candidate, control)
}

fn append_checks(checks: &mut Vec<ComparisonCheck>, more: Vec<ComparisonCheck>)
    ensures
        checks_view(final(checks)@) == checks_view(old(checks)@) + checks_view(more@),
{
    let mut more = more;
    let ghost added = more@;
    checks.append(&mut more);
    assert(checks_view(checks@) =~= checks_view(old(checks)@) + checks_view(added));
}

/// The comparability checks for a candidate receipt and its paired control,
/// against their program gate (`performance` when it is a performance gate) and the
/// control it names.
pub fn comparability_checks(
    gate: &ComparisonTarget,
    control_plan: &ComparisonTarget,
    performance: bool,
    candidate: &ResultIdentity,
    control: &ResultIdentity,
) -> (checks: Vec<ComparisonCheck>)
    ensures
        checks_view(checks@) == comparability_checks_spec(*gate, *control_plan, performance, *candidate, *control),
        candidate.verdict@ == "crash"@ || candidate.verdict@ == "discard"@ || control.verdict@ == "crash"@
            || control.verdict@ == "discard"@ ==> exists|i: int|
            0 <= i < checks@.len() && !(#[trigger] checks@[i]).passed,
{
    let candidate_minimum = minimum_samples(performance, gate.configured_repeats);
    let control_minimum = minimum_samples(performance, control_plan.configured_repeats);
    let mut checks = evidence_checks(candidate, control);
    append_checks(&mut checks, target_checks("candidate", candidate, gate));
    append_checks(&mut checks, target_checks("control", control, control_plan));
    append_checks(&mut checks, metric_checks(gate, candidate, control));
    append_checks(&mut checks, identity_checks(candidate, control));
    append_checks(&mut checks, outcome_checks(candidate, control, candidate_minimum, control_minimum));
    append_checks(&mut checks, pairing_checks(gate, control_plan, candidate, control));
    proof {
        lemma_unusable_verdict_is_invalid(*gate, *control_plan, performance, *candidate, *control, false, false, 0);
        let all = comparability_checks_spec(*gate, *control_plan, performance, *candidate, *control);
        if candidate.verdict@ == "crash"@ || candidate.verdict@ == "discard"@ || control.verdict@ == "crash"@
            || control.verdict@ == "discard"@ {
            let k = choose|k: int| 0 <= k < all.len() && !(#[trigger] all[k]).1;
            assert(checks_view(checks@)[k] == check_view(checks@[k]));
        }
    }
    checks
}

/// Whether every check passed.
pub fn all_checks_pass(checks: &Vec<ComparisonCheck>) -> (pass: bool)
    ensures
        pass == forall|i: int| 0 <= i < checks@.len() ==> (#[trigger] checks@[i]).passed,
{
    let mut index: usize = 0;
    while index < checks.len()
        invariant
            index <= checks@.len(),
            forall|j: int| 0 <= j < index ==> (#[trigger] checks@[j]).passed,
        decreases checks@.len() - index,
    {
        if !checks[index].passed {
            return false;
        }
        index = index + 1;
    }
    true
}

/// The outcome: `Invalid` unless every comparability check passed; `Better` when
/// the effect clears the decisive threshold in the metric's direction; `Worse`
/// when it regresses beyond it or any comparison constraint failed;
/// otherwise `Inconclusive`.
pub open spec fn verdict_for(comparable: bool, clears: bool, regresses: bool, failed_constraints: nat) -> ComparisonVerdict {
    if !comparable {
        ComparisonVerdict::Invalid
    } else if clears {
        ComparisonVerdict::Better
    } else if regresses || failed_constraints > 0 {
        ComparisonVerdict::Worse
    } else {
        ComparisonVerdict::Inconclusive
    }
}

pub fn comparison_verdict(comparable: bool, clears: bool, regresses: bool, failed_constraints: &Vec<String>) -> (verdict:
    ComparisonVerdict)
    ensures
        verdict == verdict_for(comparable, clears, regresses, failed_constraints@.len()),
{
    if !comparable {
        ComparisonVerdict::Invalid
    } else if clears {
        ComparisonVerdict::Better
    } else if regresses || failed_constraints.len() > 0 {
        ComparisonVerdict::Worse
    } else {
        ComparisonVerdict::Inconclusive
    }
}

/// The ids of the comparison constraints that failed, in order.
pub open spec fn failed_ids(constraints: Seq<(String, bool)>) -> Seq<Seq<char>>
    decreases constraints.len(),
{
    if constraints.len() == 0 {
        Seq::empty()
    } else {
        let rest = failed_ids(constraints.drop_last());
        if constraints.last().1 {
            rest
        } else {
            rest.push(constraints.last().0@)
        }
    }
}

/// The ids of the constraints, given with whether each passed, that failed.
pub fn failed_constraint_ids(constraints: &Vec<(String, bool)>) -> (ids: Vec<String>)
    ensures
        ids@.map_values(|id: String| id@) == failed_ids(constraints@),
{
    let mut ids: Vec<String> = Vec::new();
    let mut index: usize = 0;
    while index < constraints.len()
        invariant
            index <= constraints@.len(),
            ids@.map_values(|id: String| id@) == failed_ids(constraints@.take(index as int)),
        decreases constraints@.len() - index,
    {
        proof {
            assert(constraints@.take(index + 1).drop_last() =~= constraints@.take(index as int));
        }
        if !constraints[index].1 {
            let ghost before = ids@;
            ids.push(constraints[index].0.clone());
            assert(ids@.map_values(|id: String| id@) =~= before.map_values(|id: String| id@).push(
                constraints@[index as int].0@,
            ));
        }
        index = index + 1;
    }
    assert(constraints@.take(constraints@.len() as int) =~= constraints@);
    ids
}

/// The reason a candidate that fails comparison constraints is worse.
pub fn constraint_failure_reason(failed: &Vec<String>) -> (reason: String)
    ensures
        reason@ == "candidate fails comparison constraints: "@ + joined(
            failed@.map_values(|id: String| id@),
            ","@,
        ),
{
    let ghost parts = failed@.map_values(|id: String| id@);
    let mut reason = "candidate fails comparison constraints: ".to_owned();
    let ghost head = reason@;
    let mut index: usize = 0;
    while index < failed.len()
        invariant
            index <= failed@.len(),
            parts == failed@.map_values(|id: String| id@),
            head == "candidate fails comparison constraints: "@,
            reason@ == head + joined(parts.take(index as int), ","@),
        decreases failed@.len() - index,
    {
        if index > 0 {
            append_text(&mut reason, ",");
        }
        append_text(&mut reason, failed[index].as_str());
        proof {
            assert(parts.take(index + 1).drop_last() =~= parts.take(index as int));
            if index == 0 {
                assert(joined(parts.take(1), ","@) == parts[0]);
            }
        }
        index = index + 1;
    }
    assert(parts.take(failed@.len() as int) =~= parts);
    reason
}

} // verus!

verus! {

/// A receipt without workload evidence (a smoke or legacy receipt) never
/// enters a performance or economics comparison: one of the comparability
/// checks fails, so the comparison's outcome is `Invalid` whatever the
/// measured effect.
pub proof fn lemma_missing_workload_evidence_is_invalid(
    gate: ComparisonTarget,
    control_plan: ComparisonTarget,
    performance: bool,
    candidate: ResultIdentity,
    control: ResultIdentity,
    clears: bool,
    regresses: bool,
    failed_constraints: nat,
)
    requires
        !workload_evidence(candidate.profile) || !workload_evidence(control.profile),
    ensures
        !(forall|i: int|
            0 <= i < comparability_checks_spec(gate, control_plan, performance, candidate, control).len()
                ==> (#[trigger] comparability_checks_spec(gate, control_plan, performance, candidate, control)[i]).1),
        verdict_for(false, clears, regresses, failed_constraints) == ComparisonVerdict::Invalid,
{
    let all = comparability_checks_spec(gate, control_plan, performance, candidate, control);
    let evidence = evidence_checks_spec(candidate, control);
    assert(all[0] == evidence[0]);
    assert(all[1] == evidence[1]);
    if !workload_evidence(candidate.profile) {
        assert(!all[0].1);
    } else {
        assert(!all[1].1);
    }
}

/// A crashed or discarded run is never compared: whenever either receipt's
/// verdict is `crash` or `discard`, the comparability check of that side's
/// verdict fails (its detail is the verdict), so not every check passes and
/// the comparison is `Invalid` whatever the measured effect.
pub proof fn lemma_unusable_verdict_is_invalid(
    gate: ComparisonTarget,
    control_plan: ComparisonTarget,
    performance: bool,
    candidate: ResultIdentity,
    control: ResultIdentity,
    clears: bool,
    regresses: bool,
    failed_constraints: nat,
)
    ensures
        candidate.verdict@ == "crash"@ || candidate.verdict@ == "discard"@ ==> exists|i: int|
            0 <= i < comparability_checks_spec(gate, control_plan, performance, candidate, control).len()
                && (#[trigger] comparability_checks_spec(gate, control_plan, performance, candidate, control)[i])
                == ("candidate.verdict"@, false, candidate.verdict@),
        control.verdict@ == "crash"@ || control.verdict@ == "discard"@ ==> exists|i: int|
            0 <= i < comparability_checks_spec(gate, control_plan, performance, candidate, control).len()
                && (#[trigger] comparability_checks_spec(gate, control_plan, performance, candidate, control)[i])
                == ("control.verdict"@, false, control.verdict@),
        candidate.verdict@ == "crash"@ || candidate.verdict@ == "discard"@ || control.verdict@ == "crash"@
            || control.verdict@ == "discard"@ ==> !(forall|i: int|
            0 <= i < comparability_checks_spec(gate, control_plan, performance, candidate, control).len()
                ==> (#[trigger] comparability_checks_spec(gate, control_plan, performance, candidate, control)[i]).1),
        verdict_for(false, clears, regresses, failed_constraints) == ComparisonVerdict::Invalid,
{
    let all = comparability_checks_spec(gate, control_plan, performance, candidate, control);
    let prefix = evidence_checks_spec(candidate, control) + target_checks_spec("candidate"@, candidate, gate)
        + target_checks_spec("control"@, control, control_plan) + metric_checks_spec(gate, candidate, control)
        + identity_checks_spec(candidate, control);
    let outcome = outcome_checks_spec(
        candidate,
        control,
        required_samples(performance, gate.configured_repeats),
        required_samples(performance, control_plan.configured_repeats),
    );
    assert(all == prefix + outcome + pairing_checks_spec(gate, control_plan, candidate, control));
    assert(all[prefix.len() as int + 2] == outcome[2]);
    assert(all[prefix.len() as int + 3] == outcome[3]);
    if candidate.verdict@ == "crash"@ || candidate.verdict@ == "discard"@ {
        assert(all[prefix.len() as int + 2] == ("candidate.verdict"@, false, candidate.verdict@));
    }
    if control.verdict@ == "crash"@ || control.verdict@ == "discard"@ {
        assert(all[prefix.len() as int + 3] == ("control.verdict"@, false, control.verdict@));
    }
}

} // verus!
