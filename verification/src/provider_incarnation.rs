//! The compound provider-incarnation contract: the generation and publication
//! process summaries are combined into six named checks, their anomaly count,
//! the first mismatch, and a trace digest.

use crate::codec::{ascii_text, be_u64, extend_bytes, hex_lower, push_u64};
use crate::digest::{sha256_hex, sha256_of};
use crate::workload::ascii_bytes;
use vstd::prelude::*;
use vstd::string::StringSliceAdditionalSpecFns;

verus! {

/// Deliberately unsafe incarnation behavior used by the frozen poison.
#[derive(Clone, Copy, Debug, PartialEq, Eq, Structural)]
pub enum ProviderIncarnationMode {
    Correct,
    AcceptStaleSourceIncarnation,
}

pub open spec fn incarnation_mode_id(mode: ProviderIncarnationMode) -> Seq<char> {
    match mode {
        ProviderIncarnationMode::Correct => "correct"@,
        ProviderIncarnationMode::AcceptStaleSourceIncarnation => "accept_stale_source_incarnation"@,
    }
}

impl ProviderIncarnationMode {
    /// Stable identifier used by eval receipts.
    pub fn id(self) -> (id: &'static str)
        ensures
            id@ == incarnation_mode_id(self),
            id.is_ascii(),
    {
        proof {
            reveal_strlit("correct");
            reveal_strlit("accept_stale_source_incarnation");
        }
        match self {
            ProviderIncarnationMode::Correct => "correct",
            ProviderIncarnationMode::AcceptStaleSourceIncarnation => "accept_stale_source_incarnation",
        }
    }
}

/// What the generation process contract reports.
#[derive(Clone, Debug, PartialEq, Eq)]
pub struct GenerationProcessSummary {
    pub authority_process_starts: u64,
    pub data_process_starts: u64,
    pub process_kills: u64,
    pub authority_failovers: u64,
    pub source_provider_fence_persisted: bool,
    pub source_fence_precedes_activation: bool,
    pub fenced_commit_attempts: u64,
    pub fenced_commit_rejections: u64,
    pub stale_generation_routing_rejected: bool,
    pub active_generation_routing_authorized: bool,
    pub committed_data_writes: u64,
    pub trace_sha256: String,
}

/// What the publication process contract reports.
#[derive(Clone, Debug, PartialEq, Eq)]
pub struct PublicationProcessSummary {
    pub authority_process_starts: u64,
    pub process_kills: u64,
    pub authority_failovers: u64,
    pub publication_writes: u64,
    pub checks: Vec<(String, bool)>,
    pub trace_sha256: String,
}

/// The six judgements of a handoff.
#[derive(Clone, Copy, Debug, PartialEq, Eq, Structural)]
pub struct ProviderObservations {
    pub external_authority_separate: bool,
    pub source_fence_precedes_activation: bool,
    pub stale_commit_rejected: bool,
    pub stale_route_rejected: bool,
    pub stale_publication_rejected: bool,
    pub destination_operations_authorized: bool,
}

/// Canonical semantic report for one external-authority provider handoff.
#[derive(Clone, Debug, PartialEq, Eq)]
pub struct ProviderIncarnationReport {
    pub seed: u64,
    pub mode: ProviderIncarnationMode,
    pub executed_checks: u64,
    pub anomaly_count: u64,
    pub first_mismatch: Option<String>,
    pub authority_process_starts: u64,
    pub data_process_starts: u64,
    pub process_kills: u64,
    pub authority_failovers: u64,
    pub fenced_commit_attempts: u64,
    pub fenced_commit_rejections: u64,
    pub publication_writes: u64,
    pub checks: Vec<(String, bool)>,
    pub trace_sha256: String,
}

/// The value of the first named check, false when absent.
pub open spec fn named_check(checks: Seq<(String, bool)>, name: Seq<char>) -> bool
    decreases checks.len(),
{
    if checks.len() == 0 {
        false
    } else if checks[0].0@ == name {
        checks[0].1
    } else {
        named_check(checks.drop_first(), name)
    }
}

/// Whether two texts are equal.
pub fn text_equal(a: &str, b: &str) -> (equal: bool)
    ensures
        equal == (a@ == b@),
{
    let equal = crate::replay::bytes_equal(a.as_bytes(), b.as_bytes());
    proof {
        vstd::utf8::encode_utf8_decode_utf8(a@);
        vstd::utf8::encode_utf8_decode_utf8(b@);
    }
    equal
}

fn lookup_check(checks: &[(String, bool)], name: &str) -> (passed: bool)
    ensures
        passed == named_check(checks@, name@),
{
    let mut index: usize = 0;
    proof {
        assert(checks@.skip(0) =~= checks@);
    }
    while index < checks.len()
        invariant
            index <= checks@.len(),
            named_check(checks@, name@) == named_check(checks@.skip(index as int), name@),
        decreases checks@.len() - index,
    {
        assert(checks@.skip(index as int)[0] == checks@[index as int]);
        if text_equal(checks[index].0.as_str(), name) {
            return checks[index].1;
        }
        assert(checks@.skip(index as int).drop_first() =~= checks@.skip(index + 1));
        index = index + 1;
    }
    assert(checks@.skip(index as int) =~= Seq::<(String, bool)>::empty());
    false
}

/// The six judgements: the authority runs apart from the provider processes;
/// the source fence is persisted before activation; every fenced commit was
/// refused; stale routing was refused (only the correct mode counts); stale
/// publication was fenced; and the destination routes commits and publishes.
pub open spec fn observe(
    mode: ProviderIncarnationMode,
    generation: GenerationProcessSummary,
    publication: PublicationProcessSummary,
) -> ProviderObservations {
    ProviderObservations {
        external_authority_separate: generation.authority_process_starts == 3 && generation.data_process_starts == 6,
        source_fence_precedes_activation: generation.source_provider_fence_persisted
            && generation.source_fence_precedes_activation,
        stale_commit_rejected: generation.fenced_commit_attempts > 0 && generation.fenced_commit_rejections
            == generation.fenced_commit_attempts,
        stale_route_rejected: generation.stale_generation_routing_rejected && mode is Correct,
        stale_publication_rejected: named_check(publication.checks@, "stale_generation_is_fenced"@),
        destination_operations_authorized: generation.active_generation_routing_authorized
            && generation.committed_data_writes >= 2 && named_check(
            publication.checks@,
            "active_generation_authorizes_publication"@,
        ) && named_check(publication.checks@, "matching_publish_commits"@),
    }
}

/// The check names, in their canonical (sorted) order.
pub open spec fn check_names() -> Seq<Seq<char>> {
    seq![
        "destination_incarnation_routes_commits_and_publishes"@,
        "external_authority_is_separate_from_provider_identities"@,
        "newer_incarnation_fences_old_commit_authority"@,
        "newer_incarnation_fences_old_object_publication"@,
        "newer_incarnation_fences_old_routing"@,
        "source_provider_fence_precedes_destination_activation"@,
    ]
}

/// The check outcomes, in the order of `check_names`.
pub open spec fn check_values(o: ProviderObservations) -> Seq<bool> {
    seq![
        o.destination_operations_authorized,
        o.external_authority_separate,
        o.stale_commit_rejected,
        o.stale_publication_rejected,
        o.stale_route_rejected,
        o.source_fence_precedes_activation,
    ]
}

/// The number of failed checks among the first `n`.
pub open spec fn failed_count(values: Seq<bool>) -> nat
    decreases values.len(),
{
    if values.len() == 0 {
        0
    } else {
        failed_count(values.drop_last()) + if values.last() { 0nat } else { 1nat }
    }
}

/// The name of the first failed check.
pub open spec fn first_failed(names: Seq<Seq<char>>, values: Seq<bool>) -> Option<Seq<char>>
    decreases values.len(),
{
    if values.len() == 0 || names.len() == 0 {
        None
    } else if !values[0] {
        Some(names[0])
    } else {
        first_failed(names.drop_first(), values.drop_first())
    }
}

/// The trace digest input: the tag, the seed in big-endian, the mode's
/// identifier, the two process traces, then each check's name, in canonical
/// order, followed by one byte for its outcome.
pub open spec fn trace_preimage(
    seed: u64,
    mode: ProviderIncarnationMode,
    generation_trace: Seq<u8>,
    publication_trace: Seq<u8>,
    o: ProviderObservations,
) -> Seq<u8> {
    ascii_bytes("okv-provider-incarnation-contract-v1\0"@) + be_u64(seed) + ascii_bytes(incarnation_mode_id(mode))
        + generation_trace + publication_trace + trace_tail(check_names(), check_values(o), 6)
}

fn push_literal(bytes: &mut Vec<u8>, text: &str)
    requires
        text.is_ascii(),
    ensures
        final(bytes)@ == old(bytes)@ + ascii_bytes(text@),
{
    proof {
        vstd::string::is_ascii_spec_bytes(text);
    }
    assert(text.spec_bytes() =~= ascii_bytes(text@));
    extend_bytes(bytes, text.as_bytes());
}

/// The name of check `k`.
fn check_name(k: usize) -> (name: &'static str)
    requires
        k < 6,
    ensures
        name@ == check_names()[k as int],
        name.is_ascii(),
{
    if k == 0 {
        proof {
            reveal_strlit("destination_incarnation_routes_commits_and_publishes");
        }
        "destination_incarnation_routes_commits_and_publishes"
    } else if k == 1 {
        proof {
            reveal_strlit("external_authority_is_separate_from_provider_identities");
        }
        "external_authority_is_separate_from_provider_identities"
    } else if k == 2 {
        proof {
            reveal_strlit("newer_incarnation_fences_old_commit_authority");
        }
        "newer_incarnation_fences_old_commit_authority"
    } else if k == 3 {
        proof {
            reveal_strlit("newer_incarnation_fences_old_object_publication");
        }
        "newer_incarnation_fences_old_object_publication"
    } else if k == 4 {
        proof {
            reveal_strlit("newer_incarnation_fences_old_routing");
        }
        "newer_incarnation_fences_old_routing"
    } else {
        proof {
            reveal_strlit("source_provider_fence_precedes_destination_activation");
        }
        "source_provider_fence_precedes_destination_activation"
    }
}

/// The outcome of check `k`.
fn check_value(o: &ProviderObservations, k: usize) -> (passed: bool)
    requires
        k < 6,
    ensures
        passed == check_values(*o)[k as int],
{
    if k == 0 {
        o.destination_operations_authorized
    } else if k == 1 {
        o.external_authority_separate
    } else if k == 2 {
        o.stale_commit_rejected
    } else if k == 3 {
        o.stale_publication_rejected
    } else if k == 4 {
        o.stale_route_rejected
    } else {
        o.source_fence_precedes_activation
    }
}

/// The named checks in canonical order, the number failed, and the first
/// failed name.
fn judge_checks(observations: &ProviderObservations) -> (judged: (Vec<(String, bool)>, u64, Option<String>))
    ensures
        judged.0@.len() == 6,
        forall|k: int| 0 <= k < 6 ==> (#[trigger] judged.0@[k]).0@ == check_names()[k] && judged.0@[k].1
            == check_values(*observations)[k],
        judged.1 == failed_count(check_values(*observations)),
        judged.2 matches Some(name) ==> first_failed(check_names(), check_values(*observations)) == Some(name@),
        judged.2 is None <==> first_failed(check_names(), check_values(*observations)) is None,
{
    let ghost values = check_values(*observations);
    let mut checks: Vec<(String, bool)> = Vec::new();
    let mut anomalies: u64 = 0;
    let mut first_mismatch: Option<String> = None;
    let mut k: usize = 0;
    while k < 6
        invariant
            k <= 6,
            values == check_values(*observations),
            checks@.len() == k,
            forall|j: int| 0 <= j < k ==> (#[trigger] checks@[j]).0@ == check_names()[j] && checks@[j].1 == values[j],
            anomalies == failed_count(values.take(k as int)),
            anomalies <= k,
            first_mismatch matches Some(name) ==> first_failed(check_names(), values) == Some(name@),
            first_mismatch is None <==> (forall|j: int| 0 <= j < k ==> values[j]),
        decreases 6 - k,
    {
        assert(values.take(k + 1).drop_last() =~= values.take(k as int));
        let name = check_name(k);
        let passed = check_value(observations, k);
        checks.push((name.to_owned(), passed));
        if !passed {
            anomalies = anomalies + 1;
            if first_mismatch.is_none() {
                proof {
                    lemma_first_failed_at(check_names(), values, k as int);
                }
                first_mismatch = Some(name.to_owned());
            }
        }
        k = k + 1;
    }
    assert(values.take(6) =~= values);
    proof {
        if first_mismatch is None {
            lemma_first_failed_none(check_names(), values);
        }
    }
    (checks, anomalies, first_mismatch)
}

/// The lowercase hexadecimal trace digest.
fn trace_digest(
    seed: u64,
    mode: ProviderIncarnationMode,
    observations: &ProviderObservations,
    generation_trace: &str,
    publication_trace: &str,
) -> (trace: String)
    ensures
        trace@ == ascii_text(
            hex_lower(
                sha256_of(
                    trace_preimage(
                        seed,
                        mode,
                        generation_trace.spec_bytes(),
                        publication_trace.spec_bytes(),
                        *observations,
                    ),
                ),
            ),
        ),
{
    let mut preimage: Vec<u8> = Vec::new();
    let tag = "okv-provider-incarnation-contract-v1\0";
    proof {
        reveal_strlit("okv-provider-incarnation-contract-v1\0");
    }
    assert(tag.is_ascii());
    push_literal(&mut preimage, tag);
    push_u64(&mut preimage, seed);
    push_literal(&mut preimage, mode.id());
    extend_bytes(&mut preimage, generation_trace.as_bytes());
    extend_bytes(&mut preimage, publication_trace.as_bytes());
    let ghost head = preimage@;
    let mut j: usize = 0;
    while j < 6
        invariant
            j <= 6,
            preimage@ == head + trace_tail(check_names(), check_values(*observations), j as nat),
        decreases 6 - j,
    {
        push_literal(&mut preimage, check_name(j));
        preimage.push(if check_value(observations, j) { 1u8 } else { 0u8 });
        j = j + 1;
        assert(preimage@ =~= head + trace_tail(check_names(), check_values(*observations), j as nat));
    }
    proof {
        assert(preimage@ =~= trace_preimage(
            seed,
            mode,
            generation_trace.spec_bytes(),
            publication_trace.spec_bytes(),
            *observations,
        ));
    }
    sha256_hex(preimage.as_slice())
}

/// Build the report: the checks in canonical order, the number of failed
/// checks, the first failed check's name, and the lowercase hexadecimal
/// SHA-256 of the trace preimage.
pub fn build_report(
    seed: u64,
    mode: ProviderIncarnationMode,
    observations: ProviderObservations,
    authority_process_starts: u64,
    data_process_starts: u64,
    process_kills: u64,
    authority_failovers: u64,
    fenced_commit_attempts: u64,
    fenced_commit_rejections: u64,
    publication_writes: u64,
    generation_trace: &str,
    publication_trace: &str,
) -> (report: ProviderIncarnationReport)
    ensures
        report.seed == seed,
        report.mode == mode,
        report.executed_checks == 6,
        report.checks@.len() == 6,
        forall|k: int| 0 <= k < 6 ==> (#[trigger] report.checks@[k]).0@ == check_names()[k] && report.checks@[k].1
            == check_values(observations)[k],
        report.anomaly_count == failed_count(check_values(observations)),
        report.first_mismatch matches Some(name) ==> first_failed(check_names(), check_values(observations)) == Some(
            name@,
        ),
        report.first_mismatch is None <==> first_failed(check_names(), check_values(observations)) is None,
        report.authority_process_starts == authority_process_starts,
        report.data_process_starts == data_process_starts,
        report.process_kills == process_kills,
        report.authority_failovers == authority_failovers,
        report.fenced_commit_attempts == fenced_commit_attempts,
        report.fenced_commit_rejections == fenced_commit_rejections,
        report.publication_writes == publication_writes,
        report.trace_sha256@ == ascii_text(
            hex_lower(
                sha256_of(
                    trace_preimage(
                        seed,
                        mode,
                        generation_trace.spec_bytes(),
                        publication_trace.spec_bytes(),
                        observations,
                    ),
                ),
            ),
        ),
{
    let (checks, anomaly_count, first_mismatch) = judge_checks(&observations);
    let trace_sha256 = trace_digest(seed, mode, &observations, generation_trace, publication_trace);
    ProviderIncarnationReport {
        seed,
        mode,
        executed_checks: 6,
        anomaly_count,
        first_mismatch,
        authority_process_starts,
        data_process_starts,
        process_kills,
        authority_failovers,
        fenced_commit_attempts,
        fenced_commit_rejections,
        publication_writes,
        checks,
        trace_sha256,
    }
}

/// The names and outcome bytes of the first `n` checks.
pub open spec fn trace_tail(names: Seq<Seq<char>>, values: Seq<bool>, n: nat) -> Seq<u8>
    decreases n,
{
    if n == 0 {
        Seq::empty()
    } else {
        trace_tail(names, values, (n - 1) as nat) + ascii_bytes(names[n - 1]) + seq![
            if values[n - 1] { 1u8 } else { 0u8 },
        ]
    }
}

proof fn lemma_first_failed_at(names: Seq<Seq<char>>, values: Seq<bool>, k: int)
    requires
        0 <= k < values.len(),
        k < names.len(),
        !values[k],
        forall|j: int| 0 <= j < k ==> values[j],
    ensures
        first_failed(names, values) == Some(names[k]),
    decreases k,
{
    if k > 0 {
        assert forall|j: int| 0 <= j < k - 1 implies values.drop_first()[j] by {
            assert(values[j + 1]);
        }
        lemma_first_failed_at(names.drop_first(), values.drop_first(), k - 1);
    }
}

proof fn lemma_first_failed_none(names: Seq<Seq<char>>, values: Seq<bool>)
    requires
        forall|j: int| 0 <= j < values.len() ==> values[j],
    ensures
        first_failed(names, values) is None,
    decreases values.len(),
{
    if values.len() > 0 && names.len() > 0 {
        assert forall|j: int| 0 <= j < values.len() - 1 implies values.drop_first()[j] by {
            assert(values[j + 1]);
        }
        lemma_first_failed_none(names.drop_first(), values.drop_first());
    }
}

/// Combine the generation and publication process summaries into the
/// compound report: process counts are summed across both contracts, the
/// fenced commits and data starts come from the generation contract, and the
/// publication writes from the publication contract.
pub fn run_provider_incarnation_contract(
    seed: u64,
    mode: ProviderIncarnationMode,
    generation: &GenerationProcessSummary,
    publication: &PublicationProcessSummary,
) -> (report: ProviderIncarnationReport)
    requires
        generation.authority_process_starts + publication.authority_process_starts <= u64::MAX,
        generation.process_kills + publication.process_kills <= u64::MAX,
        generation.authority_failovers + publication.authority_failovers <= u64::MAX,
    ensures
        report.seed == seed,
        report.mode == mode,
        report.checks@.len() == 6,
        forall|k: int| 0 <= k < 6 ==> (#[trigger] report.checks@[k]).0@ == check_names()[k] && report.checks@[k].1
            == check_values(observe(mode, *generation, *publication))[k],
        report.executed_checks == 6,
        report.anomaly_count == failed_count(check_values(observe(mode, *generation, *publication))),
        report.first_mismatch matches Some(name) ==> first_failed(
            check_names(),
            check_values(observe(mode, *generation, *publication)),
        ) == Some(name@),
        report.first_mismatch is None <==> first_failed(
            check_names(),
            check_values(observe(mode, *generation, *publication)),
        ) is None,
        report.authority_process_starts == generation.authority_process_starts + publication.authority_process_starts,
        report.data_process_starts == generation.data_process_starts,
        report.process_kills == generation.process_kills + publication.process_kills,
        report.authority_failovers == generation.authority_failovers + publication.authority_failovers,
        report.fenced_commit_attempts == generation.fenced_commit_attempts,
        report.fenced_commit_rejections == generation.fenced_commit_rejections,
        report.publication_writes == publication.publication_writes,
        report.trace_sha256@ == ascii_text(
            hex_lower(
                sha256_of(
                    trace_preimage(
                        seed,
                        mode,
                        vstd::utf8::encode_utf8(generation.trace_sha256@),
                        vstd::utf8::encode_utf8(publication.trace_sha256@),
                        observe(mode, *generation, *publication),
                    ),
                ),
            ),
        ),
{
    let stale_publication_rejected = lookup_check(publication.checks.as_slice(), "stale_generation_is_fenced");
    let destination_publication_authorized = lookup_check(
        publication.checks.as_slice(),
        "active_generation_authorizes_publication",
    ) && lookup_check(publication.checks.as_slice(), "matching_publish_commits");
    let observations = ProviderObservations {
        external_authority_separate: generation.authority_process_starts == 3 && generation.data_process_starts == 6,
        source_fence_precedes_activation: generation.source_provider_fence_persisted
            && generation.source_fence_precedes_activation,
        stale_commit_rejected: generation.fenced_commit_attempts > 0 && generation.fenced_commit_rejections
            == generation.fenced_commit_attempts,
        stale_route_rejected: generation.stale_generation_routing_rejected && matches!(
            mode,
            ProviderIncarnationMode::Correct
        ),
        stale_publication_rejected,
        destination_operations_authorized: generation.active_generation_routing_authorized
            && generation.committed_data_writes >= 2 && destination_publication_authorized,
    };
    build_report(
        seed,
        mode,
        observations,
        generation.authority_process_starts + publication.authority_process_starts,
        generation.data_process_starts,
        generation.process_kills + publication.process_kills,
        generation.authority_failovers + publication.authority_failovers,
        generation.fenced_commit_attempts,
        generation.fenced_commit_rejections,
        publication.publication_writes,
        generation.trace_sha256.as_str(),
        publication.trace_sha256.as_str(),
    )
}

} // verus!
