//! The evaluation suite vocabulary: evidence classes, budgets, directions,
//! instruments, telemetry and dataset declarations, and the identifier and
//! statistic rules shared by suite validation.

use crate::codec::append_text;
use crate::key_set::{insert_key, key_texts, keys_sorted};
use crate::program::{error_if, message2, message3, report, report_when, texts};
use crate::provider_incarnation::text_equal;
use vstd::prelude::*;

verus! {

/// The telemetry a suite requires.
#[derive(Clone, Debug, PartialEq, Eq)]
pub struct TelemetryConfig {
    pub protocol: String,
    pub endpoint_env: String,
    pub required_signals: Vec<String>,
    pub required_for_profiles: Vec<String>,
}

/// One dataset a suite declares.
#[derive(Clone, Debug, PartialEq, Eq)]
pub struct DatasetConfig {
    pub logical_bytes: u64,
    pub key_count: u64,
    pub seeds: Vec<u64>,
}

/// The strongest claim one eval profile is allowed to support.
#[derive(Clone, Copy, Debug, PartialEq, Eq, Structural)]
pub enum EvidenceClass {
    /// Component and semantic contract evidence; the default.
    Contract,
    /// Wiring, deployment, and bounded preflight evidence only.
    Smoke,
    /// A calibrated performance or economics workload against a named control.
    Workload,
}

impl EvidenceClass {
    /// Contract evidence is the default class.
    pub fn default_class() -> (class: Self)
        ensures
            class == EvidenceClass::Contract,
    {
        EvidenceClass::Contract
    }
}

#[derive(Clone, Copy, Debug, PartialEq, Eq, Structural)]
pub enum CacheState {
    Resident,
    WarmElastic,
    ColdElastic,
    EmptyWorker,
}

#[derive(Clone, Copy, Debug, PartialEq, Eq, Structural)]
pub enum BudgetKind {
    Events,
    Operations,
    Seconds,
}

#[derive(Clone, Copy, Debug, PartialEq, Eq, Structural)]
pub enum Direction {
    Higher,
    Lower,
}

#[derive(Clone, Copy, Debug, PartialEq, Eq, Structural)]
pub enum ConstraintOp {
    Eq,
    Ge,
    Gt,
    Le,
    Lt,
}

/// The attributes a registry may record and must record on resources.
#[derive(Clone, Debug, PartialEq, Eq)]
pub struct CardinalityPolicy {
    pub max_series_per_run: u64,
    pub banned_attributes: Vec<String>,
    pub required_resource_attributes: Vec<String>,
}

#[derive(Clone, Copy, Debug, PartialEq, Eq, Structural)]
pub enum InstrumentKind {
    Counter,
    Gauge,
    Histogram,
}

/// Why a suite could not be loaded.
#[derive(Clone, Debug, PartialEq, Eq)]
pub enum ConfigError {
    Io { path: String, message: String },
    Parse { path: String, message: String },
    Invalid(Vec<String>),
}

/// The statistics a lane or constraint may name.
pub open spec fn is_supported_statistic(statistic: Seq<char>) -> bool {
    statistic == "median"@ || statistic == "p99"@ || statistic == "total"@ || statistic == "minimum"@
        || statistic == "maximum"@ || statistic == "per_operation"@ || statistic == "passed"@
}

/// Whether a statistic is one the runner computes.
pub fn supported_statistic(statistic: &str) -> (supported: bool)
    ensures
        supported == is_supported_statistic(statistic@),
{
    text_equal(statistic, "median") || text_equal(statistic, "p99") || text_equal(statistic, "total")
        || text_equal(statistic, "minimum") || text_equal(statistic, "maximum") || text_equal(
        statistic,
        "per_operation",
    ) || text_equal(statistic, "passed")
}

/// Whether `c` has the Unicode `White_Space` property, which `char::is_whitespace`
/// and `str::trim` go by.
pub open spec fn is_unicode_whitespace(c: char) -> bool {
    ('\u{9}' <= c <= '\u{d}') || c == ' ' || c == '\u{85}' || c == '\u{a0}' || c == '\u{1680}' || ('\u{2000}' <= c
        <= '\u{200a}') || c == '\u{2028}' || c == '\u{2029}' || c == '\u{202f}' || c == '\u{205f}' || c == '\u{3000}'
}

/// Whether `text` is empty once surrounding whitespace is trimmed: every
/// character is whitespace.
pub open spec fn trims_to_empty(text: Seq<char>) -> bool {
    forall|i: int| 0 <= i < text.len() ==> is_unicode_whitespace(#[trigger] text[i])
}

fn whitespace_char(c: char) -> (whitespace: bool)
    ensures
        whitespace == is_unicode_whitespace(c),
{
    ('\u{9}' <= c && c <= '\u{d}') || c == ' ' || c == '\u{85}' || c == '\u{a0}' || c == '\u{1680}' || ('\u{2000}'
        <= c && c <= '\u{200a}') || c == '\u{2028}' || c == '\u{2029}' || c == '\u{202f}' || c == '\u{205f}' || c
        == '\u{3000}'
}

/// Whether the text holds only whitespace, so that trimming leaves it empty.
pub(crate) fn is_blank(text: &str) -> (blank: bool)
    ensures
        blank == trims_to_empty(text@),
{
    broadcast use vstd::string::axiom_spec_iter;
    let mut blank = true;
    for c in it: text.chars()
        invariant
            it.seq() == text@,
            blank == (forall|j: int| 0 <= j < it.index() ==> is_unicode_whitespace(#[trigger] text@[j])),
    {
        if !whitespace_char(c) {
            blank = false;
        }
    }
    blank
}

/// The errors identifier validation reports for one value, given the values
/// already seen.
pub open spec fn id_errors(kind: Seq<char>, value: Seq<char>, seen: Set<Seq<char>>) -> Seq<Seq<char>> {
    (if trims_to_empty(value) { seq![kind + " id must not be empty"@] } else { Seq::empty() }) + (if seen.contains(
        value,
    ) {
        seq![ "duplicate "@ + kind + " id "@ + value]
    } else {
        Seq::empty()
    })
}

/// The errors for the first `n` values of a list of identifiers.
pub open spec fn ids_errors(kind: Seq<char>, values: Seq<Seq<char>>, n: nat) -> Seq<Seq<char>>
    decreases n,
{
    if n == 0 || n > values.len() {
        Seq::empty()
    } else {
        ids_errors(kind, values, (n - 1) as nat) + id_errors(
            kind,
            values[n - 1],
            values.take(n - 1).to_set(),
        )
    }
}

/// Check a list of identifiers: each blank one and each repeat is an error,
/// appended in order; the distinct identifiers are returned in sorted order.
pub fn unique_ids(kind: &str, values: &Vec<String>, errors: &mut Vec<String>) -> (unique: Vec<String>)
    ensures
        keys_sorted(unique@),
        key_texts(unique@) == texts(values@).to_set(),
        final(errors)@.len() >= old(errors)@.len(),
        final(errors)@.subrange(0, old(errors)@.len() as int) == old(errors)@,
        final(errors)@.subrange(old(errors)@.len() as int, final(errors)@.len() as int).map_values(|e: String| e@)
            == ids_errors(kind@, texts(values@), values@.len()),
        texts(final(errors)@) == texts(old(errors)@) + ids_errors(kind@, texts(values@), values@.len()),
{
    let ghost names = texts(values@);
    let ghost start = errors@;
    let mut unique: Vec<String> = Vec::new();
    let mut index: usize = 0;
    while index < values.len()
        invariant
            index <= values@.len(),
            names == texts(values@),
            keys_sorted(unique@),
            key_texts(unique@) == names.take(index as int).to_set(),
            errors@.len() >= start.len(),
            errors@.subrange(0, start.len() as int) == start,
            errors@.subrange(start.len() as int, errors@.len() as int).map_values(|e: String| e@) == ids_errors(
                kind@,
                names,
                index as nat,
            ),
        decreases values@.len() - index,
    {
        let value = values[index].as_str();
        let ghost before = errors@;
        let ghost seen = names.take(index as int).to_set();
        if is_blank(value) {
            let mut message = kind.to_owned();
            append_text(&mut message, " id must not be empty");
            errors.push(message);
        }
        let mut seen_before = false;
        let mut k: usize = 0;
        while k < unique.len()
            invariant
                k <= unique@.len(),
                seen_before == exists|j: int| 0 <= j < k && unique@[j]@ == value@,
            decreases unique@.len() - k,
        {
            if text_equal(unique[k].as_str(), value) {
                seen_before = true;
            }
            k = k + 1;
        }
        assert(seen_before == key_texts(unique@).contains(value@));
        if seen_before {
            let mut message = "duplicate ".to_owned();
            append_text(&mut message, kind);
            append_text(&mut message, " id ");
            append_text(&mut message, value);
            errors.push(message);
        } else {
            insert_key(&mut unique, values[index].clone());
        }
        proof {
            assert(names.take(index + 1) =~= names.take(index as int).push(value@));
            let grown = names.take(index + 1);
            let prior = names.take(index as int);
            assert forall|s: Seq<char>| grown.to_set().contains(s) <==> seen.insert(value@).contains(s) by {
                if grown.contains(s) {
                    let j = choose|j: int| 0 <= j < grown.len() && grown[j] == s;
                    if j < index {
                        assert(prior[j] == s);
                        assert(prior.contains(s));
                    }
                }
                if prior.contains(s) {
                    let j = choose|j: int| 0 <= j < prior.len() && prior[j] == s;
                    assert(grown[j] == s);
                }
                if s == value@ {
                    assert(grown[index as int] == s);
                }
            }
            assert(grown.to_set() =~= seen.insert(value@));
            if seen_before {
                assert(seen.insert(value@) =~= seen);
            }
            let tail = errors@.subrange(start.len() as int, errors@.len() as int).map_values(|e: String| e@);
            let prior_tail = before.subrange(start.len() as int, before.len() as int).map_values(|e: String| e@);
            assert(errors@.subrange(0, start.len() as int) =~= start);
            assert(tail =~= prior_tail + id_errors(kind@, value@, seen));
        }
        index = index + 1;
    }
    assert(names.take(values@.len() as int) =~= names);
    proof {
        let tail = errors@.subrange(start.len() as int, errors@.len() as int);
        assert(errors@ =~= start + tail);
        assert(crate::program::texts(errors@) =~= crate::program::texts(start) + tail.map_values(|e: String| e@));
    }
    unique
}

} // verus!

verus! {

/// The telemetry errors of a suite.
pub open spec fn telemetry_errors(telemetry: TelemetryConfig) -> Seq<Seq<char>> {
    error_if(telemetry.protocol@ != "otlp-http"@, "unsupported telemetry protocol "@ + telemetry.protocol@) + error_if(
        trims_to_empty(telemetry.endpoint_env@),
        "telemetry endpoint_env must not be empty"@,
    ) + error_if(
        texts(telemetry.required_signals@).to_set() != set!["logs"@, "metrics"@, "traces"@],
        "telemetry required_signals must contain logs, metrics, and traces"@,
    )
}

/// Whether the texts, as a set, are exactly `expected`.
fn same_text_set(values: &Vec<String>, expected: &Vec<&str>) -> (same: bool)
    ensures
        same == (texts(values@).to_set() == expected@.map_values(|e: &str| e@).to_set()),
{
    let ghost have = texts(values@);
    let ghost want = expected@.map_values(|e: &str| e@);
    let mut i: usize = 0;
    while i < values.len()
        invariant
            i <= values@.len(),
            have == texts(values@),
            want == expected@.map_values(|e: &str| e@),
            forall|k: int| 0 <= k < i ==> want.contains(#[trigger] have[k]),
        decreases values@.len() - i,
    {
        let mut found = false;
        let mut j: usize = 0;
        while j < expected.len()
            invariant
                j <= expected@.len(),
                i < values@.len(),
                have == texts(values@),
                want == expected@.map_values(|e: &str| e@),
                found == exists|q: int| 0 <= q < j && want[q] == have[i as int],
            decreases expected@.len() - j,
        {
            assert(want[j as int] == expected@[j as int]@ && have[i as int] == values@[i as int]@);
            if text_equal(values[i].as_str(), expected[j]) {
                found = true;
            }
            j = j + 1;
        }
        if !found {
            proof {
                assert(have.to_set().contains(have[i as int]));
                assert(!want.contains(have[i as int]));
            }
            return false;
        }
        i = i + 1;
    }
    let mut j: usize = 0;
    while j < expected.len()
        invariant
            j <= expected@.len(),
            have == texts(values@),
            want == expected@.map_values(|e: &str| e@),
            forall|k: int| 0 <= k < values@.len() ==> want.contains(#[trigger] have[k]),
            forall|q: int| 0 <= q < j ==> have.contains(#[trigger] want[q]),
        decreases expected@.len() - j,
    {
        let mut found = false;
        let mut i: usize = 0;
        while i < values.len()
            invariant
                i <= values@.len(),
                j < expected@.len(),
                have == texts(values@),
                want == expected@.map_values(|e: &str| e@),
                found == exists|k: int| 0 <= k < i && have[k] == want[j as int],
            decreases values@.len() - i,
        {
            assert(want[j as int] == expected@[j as int]@ && have[i as int] == values@[i as int]@);
            if text_equal(values[i].as_str(), expected[j]) {
                found = true;
            }
            i = i + 1;
        }
        if !found {
            proof {
                assert(want.to_set().contains(want[j as int]));
                assert(!have.contains(want[j as int]));
            }
            return false;
        }
        j = j + 1;
    }
    assert(have.to_set() =~= want.to_set());
    true
}

proof fn lemma_literal_set3(a: &str, b: &str, c: &str)
    ensures
        seq![a, b, c].map_values(|e: &str| e@).to_set() == set![a@, b@, c@],
{
    let s = seq![a, b, c].map_values(|e: &str| e@);
    assert(s[0] == a@ && s[1] == b@ && s[2] == c@);
    assert(s.to_set() =~= set![a@, b@, c@]);
}

/// Check a suite's telemetry declaration.
pub fn validate_telemetry(telemetry: &TelemetryConfig, errors: &mut Vec<String>)
    ensures
        texts(final(errors)@) == texts(old(errors)@) + telemetry_errors(*telemetry),
{
    let ghost start = texts(errors@);
    report_when(
        errors,
        !text_equal(telemetry.protocol.as_str(), "otlp-http"),
        message2("unsupported telemetry protocol ", telemetry.protocol.as_str()),
    );
    let ghost a = texts(errors@);
    report_when(
        errors,
        is_blank(telemetry.endpoint_env.as_str()),
        "telemetry endpoint_env must not be empty".to_owned(),
    );
    let ghost b = texts(errors@);
    let expected = vec!["logs", "metrics", "traces"];
    proof {
        lemma_literal_set3("logs", "metrics", "traces");
        assert(expected@ == seq!["logs", "metrics", "traces"]);
    }
    let same = same_text_set(&telemetry.required_signals, &expected);
    report_when(errors, !same, "telemetry required_signals must contain logs, metrics, and traces".to_owned());
    proof {
        let t1 = error_if(telemetry.protocol@ != "otlp-http"@, "unsupported telemetry protocol "@ + telemetry.protocol@);
        let t2 = error_if(trims_to_empty(telemetry.endpoint_env@), "telemetry endpoint_env must not be empty"@);
        let t3 = error_if(
            texts(telemetry.required_signals@).to_set() != set!["logs"@, "metrics"@, "traces"@],
            "telemetry required_signals must contain logs, metrics, and traces"@,
        );
        assert(b =~= start + (t1 + t2));
        assert(texts(errors@) =~= start + (t1 + t2 + t3));
    }
}

} // verus!

verus! {

/// One metric definition, as suite validation reads it. Whether its histogram
/// boundaries are finite and strictly increasing is decided by the caller,
/// which holds them as floating-point numbers.
#[derive(Clone, Debug, PartialEq, Eq)]
pub struct MetricOutline {
    pub id: String,
    pub otel_name: String,
    pub kind: InstrumentKind,
    pub unit: String,
    pub description: String,
    pub attributes: Vec<String>,
    pub required_attributes: Vec<String>,
    pub boundaries_empty: bool,
    pub boundaries_ordered: bool,
}

/// A metric registry, as suite validation reads it.
#[derive(Clone, Debug, PartialEq, Eq)]
pub struct RegistryOutline {
    pub schema_version: u32,
    pub namespace: String,
    pub cardinality: CardinalityPolicy,
    pub metrics: Vec<MetricOutline>,
}

/// The resource attributes the eval runner records.
pub open spec fn runner_resource_attributes() -> Set<Seq<char>> {
    set![
        "service.name"@, "service.version"@, "deployment.environment.name"@, "okv.eval.run.id"@,
        "okv.eval.batch.id"@, "okv.eval.suite.id"@, "okv.eval.suite.hash"@, "okv.eval.profile.id"@,
        "okv.eval.profile.hash"@, "okv.eval.candidate.commit"@, "okv.eval.backend"@,
    ]
}

/// The registry-wide contract errors.
pub open spec fn registry_contract_errors(registry: RegistryOutline) -> Seq<Seq<char>> {
    let required = registry.cardinality.required_resource_attributes@;
    error_if(
        !crate::mvcc_gc_authority::starts_with(registry.namespace@, "okv."@),
        "metric namespace must start with okv."@,
    ) + error_if(registry.cardinality.max_series_per_run == 0, "max_series_per_run must be positive"@) + error_if(
        required.len() == 0,
        "required_resource_attributes must not be empty"@,
    ) + error_if(
        texts(required).to_set() != runner_resource_attributes(),
        "required_resource_attributes must exactly match the eval runner resource contract"@,
    )
}

/// Check the registry-wide contract.
pub fn validate_registry_contract(registry: &RegistryOutline, errors: &mut Vec<String>)
    ensures
        texts(final(errors)@) == texts(old(errors)@) + registry_contract_errors(*registry),
{
    let ghost start = texts(errors@);
    report_when(
        errors,
        !crate::mvcc_gc_authority::text_starts_with(registry.namespace.as_str(), "okv."),
        "metric namespace must start with okv.".to_owned(),
    );
    let ghost a = texts(errors@);
    report_when(
        errors,
        registry.cardinality.max_series_per_run == 0,
        "max_series_per_run must be positive".to_owned(),
    );
    let ghost b = texts(errors@);
    report_when(
        errors,
        registry.cardinality.required_resource_attributes.len() == 0,
        "required_resource_attributes must not be empty".to_owned(),
    );
    let ghost c = texts(errors@);
    let expected = vec![
        "service.name",
        "service.version",
        "deployment.environment.name",
        "okv.eval.run.id",
        "okv.eval.batch.id",
        "okv.eval.suite.id",
        "okv.eval.suite.hash",
        "okv.eval.profile.id",
        "okv.eval.profile.hash",
        "okv.eval.candidate.commit",
        "okv.eval.backend",
    ];
    proof {
        let w = expected@.map_values(|e: &str| e@);
        assert(w[0] == "service.name"@ && w[1] == "service.version"@ && w[2] == "deployment.environment.name"@
            && w[3] == "okv.eval.run.id"@ && w[4] == "okv.eval.batch.id"@ && w[5] == "okv.eval.suite.id"@
            && w[6] == "okv.eval.suite.hash"@ && w[7] == "okv.eval.profile.id"@ && w[8] == "okv.eval.profile.hash"@
            && w[9] == "okv.eval.candidate.commit"@ && w[10] == "okv.eval.backend"@);
        assert(w.to_set() =~= runner_resource_attributes()) by {
            assert forall|t: Seq<char>| runner_resource_attributes().contains(t) implies w.contains(t) by {
                if t == "service.name"@ { assert(w[0] == t); }
                if t == "service.version"@ { assert(w[1] == t); }
                if t == "deployment.environment.name"@ { assert(w[2] == t); }
                if t == "okv.eval.run.id"@ { assert(w[3] == t); }
                if t == "okv.eval.batch.id"@ { assert(w[4] == t); }
                if t == "okv.eval.suite.id"@ { assert(w[5] == t); }
                if t == "okv.eval.suite.hash"@ { assert(w[6] == t); }
                if t == "okv.eval.profile.id"@ { assert(w[7] == t); }
                if t == "okv.eval.profile.hash"@ { assert(w[8] == t); }
                if t == "okv.eval.candidate.commit"@ { assert(w[9] == t); }
                if t == "okv.eval.backend"@ { assert(w[10] == t); }
            }
        }
    }
    let same = same_text_set(&registry.cardinality.required_resource_attributes, &expected);
    report_when(
        errors,
        !same,
        "required_resource_attributes must exactly match the eval runner resource contract".to_owned(),
    );
    proof {
        let required = registry.cardinality.required_resource_attributes@;
        let r1 = error_if(
            !crate::mvcc_gc_authority::starts_with(registry.namespace@, "okv."@),
            "metric namespace must start with okv."@,
        );
        let r2 = error_if(registry.cardinality.max_series_per_run == 0, "max_series_per_run must be positive"@);
        let r3 = error_if(required.len() == 0, "required_resource_attributes must not be empty"@);
        let r4 = error_if(
            texts(required).to_set() != runner_resource_attributes(),
            "required_resource_attributes must exactly match the eval runner resource contract"@,
        );
        assert(b =~= start + (r1 + r2));
        assert(c =~= start + (r1 + r2 + r3));
        assert(texts(errors@) =~= start + (r1 + r2 + r3 + r4));
    }
}

} // verus!

verus! {

/// Each required attribute must be allowlisted.
pub open spec fn required_attribute_errors(id: Seq<char>, required: Seq<Seq<char>>, allowed: Seq<Seq<char>>, n: nat) -> Seq<
    Seq<char>,
>
    decreases n,
{
    if n == 0 || n > required.len() {
        Seq::empty()
    } else {
        required_attribute_errors(id, required, allowed, (n - 1) as nat) + error_if(
            !allowed.contains(required[n - 1]),
            "metric "@ + id + " required attribute "@ + required[n - 1] + " is not allowlisted"@,
        )
    }
}

/// No attribute may be a banned high-cardinality one.
pub open spec fn banned_attribute_errors(id: Seq<char>, attributes: Seq<Seq<char>>, banned: Seq<Seq<char>>, n: nat) -> Seq<
    Seq<char>,
>
    decreases n,
{
    if n == 0 || n > attributes.len() {
        Seq::empty()
    } else {
        banned_attribute_errors(id, attributes, banned, (n - 1) as nat) + error_if(
            banned.contains(attributes[n - 1]),
            "metric "@ + id + " uses banned high-cardinality attribute "@ + attributes[n - 1],
        )
    }
}

/// A histogram needs finite, strictly increasing boundaries; other metrics
/// must have none.
pub open spec fn boundary_errors(metric: MetricOutline) -> Seq<Seq<char>> {
    if metric.kind == InstrumentKind::Histogram {
        error_if(metric.boundaries_empty, "histogram "@ + metric.id@ + " has no boundaries"@) + error_if(
            !metric.boundaries_ordered,
            "histogram "@ + metric.id@ + " boundaries must be finite and strictly increasing"@,
        )
    } else {
        error_if(!metric.boundaries_empty, "non-histogram metric "@ + metric.id@ + " must not define boundaries"@)
    }
}

/// The errors of one metric definition.
pub open spec fn metric_errors(namespace: Seq<char>, banned: Seq<Seq<char>>, metric: MetricOutline) -> Seq<Seq<char>> {
    let id = metric.id@;
    let attributes = texts(metric.attributes@);
    error_if(
        !crate::mvcc_gc_authority::starts_with(metric.otel_name@, namespace),
        "metric "@ + id + " name "@ + metric.otel_name@ + " is outside namespace "@ + namespace,
    ) + error_if(
        trims_to_empty(metric.unit@) || trims_to_empty(metric.description@),
        "metric "@ + id + " needs a unit and description"@,
    ) + ids_errors("metric "@ + id + " attribute"@, attributes, attributes.len()) + required_attribute_errors(
        id,
        texts(metric.required_attributes@),
        attributes,
        metric.required_attributes@.len(),
    ) + banned_attribute_errors(id, attributes, banned, attributes.len()) + boundary_errors(metric)
}

fn report_required_attributes(metric: &MetricOutline, errors: &mut Vec<String>)
    ensures
        texts(final(errors)@) == texts(old(errors)@) + required_attribute_errors(
            metric.id@,
            texts(metric.required_attributes@),
            texts(metric.attributes@),
            metric.required_attributes@.len(),
        ),
{
    let ghost start = texts(errors@);
    let ghost required = texts(metric.required_attributes@);
    let ghost allowed = texts(metric.attributes@);
    let mut k: usize = 0;
    while k < metric.required_attributes.len()
        invariant
            k <= metric.required_attributes@.len(),
            required == texts(metric.required_attributes@),
            allowed == texts(metric.attributes@),
            texts(errors@) == start + required_attribute_errors(metric.id@, required, allowed, k as nat),
        decreases metric.required_attributes@.len() - k,
    {
        let attribute = metric.required_attributes[k].as_str();
        let known = crate::program::appears_before(&metric.attributes, metric.attributes.len(), attribute);
        proof {
            assert(allowed.take(metric.attributes@.len() as int) =~= allowed);
        }
        let mut message = message3("metric ", metric.id.as_str(), " required attribute ");
        append_text(&mut message, attribute);
        append_text(&mut message, " is not allowlisted");
        report_when(errors, !known, message);
        proof {
            assert(required[k as int] == attribute@);
            assert(texts(errors@) =~= start + required_attribute_errors(metric.id@, required, allowed, (k + 1) as nat));
        }
        k = k + 1;
    }
}

fn report_banned_attributes(metric: &MetricOutline, banned: &Vec<String>, errors: &mut Vec<String>)
    ensures
        texts(final(errors)@) == texts(old(errors)@) + banned_attribute_errors(
            metric.id@,
            texts(metric.attributes@),
            texts(banned@),
            metric.attributes@.len(),
        ),
{
    let ghost start = texts(errors@);
    let ghost attributes = texts(metric.attributes@);
    let ghost bans = texts(banned@);
    let mut k: usize = 0;
    while k < metric.attributes.len()
        invariant
            k <= metric.attributes@.len(),
            attributes == texts(metric.attributes@),
            bans == texts(banned@),
            texts(errors@) == start + banned_attribute_errors(metric.id@, attributes, bans, k as nat),
        decreases metric.attributes@.len() - k,
    {
        let attribute = metric.attributes[k].as_str();
        let is_banned = crate::program::appears_before(banned, banned.len(), attribute);
        proof {
            assert(bans.take(banned@.len() as int) =~= bans);
        }
        let mut message = message3("metric ", metric.id.as_str(), " uses banned high-cardinality attribute ");
        append_text(&mut message, attribute);
        report_when(errors, is_banned, message);
        proof {
            assert(attributes[k as int] == attribute@);
            assert(texts(errors@) =~= start + banned_attribute_errors(metric.id@, attributes, bans, (k + 1) as nat));
        }
        k = k + 1;
    }
}

fn report_boundaries(metric: &MetricOutline, errors: &mut Vec<String>)
    ensures
        texts(final(errors)@) == texts(old(errors)@) + boundary_errors(*metric),
{
    let ghost start = texts(errors@);
    match metric.kind {
        InstrumentKind::Histogram => {
            report_when(errors, metric.boundaries_empty, message3("histogram ", metric.id.as_str(), " has no boundaries"));
            let ghost a = texts(errors@);
            report_when(
                errors,
                !metric.boundaries_ordered,
                message3("histogram ", metric.id.as_str(), " boundaries must be finite and strictly increasing"),
            );
            assert(texts(errors@) =~= start + boundary_errors(*metric));
        },
        _ => {
            report_when(
                errors,
                !metric.boundaries_empty,
                message3("non-histogram metric ", metric.id.as_str(), " must not define boundaries"),
            );
        },
    }
}

/// Check one metric definition against its registry's namespace and banned
/// attributes.
#[verifier::rlimit(40)]
pub fn validate_metric(namespace: &str, banned: &Vec<String>, metric: &MetricOutline, errors: &mut Vec<String>)
    ensures
        texts(final(errors)@) == texts(old(errors)@) + metric_errors(namespace@, texts(banned@), *metric),
{
    let ghost start = texts(errors@);
    let mut message = message3("metric ", metric.id.as_str(), " name ");
    append_text(&mut message, metric.otel_name.as_str());
    append_text(&mut message, " is outside namespace ");
    append_text(&mut message, namespace);
    report_when(
        errors,
        !crate::mvcc_gc_authority::text_starts_with(metric.otel_name.as_str(), namespace),
        message,
    );
    let ghost a = texts(errors@);
    report_when(
        errors,
        is_blank(metric.unit.as_str()) || is_blank(metric.description.as_str()),
        message3("metric ", metric.id.as_str(), " needs a unit and description"),
    );
    let ghost b = texts(errors@);
    let kind = message3("metric ", metric.id.as_str(), " attribute");
    let _allowed = unique_ids(kind.as_str(), &metric.attributes, errors);
    let ghost c = texts(errors@);
    report_required_attributes(metric, errors);
    let ghost d = texts(errors@);
    report_banned_attributes(metric, banned, errors);
    let ghost e = texts(errors@);
    report_boundaries(metric, errors);
    proof {
        let id = metric.id@;
        let attributes = texts(metric.attributes@);
        let m1 = error_if(
            !crate::mvcc_gc_authority::starts_with(metric.otel_name@, namespace@),
            "metric "@ + id + " name "@ + metric.otel_name@ + " is outside namespace "@ + namespace@,
        );
        let m2 = error_if(
            trims_to_empty(metric.unit@) || trims_to_empty(metric.description@),
            "metric "@ + id + " needs a unit and description"@,
        );
        let m3 = ids_errors("metric "@ + id + " attribute"@, attributes, attributes.len());
        let m4 = required_attribute_errors(id, texts(metric.required_attributes@), attributes, metric.required_attributes@.len());
        let m5 = banned_attribute_errors(id, attributes, texts(banned@), attributes.len());
        let m6 = boundary_errors(*metric);
        assert(b =~= start + (m1 + m2));
        assert(c =~= start + (m1 + m2 + m3));
        assert(d =~= start + (m1 + m2 + m3 + m4));
        assert(e =~= start + (m1 + m2 + m3 + m4 + m5));
        assert(texts(errors@) =~= start + (m1 + m2 + m3 + m4 + m5 + m6));
    }
}

pub open spec fn metric_id_texts(metrics: Seq<MetricOutline>) -> Seq<Seq<char>> {
    metrics.map_values(|m: MetricOutline| m.id@)
}

pub open spec fn otel_name_texts(metrics: Seq<MetricOutline>) -> Seq<Seq<char>> {
    metrics.map_values(|m: MetricOutline| m.otel_name@)
}

/// The errors of the first `n` metric definitions.
pub open spec fn metrics_errors(registry: RegistryOutline, n: nat) -> Seq<Seq<char>>
    decreases n,
{
    if n == 0 || n > registry.metrics@.len() {
        Seq::empty()
    } else {
        metrics_errors(registry, (n - 1) as nat) + metric_errors(
            registry.namespace@,
            texts(registry.cardinality.banned_attributes@),
            registry.metrics@[n - 1],
        )
    }
}

/// The errors of a metric registry.
pub open spec fn registry_errors(registry: RegistryOutline) -> Seq<Seq<char>> {
    let metrics = registry.metrics@;
    registry_contract_errors(registry) + ids_errors("metric"@, metric_id_texts(metrics), metrics.len()) + ids_errors(
        "OTel metric"@,
        otel_name_texts(metrics),
        metrics.len(),
    ) + metrics_errors(registry, metrics.len())
}

/// The values of a list, cloned.
fn collect_texts(metrics: &Vec<MetricOutline>, otel: bool) -> (values: Vec<String>)
    ensures
        texts(values@) == if otel { otel_name_texts(metrics@) } else { metric_id_texts(metrics@) },
{
    let mut values: Vec<String> = Vec::new();
    let mut k: usize = 0;
    while k < metrics.len()
        invariant
            k <= metrics@.len(),
            texts(values@) == if otel { otel_name_texts(metrics@).take(k as int) } else { metric_id_texts(metrics@).take(k as int) },
        decreases metrics@.len() - k,
    {
        let ghost before = values@;
        if otel {
            values.push(metrics[k].otel_name.clone());
        } else {
            values.push(metrics[k].id.clone());
        }
        proof {
            assert(texts(values@) =~= texts(before).push(values@[k as int]@));
            assert(otel_name_texts(metrics@).take(k + 1) =~= otel_name_texts(metrics@).take(k as int).push(metrics@[k as int].otel_name@));
            assert(metric_id_texts(metrics@).take(k + 1) =~= metric_id_texts(metrics@).take(k as int).push(metrics@[k as int].id@));
        }
        k = k + 1;
    }
    assert(otel_name_texts(metrics@).take(metrics@.len() as int) =~= otel_name_texts(metrics@));
    assert(metric_id_texts(metrics@).take(metrics@.len() as int) =~= metric_id_texts(metrics@));
    values
}

/// Check a metric registry: its contract, unique metric ids and OTel names,
/// and each metric definition.
pub fn validate_registry(registry: &RegistryOutline, errors: &mut Vec<String>)
    ensures
        texts(final(errors)@) == texts(old(errors)@) + registry_errors(*registry),
{
    let ghost start = texts(errors@);
    validate_registry_contract(registry, errors);
    let ghost a = texts(errors@);
    let ids = collect_texts(&registry.metrics, false);
    let _ = unique_ids("metric", &ids, errors);
    let ghost b = texts(errors@);
    let names = collect_texts(&registry.metrics, true);
    let _ = unique_ids("OTel metric", &names, errors);
    let ghost c = texts(errors@);
    let mut k: usize = 0;
    while k < registry.metrics.len()
        invariant
            k <= registry.metrics@.len(),
            texts(errors@) == c + metrics_errors(*registry, k as nat),
        decreases registry.metrics@.len() - k,
    {
        validate_metric(
            registry.namespace.as_str(),
            &registry.cardinality.banned_attributes,
            &registry.metrics[k],
            errors,
        );
        assert(texts(errors@) =~= c + metrics_errors(*registry, (k + 1) as nat));
        k = k + 1;
    }
    proof {
        let metrics = registry.metrics@;
        let g1 = registry_contract_errors(*registry);
        let g2 = ids_errors("metric"@, metric_id_texts(metrics), metrics.len());
        let g3 = ids_errors("OTel metric"@, otel_name_texts(metrics), metrics.len());
        let g4 = metrics_errors(*registry, metrics.len());
        assert(b =~= start + (g1 + g2));
        assert(c =~= start + (g1 + g2 + g3));
        assert(texts(errors@) =~= start + (g1 + g2 + g3 + g4));
    }
}

} // verus!

verus! {

/// A declared workload envelope, as suite validation reads it. What needs
/// floating-point arithmetic (each operation-mix fraction lying in (0, 1],
/// the valid fractions summing to 1.0 and that sum's display text, the
/// window amounts being finite and positive) is decided by the caller.
#[derive(Clone, Debug, PartialEq, Eq)]
pub struct WorkloadProfileOutline {
    pub schema_version: u32,
    pub name: String,
    pub dataset: String,
    pub access_pattern: String,
    pub matched_control: String,
    /// Each operation with whether its fraction is finite and in (0, 1].
    pub operation_mix: Vec<(String, bool)>,
    pub operation_mix_sums_to_one: bool,
    pub operation_mix_total_text: String,
    pub concurrency: Vec<u32>,
    pub warmup_positive: bool,
    pub measurement_positive: bool,
    pub failure_schedule: Vec<String>,
    pub resource_limits: Vec<(String, u64)>,
    pub required_metrics: Vec<String>,
}

/// One runner profile, as suite validation reads it.
#[derive(Clone, Debug, PartialEq, Eq)]
pub struct ProfileOutline {
    pub id: String,
    /// The budget limit is finite and positive.
    pub budget_limit_positive: bool,
    pub repeats: u32,
    pub evidence_class: EvidenceClass,
    pub workload_profile: Option<WorkloadProfileOutline>,
}

/// The error for a blank workload-profile field.
pub open spec fn field_errors(profile_id: Seq<char>, field: Seq<char>, value: Seq<char>) -> Seq<Seq<char>> {
    error_if(trims_to_empty(value), "profile "@ + profile_id + " workload_profile "@ + field + " must not be empty"@)
}

/// The header errors of a declared workload envelope.
pub open spec fn envelope_head_errors(profile: ProfileOutline, w: WorkloadProfileOutline, datasets: Seq<Seq<char>>) -> Seq<
    Seq<char>,
> {
    let pid = profile.id@;
    error_if(
        profile.evidence_class != EvidenceClass::Workload,
        "profile "@ + pid + " has a workload_profile but evidence_class is not workload"@,
    ) + error_if(
        w.schema_version != 1,
        "profile "@ + pid + " has unsupported workload_profile schema version "@ + crate::comparison::decimal_chars(
            w.schema_version as u64,
        ),
    ) + field_errors(pid, "name"@, w.name@) + field_errors(pid, "dataset"@, w.dataset@) + field_errors(
        pid,
        "access_pattern"@,
        w.access_pattern@,
    ) + field_errors(pid, "matched_control"@, w.matched_control@) + error_if(
        !datasets.contains(w.dataset@),
        "profile "@ + pid + " workload_profile references unknown dataset "@ + w.dataset@,
    ) + error_if(
        w.dataset@ != pid,
        "profile "@ + pid + " workload_profile dataset "@ + w.dataset@ + " must match the runner profile id"@,
    ) + error_if(profile.repeats < 5, "profile "@ + pid + " workload evidence requires at least 5 repeats"@)
}

/// The errors for the first `n` operation-mix entries.
pub open spec fn mix_entry_errors(pid: Seq<char>, mix: Seq<(String, bool)>, n: nat) -> Seq<Seq<char>>
    decreases n,
{
    if n == 0 || n > mix.len() {
        Seq::empty()
    } else {
        mix_entry_errors(pid, mix, (n - 1) as nat) + error_if(
            trims_to_empty(mix[n - 1].0@) || !mix[n - 1].1,
            "profile "@ + pid
                + " workload_profile operation_mix entries require a non-empty operation and a fraction in (0, 1]"@,
        )
    }
}

/// The operation-mix errors of a declared workload envelope.
pub open spec fn mix_errors(pid: Seq<char>, w: WorkloadProfileOutline) -> Seq<Seq<char>> {
    if w.operation_mix@.len() == 0 {
        seq!["profile "@ + pid + " workload_profile operation_mix must not be empty"@]
    } else {
        mix_entry_errors(pid, w.operation_mix@, w.operation_mix@.len()) + error_if(
            !w.operation_mix_sums_to_one,
            "profile "@ + pid + " workload_profile operation_mix must sum to 1.0, observed "@
                + w.operation_mix_total_text@,
        )
    }
}

/// No value occurs twice.
pub open spec fn distinct_values<A>(values: Seq<A>) -> bool {
    forall|i: int, j: int| 0 <= i < j < values.len() ==> values[i] != values[j]
}

/// Unique positive concurrency points, at least one.
pub open spec fn concurrency_valid(points: Seq<u32>) -> bool {
    points.len() > 0 && !points.contains(0) && distinct_values(points)
}

pub open spec fn any_blank(values: Seq<Seq<char>>) -> bool {
    exists|i: int| 0 <= i < values.len() && trims_to_empty(#[trigger] values[i])
}

pub open spec fn limits_valid(limits: Seq<(String, u64)>) -> bool {
    limits.len() > 0 && forall|i: int| 0 <= i < limits.len() ==> !trims_to_empty((#[trigger] limits[i]).0@) && limits[i].1 != 0
}

/// The remaining shape errors of a declared workload envelope.
pub open spec fn envelope_tail_errors(pid: Seq<char>, w: WorkloadProfileOutline) -> Seq<Seq<char>> {
    let metrics = texts(w.required_metrics@);
    error_if(
        !concurrency_valid(w.concurrency@),
        "profile "@ + pid + " workload_profile concurrency must contain unique positive values"@,
    ) + error_if(!w.warmup_positive, "profile "@ + pid + " workload_profile warmup amount must be finite and positive"@)
        + error_if(
        !w.measurement_positive,
        "profile "@ + pid + " workload_profile measurement amount must be finite and positive"@,
    ) + error_if(
        w.failure_schedule@.len() == 0 || any_blank(texts(w.failure_schedule@)),
        "profile "@ + pid + " workload_profile failure_schedule must be explicit and non-empty"@,
    ) + error_if(
        !limits_valid(w.resource_limits@),
        "profile "@ + pid + " workload_profile resource_limits must contain positive named limits"@,
    ) + error_if(
        metrics.len() == 0 || any_blank(metrics) || !distinct_values(metrics),
        "profile "@ + pid + " workload_profile required_metrics must contain unique non-empty metrics"@,
    )
}

/// Each required metric must be a registry metric.
pub open spec fn unknown_metric_errors(pid: Seq<char>, required: Seq<Seq<char>>, known: Seq<Seq<char>>, n: nat) -> Seq<
    Seq<char>,
>
    decreases n,
{
    if n == 0 || n > required.len() {
        Seq::empty()
    } else {
        unknown_metric_errors(pid, required, known, (n - 1) as nat) + error_if(
            !known.contains(required[n - 1]),
            "profile "@ + pid + " workload_profile references unknown required metric "@ + required[n - 1],
        )
    }
}

/// The errors of a profile's declared workload evidence.
pub open spec fn workload_profile_errors(profile: ProfileOutline, datasets: Seq<Seq<char>>, metric_ids: Seq<Seq<char>>) -> Seq<
    Seq<char>,
> {
    let pid = profile.id@;
    match profile.workload_profile {
        None => error_if(
            profile.evidence_class == EvidenceClass::Workload,
            "profile "@ + pid + " declares workload evidence without a workload_profile"@,
        ),
        Some(w) => envelope_head_errors(profile, w, datasets) + mix_errors(pid, w) + envelope_tail_errors(pid, w)
            + unknown_metric_errors(pid, texts(w.required_metrics@), metric_ids, w.required_metrics@.len()),
    }
}

} // verus!

verus! {

fn report_field(pid: &str, field: &str, value: &str, errors: &mut Vec<String>)
    ensures
        texts(final(errors)@) == texts(old(errors)@) + field_errors(pid@, field@, value@),
{
    let mut message = message3("profile ", pid, " workload_profile ");
    append_text(&mut message, field);
    append_text(&mut message, " must not be empty");
    report_when(errors, is_blank(value), message);
}

fn contains_text(values: &Vec<String>, value: &str) -> (found: bool)
    ensures
        found == texts(values@).contains(value@),
{
    let found = crate::program::appears_before(values, values.len(), value);
    assert(texts(values@).take(values@.len() as int) =~= texts(values@));
    found
}

#[verifier::rlimit(60)]
#[verifier::spinoff_prover]
fn report_envelope_head(
    profile: &ProfileOutline,
    w: &WorkloadProfileOutline,
    datasets: &Vec<String>,
    errors: &mut Vec<String>,
)
    ensures
        texts(final(errors)@) == texts(old(errors)@) + envelope_head_errors(*profile, *w, texts(datasets@)),
{
    let ghost start = texts(errors@);
    let pid = profile.id.as_str();
    let workload_class = match profile.evidence_class {
        EvidenceClass::Workload => true,
        _ => false,
    };
    report_when(
        errors,
        !workload_class,
        message3("profile ", pid, " has a workload_profile but evidence_class is not workload"),
    );
    let ghost a = texts(errors@);
    let digits = crate::codec::decimal_text(w.schema_version as u64);
    let mut message = message3("profile ", pid, " has unsupported workload_profile schema version ");
    append_text(&mut message, digits.as_str());
    report_when(errors, w.schema_version != 1, message);
    let ghost b = texts(errors@);
    report_field(pid, "name", w.name.as_str(), errors);
    let ghost c = texts(errors@);
    report_field(pid, "dataset", w.dataset.as_str(), errors);
    let ghost d = texts(errors@);
    report_field(pid, "access_pattern", w.access_pattern.as_str(), errors);
    let ghost e = texts(errors@);
    report_field(pid, "matched_control", w.matched_control.as_str(), errors);
    let ghost f = texts(errors@);
    let mut message = message3("profile ", pid, " workload_profile references unknown dataset ");
    append_text(&mut message, w.dataset.as_str());
    report_when(errors, !contains_text(datasets, w.dataset.as_str()), message);
    let ghost g = texts(errors@);
    let mut message = message3("profile ", pid, " workload_profile dataset ");
    append_text(&mut message, w.dataset.as_str());
    append_text(&mut message, " must match the runner profile id");
    report_when(errors, !text_equal(w.dataset.as_str(), pid), message);
    let ghost h = texts(errors@);
    report_when(errors, profile.repeats < 5, message3("profile ", pid, " workload evidence requires at least 5 repeats"));
    proof {
        let p = profile.id@;
        let e1 = error_if(
            profile.evidence_class != EvidenceClass::Workload,
            "profile "@ + p + " has a workload_profile but evidence_class is not workload"@,
        );
        let e2 = error_if(
            w.schema_version != 1,
            "profile "@ + p + " has unsupported workload_profile schema version "@ + crate::comparison::decimal_chars(
                w.schema_version as u64,
            ),
        );
        let e3 = field_errors(p, "name"@, w.name@);
        let e4 = field_errors(p, "dataset"@, w.dataset@);
        let e5 = field_errors(p, "access_pattern"@, w.access_pattern@);
        let e6 = field_errors(p, "matched_control"@, w.matched_control@);
        let e7 = error_if(
            !texts(datasets@).contains(w.dataset@),
            "profile "@ + p + " workload_profile references unknown dataset "@ + w.dataset@,
        );
        let e8 = error_if(
            w.dataset@ != p,
            "profile "@ + p + " workload_profile dataset "@ + w.dataset@ + " must match the runner profile id"@,
        );
        let e9 = error_if(profile.repeats < 5, "profile "@ + p + " workload evidence requires at least 5 repeats"@);
        assert(b =~= start + (e1 + e2));
        assert(c =~= start + (e1 + e2 + e3));
        assert(d =~= start + (e1 + e2 + e3 + e4));
        assert(e =~= start + (e1 + e2 + e3 + e4 + e5));
        assert(f =~= start + (e1 + e2 + e3 + e4 + e5 + e6));
        assert(g =~= start + (e1 + e2 + e3 + e4 + e5 + e6 + e7));
        assert(h =~= start + (e1 + e2 + e3 + e4 + e5 + e6 + e7 + e8));
        assert(texts(errors@) =~= start + (e1 + e2 + e3 + e4 + e5 + e6 + e7 + e8 + e9));
    }
}

fn report_mix(pid: &str, w: &WorkloadProfileOutline, errors: &mut Vec<String>)
    ensures
        texts(final(errors)@) == texts(old(errors)@) + mix_errors(pid@, *w),
{
    let ghost start = texts(errors@);
    if w.operation_mix.len() == 0 {
        report(errors, message3("profile ", pid, " workload_profile operation_mix must not be empty"));
        return ;
    }
    let mut k: usize = 0;
    while k < w.operation_mix.len()
        invariant
            k <= w.operation_mix@.len(),
            texts(errors@) == start + mix_entry_errors(pid@, w.operation_mix@, k as nat),
        decreases w.operation_mix@.len() - k,
    {
        let entry = &w.operation_mix[k];
        report_when(
            errors,
            is_blank(entry.0.as_str()) || !entry.1,
            message3(
                "profile ",
                pid,
                " workload_profile operation_mix entries require a non-empty operation and a fraction in (0, 1]",
            ),
        );
        assert(texts(errors@) =~= start + mix_entry_errors(pid@, w.operation_mix@, (k + 1) as nat));
        k = k + 1;
    }
    let ghost a = texts(errors@);
    let mut message = message3("profile ", pid, " workload_profile operation_mix must sum to 1.0, observed ");
    append_text(&mut message, w.operation_mix_total_text.as_str());
    report_when(errors, !w.operation_mix_sums_to_one, message);
    assert(texts(errors@) =~= start + mix_errors(pid@, *w));
}

fn concurrency_ok(points: &Vec<u32>) -> (ok: bool)
    ensures
        ok == concurrency_valid(points@),
{
    if points.len() == 0 {
        return false;
    }
    let mut i: usize = 0;
    while i < points.len()
        invariant
            i <= points@.len(),
            forall|k: int| 0 <= k < i ==> points@[k] != 0,
            forall|a: int, b: int| 0 <= a < b < points@.len() && a < i ==> points@[a] != points@[b],
        decreases points@.len() - i,
    {
        if points[i] == 0 {
            assert(points@[i as int] == 0);
            return false;
        }
        let mut j: usize = i + 1;
        while j < points.len()
            invariant
                i < j <= points@.len(),
                forall|b: int| i < b < j ==> points@[i as int] != points@[b],
            decreases points@.len() - j,
        {
            if points[i] == points[j] {
                return false;
            }
            j = j + 1;
        }
        i = i + 1;
    }
    true
}

fn none_blank(values: &Vec<String>) -> (ok: bool)
    ensures
        ok == !any_blank(texts(values@)),
{
    let mut i: usize = 0;
    while i < values.len()
        invariant
            i <= values@.len(),
            forall|k: int| 0 <= k < i ==> !trims_to_empty(#[trigger] texts(values@)[k]),
        decreases values@.len() - i,
    {
        if is_blank(values[i].as_str()) {
            assert(trims_to_empty(texts(values@)[i as int]));
            return false;
        }
        i = i + 1;
    }
    true
}

fn texts_distinct(values: &Vec<String>) -> (ok: bool)
    ensures
        ok == distinct_values(texts(values@)),
{
    let ghost t = texts(values@);
    let mut i: usize = 0;
    while i < values.len()
        invariant
            i <= values@.len(),
            t == texts(values@),
            forall|a: int, b: int| 0 <= a < b < t.len() && a < i ==> t[a] != t[b],
        decreases values@.len() - i,
    {
        let mut j: usize = i + 1;
        while j < values.len()
            invariant
                i < j <= values@.len(),
                t == texts(values@),
                forall|b: int| i < b < j ==> t[i as int] != t[b],
            decreases values@.len() - j,
        {
            if text_equal(values[i].as_str(), values[j].as_str()) {
                assert(t[i as int] == values@[i as int]@ && t[j as int] == values@[j as int]@);
                return false;
            }
            j = j + 1;
        }
        i = i + 1;
    }
    true
}

fn limits_ok(limits: &Vec<(String, u64)>) -> (ok: bool)
    ensures
        ok == limits_valid(limits@),
{
    if limits.len() == 0 {
        return false;
    }
    let mut i: usize = 0;
    while i < limits.len()
        invariant
            i <= limits@.len(),
            forall|k: int| 0 <= k < i ==> !trims_to_empty((#[trigger] limits@[k]).0@) && limits@[k].1 != 0,
        decreases limits@.len() - i,
    {
        if is_blank(limits[i].0.as_str()) || limits[i].1 == 0 {
            return false;
        }
        i = i + 1;
    }
    true
}

#[verifier::rlimit(60)]
#[verifier::spinoff_prover]
fn report_envelope_tail(pid: &str, w: &WorkloadProfileOutline, errors: &mut Vec<String>)
    ensures
        texts(final(errors)@) == texts(old(errors)@) + envelope_tail_errors(pid@, *w),
{
    let ghost start = texts(errors@);
    report_when(
        errors,
        !concurrency_ok(&w.concurrency),
        message3("profile ", pid, " workload_profile concurrency must contain unique positive values"),
    );
    let ghost a = texts(errors@);
    report_when(
        errors,
        !w.warmup_positive,
        message3("profile ", pid, " workload_profile warmup amount must be finite and positive"),
    );
    let ghost b = texts(errors@);
    report_when(
        errors,
        !w.measurement_positive,
        message3("profile ", pid, " workload_profile measurement amount must be finite and positive"),
    );
    let ghost c = texts(errors@);
    report_when(
        errors,
        w.failure_schedule.len() == 0 || !none_blank(&w.failure_schedule),
        message3("profile ", pid, " workload_profile failure_schedule must be explicit and non-empty"),
    );
    let ghost d = texts(errors@);
    report_when(
        errors,
        !limits_ok(&w.resource_limits),
        message3("profile ", pid, " workload_profile resource_limits must contain positive named limits"),
    );
    let ghost e = texts(errors@);
    report_when(
        errors,
        w.required_metrics.len() == 0 || !none_blank(&w.required_metrics) || !texts_distinct(&w.required_metrics),
        message3("profile ", pid, " workload_profile required_metrics must contain unique non-empty metrics"),
    );
    proof {
        let p = pid@;
        let metrics = texts(w.required_metrics@);
        let t1 = error_if(
            !concurrency_valid(w.concurrency@),
            "profile "@ + p + " workload_profile concurrency must contain unique positive values"@,
        );
        let t2 = error_if(!w.warmup_positive, "profile "@ + p + " workload_profile warmup amount must be finite and positive"@);
        let t3 = error_if(
            !w.measurement_positive,
            "profile "@ + p + " workload_profile measurement amount must be finite and positive"@,
        );
        let t4 = error_if(
            w.failure_schedule@.len() == 0 || any_blank(texts(w.failure_schedule@)),
            "profile "@ + p + " workload_profile failure_schedule must be explicit and non-empty"@,
        );
        let t5 = error_if(
            !limits_valid(w.resource_limits@),
            "profile "@ + p + " workload_profile resource_limits must contain positive named limits"@,
        );
        let t6 = error_if(
            metrics.len() == 0 || any_blank(metrics) || !distinct_values(metrics),
            "profile "@ + p + " workload_profile required_metrics must contain unique non-empty metrics"@,
        );
        assert(b =~= start + (t1 + t2));
        assert(c =~= start + (t1 + t2 + t3));
        assert(d =~= start + (t1 + t2 + t3 + t4));
        assert(e =~= start + (t1 + t2 + t3 + t4 + t5));
        assert(texts(errors@) =~= start + (t1 + t2 + t3 + t4 + t5 + t6));
    }
}

fn report_unknown_metrics(pid: &str, w: &WorkloadProfileOutline, metric_ids: &Vec<String>, errors: &mut Vec<String>)
    ensures
        texts(final(errors)@) == texts(old(errors)@) + unknown_metric_errors(
            pid@,
            texts(w.required_metrics@),
            texts(metric_ids@),
            w.required_metrics@.len(),
        ),
{
    let ghost start = texts(errors@);
    let ghost required = texts(w.required_metrics@);
    let mut k: usize = 0;
    while k < w.required_metrics.len()
        invariant
            k <= w.required_metrics@.len(),
            required == texts(w.required_metrics@),
            texts(errors@) == start + unknown_metric_errors(pid@, required, texts(metric_ids@), k as nat),
        decreases w.required_metrics@.len() - k,
    {
        let metric = w.required_metrics[k].as_str();
        let mut message = message3("profile ", pid, " workload_profile references unknown required metric ");
        append_text(&mut message, metric);
        report_when(errors, !contains_text(metric_ids, metric), message);
        proof {
            assert(required[k as int] == metric@);
            assert(texts(errors@) =~= start + unknown_metric_errors(pid@, required, texts(metric_ids@), (k + 1) as nat));
        }
        k = k + 1;
    }
}

/// Check a profile's declared workload evidence: the envelope must exist
/// exactly when the evidence class is `Workload`, and be complete.
#[verifier::rlimit(60)]
#[verifier::spinoff_prover]
pub fn validate_workload_profile(
    profile: &ProfileOutline,
    datasets: &Vec<String>,
    metric_ids: &Vec<String>,
    errors: &mut Vec<String>,
)
    ensures
        texts(final(errors)@) == texts(old(errors)@) + workload_profile_errors(
            *profile,
            texts(datasets@),
            texts(metric_ids@),
        ),
{
    let ghost start = texts(errors@);
    let pid = profile.id.as_str();
    match &profile.workload_profile {
        None => {
            let workload_class = match profile.evidence_class {
                EvidenceClass::Workload => true,
                _ => false,
            };
            report_when(
                errors,
                workload_class,
                message3("profile ", pid, " declares workload evidence without a workload_profile"),
            );
        },
        Some(w) => {
            report_envelope_head(profile, w, datasets, errors);
            let ghost a = texts(errors@);
            report_mix(pid, w, errors);
            let ghost b = texts(errors@);
            report_envelope_tail(pid, w, errors);
            let ghost c = texts(errors@);
            report_unknown_metrics(pid, w, metric_ids, errors);
            proof {
                let h = envelope_head_errors(*profile, *w, texts(datasets@));
                let m = mix_errors(pid@, *w);
                let t = envelope_tail_errors(pid@, *w);
                let u = unknown_metric_errors(pid@, texts(w.required_metrics@), texts(metric_ids@), w.required_metrics@.len());
                assert(b =~= start + (h + m));
                assert(c =~= start + (h + m + t));
                assert(texts(errors@) =~= start + (h + m + t + u));
            }
        },
    }
}

} // verus!

verus! {

/// One lane constraint, as suite validation reads it.
#[derive(Clone, Debug, PartialEq, Eq)]
pub struct ConstraintRules {
    pub metric: String,
    pub statistic: String,
    pub value_finite: bool,
}

/// One candidate-to-control constraint, as suite validation reads it.
#[derive(Clone, Debug, PartialEq, Eq)]
pub struct ComparisonConstraintRules {
    pub id: String,
    pub candidate_metric: String,
    pub control_metric: String,
    pub unit: String,
    /// The maximum regression fraction is finite and non-negative.
    pub max_regression_valid: bool,
}

/// One lane, as suite validation reads it.
#[derive(Clone, Debug, PartialEq, Eq)]
pub struct LaneRules {
    pub id: String,
    pub primary_metric: String,
    pub statistic: String,
    /// The practical improvement fraction is finite and non-negative.
    pub practical_improvement_valid: bool,
    pub constraints: Vec<ConstraintRules>,
    pub comparison_constraints: Vec<ComparisonConstraintRules>,
}

/// One workload, as suite validation reads it.
#[derive(Clone, Debug, PartialEq, Eq)]
pub struct WorkloadRules {
    pub id: String,
    pub lane: String,
    pub operation: String,
}

/// A loaded suite, as validation reads it, with what the file system says of
/// the files it names.
#[derive(Clone, Debug, PartialEq, Eq)]
pub struct SuiteRules {
    pub schema_version: u32,
    pub id: String,
    pub status: String,
    pub result_schema_path: String,
    pub result_schema_exists: bool,
    /// Each contract file's path with whether it exists.
    pub contract_files: Vec<(String, bool)>,
    pub telemetry: TelemetryConfig,
    /// The profiles in id order.
    pub profiles: Vec<ProfileOutline>,
    pub datasets: Vec<String>,
    pub lanes: Vec<LaneRules>,
    pub workloads: Vec<WorkloadRules>,
    pub hard_gate_count: u64,
}

/// The errors of the first `n` constraints of a lane.
pub open spec fn constraint_errors(lane: LaneRules, metric_ids: Seq<Seq<char>>, n: nat) -> Seq<Seq<char>>
    decreases n,
{
    if n == 0 || n > lane.constraints@.len() {
        Seq::empty()
    } else {
        let c = lane.constraints@[n - 1];
        constraint_errors(lane, metric_ids, (n - 1) as nat) + error_if(
            !metric_ids.contains(c.metric@),
            "lane "@ + lane.id@ + " constraint references unknown metric "@ + c.metric@,
        ) + error_if(!c.value_finite, "lane "@ + lane.id@ + " constraint value must be finite"@) + error_if(
            !is_supported_statistic(c.statistic@),
            "lane "@ + lane.id@ + " has unsupported constraint statistic "@ + c.statistic@,
        )
    }
}

pub open spec fn comparison_constraint_ids(lane: LaneRules) -> Seq<Seq<char>> {
    lane.comparison_constraints@.map_values(|c: ComparisonConstraintRules| c.id@)
}

/// The errors of the first `n` comparison constraints of a lane.
pub open spec fn comparison_constraint_errors(lane: LaneRules, n: nat) -> Seq<Seq<char>>
    decreases n,
{
    if n == 0 || n > lane.comparison_constraints@.len() {
        Seq::empty()
    } else {
        let c = lane.comparison_constraints@[n - 1];
        comparison_constraint_errors(lane, (n - 1) as nat) + error_if(
            comparison_constraint_ids(lane).take(n - 1).contains(c.id@),
            "lane "@ + lane.id@ + " repeats comparison constraint "@ + c.id@,
        ) + error_if(
            trims_to_empty(c.id@) || trims_to_empty(c.candidate_metric@) || trims_to_empty(c.control_metric@)
                || trims_to_empty(c.unit@),
            "lane "@ + lane.id@ + " comparison constraints require non-empty id, metrics, and unit"@,
        ) + error_if(
            !c.max_regression_valid,
            "lane "@ + lane.id@ + " comparison constraint "@ + c.id@
                + " requires a finite non-negative regression fraction"@,
        )
    }
}

/// The errors of one lane.
pub open spec fn lane_errors(lane: LaneRules, metric_ids: Seq<Seq<char>>) -> Seq<Seq<char>> {
    error_if(
        !metric_ids.contains(lane.primary_metric@),
        "lane "@ + lane.id@ + " references unknown primary metric "@ + lane.primary_metric@,
    ) + error_if(
        !lane.practical_improvement_valid,
        "lane "@ + lane.id@ + " practical improvement must be finite and non-negative"@,
    ) + error_if(
        !is_supported_statistic(lane.statistic@),
        "lane "@ + lane.id@ + " has unsupported statistic "@ + lane.statistic@,
    ) + constraint_errors(lane, metric_ids, lane.constraints@.len()) + comparison_constraint_errors(
        lane,
        lane.comparison_constraints@.len(),
    )
}

fn report_constraints(lane: &LaneRules, metric_ids: &Vec<String>, errors: &mut Vec<String>)
    ensures
        texts(final(errors)@) == texts(old(errors)@) + constraint_errors(
            *lane,
            texts(metric_ids@),
            lane.constraints@.len(),
        ),
{
    let ghost start = texts(errors@);
    let mut k: usize = 0;
    while k < lane.constraints.len()
        invariant
            k <= lane.constraints@.len(),
            texts(errors@) == start + constraint_errors(*lane, texts(metric_ids@), k as nat),
        decreases lane.constraints@.len() - k,
    {
        let c = &lane.constraints[k];
        let ghost before = texts(errors@);
        let mut message = message3("lane ", lane.id.as_str(), " constraint references unknown metric ");
        append_text(&mut message, c.metric.as_str());
        report_when(errors, !contains_text(metric_ids, c.metric.as_str()), message);
        let ghost a = texts(errors@);
        report_when(errors, !c.value_finite, message3("lane ", lane.id.as_str(), " constraint value must be finite"));
        let ghost b = texts(errors@);
        let mut message = message3("lane ", lane.id.as_str(), " has unsupported constraint statistic ");
        append_text(&mut message, c.statistic.as_str());
        report_when(errors, !supported_statistic(c.statistic.as_str()), message);
        proof {
            let c1 = error_if(
                !texts(metric_ids@).contains(c.metric@),
                "lane "@ + lane.id@ + " constraint references unknown metric "@ + c.metric@,
            );
            let c2 = error_if(!c.value_finite, "lane "@ + lane.id@ + " constraint value must be finite"@);
            let c3 = error_if(
                !is_supported_statistic(c.statistic@),
                "lane "@ + lane.id@ + " has unsupported constraint statistic "@ + c.statistic@,
            );
            assert(b =~= before + (c1 + c2));
            assert(texts(errors@) =~= before + (c1 + c2 + c3));
            assert(texts(errors@) =~= start + constraint_errors(*lane, texts(metric_ids@), (k + 1) as nat));
        }
        k = k + 1;
    }
}

fn comparison_constraint_before(lane: &LaneRules, upto: usize, id: &str) -> (found: bool)
    requires
        upto <= lane.comparison_constraints@.len(),
    ensures
        found == comparison_constraint_ids(*lane).take(upto as int).contains(id@),
{
    let ghost ids = comparison_constraint_ids(*lane);
    let mut k: usize = 0;
    while k < upto
        invariant
            upto <= lane.comparison_constraints@.len(),
            ids == comparison_constraint_ids(*lane),
            k <= upto,
            forall|j: int| 0 <= j < k ==> ids[j] != id@,
        decreases upto - k,
    {
        if text_equal(lane.comparison_constraints[k].id.as_str(), id) {
            assert(ids.take(upto as int)[k as int] == id@);
            return true;
        }
        k = k + 1;
    }
    assert forall|j: int| 0 <= j < upto implies ids.take(upto as int)[j] != id@ by {}
    false
}

fn report_comparison_constraints(lane: &LaneRules, errors: &mut Vec<String>)
    ensures
        texts(final(errors)@) == texts(old(errors)@) + comparison_constraint_errors(
            *lane,
            lane.comparison_constraints@.len(),
        ),
{
    let ghost start = texts(errors@);
    let mut k: usize = 0;
    while k < lane.comparison_constraints.len()
        invariant
            k <= lane.comparison_constraints@.len(),
            texts(errors@) == start + comparison_constraint_errors(*lane, k as nat),
        decreases lane.comparison_constraints@.len() - k,
    {
        let c = &lane.comparison_constraints[k];
        let ghost before = texts(errors@);
        let mut message = message3("lane ", lane.id.as_str(), " repeats comparison constraint ");
        append_text(&mut message, c.id.as_str());
        report_when(errors, comparison_constraint_before(lane, k, c.id.as_str()), message);
        let ghost a = texts(errors@);
        let blank = is_blank(c.id.as_str()) || is_blank(c.candidate_metric.as_str()) || is_blank(
            c.control_metric.as_str(),
        ) || is_blank(c.unit.as_str());
        report_when(
            errors,
            blank,
            message3("lane ", lane.id.as_str(), " comparison constraints require non-empty id, metrics, and unit"),
        );
        let ghost b = texts(errors@);
        let mut message = message3("lane ", lane.id.as_str(), " comparison constraint ");
        append_text(&mut message, c.id.as_str());
        append_text(&mut message, " requires a finite non-negative regression fraction");
        report_when(errors, !c.max_regression_valid, message);
        proof {
            let d1 = error_if(
                comparison_constraint_ids(*lane).take(k as int).contains(c.id@),
                "lane "@ + lane.id@ + " repeats comparison constraint "@ + c.id@,
            );
            let d2 = error_if(
                trims_to_empty(c.id@) || trims_to_empty(c.candidate_metric@) || trims_to_empty(c.control_metric@)
                    || trims_to_empty(c.unit@),
                "lane "@ + lane.id@ + " comparison constraints require non-empty id, metrics, and unit"@,
            );
            let d3 = error_if(
                !c.max_regression_valid,
                "lane "@ + lane.id@ + " comparison constraint "@ + c.id@
                    + " requires a finite non-negative regression fraction"@,
            );
            assert(b =~= before + (d1 + d2));
            assert(texts(errors@) =~= before + (d1 + d2 + d3));
            assert(texts(errors@) =~= start + comparison_constraint_errors(*lane, (k + 1) as nat));
        }
        k = k + 1;
    }
}

/// Check one lane against the registry's metric ids.
pub fn validate_lane(lane: &LaneRules, metric_ids: &Vec<String>, errors: &mut Vec<String>)
    ensures
        texts(final(errors)@) == texts(old(errors)@) + lane_errors(*lane, texts(metric_ids@)),
{
    let ghost start = texts(errors@);
    let mut message = message3("lane ", lane.id.as_str(), " references unknown primary metric ");
    append_text(&mut message, lane.primary_metric.as_str());
    report_when(errors, !contains_text(metric_ids, lane.primary_metric.as_str()), message);
    let ghost a = texts(errors@);
    report_when(
        errors,
        !lane.practical_improvement_valid,
        message3("lane ", lane.id.as_str(), " practical improvement must be finite and non-negative"),
    );
    let ghost b = texts(errors@);
    let mut message = message3("lane ", lane.id.as_str(), " has unsupported statistic ");
    append_text(&mut message, lane.statistic.as_str());
    report_when(errors, !supported_statistic(lane.statistic.as_str()), message);
    let ghost c = texts(errors@);
    report_constraints(lane, metric_ids, errors);
    let ghost d = texts(errors@);
    report_comparison_constraints(lane, errors);
    proof {
        let l1 = error_if(
            !texts(metric_ids@).contains(lane.primary_metric@),
            "lane "@ + lane.id@ + " references unknown primary metric "@ + lane.primary_metric@,
        );
        let l2 = error_if(
            !lane.practical_improvement_valid,
            "lane "@ + lane.id@ + " practical improvement must be finite and non-negative"@,
        );
        let l3 = error_if(
            !is_supported_statistic(lane.statistic@),
            "lane "@ + lane.id@ + " has unsupported statistic "@ + lane.statistic@,
        );
        let l4 = constraint_errors(*lane, texts(metric_ids@), lane.constraints@.len());
        let l5 = comparison_constraint_errors(*lane, lane.comparison_constraints@.len());
        assert(b =~= start + (l1 + l2));
        assert(c =~= start + (l1 + l2 + l3));
        assert(d =~= start + (l1 + l2 + l3 + l4));
        assert(texts(errors@) =~= start + (l1 + l2 + l3 + l4 + l5));
    }
}

} // verus!

verus! {

/// The canonical proof taxonomy a suite status must use.
pub open spec fn canonical_status(status: Seq<char>) -> bool {
    status == "code_complete"@ || status == "verified"@ || status == "evaluating"@ || status == "proposed"@
        || status == "future"@
}

/// Each named contract file must exist.
pub open spec fn contract_file_errors(files: Seq<(String, bool)>, n: nat) -> Seq<Seq<char>>
    decreases n,
{
    if n == 0 || n > files.len() {
        Seq::empty()
    } else {
        contract_file_errors(files, (n - 1) as nat) + error_if(
            !files[n - 1].1,
            "contract file does not exist: "@ + files[n - 1].0@,
        )
    }
}

/// The header errors of a suite and its registry.
pub open spec fn suite_head_errors(s: SuiteRules, r: RegistryOutline) -> Seq<Seq<char>> {
    error_if(s.schema_version != 1, "unsupported suite schema version "@ + crate::comparison::decimal_chars(s.schema_version as u64))
        + error_if(
        r.schema_version != 1,
        "unsupported metric registry schema version "@ + crate::comparison::decimal_chars(r.schema_version as u64),
    ) + error_if(trims_to_empty(s.id@), "suite id must not be empty"@) + error_if(
        !canonical_status(s.status@),
        "suite status "@ + s.status@ + " must use the canonical proof taxonomy"@,
    ) + error_if(!s.result_schema_exists, "result schema does not exist: "@ + s.result_schema_path@)
        + contract_file_errors(s.contract_files@, s.contract_files@.len())
}

pub open spec fn profile_id_texts(s: SuiteRules) -> Seq<Seq<char>> {
    s.profiles@.map_values(|p: ProfileOutline| p.id@)
}

pub open spec fn lane_id_texts(s: SuiteRules) -> Seq<Seq<char>> {
    s.lanes@.map_values(|l: LaneRules| l.id@)
}

pub open spec fn workload_id_texts(s: SuiteRules) -> Seq<Seq<char>> {
    s.workloads@.map_values(|w: WorkloadRules| w.id@)
}

/// The errors of one profile.
pub open spec fn profile_errors(profile: ProfileOutline, datasets: Seq<Seq<char>>, metric_ids: Seq<Seq<char>>) -> Seq<
    Seq<char>,
> {
    error_if(
        !profile.budget_limit_positive,
        "profile "@ + profile.id@ + " budget_limit must be finite and positive"@,
    ) + error_if(profile.repeats == 0, "profile "@ + profile.id@ + " repeats must be positive"@)
        + workload_profile_errors(profile, datasets, metric_ids)
}

pub open spec fn profiles_errors(s: SuiteRules, metric_ids: Seq<Seq<char>>, n: nat) -> Seq<Seq<char>>
    decreases n,
{
    if n == 0 || n > s.profiles@.len() {
        Seq::empty()
    } else {
        profiles_errors(s, metric_ids, (n - 1) as nat) + profile_errors(s.profiles@[n - 1], texts(s.datasets@), metric_ids)
    }
}

/// Each profile telemetry requires must exist.
pub open spec fn required_profile_errors(s: SuiteRules, n: nat) -> Seq<Seq<char>>
    decreases n,
{
    let required = s.telemetry.required_for_profiles@;
    if n == 0 || n > required.len() {
        Seq::empty()
    } else {
        required_profile_errors(s, (n - 1) as nat) + error_if(
            !profile_id_texts(s).contains(required[n - 1]@),
            "telemetry requires unknown profile "@ + required[n - 1]@,
        )
    }
}

pub open spec fn lanes_errors(s: SuiteRules, metric_ids: Seq<Seq<char>>, n: nat) -> Seq<Seq<char>>
    decreases n,
{
    if n == 0 || n > s.lanes@.len() {
        Seq::empty()
    } else {
        lanes_errors(s, metric_ids, (n - 1) as nat) + lane_errors(s.lanes@[n - 1], metric_ids)
    }
}

/// Each workload must name a lane of the suite and an operation.
pub open spec fn workloads_errors(s: SuiteRules, n: nat) -> Seq<Seq<char>>
    decreases n,
{
    if n == 0 || n > s.workloads@.len() {
        Seq::empty()
    } else {
        let w = s.workloads@[n - 1];
        workloads_errors(s, (n - 1) as nat) + error_if(
            !lane_id_texts(s).contains(w.lane@),
            "workload "@ + w.id@ + " references unknown lane "@ + w.lane@,
        ) + error_if(trims_to_empty(w.operation@), "workload "@ + w.id@ + " operation must not be empty"@)
    }
}

/// What a suite must define at least one of.
pub open spec fn suite_tail_errors(s: SuiteRules) -> Seq<Seq<char>> {
    error_if(s.workloads@.len() == 0, "suite must define at least one workload"@) + error_if(
        s.lanes@.len() == 0,
        "suite must define at least one lane"@,
    ) + error_if(s.profiles@.len() == 0, "suite must define at least one profile"@) + error_if(
        s.datasets@.len() == 0,
        "suite must define at least one dataset"@,
    ) + error_if(s.hard_gate_count == 0, "suite must define at least one hard gate"@)
}

/// Every error of a suite and its metric registry, in the order validation
/// reports them.
pub open spec fn suite_errors(s: SuiteRules, r: RegistryOutline) -> Seq<Seq<char>> {
    let metric_ids = metric_id_texts(r.metrics@);
    suite_head_errors(s, r) + telemetry_errors(s.telemetry) + registry_errors(r) + ids_errors(
        "lane"@,
        lane_id_texts(s),
        s.lanes@.len(),
    ) + ids_errors("workload"@, workload_id_texts(s), s.workloads@.len()) + profiles_errors(
        s,
        metric_ids,
        s.profiles@.len(),
    ) + required_profile_errors(s, s.telemetry.required_for_profiles@.len()) + lanes_errors(
        s,
        metric_ids,
        s.lanes@.len(),
    ) + workloads_errors(s, s.workloads@.len()) + suite_tail_errors(s)
}

#[verifier::rlimit(60)]
#[verifier::spinoff_prover]
fn report_suite_head(s: &SuiteRules, r: &RegistryOutline, errors: &mut Vec<String>)
    ensures
        texts(final(errors)@) == texts(old(errors)@) + suite_head_errors(*s, *r),
{
    let ghost start = texts(errors@);
    let digits = crate::codec::decimal_text(s.schema_version as u64);
    report_when(errors, s.schema_version != 1, message2("unsupported suite schema version ", digits.as_str()));
    let ghost a = texts(errors@);
    let digits = crate::codec::decimal_text(r.schema_version as u64);
    report_when(errors, r.schema_version != 1, message2("unsupported metric registry schema version ", digits.as_str()));
    let ghost b = texts(errors@);
    report_when(errors, is_blank(s.id.as_str()), "suite id must not be empty".to_owned());
    let ghost c = texts(errors@);
    let status = s.status.as_str();
    let canonical = text_equal(status, "code_complete") || text_equal(status, "verified") || text_equal(
        status,
        "evaluating",
    ) || text_equal(status, "proposed") || text_equal(status, "future");
    report_when(errors, !canonical, message3("suite status ", status, " must use the canonical proof taxonomy"));
    let ghost d = texts(errors@);
    report_when(errors, !s.result_schema_exists, message2("result schema does not exist: ", s.result_schema_path.as_str()));
    let ghost e = texts(errors@);
    let mut k: usize = 0;
    while k < s.contract_files.len()
        invariant
            k <= s.contract_files@.len(),
            texts(errors@) == e + contract_file_errors(s.contract_files@, k as nat),
        decreases s.contract_files@.len() - k,
    {
        report_when(
            errors,
            !s.contract_files[k].1,
            message2("contract file does not exist: ", s.contract_files[k].0.as_str()),
        );
        assert(texts(errors@) =~= e + contract_file_errors(s.contract_files@, (k + 1) as nat));
        k = k + 1;
    }
    proof {
        let h1 = error_if(s.schema_version != 1, "unsupported suite schema version "@ + crate::comparison::decimal_chars(s.schema_version as u64));
        let h2 = error_if(
            r.schema_version != 1,
            "unsupported metric registry schema version "@ + crate::comparison::decimal_chars(r.schema_version as u64),
        );
        let h3 = error_if(trims_to_empty(s.id@), "suite id must not be empty"@);
        let h4 = error_if(!canonical_status(s.status@), "suite status "@ + s.status@ + " must use the canonical proof taxonomy"@);
        let h5 = error_if(!s.result_schema_exists, "result schema does not exist: "@ + s.result_schema_path@);
        let h6 = contract_file_errors(s.contract_files@, s.contract_files@.len());
        assert(b =~= start + (h1 + h2));
        assert(c =~= start + (h1 + h2 + h3));
        assert(d =~= start + (h1 + h2 + h3 + h4));
        assert(e =~= start + (h1 + h2 + h3 + h4 + h5));
        assert(texts(errors@) =~= start + (h1 + h2 + h3 + h4 + h5 + h6));
    }
}

} // verus!

verus! {

fn lane_id_values(s: &SuiteRules) -> (ids: Vec<String>)
    ensures
        texts(ids@) == lane_id_texts(*s),
{
    let mut ids: Vec<String> = Vec::new();
    let mut k: usize = 0;
    while k < s.lanes.len()
        invariant
            k <= s.lanes@.len(),
            texts(ids@) == lane_id_texts(*s).take(k as int),
        decreases s.lanes@.len() - k,
    {
        let ghost before = ids@;
        ids.push(s.lanes[k].id.clone());
        proof {
            assert(texts(ids@) =~= texts(before).push(s.lanes@[k as int].id@));
            assert(lane_id_texts(*s).take(k + 1) =~= lane_id_texts(*s).take(k as int).push(s.lanes@[k as int].id@));
        }
        k = k + 1;
    }
    assert(lane_id_texts(*s).take(s.lanes@.len() as int) =~= lane_id_texts(*s));
    ids
}

fn workload_id_values(s: &SuiteRules) -> (ids: Vec<String>)
    ensures
        texts(ids@) == workload_id_texts(*s),
{
    let mut ids: Vec<String> = Vec::new();
    let mut k: usize = 0;
    while k < s.workloads.len()
        invariant
            k <= s.workloads@.len(),
            texts(ids@) == workload_id_texts(*s).take(k as int),
        decreases s.workloads@.len() - k,
    {
        let ghost before = ids@;
        ids.push(s.workloads[k].id.clone());
        proof {
            assert(texts(ids@) =~= texts(before).push(s.workloads@[k as int].id@));
            assert(workload_id_texts(*s).take(k + 1) =~= workload_id_texts(*s).take(k as int).push(
                s.workloads@[k as int].id@,
            ));
        }
        k = k + 1;
    }
    assert(workload_id_texts(*s).take(s.workloads@.len() as int) =~= workload_id_texts(*s));
    ids
}

fn profile_known(s: &SuiteRules, id: &str) -> (found: bool)
    ensures
        found == profile_id_texts(*s).contains(id@),
{
    let ghost ids = profile_id_texts(*s);
    let mut k: usize = 0;
    while k < s.profiles.len()
        invariant
            k <= s.profiles@.len(),
            ids == profile_id_texts(*s),
            forall|j: int| 0 <= j < k ==> ids[j] != id@,
        decreases s.profiles@.len() - k,
    {
        if text_equal(s.profiles[k].id.as_str(), id) {
            assert(ids[k as int] == id@);
            return true;
        }
        k = k + 1;
    }
    false
}

fn report_profiles(s: &SuiteRules, metric_ids: &Vec<String>, errors: &mut Vec<String>)
    ensures
        texts(final(errors)@) == texts(old(errors)@) + profiles_errors(*s, texts(metric_ids@), s.profiles@.len()),
{
    let ghost start = texts(errors@);
    let mut k: usize = 0;
    while k < s.profiles.len()
        invariant
            k <= s.profiles@.len(),
            texts(errors@) == start + profiles_errors(*s, texts(metric_ids@), k as nat),
        decreases s.profiles@.len() - k,
    {
        let profile = &s.profiles[k];
        let ghost before = texts(errors@);
        report_when(
            errors,
            !profile.budget_limit_positive,
            message3("profile ", profile.id.as_str(), " budget_limit must be finite and positive"),
        );
        let ghost a = texts(errors@);
        report_when(errors, profile.repeats == 0, message3("profile ", profile.id.as_str(), " repeats must be positive"));
        let ghost b = texts(errors@);
        validate_workload_profile(profile, &s.datasets, metric_ids, errors);
        proof {
            let p1 = error_if(
                !profile.budget_limit_positive,
                "profile "@ + profile.id@ + " budget_limit must be finite and positive"@,
            );
            let p2 = error_if(profile.repeats == 0, "profile "@ + profile.id@ + " repeats must be positive"@);
            let p3 = workload_profile_errors(*profile, texts(s.datasets@), texts(metric_ids@));
            assert(b =~= before + (p1 + p2));
            assert(texts(errors@) =~= before + (p1 + p2 + p3));
            assert(texts(errors@) =~= start + profiles_errors(*s, texts(metric_ids@), (k + 1) as nat));
        }
        k = k + 1;
    }
}

fn report_required_profiles(s: &SuiteRules, errors: &mut Vec<String>)
    ensures
        texts(final(errors)@) == texts(old(errors)@) + required_profile_errors(
            *s,
            s.telemetry.required_for_profiles@.len(),
        ),
{
    let ghost start = texts(errors@);
    let required = &s.telemetry.required_for_profiles;
    let mut k: usize = 0;
    while k < required.len()
        invariant
            required == s.telemetry.required_for_profiles,
            k <= required@.len(),
            texts(errors@) == start + required_profile_errors(*s, k as nat),
        decreases required@.len() - k,
    {
        report_when(
            errors,
            !profile_known(s, required[k].as_str()),
            message2("telemetry requires unknown profile ", required[k].as_str()),
        );
        assert(texts(errors@) =~= start + required_profile_errors(*s, (k + 1) as nat));
        k = k + 1;
    }
}

fn report_lanes(s: &SuiteRules, metric_ids: &Vec<String>, errors: &mut Vec<String>)
    ensures
        texts(final(errors)@) == texts(old(errors)@) + lanes_errors(*s, texts(metric_ids@), s.lanes@.len()),
{
    let ghost start = texts(errors@);
    let mut k: usize = 0;
    while k < s.lanes.len()
        invariant
            k <= s.lanes@.len(),
            texts(errors@) == start + lanes_errors(*s, texts(metric_ids@), k as nat),
        decreases s.lanes@.len() - k,
    {
        validate_lane(&s.lanes[k], metric_ids, errors);
        assert(texts(errors@) =~= start + lanes_errors(*s, texts(metric_ids@), (k + 1) as nat));
        k = k + 1;
    }
}

fn report_workloads(s: &SuiteRules, lane_ids: &Vec<String>, errors: &mut Vec<String>)
    requires
        texts(lane_ids@) == lane_id_texts(*s),
    ensures
        texts(final(errors)@) == texts(old(errors)@) + workloads_errors(*s, s.workloads@.len()),
{
    let ghost start = texts(errors@);
    let mut k: usize = 0;
    while k < s.workloads.len()
        invariant
            k <= s.workloads@.len(),
            texts(lane_ids@) == lane_id_texts(*s),
            texts(errors@) == start + workloads_errors(*s, k as nat),
        decreases s.workloads@.len() - k,
    {
        let w = &s.workloads[k];
        let ghost before = texts(errors@);
        let mut message = message3("workload ", w.id.as_str(), " references unknown lane ");
        append_text(&mut message, w.lane.as_str());
        report_when(errors, !contains_text(lane_ids, w.lane.as_str()), message);
        report_when(errors, is_blank(w.operation.as_str()), message3("workload ", w.id.as_str(), " operation must not be empty"));
        assert(texts(errors@) =~= start + workloads_errors(*s, (k + 1) as nat));
        k = k + 1;
    }
}

#[verifier::rlimit(40)]
fn report_suite_tail(s: &SuiteRules, errors: &mut Vec<String>)
    ensures
        texts(final(errors)@) == texts(old(errors)@) + suite_tail_errors(*s),
{
    let ghost start = texts(errors@);
    report_when(errors, s.workloads.len() == 0, "suite must define at least one workload".to_owned());
    let ghost a = texts(errors@);
    report_when(errors, s.lanes.len() == 0, "suite must define at least one lane".to_owned());
    let ghost b = texts(errors@);
    report_when(errors, s.profiles.len() == 0, "suite must define at least one profile".to_owned());
    let ghost c = texts(errors@);
    report_when(errors, s.datasets.len() == 0, "suite must define at least one dataset".to_owned());
    let ghost d = texts(errors@);
    report_when(errors, s.hard_gate_count == 0, "suite must define at least one hard gate".to_owned());
    proof {
        let t1 = error_if(s.workloads@.len() == 0, "suite must define at least one workload"@);
        let t2 = error_if(s.lanes@.len() == 0, "suite must define at least one lane"@);
        let t3 = error_if(s.profiles@.len() == 0, "suite must define at least one profile"@);
        let t4 = error_if(s.datasets@.len() == 0, "suite must define at least one dataset"@);
        let t5 = error_if(s.hard_gate_count == 0, "suite must define at least one hard gate"@);
        assert(b =~= start + (t1 + t2));
        assert(c =~= start + (t1 + t2 + t3));
        assert(d =~= start + (t1 + t2 + t3 + t4));
        assert(texts(errors@) =~= start + (t1 + t2 + t3 + t4 + t5));
    }
}

/// Validate a loaded suite and its metric registry, returning every error in
/// order; an empty list means the suite is valid.
#[verifier::rlimit(60)]
pub fn validate(suite: &SuiteRules, registry: &RegistryOutline) -> (errors: Vec<String>)
    ensures
        texts(errors@) == suite_errors(*suite, *registry),
{
    let mut errors: Vec<String> = Vec::new();
    report_suite_head(suite, registry, &mut errors);
    let ghost a = texts(errors@);
    validate_telemetry(&suite.telemetry, &mut errors);
    let ghost b = texts(errors@);
    validate_registry(registry, &mut errors);
    let ghost c = texts(errors@);
    let metric_ids = collect_texts(&registry.metrics, false);
    let lane_ids = lane_id_values(suite);
    let _ = unique_ids("lane", &lane_ids, &mut errors);
    let ghost d = texts(errors@);
    let workload_ids = workload_id_values(suite);
    let _ = unique_ids("workload", &workload_ids, &mut errors);
    let ghost e = texts(errors@);
    report_profiles(suite, &metric_ids, &mut errors);
    let ghost f = texts(errors@);
    report_required_profiles(suite, &mut errors);
    let ghost g = texts(errors@);
    report_lanes(suite, &metric_ids, &mut errors);
    let ghost h = texts(errors@);
    report_workloads(suite, &lane_ids, &mut errors);
    let ghost i = texts(errors@);
    report_suite_tail(suite, &mut errors);
    proof {
        let s = *suite;
        let r = *registry;
        let m = metric_id_texts(r.metrics@);
        let s1 = suite_head_errors(s, r);
        let s2 = telemetry_errors(s.telemetry);
        let s3 = registry_errors(r);
        let s4 = ids_errors("lane"@, lane_id_texts(s), s.lanes@.len());
        let s5 = ids_errors("workload"@, workload_id_texts(s), s.workloads@.len());
        let s6 = profiles_errors(s, m, s.profiles@.len());
        let s7 = required_profile_errors(s, s.telemetry.required_for_profiles@.len());
        let s8 = lanes_errors(s, m, s.lanes@.len());
        let s9 = workloads_errors(s, s.workloads@.len());
        let s10 = suite_tail_errors(s);
        assert(b =~= s1 + s2);
        assert(c =~= s1 + s2 + s3);
        assert(d =~= s1 + s2 + s3 + s4);
        assert(e =~= s1 + s2 + s3 + s4 + s5);
        assert(f =~= s1 + s2 + s3 + s4 + s5 + s6);
        assert(g =~= s1 + s2 + s3 + s4 + s5 + s6 + s7);
        assert(h =~= s1 + s2 + s3 + s4 + s5 + s6 + s7 + s8);
        assert(i =~= s1 + s2 + s3 + s4 + s5 + s6 + s7 + s8 + s9);
        assert(texts(errors@) =~= s1 + s2 + s3 + s4 + s5 + s6 + s7 + s8 + s9 + s10);
    }
    errors
}

} // verus!

verus! {

/// What binding a workload to a profile's envelope reads of the workload: its
/// id and its `distribution` and `concurrent_clients` parameters, when they
/// hold a string and an integer.
#[derive(Clone, Debug, PartialEq, Eq)]
pub struct WorkloadSelection {
    pub id: String,
    pub distribution: Option<String>,
    pub concurrent_clients: Option<i64>,
}

/// The `Debug` text of a list of concurrency points: `[1, 8, 32]`.
pub open spec fn points_text(points: Seq<u32>) -> Seq<char> {
    "["@ + crate::comparison::joined(
        points.map_values(|p: u32| crate::comparison::decimal_chars(p as u64)),
        ", "@,
    ) + "]"@
}

fn points_debug(points: &Vec<u32>) -> (text: String)
    ensures
        text@ == points_text(points@),
{
    let mut wide: Vec<u64> = Vec::new();
    let mut k: usize = 0;
    while k < points.len()
        invariant
            k <= points@.len(),
            wide@.len() == k,
            forall|j: int| 0 <= j < k ==> wide@[j] == points@[j] as u64,
        decreases points@.len() - k,
    {
        wide.push(points[k] as u64);
        k = k + 1;
    }
    let text = crate::comparison::seeds_debug(&wide);
    assert(wide@.map_values(|seed: u64| crate::comparison::decimal_chars(seed)) =~= points@.map_values(
        |p: u32| crate::comparison::decimal_chars(p as u64),
    ));
    text
}

/// The outcome of binding a workload to a profile's declared envelope.
pub open spec fn selection_result(envelope: Option<WorkloadProfileOutline>, workload: WorkloadSelection) -> Result<(), Seq<char>> {
    match envelope {
        None => Ok(()),
        Some(w) => match workload.distribution {
            None => Err("workload "@ + workload.id@ + " must declare distribution for workload evidence"@),
            Some(d) => if d@ != w.access_pattern@ {
                Err(
                    "workload "@ + workload.id@ + " distribution "@ + d@ + " does not match workload profile "@
                        + w.access_pattern@,
                )
            } else {
                match workload.concurrent_clients {
                    Some(c) if 0 <= c <= u32::MAX => if c == 0 || !w.concurrency@.contains(c as u32) {
                        Err(
                            "workload "@ + workload.id@ + " concurrency "@ + crate::comparison::decimal_chars(c as u64)
                                + " is outside declared points "@ + points_text(w.concurrency@),
                        )
                    } else {
                        Ok(())
                    },
                    _ => Err(
                        "workload "@ + workload.id@
                            + " must declare positive concurrent_clients for workload evidence"@,
                    ),
                }
            },
        },
    }
}

/// Bind a selected workload to the profile's declared envelope before it
/// runs: a workload-evidence profile may only run the access pattern and the
/// concurrency points it declared.
pub fn validate_workload_selection(profile: &ProfileOutline, workload: &WorkloadSelection) -> (result: Result<(), String>)
    ensures
        match (result, selection_result(profile.workload_profile, *workload)) {
            (Ok(()), Ok(())) => true,
            (Err(message), Err(expected)) => message@ == expected,
            _ => false,
        },
{
    let envelope = match &profile.workload_profile {
        Some(w) => w,
        None => return Ok(()),
    };
    let distribution = match &workload.distribution {
        Some(d) => d,
        None => return Err(message3("workload ", workload.id.as_str(), " must declare distribution for workload evidence")),
    };
    if !text_equal(distribution.as_str(), envelope.access_pattern.as_str()) {
        let mut message = message3("workload ", workload.id.as_str(), " distribution ");
        append_text(&mut message, distribution.as_str());
        append_text(&mut message, " does not match workload profile ");
        append_text(&mut message, envelope.access_pattern.as_str());
        return Err(message);
    }
    let clients = match workload.concurrent_clients {
        Some(c) => {
            if c < 0 || c > 4294967295 {
                return Err(
                    message3(
                        "workload ",
                        workload.id.as_str(),
                        " must declare positive concurrent_clients for workload evidence",
                    ),
                );
            }
            c as u32
        },
        None => {
            return Err(
                message3("workload ", workload.id.as_str(), " must declare positive concurrent_clients for workload evidence"),
            );
        },
    };
    let mut declared = false;
    let mut k: usize = 0;
    while k < envelope.concurrency.len()
        invariant
            k <= envelope.concurrency@.len(),
            declared == exists|j: int| 0 <= j < k && envelope.concurrency@[j] == clients,
        decreases envelope.concurrency@.len() - k,
    {
        if envelope.concurrency[k] == clients {
            declared = true;
        }
        k = k + 1;
    }
    if clients == 0 || !declared {
        let digits = crate::codec::decimal_text(clients as u64);
        let mut message = message3("workload ", workload.id.as_str(), " concurrency ");
        append_text(&mut message, digits.as_str());
        append_text(&mut message, " is outside declared points ");
        let points = points_debug(&envelope.concurrency);
        append_text(&mut message, points.as_str());
        return Err(message);
    }
    Ok(())
}

} // verus!

verus! {

proof fn lemma_profiles_errors_grow(s: SuiteRules, metric_ids: Seq<Seq<char>>, k: nat, n: nat, message: Seq<char>)
    requires
        k < n <= s.profiles@.len(),
        profile_errors(s.profiles@[k as int], texts(s.datasets@), metric_ids).contains(message),
    ensures
        profiles_errors(s, metric_ids, n).contains(message),
    decreases n,
{
    let current = profiles_errors(s, metric_ids, n);
    if n == k + 1 {
        let prior = profiles_errors(s, metric_ids, k);
        let own = profile_errors(s.profiles@[k as int], texts(s.datasets@), metric_ids);
        let j = choose|j: int| 0 <= j < own.len() && own[j] == message;
        assert(current == prior + own);
        assert(current[prior.len() + j] == message);
    } else {
        lemma_profiles_errors_grow(s, metric_ids, k, (n - 1) as nat, message);
        let prior = profiles_errors(s, metric_ids, (n - 1) as nat);
        let j = choose|j: int| 0 <= j < prior.len() && prior[j] == message;
        assert(current[j] == message);
    }
}

/// Workload evidence fails closed: a profile that claims the workload
/// evidence class without declaring a workload envelope makes its suite
/// invalid, with an error naming the profile.
pub proof fn lemma_workload_class_requires_envelope(s: SuiteRules, r: RegistryOutline, k: int)
    requires
        0 <= k < s.profiles@.len(),
        s.profiles@[k].evidence_class == EvidenceClass::Workload,
        s.profiles@[k].workload_profile.is_none(),
    ensures
        suite_errors(s, r).contains(
            "profile "@ + s.profiles@[k].id@ + " declares workload evidence without a workload_profile"@,
        ),
{
    let message = "profile "@ + s.profiles@[k].id@ + " declares workload evidence without a workload_profile"@;
    let metric_ids = metric_id_texts(r.metrics@);
    let p = s.profiles@[k];
    let own = profile_errors(p, texts(s.datasets@), metric_ids);
    let head = error_if(!p.budget_limit_positive, "profile "@ + p.id@ + " budget_limit must be finite and positive"@)
        + error_if(p.repeats == 0, "profile "@ + p.id@ + " repeats must be positive"@);
    assert(own == head + seq![message]);
    assert(own[head.len() as int] == message);
    lemma_profiles_errors_grow(s, metric_ids, k as nat, s.profiles@.len(), message);
    let middle = profiles_errors(s, metric_ids, s.profiles@.len());
    let before = suite_head_errors(s, r) + telemetry_errors(s.telemetry) + registry_errors(r) + ids_errors(
        "lane"@,
        lane_id_texts(s),
        s.lanes@.len(),
    ) + ids_errors("workload"@, workload_id_texts(s), s.workloads@.len());
    let after = required_profile_errors(s, s.telemetry.required_for_profiles@.len()) + lanes_errors(
        s,
        metric_ids,
        s.lanes@.len(),
    ) + workloads_errors(s, s.workloads@.len()) + suite_tail_errors(s);
    let all = suite_errors(s, r);
    assert(all =~= before + middle + after);
    let j = choose|j: int| 0 <= j < middle.len() && middle[j] == message;
    assert(all[before.len() + j] == message);
}

} // verus!

verus! {

/// The framed contract inputs: each part's big-endian length, then its bytes.
pub open spec fn contract_preimage(parts: Seq<Vec<u8>>) -> Seq<u8>
    decreases parts.len(),
{
    if parts.len() == 0 {
        Seq::empty()
    } else {
        contract_preimage(parts.drop_last()) + crate::codec::framed(parts.last()@)
    }
}

/// The contract hash of a suite: the lowercase SHA-256 of its contract
/// inputs (the suite, the registry, the result schema, then each contract
/// file, in that order), each framed by its length.
pub fn contract_digest(parts: &Vec<Vec<u8>>) -> (digest: String)
    ensures
        digest@ == crate::object_fixture::content_sha256_text(contract_preimage(parts@)),
{
    let mut bytes: Vec<u8> = Vec::new();
    let mut k: usize = 0;
    while k < parts.len()
        invariant
            k <= parts@.len(),
            bytes@ == contract_preimage(parts@.take(k as int)),
        decreases parts@.len() - k,
    {
        let part = &parts[k];
        let _n = part.len();
        crate::codec::push_bytes(&mut bytes, part.as_slice());
        assert(parts@.take(k + 1).drop_last() =~= parts@.take(k as int));
        k = k + 1;
    }
    assert(parts@.take(parts@.len() as int) =~= parts@);
    crate::digest::sha256_hex(bytes.as_slice())
}

} // verus!
