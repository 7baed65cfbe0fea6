//! The transaction process contract's vocabulary and its independent-machine
//! topology rules: three nodes with distinct routable endpoints, machines and
//! failure domains, absolute roots, a usable lifecycle hook, and a bounded
//! hook timeout.

use crate::codec::{append_text, decimal_text, ascii_text, decimal, extend_bytes, hex_lower, lower_hex_bytes, to_lower_hex};
use crate::digest::{sha256, sha256_hex, sha256_of};
use crate::object_fixture::content_sha256_text;
use crate::workload::ascii_bytes;
use crate::provider_incarnation::text_equal;
use crate::transaction::{KeyRange, Mutation, RequestIdentity, TransactionApplyResponse, TransactionCommand, TransactionStatus};
use crate::transaction_log::{text_debug, text_debug_text};
use crate::object_fixture::mutation_shape;
use crate::replay::copy_bytes;
use crate::mvcc_gc_authority::failed_check_names;
use crate::codec::{be_u64, push_u64};
use vstd::string::StringSliceAdditionalSpecFns;
use vstd::prelude::*;

verus! {

#[derive(Clone, Copy, Debug, PartialEq, Eq, Structural)]
pub enum TransactionProcessMode {
    Correct,
    AcceptConflicts,
    PartialApply,
}

pub open spec fn process_mode_id(mode: TransactionProcessMode) -> Seq<char> {
    match mode {
        TransactionProcessMode::Correct => "correct"@,
        TransactionProcessMode::AcceptConflicts => "accept_conflicts"@,
        TransactionProcessMode::PartialApply => "partial_apply"@,
    }
}

/// The faults a mode injects into the transaction authority.
#[derive(Clone, Copy, Debug, PartialEq, Eq, Structural)]
pub struct TransactionAuthorityFaults {
    pub accept_conflicts: bool,
    pub partial_apply: bool,
}

impl TransactionProcessMode {
    /// Stable identifier used by receipts.
    pub fn id(self) -> (id: &'static str)
        ensures
            id@ == process_mode_id(self),
    {
        match self {
            TransactionProcessMode::Correct => "correct",
            TransactionProcessMode::AcceptConflicts => "accept_conflicts",
            TransactionProcessMode::PartialApply => "partial_apply",
        }
    }

    /// The faults of the mode: conflicts accepted, or mutations applied
    /// partially.
    pub fn faults(self) -> (faults: TransactionAuthorityFaults)
        ensures
            faults.accept_conflicts == (self is AcceptConflicts),
            faults.partial_apply == (self is PartialApply),
    {
        TransactionAuthorityFaults {
            accept_conflicts: matches!(self, TransactionProcessMode::AcceptConflicts),
            partial_apply: matches!(self, TransactionProcessMode::PartialApply),
        }
    }
}

/// One value a transaction observed, with the version that wrote it.
#[derive(Clone, Debug, PartialEq, Eq)]
pub struct ProcessObservedValue {
    pub key: Vec<u8>,
    pub value: Vec<u8>,
    pub writer_version: u64,
}

/// The result of one transaction of the history.
#[derive(Clone, Debug, PartialEq, Eq)]
pub enum ProcessTransactionResult {
    Committed { commit_version: u64 },
    Aborted { reason: String },
}

/// The client of every contract request: the seed with a fixed tag mixed in.
pub open spec fn contract_client(seed: u64) -> u64 {
    seed ^ 0x4f4b_5654_584e_5031u64
}

/// The identity of contract request `request_id`.
pub fn identity(seed: u64, request_id: u64) -> (identity: RequestIdentity)
    ensures
        identity == (RequestIdentity { client_id: contract_client(seed), request_id }),
{
    RequestIdentity { client_id: seed ^ 0x4f4b_5654_584e_5031u64, request_id }
}

/// A parsed machine endpoint: the address bytes (4 for IPv4, 16 for IPv6)
/// and the port.
#[derive(Clone, Debug, PartialEq, Eq)]
pub struct MachineEndpoint {
    pub octets: Vec<u8>,
    pub port: u16,
}

/// The address is a loopback address: `127.0.0.0/8`, or `::1`.
pub open spec fn is_loopback(octets: Seq<u8>) -> bool {
    (octets.len() == 4 && octets[0] == 127) || (octets.len() == 16 && (forall|i: int| 0 <= i < 15 ==> octets[i] == 0)
        && octets[15] == 1)
}

/// The address is unspecified: all zero.
pub open spec fn is_unspecified(octets: Seq<u8>) -> bool {
    (octets.len() == 4 || octets.len() == 16) && forall|i: int| 0 <= i < octets.len() ==> octets[i] == 0
}

/// Externally managed topology for the independent-machine form of the
/// contract. Each node table maps node identifiers to one entry.
#[derive(Clone, Debug, PartialEq, Eq)]
pub struct TransactionMachineConfig {
    pub schema_version: u32,
    pub addresses: Vec<(u64, String)>,
    pub roots: Vec<(u64, String)>,
    pub machine_ids: Vec<(u64, String)>,
    pub failure_domains: Vec<(u64, String)>,
    pub controller_machine_id: String,
    pub controller_failure_domain: String,
    pub lifecycle_hook: String,
    pub hook_timeout_seconds: u64,
}

/// The node identifiers of a table.
pub open spec fn node_ids(table: Seq<(u64, String)>) -> Set<u64> {
    Set::new(|n: u64| exists|i: int| 0 <= i < table.len() && table[i].0 == n)
}

/// The values of a table.
pub open spec fn table_values(table: Seq<(u64, String)>) -> Set<Seq<char>> {
    Set::new(|v: Seq<char>| exists|i: int| 0 <= i < table.len() && table[i].1@ == v)
}

/// A table holds exactly nodes 1, 2 and 3, once each.
pub open spec fn exactly_three_nodes(table: Seq<(u64, String)>) -> bool {
    &&& table.len() == 3
    &&& node_ids(table) == set![1u64, 2u64, 3u64]
}

/// Three distinct, non-empty values, none of them `excluded`.
pub open spec fn distinct_excluding(table: Seq<(u64, String)>, excluded: Seq<char>) -> bool {
    &&& table.len() == 3
    &&& table[0].1@ != table[1].1@ && table[0].1@ != table[2].1@ && table[1].1@ != table[2].1@
    &&& forall|i: int| 0 <= i < 3 ==> (#[trigger] table[i]).1@.len() > 0 && table[i].1@ != excluded
    &&& excluded.len() > 0
}

/// A path is absolute: its first byte is the root separator `/`.
pub open spec fn absolute(path: Seq<char>) -> bool {
    vstd::utf8::encode_utf8(path).len() > 0 && vstd::utf8::encode_utf8(path)[0] == 47u8
}

fn is_absolute(path: &str) -> (absolute_path: bool)
    ensures
        absolute_path == absolute(path@),
{
    let bytes = path.as_bytes();
    bytes.len() > 0 && bytes[0] == 47u8
}

/// The tables hold exactly nodes 1, 2 and 3; the first that does not names
/// the error.
pub open spec fn first_bad_table(config: TransactionMachineConfig) -> Option<Seq<char>> {
    if !exactly_three_nodes(config.addresses@) {
        Some("addresses"@)
    } else if !exactly_three_nodes(config.roots@) {
        Some("roots"@)
    } else if !exactly_three_nodes(config.machine_ids@) {
        Some("machine_ids"@)
    } else if !exactly_three_nodes(config.failure_domains@) {
        Some("failure_domains"@)
    } else {
        None
    }
}

fn three_nodes(table: &Vec<(u64, String)>) -> (exact: bool)
    ensures
        exact == exactly_three_nodes(table@),
{
    if table.len() != 3 {
        return false;
    }
    let a = table[0].0;
    let b = table[1].0;
    let c = table[2].0;
    let exact = a != b && a != c && b != c && 1 <= a && a <= 3 && 1 <= b && b <= 3 && 1 <= c && c <= 3;
    proof {
        let ids = node_ids(table@);
        if exact {
            assert forall|n: u64| ids.contains(n) <==> set![1u64, 2u64, 3u64].contains(n) by {
                if n == 1 || n == 2 || n == 3 {
                    if a == n {
                        assert(table@[0].0 == n);
                    } else if b == n {
                        assert(table@[1].0 == n);
                    } else {
                        assert(table@[2].0 == n);
                    }
                }
            }
            assert(ids =~= set![1u64, 2u64, 3u64]);
        } else {
            if ids == set![1u64, 2u64, 3u64] {
                assert(ids.contains(1u64) && ids.contains(2u64) && ids.contains(3u64));
                assert(ids.contains(a) && ids.contains(b) && ids.contains(c));
                let i1 = choose|i: int| 0 <= i < 3 && table@[i].0 == 1u64;
                let i2 = choose|i: int| 0 <= i < 3 && table@[i].0 == 2u64;
                let i3 = choose|i: int| 0 <= i < 3 && table@[i].0 == 3u64;
                assert(set![1u64, 2u64, 3u64].contains(a));
                assert(set![1u64, 2u64, 3u64].contains(b));
                assert(set![1u64, 2u64, 3u64].contains(c));
            }
        }
    }
    exact
}

fn three_distinct_excluding(table: &Vec<(u64, String)>, excluded: &String) -> (distinct: bool)
    ensures
        distinct == distinct_excluding(table@, excluded@),
{
    if table.len() != 3 {
        return false;
    }
    let x = table[0].1.as_str();
    let y = table[1].1.as_str();
    let z = table[2].1.as_str();
    let e = excluded.as_str();
    let distinct = !text_equal(x, y) && !text_equal(x, z) && !text_equal(y, z) && !x.is_empty() && !y.is_empty()
        && !z.is_empty() && !text_equal(x, e) && !text_equal(y, e) && !text_equal(z, e) && !e.is_empty();
    proof {
        if distinct {
            assert forall|i: int| 0 <= i < 3 implies (#[trigger] table@[i]).1@.len() > 0 && table@[i].1@ != excluded@ by {
                if i == 0 {
                } else if i == 1 {
                } else {
                }
            }
        }
    }
    distinct
}

/// The endpoints are three distinct routable addresses with nonzero ports.
pub open spec fn endpoints_routable(endpoints: Seq<MachineEndpoint>) -> bool {
    &&& endpoints.len() == 3
    &&& endpoints[0].octets@ != endpoints[1].octets@ && endpoints[0].octets@ != endpoints[2].octets@
        && endpoints[1].octets@ != endpoints[2].octets@
    &&& forall|i: int| 0 <= i < 3 ==> !is_loopback((#[trigger] endpoints[i]).octets@) && !is_unspecified(
        endpoints[i].octets@,
    ) && endpoints[i].port != 0
}

fn octets_equal(a: &Vec<u8>, b: &Vec<u8>) -> (equal: bool)
    ensures
        equal == (a@ == b@),
{
    crate::replay::bytes_equal(a.as_slice(), b.as_slice())
}

fn loopback(octets: &Vec<u8>) -> (is: bool)
    ensures
        is == is_loopback(octets@),
{
    if octets.len() == 4 {
        return octets[0] == 127;
    }
    if octets.len() != 16 {
        return false;
    }
    let mut index: usize = 0;
    while index < 15
        invariant
            octets@.len() == 16,
            index <= 15,
            forall|i: int| 0 <= i < index ==> octets@[i] == 0,
        decreases 15 - index,
    {
        if octets[index] != 0 {
            return false;
        }
        index = index + 1;
    }
    octets[15] == 1
}

fn unspecified(octets: &Vec<u8>) -> (is: bool)
    ensures
        is == is_unspecified(octets@),
{
    if octets.len() != 4 && octets.len() != 16 {
        return false;
    }
    let mut index: usize = 0;
    while index < octets.len()
        invariant
            index <= octets@.len(),
            forall|i: int| 0 <= i < index ==> octets@[i] == 0,
        decreases octets@.len() - index,
    {
        if octets[index] != 0 {
            return false;
        }
        index = index + 1;
    }
    true
}

fn routable(endpoints: &Vec<MachineEndpoint>) -> (ok: bool)
    ensures
        ok == endpoints_routable(endpoints@),
{
    if endpoints.len() != 3 {
        return false;
    }
    let distinct = !octets_equal(&endpoints[0].octets, &endpoints[1].octets) && !octets_equal(
        &endpoints[0].octets,
        &endpoints[2].octets,
    ) && !octets_equal(&endpoints[1].octets, &endpoints[2].octets);
    if !distinct {
        return false;
    }
    let mut index: usize = 0;
    while index < 3
        invariant
            endpoints@.len() == 3,
            index <= 3,
            forall|i: int| 0 <= i < index ==> !is_loopback((#[trigger] endpoints@[i]).octets@) && !is_unspecified(
                endpoints@[i].octets@,
            ) && endpoints@[i].port != 0,
        decreases 3 - index,
    {
        if loopback(&endpoints[index].octets) || unspecified(&endpoints[index].octets) || endpoints[index].port == 0 {
            return false;
        }
        index = index + 1;
    }
    true
}

/// The first endpoint that did not parse, with its address text and parse
/// error, in address order.
pub open spec fn first_unparsed(
    addresses: Seq<(u64, String)>,
    parsed: Seq<Result<MachineEndpoint, String>>,
) -> Option<(Seq<char>, Seq<char>)>
    decreases parsed.len(),
{
    if parsed.len() == 0 || addresses.len() == 0 {
        None
    } else {
        match parsed[0] {
            Err(error) => Some((addresses[0].1@, error@)),
            Ok(_) => first_unparsed(addresses.drop_first(), parsed.drop_first()),
        }
    }
}

/// The error a machine topology draws, the rules taken in order, or `None`
/// when every rule holds.
pub open spec fn machine_config_error(
    config: TransactionMachineConfig,
    parsed: Seq<Result<MachineEndpoint, String>>,
    hook_usable: bool,
) -> Option<Seq<char>> {
    if config.schema_version != 1 {
        Some("unsupported transaction machine schema version "@ + ascii_text(decimal(config.schema_version as nat)))
    } else if first_bad_table(config) is Some {
        Some(first_bad_table(config)->0 + " must contain exactly node IDs 1, 2, and 3"@)
    } else if first_unparsed(config.addresses@, parsed) is Some {
        let (address, error) = first_unparsed(config.addresses@, parsed)->0;
        Some("invalid machine endpoint "@ + address + ": "@ + error)
    } else if !endpoints_routable(parsed.map_values(|p: Result<MachineEndpoint, String>| p->Ok_0)) {
        Some("machine endpoints must use three distinct routable IP addresses and nonzero ports"@)
    } else if !distinct_excluding(config.machine_ids@, config.controller_machine_id@) {
        Some("node machine IDs must be distinct and exclude the controller machine"@)
    } else if !distinct_excluding(config.failure_domains@, config.controller_failure_domain@) {
        Some("node failure domains must be distinct"@)
    } else if !(forall|i: int| 0 <= i < config.roots@.len() ==> absolute((#[trigger] config.roots@[i]).1@)) {
        Some("machine roots must be absolute paths"@)
    } else if !hook_usable {
        Some("lifecycle hook must be an absolute existing file"@)
    } else if !(1 <= config.hook_timeout_seconds <= 900) {
        Some("hook timeout must be between 1 and 900 seconds"@)
    } else {
        None
    }
}

/// Validate the machine topology. `parsed` holds the parse of each address, in
/// address order; `hook_usable` tells whether the lifecycle hook is an
/// absolute path to an existing file. The rules run in order, the first that
/// fails naming the error: schema version 1; every table holds exactly nodes
/// 1, 2 and 3; every address parses; the endpoints are three distinct
/// routable addresses with nonzero ports; the machines, then the failure
/// domains, are distinct, non-empty and exclude the controller's; every root
/// is absolute; the hook is usable; and the timeout is 1 to 900 seconds.
pub fn validate(
    config: &TransactionMachineConfig,
    parsed: &Vec<Result<MachineEndpoint, String>>,
    hook_usable: bool,
) -> (result: Result<(), String>)
    requires
        parsed@.len() == config.addresses@.len(),
    ensures
        result is Ok <==> machine_config_error(*config, parsed@, hook_usable) is None,
        result matches Err(e) ==> machine_config_error(*config, parsed@, hook_usable) == Some(e@),
{
    if config.schema_version != 1 {
        let mut message = "unsupported transaction machine schema version ".to_owned();
        let number = decimal_text(config.schema_version as u64);
        append_text(&mut message, number.as_str());
        return Err(message);
    }
    if !three_nodes(&config.addresses) {
        return Err(node_table_error("addresses"));
    }
    if !three_nodes(&config.roots) {
        return Err(node_table_error("roots"));
    }
    if !three_nodes(&config.machine_ids) {
        return Err(node_table_error("machine_ids"));
    }
    if !three_nodes(&config.failure_domains) {
        return Err(node_table_error("failure_domains"));
    }
    let mut endpoints: Vec<MachineEndpoint> = Vec::new();
    let mut index: usize = 0;
    proof {
        assert(parsed@.skip(0) =~= parsed@);
        assert(config.addresses@.skip(0) =~= config.addresses@);
    }
    while index < parsed.len()
        invariant
            index <= parsed@.len(),
            config.schema_version == 1,
            first_bad_table(*config) is None,
            parsed@.len() == config.addresses@.len(),
            first_unparsed(config.addresses@, parsed@) == first_unparsed(
                config.addresses@.skip(index as int),
                parsed@.skip(index as int),
            ),
            endpoints@.len() == index,
            forall|i: int| 0 <= i < index ==> (#[trigger] parsed@[i]) is Ok && parsed@[i]->Ok_0.octets@
                == endpoints@[i].octets@ && parsed@[i]->Ok_0.port == endpoints@[i].port,
        decreases parsed@.len() - index,
    {
        assert(parsed@.skip(index as int)[0] == parsed@[index as int]);
        assert(config.addresses@.skip(index as int)[0] == config.addresses@[index as int]);
        match &parsed[index] {
            Ok(endpoint) => {
                let octets = crate::replay::copy_bytes(&endpoint.octets);
                endpoints.push(MachineEndpoint { octets, port: endpoint.port });
            },
            Err(error) => {
                let mut message = "invalid machine endpoint ".to_owned();
                append_text(&mut message, config.addresses[index].1.as_str());
                append_text(&mut message, ": ");
                append_text(&mut message, error.as_str());
                return Err(message);
            },
        }
        assert(parsed@.skip(index as int).drop_first() =~= parsed@.skip(index + 1));
        assert(config.addresses@.skip(index as int).drop_first() =~= config.addresses@.skip(index + 1));
        index = index + 1;
    }
    assert(parsed@.skip(index as int) =~= Seq::<Result<MachineEndpoint, String>>::empty());
    let ok = routable(&endpoints);
    proof {
        let mapped = parsed@.map_values(|p: Result<MachineEndpoint, String>| p->Ok_0);
        assert(mapped.len() == endpoints@.len());
        assert forall|i: int| 0 <= i < mapped.len() implies mapped[i].octets@ == endpoints@[i].octets@
            && mapped[i].port == endpoints@[i].port by {
            assert(parsed@[i] is Ok);
        }
        assert(endpoints_routable(mapped) == endpoints_routable(endpoints@));
    }
    if !ok {
        return Err("machine endpoints must use three distinct routable IP addresses and nonzero ports".to_owned());
    }
    if !three_distinct_excluding(&config.machine_ids, &config.controller_machine_id) {
        return Err("node machine IDs must be distinct and exclude the controller machine".to_owned());
    }
    if !three_distinct_excluding(&config.failure_domains, &config.controller_failure_domain) {
        return Err("node failure domains must be distinct".to_owned());
    }
    let mut r: usize = 0;
    while r < config.roots.len()
        invariant
            r <= config.roots@.len(),
            config.schema_version == 1,
            first_bad_table(*config) is None,
            first_unparsed(config.addresses@, parsed@) is None,
            endpoints_routable(parsed@.map_values(|p: Result<MachineEndpoint, String>| p->Ok_0)),
            distinct_excluding(config.machine_ids@, config.controller_machine_id@),
            distinct_excluding(config.failure_domains@, config.controller_failure_domain@),
            forall|i: int| 0 <= i < r ==> absolute((#[trigger] config.roots@[i]).1@),
        decreases config.roots@.len() - r,
    {
        if !is_absolute(config.roots[r].1.as_str()) {
            return Err("machine roots must be absolute paths".to_owned());
        }
        r = r + 1;
    }
    if !hook_usable {
        return Err("lifecycle hook must be an absolute existing file".to_owned());
    }
    if config.hook_timeout_seconds < 1 || config.hook_timeout_seconds > 900 {
        return Err("hook timeout must be between 1 and 900 seconds".to_owned());
    }
    Ok(())
}

fn node_table_error(name: &str) -> (message: String)
    ensures
        message@ == name@ + " must contain exactly node IDs 1, 2, and 3"@,
{
    let mut message = name.to_owned();
    append_text(&mut message, " must contain exactly node IDs 1, 2, and 3");
    message
}

/// The identity of a validated machine topology: the digest of its lifecycle
/// hook, and the digest of the topology bound to that hook.
#[derive(Clone, Debug, PartialEq, Eq)]
pub struct MachineTopologyReceipt {
    pub lifecycle_hook_sha256: String,
    pub topology_sha256: String,
}

/// The hashed topology: the domain tag, the configuration's JSON encoding,
/// then the hook digest's hexadecimal digits.
pub open spec fn topology_preimage(config_json: Seq<u8>, hook: Seq<u8>) -> Seq<u8> {
    ascii_bytes("okv-transaction-machine-topology-v1"@) + config_json + hex_lower(sha256_of(hook))
}

/// Bind a machine topology to its lifecycle hook. The configuration must
/// validate (`validate`); then the hook's bytes, as read, and the
/// configuration's JSON encoding, as written, must be at hand, or their
/// errors are returned in that order.
pub fn machine_topology_receipt(
    config: &TransactionMachineConfig,
    parsed: &Vec<Result<MachineEndpoint, String>>,
    hook_usable: bool,
    hook: &Result<Vec<u8>, String>,
    config_json: &Result<Vec<u8>, String>,
) -> (result: Result<MachineTopologyReceipt, String>)
    requires
        parsed@.len() == config.addresses@.len(),
    ensures
        machine_config_error(*config, parsed@, hook_usable) matches Some(e) ==> (result matches Err(r) && r@ == e),
        machine_config_error(*config, parsed@, hook_usable) is None ==> match (hook, config_json) {
            (Err(e), _) => result matches Err(r) && r@ == e@,
            (Ok(_), Err(e)) => result matches Err(r) && r@ == e@,
            (Ok(h), Ok(j)) => result matches Ok(receipt) && receipt.lifecycle_hook_sha256@ == content_sha256_text(h@)
                && receipt.topology_sha256@ == content_sha256_text(topology_preimage(j@, h@)),
        },
{
    validate(config, parsed, hook_usable)?;
    let hook_bytes = match hook {
        Ok(bytes) => bytes,
        Err(error) => {
            return Err(error.clone());
        },
    };
    let json = match config_json {
        Ok(bytes) => bytes,
        Err(error) => {
            return Err(error.clone());
        },
    };
    let digest = sha256(hook_bytes.as_slice());
    let lifecycle_hook_sha256 = to_lower_hex(digest.as_slice());
    let domain = "okv-transaction-machine-topology-v1";
    proof {
        reveal_strlit("okv-transaction-machine-topology-v1");
        vstd::string::is_ascii_spec_bytes(domain);
    }
    assert(domain.is_ascii());
    assert(domain.spec_bytes() =~= ascii_bytes(domain@));
    let mut preimage: Vec<u8> = Vec::new();
    extend_bytes(&mut preimage, domain.as_bytes());
    extend_bytes(&mut preimage, json.as_slice());
    let digits = lower_hex_bytes(digest.as_slice());
    extend_bytes(&mut preimage, digits.as_slice());
    let topology_sha256 = sha256_hex(preimage.as_slice());
    Ok(MachineTopologyReceipt { lifecycle_hook_sha256, topology_sha256 })
}

} // verus!

verus! {

/// One read a transaction made, with what it observed.
#[derive(Clone, Debug, PartialEq, Eq)]
pub enum ProcessReadOperation {
    Point { key: Vec<u8>, observed: Option<ProcessObservedValue> },
    Range { range: KeyRange, observed: Vec<ProcessObservedValue> },
}

/// One transaction of the recorded history.
#[derive(Clone, Debug, PartialEq, Eq)]
pub struct ProcessTransactionRecord {
    pub id: u64,
    pub begin_tick: u64,
    pub complete_tick: u64,
    pub read_version: u64,
    pub reads: Vec<ProcessReadOperation>,
    pub read_conflicts: Vec<KeyRange>,
    pub write_conflicts: Vec<KeyRange>,
    pub mutations: Vec<Mutation>,
    pub result: ProcessTransactionResult,
    pub applied_mutations: Vec<Mutation>,
}

/// The recorded history of one contract run.
#[derive(Clone, Debug, PartialEq, Eq)]
pub struct ProcessTransactionHistory {
    pub cell_id: String,
    pub tenant_id: String,
    pub seed: u64,
    pub transactions: Vec<ProcessTransactionRecord>,
}

/// The mutations the authority reports applied: the reported count, the
/// `usize` conversion saturating.
pub open spec fn applied_count(response: TransactionApplyResponse) -> int {
    if response.applied_mutation_count > usize::MAX {
        usize::MAX as int
    } else {
        response.applied_mutation_count as int
    }
}

/// The shapes of mutations, which fix each mutation's kind and bytes.
pub open spec fn mutation_shapes(mutations: Seq<Mutation>) -> Seq<(u8, Seq<u8>, Seq<u8>)> {
    mutations.map_values(|m: Mutation| mutation_shape(m))
}

/// The history result of an answer: the committed version, or an abort
/// reason naming the conflicting version or the rendered rejection reason.
pub open spec fn result_matches(result: ProcessTransactionResult, status: TransactionStatus) -> bool {
    match status {
        TransactionStatus::Committed { commit_version } => result == ProcessTransactionResult::Committed {
            commit_version,
        },
        TransactionStatus::Conflict { conflicting_version } => result matches ProcessTransactionResult::Aborted {
            reason,
        } && reason@ == "conflict_at_"@ + ascii_text(decimal(conflicting_version as nat)),
        TransactionStatus::Rejected { reason } => result matches ProcessTransactionResult::Aborted { reason: r }
            && r@ == "rejected_"@ + text_debug_text(reason@),
    }
}

fn copy_key_range(range: &KeyRange) -> (copy: KeyRange)
    ensures
        copy.start@ == range.start@,
        copy.end@ == range.end@,
{
    KeyRange { start: copy_bytes(&range.start), end: copy_bytes(&range.end) }
}

fn copy_mutation(mutation: &Mutation) -> (copy: Mutation)
    ensures
        mutation_shape(copy) == mutation_shape(*mutation),
{
    match mutation {
        Mutation::SetValue { key, value } => Mutation::SetValue { key: copy_bytes(key), value: copy_bytes(value) },
        Mutation::Clear { key } => Mutation::Clear { key: copy_bytes(key) },
        Mutation::ClearRange { range } => Mutation::ClearRange { range: copy_key_range(range) },
    }
}

/// Record one transaction of the history from its command and the
/// authority's answer: the applied mutations are the command's first
/// mutations, as many as the answer reports applied.
pub fn record_from_response(
    id: u64,
    begin_tick: u64,
    complete_tick: u64,
    reads: Vec<ProcessReadOperation>,
    transaction: TransactionCommand,
    response: &TransactionApplyResponse,
) -> (record: ProcessTransactionRecord)
    ensures
        record.id == id,
        record.begin_tick == begin_tick,
        record.complete_tick == complete_tick,
        record.read_version == transaction.read_version,
        record.reads == reads,
        record.read_conflicts == transaction.read_conflicts,
        record.write_conflicts == transaction.write_conflicts,
        record.mutations == transaction.mutations,
        result_matches(record.result, response.status),
        mutation_shapes(record.applied_mutations@) == mutation_shapes(transaction.mutations@).take(
            if applied_count(*response) < transaction.mutations@.len() {
                applied_count(*response)
            } else {
                transaction.mutations@.len() as int
            },
        ),
{
    let result = match &response.status {
        TransactionStatus::Committed { commit_version } => ProcessTransactionResult::Committed {
            commit_version: *commit_version,
        },
        TransactionStatus::Conflict { conflicting_version } => {
            let mut reason = "conflict_at_".to_owned();
            let number = decimal_text(*conflicting_version);
            append_text(&mut reason, number.as_str());
            ProcessTransactionResult::Aborted { reason }
        },
        TransactionStatus::Rejected { reason } => {
            let mut text = "rejected_".to_owned();
            let rendered = text_debug(reason.as_str());
            append_text(&mut text, rendered.as_str());
            ProcessTransactionResult::Aborted { reason: text }
        },
    };
    let count: usize = if response.applied_mutation_count > usize::MAX as u64 {
        usize::MAX
    } else {
        response.applied_mutation_count as usize
    };
    let mut applied: Vec<Mutation> = Vec::new();
    let mut index: usize = 0;
    while index < transaction.mutations.len() && index < count
        invariant
            index <= transaction.mutations@.len(),
            index <= count,
            applied@.len() == index,
            forall|i: int| 0 <= i < index ==> mutation_shape(#[trigger] applied@[i]) == mutation_shape(
                transaction.mutations@[i],
            ),
        decreases transaction.mutations@.len() - index,
    {
        applied.push(copy_mutation(&transaction.mutations[index]));
        index = index + 1;
    }
    let ghost k = index as int;
    assert(mutation_shapes(applied@) =~= mutation_shapes(transaction.mutations@).take(k));
    ProcessTransactionRecord {
        id,
        begin_tick,
        complete_tick,
        read_version: transaction.read_version,
        reads,
        read_conflicts: transaction.read_conflicts,
        write_conflicts: transaction.write_conflicts,
        mutations: transaction.mutations,
        result,
        applied_mutations: applied,
    }
}

} // verus!

verus! {

/// The process counters of one contract run.
#[derive(Clone, Copy, Debug, PartialEq, Eq, Structural)]
pub struct ProcessRunCounters {
    pub process_starts: u64,
    pub process_kills: u64,
    pub elections: u64,
    pub dropped_replies: u64,
    pub recovered_outcomes: u64,
}

/// The report of one transaction-process contract run.
#[derive(Clone, Debug, PartialEq, Eq)]
pub struct TransactionProcessReport {
    pub seed: u64,
    pub mode: TransactionProcessMode,
    pub executed_checks: u64,
    pub anomaly_count: u64,
    pub first_mismatch: Option<String>,
    pub process_starts: u64,
    pub process_kills: u64,
    pub elections: u64,
    pub dropped_replies: u64,
    pub recovered_outcomes: u64,
    pub final_state_equal: bool,
    pub history: ProcessTransactionHistory,
    pub trace_sha256: String,
}

/// Each check's name in UTF-8, then one byte for whether it passed.
pub open spec fn checks_trace(checks: Seq<(String, bool)>) -> Seq<u8>
    decreases checks.len(),
{
    if checks.len() == 0 {
        Seq::empty()
    } else {
        checks_trace(checks.drop_last()) + vstd::utf8::encode_utf8(checks.last().0@) + seq![
            if checks.last().1 { 1u8 } else { 0u8 },
        ]
    }
}

/// The hashed trace of a run: the domain tag, the seed, the mode, the
/// history's encoding, then the checks.
pub open spec fn process_trace_preimage(
    seed: u64,
    mode: TransactionProcessMode,
    history_encoding: Seq<u8>,
    checks: Seq<(String, bool)>,
) -> Seq<u8> {
    vstd::utf8::encode_utf8("okv-transaction-process-contract-v1"@) + be_u64(seed) + vstd::utf8::encode_utf8(
        process_mode_id(mode),
    ) + history_encoding + checks_trace(checks)
}

/// Assemble the report of a run from its checks (in the order they ran), its
/// counters, the recorded history, and the history's encoding: every failed
/// check is an anomaly, the first names the mismatch, and the trace digest
/// covers the seed, mode, history and checks.
pub fn process_report(
    seed: u64,
    mode: TransactionProcessMode,
    checks: Vec<(String, bool)>,
    counters: ProcessRunCounters,
    final_state_equal: bool,
    transactions: Vec<ProcessTransactionRecord>,
    history_encoding: &[u8],
) -> (report: TransactionProcessReport)
    ensures
        report.seed == seed,
        report.mode == mode,
        report.executed_checks == checks@.len(),
        report.anomaly_count == failed_check_names(checks@).len(),
        match report.first_mismatch {
            Some(name) => failed_check_names(checks@).len() > 0 && name@ == failed_check_names(checks@)[0],
            None => failed_check_names(checks@).len() == 0,
        },
        report.process_starts == counters.process_starts,
        report.process_kills == counters.process_kills,
        report.elections == counters.elections,
        report.dropped_replies == counters.dropped_replies,
        report.recovered_outcomes == counters.recovered_outcomes,
        report.final_state_equal == final_state_equal,
        report.history.cell_id@ == "cell-v0-process"@,
        report.history.tenant_id@ == "tenant-process"@,
        report.history.seed == seed,
        report.history.transactions == transactions,
        report.trace_sha256@ == content_sha256_text(process_trace_preimage(seed, mode, history_encoding@, checks@)),
{
    let mut anomalies: u64 = 0;
    let mut first: Option<String> = None;
    let mut preimage: Vec<u8> = Vec::new();
    extend_bytes(&mut preimage, "okv-transaction-process-contract-v1".as_bytes());
    push_u64(&mut preimage, seed);
    extend_bytes(&mut preimage, mode.id().as_bytes());
    extend_bytes(&mut preimage, history_encoding);
    let ghost head = preimage@;
    assert(head =~= vstd::utf8::encode_utf8("okv-transaction-process-contract-v1"@) + be_u64(seed)
        + vstd::utf8::encode_utf8(process_mode_id(mode)) + history_encoding@);
    let mut k: usize = 0;
    while k < checks.len()
        invariant
            k <= checks@.len(),
            anomalies == failed_check_names(checks@.take(k as int)).len(),
            anomalies <= k,
            match first {
                Some(name) => failed_check_names(checks@.take(k as int)).len() > 0 && name@
                    == failed_check_names(checks@.take(k as int))[0],
                None => failed_check_names(checks@.take(k as int)).len() == 0,
            },
            preimage@ == head + checks_trace(checks@.take(k as int)),
        decreases checks@.len() - k,
    {
        proof {
            assert(checks@.take(k + 1).drop_last() =~= checks@.take(k as int));
        }
        extend_bytes(&mut preimage, checks[k].0.as_str().as_bytes());
        preimage.push(if checks[k].1 { 1u8 } else { 0u8 });
        if !checks[k].1 {
            if first.is_none() {
                first = Some(checks[k].0.clone());
            }
            anomalies = anomalies + 1;
        }
        proof {
            let names = failed_check_names(checks@.take(k + 1));
            let prior = failed_check_names(checks@.take(k as int));
            if !checks@[k as int].1 && prior.len() > 0 {
                assert(names[0] == prior[0]);
            }
            assert(preimage@ =~= head + checks_trace(checks@.take(k + 1)));
        }
        k = k + 1;
    }
    assert(checks@.take(checks@.len() as int) =~= checks@);
    let trace_sha256 = sha256_hex(preimage.as_slice());
    let executed = checks.len() as u64;
    TransactionProcessReport {
        seed,
        mode,
        executed_checks: executed,
        anomaly_count: anomalies,
        first_mismatch: first,
        process_starts: counters.process_starts,
        process_kills: counters.process_kills,
        elections: counters.elections,
        dropped_replies: counters.dropped_replies,
        recovered_outcomes: counters.recovered_outcomes,
        final_state_equal,
        history: ProcessTransactionHistory {
            cell_id: "cell-v0-process".to_owned(),
            tenant_id: "tenant-process".to_owned(),
            seed,
            transactions,
        },
        trace_sha256,
    }
}

} // verus!
