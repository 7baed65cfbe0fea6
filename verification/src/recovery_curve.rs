//! Transaction-system recovery curve: frozen configuration envelope, role and
//! inventory plans, tLog inventory verification and quorum-boundary recovery,
//! and the untimed recovery receipt with its report checks.

use crate::codec::{be_u16, be_u64, extend_bytes, push_u16, push_u64, sat_add, sat_mul, saturating_mul_u64};
use crate::digest::{sha256, sha256_of};
use vstd::string::StringSliceAdditionalSpecFns;
use vstd::arithmetic::div_mod::lemma_fundamental_div_mod_converse;
use vstd::prelude::*;

verus! {

/// Fault subjects for the isolated recovery curve.
#[derive(Clone, Copy, Debug, PartialEq, Eq, Structural)]
pub enum TransactionSystemRecoveryCurveMode {
    Correct,
    ScanPermanentDatabase,
    TrustOneTlogSet,
    QuadraticInventoryScan,
    ResumeBeforeRoleRecruitment,
}

pub open spec fn recovery_mode_id(mode: TransactionSystemRecoveryCurveMode) -> Seq<char> {
    match mode {
        TransactionSystemRecoveryCurveMode::Correct => "correct"@,
        TransactionSystemRecoveryCurveMode::ScanPermanentDatabase => "scan_permanent_database"@,
        TransactionSystemRecoveryCurveMode::TrustOneTlogSet => "trust_one_tlog_set"@,
        TransactionSystemRecoveryCurveMode::QuadraticInventoryScan => "quadratic_inventory_scan"@,
        TransactionSystemRecoveryCurveMode::ResumeBeforeRoleRecruitment => "resume_before_role_recruitment"@,
    }
}

impl TransactionSystemRecoveryCurveMode {
    /// Stable identifier used by receipts.
    pub fn id(self) -> (id: &'static str)
        ensures
            id@ == recovery_mode_id(self),
    {
        match self {
            TransactionSystemRecoveryCurveMode::Correct => "correct",
            TransactionSystemRecoveryCurveMode::ScanPermanentDatabase => "scan_permanent_database",
            TransactionSystemRecoveryCurveMode::TrustOneTlogSet => "trust_one_tlog_set",
            TransactionSystemRecoveryCurveMode::QuadraticInventoryScan => "quadratic_inventory_scan",
            TransactionSystemRecoveryCurveMode::ResumeBeforeRoleRecruitment => "resume_before_role_recruitment",
        }
    }
}

/// One frozen recovery-curve point.
#[derive(Clone, Debug, PartialEq, Eq)]
pub struct TransactionSystemRecoveryCurveConfig {
    pub seed: u64,
    pub scale_class: String,
    pub pending_tickets: u64,
    pub retained_records_per_tlog: u64,
    pub commit_proxy_roles: u64,
    pub resolver_roles: u64,
    pub tlog_sets: u64,
    pub tlog_nodes_per_set: u64,
    pub logical_database_bytes: u64,
}

impl TransactionSystemRecoveryCurveConfig {
    /// Every field the curve needs is present.
    pub open spec fn complete(&self) -> bool {
        &&& self.scale_class@.len() > 0
        &&& self.pending_tickets != 0
        &&& self.retained_records_per_tlog != 0
        &&& self.commit_proxy_roles != 0
        &&& self.resolver_roles != 0
        &&& self.tlog_sets >= 2
        &&& self.tlog_nodes_per_set >= 3
        &&& self.logical_database_bytes != 0
    }

    /// Every bound stays inside the bounded evaluation envelope.
    pub open spec fn within_envelope(&self) -> bool {
        &&& self.pending_tickets <= 4_096
        &&& self.retained_records_per_tlog <= 262_144
        &&& self.commit_proxy_roles <= 32
        &&& self.resolver_roles <= 128
        &&& self.tlog_sets <= 8
        &&& self.tlog_nodes_per_set <= 9
    }

    /// Accept the configuration exactly when it is complete and inside the
    /// envelope; completeness is checked first.
    pub fn validate(&self) -> (result: Result<(), String>)
        ensures
            result is Ok <==> self.complete() && self.within_envelope(),
            !self.complete() ==> (result matches Err(e)
                && e@ == "transaction-system recovery curve configuration is incomplete"@),
            self.complete() && !self.within_envelope() ==> (result matches Err(e)
                && e@ == "transaction-system recovery curve configuration exceeds the bounded eval envelope"@),
    {
        if self.scale_class.as_str().is_empty() || self.pending_tickets == 0
            || self.retained_records_per_tlog == 0 || self.commit_proxy_roles == 0
            || self.resolver_roles == 0 || self.tlog_sets < 2 || self.tlog_nodes_per_set < 3
            || self.logical_database_bytes == 0
        {
            return Err("transaction-system recovery curve configuration is incomplete".to_owned());
        }
        if self.pending_tickets > 4_096 || self.retained_records_per_tlog > 262_144
            || self.commit_proxy_roles > 32 || self.resolver_roles > 128 || self.tlog_sets > 8
            || self.tlog_nodes_per_set > 9
        {
            return Err(
                "transaction-system recovery curve configuration exceeds the bounded eval envelope".to_owned(),
            );
        }
        Ok(())
    }

    pub open spec fn spec_tlog_nodes(&self) -> u64 {
        sat_mul(self.tlog_sets, self.tlog_nodes_per_set)
    }

    pub open spec fn spec_successor_roles(&self) -> u64 {
        sat_add(sat_add(self.commit_proxy_roles, self.resolver_roles), self.spec_tlog_nodes())
    }

    /// Total tLog replicas across all sets (saturating).
    pub fn tlog_nodes(&self) -> (nodes: u64)
        ensures
            nodes == self.spec_tlog_nodes(),
    {
        saturating_mul_u64(self.tlog_sets, self.tlog_nodes_per_set)
    }

    /// Every successor role that recovery must recruit (saturating).
    pub fn successor_roles(&self) -> (roles: u64)
        ensures
            roles == self.spec_successor_roles(),
    {
        self.commit_proxy_roles.saturating_add(self.resolver_roles).saturating_add(self.tlog_nodes())
    }
}

/// Pending-ticket classification work: one unit per ticket, plus one unit per
/// ordered ticket pair under the quadratic-scan poison.
pub open spec fn pending_work(pending_tickets: u64, mode: TransactionSystemRecoveryCurveMode) -> int {
    if mode == TransactionSystemRecoveryCurveMode::QuadraticInventoryScan {
        pending_tickets + pending_tickets * (pending_tickets + 1) / 2
    } else {
        pending_tickets as int
    }
}

pub open spec fn saturate(total: int) -> u64 {
    if total > u64::MAX {
        u64::MAX
    } else {
        total as u64
    }
}

proof fn lemma_triangle_step(n: int, left: int)
    requires
        0 <= left < n,
    ensures
        left * n - left * (left - 1) / 2 + (n - left) == (left + 1) * n - (left + 1) * left / 2,
{
    assert(left * (left - 1) + 2 * left == (left + 1) * left) by (nonlinear_arith);
    assert((left + 1) * n == left * n + n) by (nonlinear_arith);
    assert(left * (left - 1) % 2 == 0) by {
        lemma_consecutive_product_even(left);
    }
    assert((left + 1) * left / 2 == left * (left - 1) / 2 + left);
}

proof fn lemma_consecutive_product_even(left: int)
    ensures
        (left * (left - 1)) % 2 == 0,
        left * (left - 1) == 2 * ((left * (left - 1)) / 2),
{
    if left % 2 == 0 {
        let k = left / 2;
        assert(left == 2 * k);
        assert(left * (left - 1) == 2 * (k * (left - 1))) by (nonlinear_arith)
            requires
                left == 2 * k,
        ;
    } else {
        let k = (left - 1) / 2;
        assert(left - 1 == 2 * k);
        assert(left * (left - 1) == 2 * (left * k)) by (nonlinear_arith)
            requires
                left - 1 == 2 * k,
        ;
    }
}

proof fn lemma_base_nonneg(n: int, left: int)
    requires
        0 <= left <= n,
    ensures
        left * (left - 1) / 2 <= left * n,
        left * (left - 1) >= 0,
{
    assert(left * (left - 1) <= 2 * (left * n)) by (nonlinear_arith)
        requires
            0 <= left <= n,
    ;
    assert(left * (left - 1) >= 0) by (nonlinear_arith)
        requires
            0 <= left,
    ;
    lemma_consecutive_product_even(left);
}

/// Count the pending-ticket classification work for one mode.
pub fn classify_pending(pending_tickets: u64, mode: TransactionSystemRecoveryCurveMode) -> (work: u64)
    ensures
        work == saturate(pending_work(pending_tickets, mode)),
{
    let mut work: u64 = 0;
    let mut ticket: u64 = 0;
    while ticket < pending_tickets
        invariant
            ticket <= pending_tickets,
            work == ticket,
        decreases pending_tickets - ticket,
    {
        work = work.saturating_add(1);
        ticket = ticket + 1;
    }
    if mode == TransactionSystemRecoveryCurveMode::QuadraticInventoryScan {
        let ghost n = pending_tickets as int;
        let mut left: u64 = 0;
        while left < pending_tickets
            invariant
                n == pending_tickets,
                left <= pending_tickets,
                work == saturate(n + left * n - left * (left - 1) / 2),
            decreases pending_tickets - left,
        {
            let ghost base = n + left * n - left * (left - 1) / 2;
            proof {
                lemma_base_nonneg(n, left as int);
            }
            let mut right: u64 = 0;
            while right < pending_tickets
                invariant
                    n == pending_tickets,
                    left < pending_tickets,
                    right <= pending_tickets,
                    work == saturate(base + (if right > left { right - left } else { 0 })),
                    base == n + left * n - left * (left - 1) / 2,
                    base >= 0,
                decreases pending_tickets - right,
            {
                work = work.saturating_add(if left <= right { 1 } else { 0 });
                right = right + 1;
            }
            proof {
                lemma_triangle_step(n, left as int);
            }
            left = left + 1;
        }
        proof {
            assert(n * (n - 1) + 2 * n == n * (n + 1)) by (nonlinear_arith);
            assert(n * n == n * (n - 1) + n) by (nonlinear_arith);
            lemma_consecutive_product_even(n);
            lemma_consecutive_product_even(n + 1);
            assert((n + 1) * (n + 1 - 1) == n * (n + 1)) by (nonlinear_arith);
            assert(n * (n + 1) / 2 == n * (n - 1) / 2 + n);
            assert(n * n - n * (n - 1) / 2 == n * (n + 1) / 2);
        }
    }
    work
}


/// One inventory writer that the curve starts before recovery.
#[derive(Clone, Copy, Debug, PartialEq, Eq, Structural)]
pub struct InventoryAssignment {
    pub log_set_id: u16,
    pub node_id: u16,
    pub record_count: u64,
}

/// The last replica of every set lags by an eighth of the retained records.
pub open spec fn inventory_record_count(config: TransactionSystemRecoveryCurveConfig, node_offset: int) -> u64 {
    if node_offset + 1 == config.tlog_nodes_per_set {
        (config.retained_records_per_tlog - config.retained_records_per_tlog / 8) as u64
    } else {
        config.retained_records_per_tlog
    }
}

pub open spec fn inventory_assignment(
    config: TransactionSystemRecoveryCurveConfig,
    set_offset: int,
    node_offset: int,
) -> InventoryAssignment {
    InventoryAssignment {
        log_set_id: (set_offset + 1) as u16,
        node_id: (node_offset + 1) as u16,
        record_count: inventory_record_count(config, node_offset),
    }
}

/// The planned writers, set by set and node by node.
pub open spec fn inventory_plan(config: TransactionSystemRecoveryCurveConfig) -> Seq<InventoryAssignment> {
    Seq::new(
        (config.tlog_sets * config.tlog_nodes_per_set) as nat,
        |i: int|
            inventory_assignment(
                config,
                i / config.tlog_nodes_per_set as int,
                i % config.tlog_nodes_per_set as int,
            ),
    )
}

proof fn lemma_plan_index(i: int, set_offset: int, node_offset: int, nodes: int)
    requires
        nodes > 0,
        0 <= node_offset < nodes,
        i == set_offset * nodes + node_offset,
    ensures
        i / nodes == set_offset,
        i % nodes == node_offset,
{
    lemma_fundamental_div_mod_converse(i, nodes, set_offset, node_offset);
}

/// Plan the inventory writers of every tLog replica: one per set and node,
/// each with a 1-based `u16` identity.
pub fn prepare_inventories(config: &TransactionSystemRecoveryCurveConfig) -> (result: Result<
    Vec<InventoryAssignment>,
    String,
>)
    ensures
        result is Ok <==> config.tlog_sets <= 65_535 && (config.tlog_sets == 0
            || config.tlog_nodes_per_set <= 65_535),
        result matches Ok(plan) ==> plan@ == inventory_plan(*config),
        config.tlog_sets >= 1 && config.tlog_nodes_per_set > 65_535 ==> (result matches Err(e)
            && e@ == "tLog node identity exceeds u16"@),
        config.tlog_nodes_per_set <= 65_535 && config.tlog_sets > 65_535 ==> (result matches Err(e)
            && e@ == "tLog set identity exceeds u16"@),
{
    let ghost cfg = *config;
    let nodes = config.tlog_nodes_per_set;
    let mut plan: Vec<InventoryAssignment> = Vec::new();
    let mut set_offset: u64 = 0;
    while set_offset < config.tlog_sets
        invariant
            cfg == *config,
            nodes == config.tlog_nodes_per_set,
            set_offset <= config.tlog_sets,
            set_offset <= 65_535,
            set_offset > 0 ==> nodes <= 65_535,
            plan@.len() == set_offset * nodes,
            forall|i: int|
                0 <= i < plan@.len() ==> #[trigger] plan@[i] == inventory_assignment(
                    cfg,
                    i / nodes as int,
                    i % nodes as int,
                ),
        decreases config.tlog_sets - set_offset,
    {
        if set_offset + 1 > 65_535 {
            return Err("tLog set identity exceeds u16".to_owned());
        }
        let log_set_id = (set_offset + 1) as u16;
        let mut node_offset: u64 = 0;
        while node_offset < nodes
            invariant
                cfg == *config,
                nodes == config.tlog_nodes_per_set,
                set_offset < config.tlog_sets,
                set_offset < 65_535,
                log_set_id == set_offset + 1,
                node_offset <= nodes,
                node_offset <= 65_535,
                set_offset > 0 ==> nodes <= 65_535,
                plan@.len() == set_offset * nodes + node_offset,
                forall|i: int|
                    0 <= i < plan@.len() ==> #[trigger] plan@[i] == inventory_assignment(
                        cfg,
                        i / nodes as int,
                        i % nodes as int,
                    ),
            decreases nodes - node_offset,
        {
            if node_offset + 1 > 65_535 {
                return Err("tLog node identity exceeds u16".to_owned());
            }
            let node_id = (node_offset + 1) as u16;
            let record_count = if node_offset + 1 == nodes {
                config.retained_records_per_tlog - config.retained_records_per_tlog / 8
            } else {
                config.retained_records_per_tlog
            };
            let ghost before = plan@;
            plan.push(InventoryAssignment { log_set_id, node_id, record_count });
            proof {
                let i = before.len() as int;
                lemma_plan_index(i, set_offset as int, node_offset as int, nodes as int);
                assert(plan@[i] == inventory_assignment(cfg, i / nodes as int, i % nodes as int));
            }
            node_offset = node_offset + 1;
        }
        proof {
            assert((set_offset + 1) * nodes == set_offset * nodes + nodes) by (nonlinear_arith);
        }
        set_offset = set_offset + 1;
    }
    proof {
        assert(plan@ =~= inventory_plan(cfg));
    }
    Ok(plan)
}


/// Generation of the failed transaction system.
pub const GENERATION: u64 = 1;

/// Generation of the recruited successor transaction system.
pub const SUCCESSOR_GENERATION: u64 = 2;

#[derive(Clone, Copy, Debug, PartialEq, Eq, Structural)]
pub enum RecoveryCurveRoleKind {
    CommitProxy,
    Resolver,
    Tlog,
}

/// One-shot child-process work for the recovery curve.
#[allow(inconsistent_fields)]
#[derive(Clone, Debug, PartialEq, Eq)]
pub enum RecoveryCurveRoleConfig {
    WriteInventory { seed: u64, log_set_id: u16, node_id: u16, record_count: u64, output_path: String },
    Ready { seed: u64, generation: u64, role: RecoveryCurveRoleKind, role_id: u16, log_set_id: Option<u16> },
    ObserveFailure { seed: u64, generation: u64 },
}

#[derive(Clone, Debug, PartialEq, Eq)]
pub struct RecoveryCurveInventoryReceipt {
    pub format_version: u16,
    pub seed: u64,
    pub generation: u64,
    pub log_set_id: u16,
    pub node_id: u16,
    pub record_count: u64,
    pub byte_count: u64,
    pub inventory_sha256: [u8; 32],
    pub signature: Vec<u8>,
}

#[derive(Clone, Debug, PartialEq, Eq)]
pub struct RecoveryCurveReadyReceipt {
    pub format_version: u16,
    pub seed: u64,
    pub generation: u64,
    pub role: RecoveryCurveRoleKind,
    pub role_id: u16,
    pub log_set_id: Option<u16>,
    pub signature: Vec<u8>,
}

/// Response from one disposable recovery-curve child process.
#[derive(Clone, Debug, PartialEq, Eq)]
pub enum RecoveryCurveRoleReceipt {
    Inventory(RecoveryCurveInventoryReceipt),
    Ready(RecoveryCurveReadyReceipt),
}

/// One successor role, in recruitment order. `role_id` is the 1-based role
/// number before its `u16` conversion; tLog roles carry their 1-based set.
#[derive(Clone, Copy, Debug, PartialEq, Eq, Structural)]
pub struct SuccessorRole {
    pub role: RecoveryCurveRoleKind,
    pub role_id: u64,
    pub log_set_id: Option<u16>,
}

/// Number of tLog sets whose roles are recruited before a set identity stops
/// fitting in `u16`.
pub open spec fn recruitable_sets(config: TransactionSystemRecoveryCurveConfig) -> int {
    if config.tlog_sets > 65_535 {
        65_535
    } else {
        config.tlog_sets as int
    }
}

pub open spec fn tlog_role(config: TransactionSystemRecoveryCurveConfig, set_offset: int, node_offset: int) -> SuccessorRole {
    SuccessorRole {
        role: RecoveryCurveRoleKind::Tlog,
        role_id: sat_add(
            sat_add(sat_mul(set_offset as u64, config.tlog_nodes_per_set), node_offset as u64),
            1,
        ),
        log_set_id: Some((set_offset + 1) as u16),
    }
}

/// Commit proxies, then resolvers, then every tLog replica set by set.
pub open spec fn successor_plan(config: TransactionSystemRecoveryCurveConfig) -> Seq<SuccessorRole> {
    Seq::new(
        config.commit_proxy_roles as nat,
        |i: int| SuccessorRole { role: RecoveryCurveRoleKind::CommitProxy, role_id: (i + 1) as u64, log_set_id: None },
    ) + Seq::new(
        config.resolver_roles as nat,
        |i: int| SuccessorRole { role: RecoveryCurveRoleKind::Resolver, role_id: (i + 1) as u64, log_set_id: None },
    ) + Seq::new(
        (recruitable_sets(config) * config.tlog_nodes_per_set) as nat,
        |i: int|
            tlog_role(config, i / config.tlog_nodes_per_set as int, i % config.tlog_nodes_per_set as int),
    )
}

/// Plan the successor recruitment: the roles to recruit in order, and the
/// error that ends recruitment after them when a set identity overflows `u16`.
pub fn recruit_successor_roles(config: &TransactionSystemRecoveryCurveConfig) -> (plan: (
    Vec<SuccessorRole>,
    Option<String>,
))
    requires
        config.commit_proxy_roles + config.resolver_roles + recruitable_sets(*config)
            * config.tlog_nodes_per_set <= usize::MAX,
    ensures
        plan.0@ == successor_plan(*config),
        plan.1 is Some <==> config.tlog_sets > 65_535,
        plan.1 matches Some(e) ==> e@ == "successor tLog set identity exceeds u16"@,
{
    let ghost cfg = *config;
    let mut roles: Vec<SuccessorRole> = Vec::new();
    let mut count: u64 = 0;
    while count < config.commit_proxy_roles
        invariant
            cfg == *config,
            count <= config.commit_proxy_roles,
            roles@ =~= Seq::new(
                count as nat,
                |i: int| SuccessorRole { role: RecoveryCurveRoleKind::CommitProxy, role_id: (i + 1) as u64, log_set_id: None },
            ),
        decreases config.commit_proxy_roles - count,
    {
        roles.push(SuccessorRole { role: RecoveryCurveRoleKind::CommitProxy, role_id: count + 1, log_set_id: None });
        count = count + 1;
    }
    let ghost proxies = roles@;
    let mut count: u64 = 0;
    while count < config.resolver_roles
        invariant
            cfg == *config,
            proxies.len() == config.commit_proxy_roles,
            count <= config.resolver_roles,
            roles@ =~= proxies + Seq::new(
                count as nat,
                |i: int| SuccessorRole { role: RecoveryCurveRoleKind::Resolver, role_id: (i + 1) as u64, log_set_id: None },
            ),
        decreases config.resolver_roles - count,
    {
        roles.push(SuccessorRole { role: RecoveryCurveRoleKind::Resolver, role_id: count + 1, log_set_id: None });
        count = count + 1;
    }
    let ghost front = roles@;
    assert(front =~= successor_plan(cfg).subrange(0, front.len() as int));
    let nodes = config.tlog_nodes_per_set;
    let mut set_offset: u64 = 0;
    while set_offset < config.tlog_sets
        invariant
            cfg == *config,
            nodes == config.tlog_nodes_per_set,
            front.len() == config.commit_proxy_roles + config.resolver_roles,
            front == successor_plan(cfg).subrange(0, front.len() as int),
            set_offset <= config.tlog_sets,
            set_offset <= 65_535,
            roles@.len() == front.len() + set_offset * nodes,
            roles@.subrange(0, front.len() as int) == front,
            forall|i: int|
                front.len() <= i < roles@.len() ==> #[trigger] roles@[i] == tlog_role(
                    cfg,
                    (i - front.len()) / nodes as int,
                    (i - front.len()) % nodes as int,
                ),
        decreases config.tlog_sets - set_offset,
    {
        if set_offset + 1 > 65_535 {
            proof {
                let plan = successor_plan(cfg);
                assert(recruitable_sets(cfg) == set_offset);
                assert(plan.len() == roles@.len());
                assert forall|i: int| 0 <= i < plan.len() implies plan[i] == roles@[i] by {
                    if i < front.len() {
                        assert(roles@[i] == roles@.subrange(0, front.len() as int)[i]);
                        assert(plan[i] == plan.subrange(0, front.len() as int)[i]);
                    }
                }
                assert(roles@ =~= plan);
            }
            return (roles, Some("successor tLog set identity exceeds u16".to_owned()));
        }
        let set_id = (set_offset + 1) as u16;
        let mut node_offset: u64 = 0;
        while node_offset < nodes
            invariant
                cfg == *config,
                nodes == config.tlog_nodes_per_set,
                front.len() == config.commit_proxy_roles + config.resolver_roles,
                set_offset < config.tlog_sets,
                set_offset < 65_535,
                set_id == set_offset + 1,
                node_offset <= nodes,
                roles@.len() == front.len() + set_offset * nodes + node_offset,
                roles@.subrange(0, front.len() as int) == front,
                forall|i: int|
                    front.len() <= i < roles@.len() ==> #[trigger] roles@[i] == tlog_role(
                        cfg,
                        (i - front.len()) / nodes as int,
                        (i - front.len()) % nodes as int,
                    ),
            decreases nodes - node_offset,
        {
            let role_id = saturating_mul_u64(set_offset, nodes).saturating_add(node_offset).saturating_add(1);
            let ghost before = roles@;
            roles.push(SuccessorRole { role: RecoveryCurveRoleKind::Tlog, role_id, log_set_id: Some(set_id) });
            proof {
                let i = before.len() as int;
                lemma_plan_index(i - front.len(), set_offset as int, node_offset as int, nodes as int);
                assert(roles@.subrange(0, front.len() as int) =~= before.subrange(0, front.len() as int));
            }
            node_offset = node_offset + 1;
        }
        proof {
            assert((set_offset + 1) * nodes == set_offset * nodes + nodes) by (nonlinear_arith);
        }
        set_offset = set_offset + 1;
    }
    proof {
        assert(roles@ =~= successor_plan(cfg));
    }
    (roles, None)
}

/// The readiness task that recruits one successor role; the role number must
/// fit in `u16`.
pub fn recruit_role(seed: u64, role: &SuccessorRole) -> (result: Result<RecoveryCurveRoleConfig, String>)
    ensures
        result is Ok <==> role.role_id <= 65_535,
        result matches Ok(config) ==> config == (RecoveryCurveRoleConfig::Ready {
            seed,
            generation: SUCCESSOR_GENERATION,
            role: role.role,
            role_id: role.role_id as u16,
            log_set_id: role.log_set_id,
        }),
        result matches Err(e) ==> e@ == "successor role identity exceeds u16"@,
{
    if role.role_id > 65_535 {
        return Err("successor role identity exceeds u16".to_owned());
    }
    Ok(RecoveryCurveRoleConfig::Ready {
        seed,
        generation: SUCCESSOR_GENERATION,
        role: role.role,
        role_id: role.role_id as u16,
        log_set_id: role.log_set_id,
    })
}

/// A readiness receipt answers exactly the recruited role and carries a valid
/// signature (`signature_valid`, checked against the role's key).
pub open spec fn ready_receipt_matches(
    receipt: RecoveryCurveReadyReceipt,
    seed: u64,
    role: SuccessorRole,
    signature_valid: bool,
) -> bool {
    &&& receipt.seed == seed
    &&& receipt.role == role.role
    &&& receipt.role_id as u64 == role.role_id
    &&& receipt.log_set_id == role.log_set_id
    &&& signature_valid
}

/// Accept the child's answer to a readiness task.
pub fn check_ready_receipt(
    response: &RecoveryCurveRoleReceipt,
    seed: u64,
    role: &SuccessorRole,
    signature_valid: bool,
) -> (result: Result<(), String>)
    ensures
        result is Ok <==> (*response matches RecoveryCurveRoleReceipt::Ready(r) && ready_receipt_matches(
            r,
            seed,
            *role,
            signature_valid,
        )),
        response is Inventory ==> (result matches Err(e) && e@ == "successor role returned an inventory receipt"@),
        (response is Ready && result is Err) ==> (result matches Err(e) && e@ == "successor role readiness receipt is invalid"@),
{
    match response {
        RecoveryCurveRoleReceipt::Inventory(_) => Err("successor role returned an inventory receipt".to_owned()),
        RecoveryCurveRoleReceipt::Ready(receipt) => {
            let same_set = match (receipt.log_set_id, role.log_set_id) {
                (Some(a), Some(b)) => a == b,
                (None, None) => true,
                _ => false,
            };
            if receipt.seed != seed || receipt.role != role.role || receipt.role_id as u64 != role.role_id
                || !same_set || !signature_valid
            {
                return Err("successor role readiness receipt is invalid".to_owned());
            }
            Ok(())
        },
    }
}


/// Bytes in one inventory record: the version and its record digest.
pub const INVENTORY_RECORD_BYTES: u64 = 40;

pub open spec fn inventory_record_domain() -> Seq<u8> {
    "okv-eval-rfc0054-inventory-record-v1".spec_bytes()
}

/// The hashed identity of one inventory record.
pub open spec fn inventory_record_preimage(seed: u64, log_set_id: u16, node_id: u16, version: u64) -> Seq<u8> {
    inventory_record_domain() + be_u64(seed) + be_u16(log_set_id) + be_u16(node_id) + be_u64(version)
}

/// One 40-byte inventory record: version, then the SHA-256 of its identity.
pub open spec fn inventory_record(seed: u64, log_set_id: u16, node_id: u16, version: u64) -> Seq<u8> {
    be_u64(version) + sha256_of(inventory_record_preimage(seed, log_set_id, node_id, version))
}

/// The exact inventory file holding versions `1..=count`.
pub open spec fn inventory_file(seed: u64, log_set_id: u16, node_id: u16, count: nat) -> Seq<u8>
    decreases count,
{
    if count == 0 {
        Seq::empty()
    } else {
        inventory_file(seed, log_set_id, node_id, (count - 1) as nat) + inventory_record(
            seed,
            log_set_id,
            node_id,
            count as u64,
        )
    }
}

/// SHA-256 of one inventory record's identity.
pub fn inventory_record_digest(seed: u64, log_set_id: u16, node_id: u16, version: u64) -> (digest: Vec<u8>)
    ensures
        digest@ == sha256_of(inventory_record_preimage(seed, log_set_id, node_id, version)),
        digest@.len() == 32,
{
    let mut bytes: Vec<u8> = Vec::new();
    extend_bytes(&mut bytes, "okv-eval-rfc0054-inventory-record-v1".as_bytes());
    push_u64(&mut bytes, seed);
    push_u16(&mut bytes, log_set_id);
    push_u16(&mut bytes, node_id);
    push_u64(&mut bytes, version);
    sha256(bytes.as_slice())
}

fn append_inventory_record(bytes: &mut Vec<u8>, seed: u64, log_set_id: u16, node_id: u16, version: u64)
    ensures
        final(bytes)@ == old(bytes)@ + inventory_record(seed, log_set_id, node_id, version),
        final(bytes)@.len() == old(bytes)@.len() + 40,
{
    push_u64(bytes, version);
    let digest = inventory_record_digest(seed, log_set_id, node_id, version);
    extend_bytes(bytes, digest.as_slice());
    assert(final(bytes)@ =~= old(bytes)@ + inventory_record(seed, log_set_id, node_id, version));
}

fn digest_array(digest: &Vec<u8>) -> (array: [u8; 32])
    requires
        digest@.len() == 32,
    ensures
        array@ == digest@,
{
    let mut array = [0u8; 32];
    let mut index: usize = 0;
    while index < 32
        invariant
            index <= 32,
            digest@.len() == 32,
            forall|i: int| 0 <= i < index ==> array@[i] == digest@[i],
        decreases 32 - index,
    {
        array[index] = digest[index];
        index = index + 1;
    }
    assert(array@ =~= digest@);
    array
}

/// The inventory file and its unsigned receipt for one tLog replica holding
/// versions `1..=record_count`; the caller writes the file and signs the
/// receipt.
pub fn write_inventory(seed: u64, log_set_id: u16, node_id: u16, record_count: u64) -> (result: Result<
    (Vec<u8>, RecoveryCurveInventoryReceipt),
    String,
>)
    ensures
        result is Ok <==> log_set_id != 0 && node_id != 0 && record_count != 0,
        result matches Err(e) ==> e@ == "inventory writer identity is invalid"@,
        result matches Ok((file, receipt)) ==> {
            &&& file@ == inventory_file(seed, log_set_id, node_id, record_count as nat)
            &&& receipt == (RecoveryCurveInventoryReceipt {
                format_version: 1,
                seed,
                generation: GENERATION,
                log_set_id,
                node_id,
                record_count,
                byte_count: sat_mul(record_count, 40),
                inventory_sha256: receipt.inventory_sha256,
                signature: receipt.signature,
            })
            &&& receipt.inventory_sha256@ == sha256_of(file@)
            &&& receipt.signature@.len() == 0
        },
{
    if log_set_id == 0 || node_id == 0 || record_count == 0 {
        return Err("inventory writer identity is invalid".to_owned());
    }
    let mut file: Vec<u8> = Vec::new();
    let mut written: u64 = 0;
    while written < record_count
        invariant
            written <= record_count,
            file@ == inventory_file(seed, log_set_id, node_id, written as nat),
        decreases record_count - written,
    {
        append_inventory_record(&mut file, seed, log_set_id, node_id, written + 1);
        written = written + 1;
    }
    let digest = sha256(file.as_slice());
    let receipt = RecoveryCurveInventoryReceipt {
        format_version: 1,
        seed,
        generation: GENERATION,
        log_set_id,
        node_id,
        record_count,
        byte_count: saturating_mul_u64(record_count, 40),
        inventory_sha256: digest_array(&digest),
        signature: Vec::new(),
    };
    Ok((file, receipt))
}


/// Record `index` (0-based) of the file is present and exact.
pub open spec fn inventory_record_ok(file: Seq<u8>, receipt: RecoveryCurveInventoryReceipt, index: int) -> bool {
    &&& file.len() >= 40 * (index + 1)
    &&& file.subrange(40 * index, 40 * index + 40) == inventory_record(
        receipt.seed,
        receipt.log_set_id,
        receipt.node_id,
        (index + 1) as u64,
    )
}

/// The first `count` records of the file are present and exact.
pub open spec fn inventory_prefix_ok(file: Seq<u8>, receipt: RecoveryCurveInventoryReceipt, count: int) -> bool {
    forall|index: int| 0 <= index < count ==> #[trigger] inventory_record_ok(file, receipt, index)
}

/// The file matches the receipt's signed totals once every record is exact.
pub open spec fn inventory_totals_ok(file: Seq<u8>, receipt: RecoveryCurveInventoryReceipt) -> bool {
    &&& file.len() == 40 * receipt.record_count
    &&& receipt.byte_count == sat_mul(receipt.record_count, 40)
    &&& sha256_of(file) == receipt.inventory_sha256@
}

fn same_bytes(left: &[u8], left_start: usize, right: &Vec<u8>) -> (same: bool)
    requires
        left_start + right@.len() <= left@.len(),
    ensures
        same == (left@.subrange(left_start as int, left_start + right@.len()) == right@),
{
    let left_len = left.len();
    let mut index: usize = 0;
    while index < right.len()
        invariant
            index <= right@.len(),
            left_len == left@.len(),
            left_start + right@.len() <= left@.len(),
            forall|i: int| 0 <= i < index ==> left@[left_start + i] == right@[i],
        decreases right@.len() - index,
    {
        if left[left_start + index] != right[index] {
            assert(left@.subrange(left_start as int, left_start + right@.len())[index as int] != right@[index as int]);
            return false;
        }
        index = index + 1;
    }
    assert(left@.subrange(left_start as int, left_start + right@.len()) =~= right@);
    true
}

/// Check one inventory file against its receipt: every record in order, no
/// trailing bytes, the signed byte count, and the signed SHA-256.
pub fn verify_inventory_file(file: &[u8], receipt: &RecoveryCurveInventoryReceipt) -> (result: Result<u64, String>)
    ensures
        result is Ok <==> inventory_prefix_ok(file@, *receipt, receipt.record_count as int)
            && inventory_totals_ok(file@, *receipt),
        result matches Ok(bytes) ==> bytes == receipt.byte_count,
        forall|index: int|
            0 <= index < receipt.record_count && inventory_prefix_ok(file@, *receipt, index)
                && !#[trigger] inventory_record_ok(file@, *receipt, index) ==> (result matches Err(e) && e@ == (
            if file@.len() < 40 * (index + 1) {
                "failed to fill whole buffer"@
            } else {
                "tLog inventory record is not exact and contiguous"@
            })),
        inventory_prefix_ok(file@, *receipt, receipt.record_count as int) && !inventory_totals_ok(file@, *receipt)
            ==> (result matches Err(e) && e@ == "tLog inventory file does not match its signed receipt"@),
{
    let mut checked: u64 = 0;
    while checked < receipt.record_count
        invariant
            checked <= receipt.record_count,
            inventory_prefix_ok(file@, *receipt, checked as int),
            40 * checked <= file@.len(),
        decreases receipt.record_count - checked,
    {
        if ((file.len() / 40) as u64) <= checked {
            proof {
                assert(!inventory_record_ok(file@, *receipt, checked as int));
                assert forall|index: int|
                    0 <= index < receipt.record_count && inventory_prefix_ok(file@, *receipt, index)
                        && !#[trigger] inventory_record_ok(file@, *receipt, index) implies index == checked by {
                    if index < checked {
                    } else if index > checked {
                        assert(inventory_record_ok(file@, *receipt, checked as int));
                    }
                }
            }
            return Err("failed to fill whole buffer".to_owned());
        }
        let start = (checked * 40) as usize;
        let mut expected: Vec<u8> = Vec::new();
        append_inventory_record(&mut expected, receipt.seed, receipt.log_set_id, receipt.node_id, checked + 1);
        assert(expected@.len() == 40);
        if !same_bytes(file, start, &expected) {
            proof {
                assert(!inventory_record_ok(file@, *receipt, checked as int));
                assert forall|index: int|
                    0 <= index < receipt.record_count && inventory_prefix_ok(file@, *receipt, index)
                        && !#[trigger] inventory_record_ok(file@, *receipt, index) implies index == checked by {
                    if index < checked {
                    } else if index > checked {
                        assert(inventory_record_ok(file@, *receipt, checked as int));
                    }
                }
            }
            return Err("tLog inventory record is not exact and contiguous".to_owned());
        }
        checked = checked + 1;
    }
    proof {
        assert forall|index: int|
            0 <= index < receipt.record_count && inventory_prefix_ok(file@, *receipt, index)
                implies #[trigger] inventory_record_ok(file@, *receipt, index) by {}
    }
    let digest = sha256(file);
    let mut digest_matches = true;
    let mut index: usize = 0;
    while index < 32
        invariant
            index <= 32,
            digest@.len() == 32,
            digest_matches == (forall|i: int| 0 <= i < index ==> digest@[i] == receipt.inventory_sha256@[i]),
        decreases 32 - index,
    {
        if digest[index] != receipt.inventory_sha256[index] {
            digest_matches = false;
        }
        index = index + 1;
    }
    assert(digest_matches == (digest@ =~= receipt.inventory_sha256@));
    if file.len() as u64 != checked * 40 || receipt.byte_count != saturating_mul_u64(receipt.record_count, 40)
        || !digest_matches
    {
        return Err("tLog inventory file does not match its signed receipt".to_owned());
    }
    Ok(receipt.byte_count)
}


/// What the caller observed for one inventory: the receipt file's size and
/// decoded receipt, whether its signature verified against the replica's
/// key, and the result of `verify_inventory_file` on its data file.
#[derive(Debug)]
pub struct InventoryInspection {
    pub receipt_bytes: u64,
    pub receipt: RecoveryCurveInventoryReceipt,
    pub signature_valid: bool,
    pub file_check: Result<u64, String>,
}

/// Recovery facts established by inspecting the tLog inventories.
#[derive(Clone, Copy, Debug, PartialEq, Eq, Structural)]
pub struct InventoryObservation {
    pub recovered_boundary: u64,
    pub authenticated_receipts: u64,
    pub records_examined: u64,
    pub bytes_examined: u64,
    pub work_units: u64,
    pub required_sets_authenticated: bool,
}

/// Sets whose receipts recovery trusts: one under the trust-one-set poison.
pub open spec fn trusted_sets(config: TransactionSystemRecoveryCurveConfig, mode: TransactionSystemRecoveryCurveMode) -> u64 {
    if mode == TransactionSystemRecoveryCurveMode::TrustOneTlogSet {
        1
    } else {
        config.tlog_sets
    }
}

pub open spec fn inspection_trusted(inspection: InventoryInspection, trusted: u64) -> bool {
    inspection.receipt.log_set_id as u64 <= trusted
}

/// The earliest trusted inspection that fails, with its error.
pub open spec fn first_inventory_failure(inspections: Seq<InventoryInspection>, trusted: u64) -> Option<Seq<char>>
    decreases inspections.len(),
{
    if inspections.len() == 0 {
        None
    } else {
        let earlier = first_inventory_failure(inspections.drop_last(), trusted);
        let last = inspections.last();
        if earlier is Some {
            earlier
        } else if !inspection_trusted(last, trusted) {
            None
        } else if !last.signature_valid {
            Some("tLog inventory receipt signature is invalid"@)
        } else {
            match last.file_check {
                Ok(_) => None,
                Err(e) => Some(e@),
            }
        }
    }
}

/// `(set, record count)` of every trusted receipt, in order.
pub open spec fn trusted_frontiers(inspections: Seq<InventoryInspection>, trusted: u64) -> Seq<(u16, u64)>
    decreases inspections.len(),
{
    if inspections.len() == 0 {
        Seq::empty()
    } else {
        let earlier = trusted_frontiers(inspections.drop_last(), trusted);
        let last = inspections.last();
        if inspection_trusted(last, trusted) {
            earlier.push((last.receipt.log_set_id, last.receipt.record_count))
        } else {
            earlier
        }
    }
}

pub open spec fn observed_bytes(inspection: InventoryInspection) -> int {
    match inspection.file_check {
        Ok(bytes) => bytes as int,
        Err(_) => 0,
    }
}

/// Receipt bytes of every inspection plus data bytes of every trusted one.
pub open spec fn examined_bytes(inspections: Seq<InventoryInspection>, trusted: u64) -> int
    decreases inspections.len(),
{
    if inspections.len() == 0 {
        0
    } else {
        let last = inspections.last();
        examined_bytes(inspections.drop_last(), trusted) + last.receipt_bytes + if inspection_trusted(last, trusted) {
            observed_bytes(last)
        } else {
            0
        }
    }
}

pub open spec fn total_records(frontiers: Seq<(u16, u64)>) -> int
    decreases frontiers.len(),
{
    if frontiers.len() == 0 {
        0
    } else {
        total_records(frontiers.drop_last()) + frontiers.last().1
    }
}

/// Record counts reported for one set, in order.
pub open spec fn set_counts(frontiers: Seq<(u16, u64)>, set: u16) -> Seq<u64>
    decreases frontiers.len(),
{
    if frontiers.len() == 0 {
        Seq::empty()
    } else {
        let earlier = set_counts(frontiers.drop_last(), set);
        if frontiers.last().0 == set {
            earlier.push(frontiers.last().1)
        } else {
            earlier
        }
    }
}

/// How many counts are at least `v`.
pub open spec fn count_at_least(counts: Seq<u64>, v: u64) -> nat
    decreases counts.len(),
{
    if counts.len() == 0 {
        0
    } else {
        count_at_least(counts.drop_last(), v) + if counts.last() >= v {
            1nat
        } else {
            0nat
        }
    }
}

/// The largest candidate that at least `quorum + 1` counts reach, or zero.
pub open spec fn quorum_candidate_max(candidates: Seq<u64>, counts: Seq<u64>, quorum: nat) -> u64
    decreases candidates.len(),
{
    if candidates.len() == 0 {
        0
    } else {
        let earlier = quorum_candidate_max(candidates.drop_last(), counts, quorum);
        let v = candidates.last();
        if count_at_least(counts, v) >= quorum + 1 && v > earlier {
            v
        } else {
            earlier
        }
    }
}

/// The record count that `quorum + 1` replicas of one set all hold: the
/// `quorum`-th largest count (0-based), or zero when fewer replicas reported.
pub open spec fn quorum_frontier(counts: Seq<u64>, quorum: nat) -> u64 {
    quorum_candidate_max(counts, counts, quorum)
}

/// Minimum quorum frontier over the sets of the given receipts.
pub open spec fn minimum_frontier(prefix: Seq<(u16, u64)>, frontiers: Seq<(u16, u64)>, quorum: nat) -> Option<u64>
    decreases prefix.len(),
{
    if prefix.len() == 0 {
        None
    } else {
        let here = quorum_frontier(set_counts(frontiers, prefix.last().0), quorum);
        match minimum_frontier(prefix.drop_last(), frontiers, quorum) {
            None => Some(here),
            Some(m) => Some(if here < m { here } else { m }),
        }
    }
}

/// The recovered boundary: the smallest quorum frontier over every trusted
/// set, or zero when no set reported.
pub open spec fn recovered_boundary(frontiers: Seq<(u16, u64)>, quorum: nat) -> u64 {
    match minimum_frontier(frontiers, frontiers, quorum) {
        Some(m) => m,
        None => 0,
    }
}

/// Distinct values in first-seen order.
pub open spec fn distinct_sets(sets: Seq<u16>) -> Seq<u16>
    decreases sets.len(),
{
    if sets.len() == 0 {
        Seq::empty()
    } else {
        let earlier = distinct_sets(sets.drop_last());
        if earlier.contains(sets.last()) {
            earlier
        } else {
            earlier.push(sets.last())
        }
    }
}

pub open spec fn frontier_sets(frontiers: Seq<(u16, u64)>) -> Seq<u16> {
    frontiers.map_values(|f: (u16, u64)| f.0)
}

/// Extra comparisons charged by the quadratic-scan poison.
pub open spec fn quadratic_inventory_comparisons(config: TransactionSystemRecoveryCurveConfig) -> int {
    let span: int = if config.retained_records_per_tlog < 512 {
        config.retained_records_per_tlog as int
    } else {
        512
    };
    span * (span + 1) / 2
}

/// The observation that inspection yields when every trusted receipt checks.
pub open spec fn inventory_observation(
    config: TransactionSystemRecoveryCurveConfig,
    mode: TransactionSystemRecoveryCurveMode,
    inspections: Seq<InventoryInspection>,
) -> InventoryObservation {
    let trusted = trusted_sets(config, mode);
    let frontiers = trusted_frontiers(inspections, trusted);
    let records = saturate(total_records(frontiers));
    let base_work = sat_add(frontiers.len() as u64, records);
    InventoryObservation {
        recovered_boundary: recovered_boundary(frontiers, (config.tlog_nodes_per_set / 2) as nat),
        authenticated_receipts: frontiers.len() as u64,
        records_examined: records,
        bytes_examined: saturate(examined_bytes(inspections, trusted)),
        work_units: if mode == TransactionSystemRecoveryCurveMode::QuadraticInventoryScan {
            saturate(base_work + quadratic_inventory_comparisons(config))
        } else {
            base_work
        },
        required_sets_authenticated: distinct_sets(frontier_sets(frontiers)).len() == if config.tlog_sets > usize::MAX {
            usize::MAX as int
        } else {
            config.tlog_sets as int
        },
    }
}


proof fn lemma_failure_persists(inspections: Seq<InventoryInspection>, k: int, trusted: u64)
    requires
        0 <= k <= inspections.len(),
        first_inventory_failure(inspections.subrange(0, k), trusted) is Some,
    ensures
        first_inventory_failure(inspections, trusted) == first_inventory_failure(inspections.subrange(0, k), trusted),
    decreases inspections.len() - k,
{
    if inspections.len() == k {
        assert(inspections.subrange(0, k) =~= inspections);
    } else {
        let shorter = inspections.drop_last();
        assert(shorter.subrange(0, k) =~= inspections.subrange(0, k));
        lemma_failure_persists(shorter, k, trusted);
    }
}

proof fn lemma_count_at_least_bound(counts: Seq<u64>, v: u64)
    ensures
        count_at_least(counts, v) <= counts.len(),
    decreases counts.len(),
{
    if counts.len() > 0 {
        lemma_count_at_least_bound(counts.drop_last(), v);
    }
}

fn counts_for_set(frontiers: &Vec<(u16, u64)>, set: u16) -> (counts: Vec<u64>)
    ensures
        counts@ == set_counts(frontiers@, set),
{
    let mut counts: Vec<u64> = Vec::new();
    let mut index: usize = 0;
    while index < frontiers.len()
        invariant
            index <= frontiers@.len(),
            counts@ == set_counts(frontiers@.subrange(0, index as int), set),
        decreases frontiers@.len() - index,
    {
        assert(frontiers@.subrange(0, index + 1 as int).drop_last() =~= frontiers@.subrange(0, index as int));
        let (frontier_set, count) = frontiers[index];
        if frontier_set == set {
            counts.push(count);
        }
        index = index + 1;
    }
    assert(frontiers@.subrange(0, frontiers@.len() as int) =~= frontiers@);
    counts
}

fn count_at_least_in(counts: &Vec<u64>, v: u64) -> (n: u64)
    ensures
        n == count_at_least(counts@, v),
{
    let mut n: u64 = 0;
    let mut index: usize = 0;
    while index < counts.len()
        invariant
            index <= counts@.len(),
            n == count_at_least(counts@.subrange(0, index as int), v),
        decreases counts@.len() - index,
    {
        assert(counts@.subrange(0, index + 1 as int).drop_last() =~= counts@.subrange(0, index as int));
        proof {
            lemma_count_at_least_bound(counts@.subrange(0, index as int), v);
        }
        if counts[index] >= v {
            n = n + 1;
        }
        index = index + 1;
    }
    assert(counts@.subrange(0, counts@.len() as int) =~= counts@);
    n
}

fn quorum_frontier_of(counts: &Vec<u64>, quorum: u64) -> (frontier: u64)
    ensures
        frontier == quorum_frontier(counts@, quorum as nat),
{
    let mut best: u64 = 0;
    let mut index: usize = 0;
    while index < counts.len()
        invariant
            index <= counts@.len(),
            best == quorum_candidate_max(counts@.subrange(0, index as int), counts@, quorum as nat),
        decreases counts@.len() - index,
    {
        assert(counts@.subrange(0, index + 1 as int).drop_last() =~= counts@.subrange(0, index as int));
        let v = counts[index];
        let reach = count_at_least_in(counts, v);
        if reach > quorum && v > best {
            best = v;
        }
        index = index + 1;
    }
    assert(counts@.subrange(0, counts@.len() as int) =~= counts@);
    best
}

/// Inspect the tLog inventories: every trusted receipt must carry a valid
/// signature and an exact data file; recovery then takes, per set, the count
/// that a quorum of replicas holds and recovers the minimum over the sets.
pub fn inspect_inventories(
    config: &TransactionSystemRecoveryCurveConfig,
    mode: TransactionSystemRecoveryCurveMode,
    inspections: &Vec<InventoryInspection>,
) -> (result: Result<InventoryObservation, String>)
    ensures
        result is Ok <==> first_inventory_failure(inspections@, trusted_sets(*config, mode)) is None
            && config.tlog_nodes_per_set / 2 <= usize::MAX,
        first_inventory_failure(inspections@, trusted_sets(*config, mode)) matches Some(message) ==> (
            result matches Err(e) && e@ == message),
        result matches Ok(observation) ==> observation == inventory_observation(*config, mode, inspections@),
        first_inventory_failure(inspections@, trusted_sets(*config, mode)) is None && config.tlog_nodes_per_set / 2
            > usize::MAX ==> (result matches Err(e) && e@ == "tLog quorum index exceeds usize"@),
        result matches Ok(observation) ==> forall|i: int|
            0 <= i < trusted_frontiers(inspections@, trusted_sets(*config, mode)).len() && set_counts(
                trusted_frontiers(inspections@, trusted_sets(*config, mode)),
                (#[trigger] trusted_frontiers(inspections@, trusted_sets(*config, mode))[i]).0,
            ).len() > config.tlog_nodes_per_set / 2 ==> count_at_least(
                set_counts(
                    trusted_frontiers(inspections@, trusted_sets(*config, mode)),
                    trusted_frontiers(inspections@, trusted_sets(*config, mode))[i].0,
                ),
                observation.recovered_boundary,
            ) >= config.tlog_nodes_per_set / 2 + 1,
{
    proof {
        lemma_recovered_boundary_held_by_majority(*config, mode, inspections@);
    }
    let ghost all = inspections@;
    let trusted = if mode == TransactionSystemRecoveryCurveMode::TrustOneTlogSet { 1 } else { config.tlog_sets };
    let mut frontiers: Vec<(u16, u64)> = Vec::new();
    let mut records: u64 = 0;
    let mut bytes: u64 = 0;
    let mut index: usize = 0;
    while index < inspections.len()
        invariant
            all == inspections@,
            trusted == trusted_sets(*config, mode),
            index <= all.len(),
            first_inventory_failure(all.subrange(0, index as int), trusted) is None,
            frontiers@ == trusted_frontiers(all.subrange(0, index as int), trusted),
            records == saturate(total_records(frontiers@)),
            bytes == saturate(examined_bytes(all.subrange(0, index as int), trusted)),
            examined_bytes(all.subrange(0, index as int), trusted) >= 0,
            total_records(frontiers@) >= 0,
            frontiers@.len() <= index,
        decreases all.len() - index,
    {
        let ghost prefix = all.subrange(0, index as int);
        assert(all.subrange(0, index + 1 as int).drop_last() =~= prefix);
        let inspection = &inspections[index];
        bytes = bytes.saturating_add(inspection.receipt_bytes);
        if inspection.receipt.log_set_id as u64 > trusted {
            index = index + 1;
            continue;
        }
        if !inspection.signature_valid {
            proof {
                lemma_failure_persists(all, index + 1, trusted);
            }
            return Err("tLog inventory receipt signature is invalid".to_owned());
        }
        let observed = match &inspection.file_check {
            Ok(observed) => *observed,
            Err(e) => {
                proof {
                    lemma_failure_persists(all, index + 1, trusted);
                }
                return Err(e.clone());
            },
        };
        records = records.saturating_add(inspection.receipt.record_count);
        bytes = bytes.saturating_add(observed);
        let ghost before = frontiers@;
        frontiers.push((inspection.receipt.log_set_id, inspection.receipt.record_count));
        assert(frontiers@.drop_last() =~= before);
        index = index + 1;
    }
    assert(all.subrange(0, all.len() as int) =~= all);
    let quorum_u64 = config.tlog_nodes_per_set / 2;
    if quorum_u64 > usize::MAX as u64 {
        return Err("tLog quorum index exceeds usize".to_owned());
    }
    let ghost quorum = quorum_u64 as nat;
    let mut boundary: Option<u64> = None;
    let mut k: usize = 0;
    while k < frontiers.len()
        invariant
            k <= frontiers@.len(),
            quorum == quorum_u64,
            boundary == minimum_frontier(frontiers@.subrange(0, k as int), frontiers@, quorum),
        decreases frontiers@.len() - k,
    {
        assert(frontiers@.subrange(0, k + 1 as int).drop_last() =~= frontiers@.subrange(0, k as int));
        let counts = counts_for_set(&frontiers, frontiers[k].0);
        let here = quorum_frontier_of(&counts, quorum_u64);
        boundary = match boundary {
            None => Some(here),
            Some(m) => Some(if here < m { here } else { m }),
        };
        k = k + 1;
    }
    assert(frontiers@.subrange(0, frontiers@.len() as int) =~= frontiers@);
    let recovered = match boundary {
        Some(m) => m,
        None => 0,
    };
    let mut distinct: Vec<u16> = Vec::new();
    let mut k: usize = 0;
    while k < frontiers.len()
        invariant
            k <= frontiers@.len(),
            distinct@ == distinct_sets(frontier_sets(frontiers@.subrange(0, k as int))),
            distinct@.len() <= k,
        decreases frontiers@.len() - k,
    {
        assert(frontier_sets(frontiers@.subrange(0, k + 1 as int)).drop_last() =~= frontier_sets(
            frontiers@.subrange(0, k as int),
        ));
        let set = frontiers[k].0;
        let mut seen = false;
        let mut j: usize = 0;
        while j < distinct.len()
            invariant
                j <= distinct@.len(),
                seen == (exists|i: int| 0 <= i < j && distinct@[i] == set),
            decreases distinct@.len() - j,
        {
            if distinct[j] == set {
                seen = true;
            }
            j = j + 1;
        }
        assert(seen == distinct@.contains(set));
        if !seen {
            distinct.push(set);
        }
        k = k + 1;
    }
    assert(frontiers@.subrange(0, frontiers@.len() as int) =~= frontiers@);
    let authenticated = frontiers.len() as u64;
    let base_work = authenticated.saturating_add(records);
    let mut work = base_work;
    if mode == TransactionSystemRecoveryCurveMode::QuadraticInventoryScan {
        let span: u64 = if config.retained_records_per_tlog < 512 { config.retained_records_per_tlog } else { 512 };
        let mut comparisons: u64 = 0;
        let mut left: u64 = 0;
        while left < span
            invariant
                span <= 512,
                left <= span,
                comparisons == left * span - left * (left - 1) / 2,
                comparisons <= left * span,
            decreases span - left,
        {
            let mut right: u64 = 0;
            let ghost base = comparisons;
            while right < span
                invariant
                    span <= 512,
                    left < span,
                    right <= span,
                    base == left * span - left * (left - 1) / 2,
                    base <= left * span,
                    comparisons == base + (if right > left { right - left } else { 0 }),
                decreases span - right,
            {
                if left <= right {
                    assert(comparisons + 1 <= 512 * 512) by (nonlinear_arith)
                        requires
                            comparisons == base + (if right > left { right - left } else { 0 }),
                            base <= left * span,
                            left < span,
                            right < span,
                            span <= 512,
                    ;
                    comparisons = comparisons + 1;
                }
                right = right + 1;
            }
            proof {
                lemma_triangle_step(span as int, left as int);
                lemma_base_nonneg(span as int, (left + 1) as int);
            }
            left = left + 1;
        }
        proof {
            let n = span as int;
            assert(n * (n - 1) + 2 * n == n * (n + 1)) by (nonlinear_arith);
            assert(n * n == n * (n - 1) + n) by (nonlinear_arith);
            lemma_consecutive_product_even(n);
            lemma_consecutive_product_even(n + 1);
            assert((n + 1) * (n + 1 - 1) == n * (n + 1)) by (nonlinear_arith);
            assert(n * n - n * (n - 1) / 2 == n * (n + 1) / 2);
        }
        work = base_work.saturating_add(comparisons);
    }
    let required = if config.tlog_sets > usize::MAX as u64 { usize::MAX } else { config.tlog_sets as usize };
    Ok(InventoryObservation {
        recovered_boundary: recovered,
        authenticated_receipts: authenticated,
        records_examined: records,
        bytes_examined: bytes,
        work_units: work,
        required_sets_authenticated: distinct.len() == required,
    })
}


proof fn lemma_count_at_least_zero(counts: Seq<u64>)
    ensures
        count_at_least(counts, 0) == counts.len(),
    decreases counts.len(),
{
    if counts.len() > 0 {
        lemma_count_at_least_zero(counts.drop_last());
    }
}

proof fn lemma_candidate_max(candidates: Seq<u64>, counts: Seq<u64>, quorum: nat)
    ensures
        quorum_candidate_max(candidates, counts, quorum) == 0 || count_at_least(
            counts,
            quorum_candidate_max(candidates, counts, quorum),
        ) >= quorum + 1,
        forall|i: int|
            0 <= i < candidates.len() && count_at_least(counts, #[trigger] candidates[i]) >= quorum + 1 ==> candidates[i]
                <= quorum_candidate_max(candidates, counts, quorum),
    decreases candidates.len(),
{
    if candidates.len() > 0 {
        let earlier = candidates.drop_last();
        lemma_candidate_max(earlier, counts, quorum);
        assert forall|i: int|
            0 <= i < candidates.len() && count_at_least(counts, #[trigger] candidates[i]) >= quorum + 1
                implies candidates[i] <= quorum_candidate_max(candidates, counts, quorum) by {
            if i < earlier.len() {
                assert(candidates[i] == earlier[i]);
            }
        }
    }
}

/// Quorum law of tLog recovery: the frontier recovered for a set is reached
/// by at least `quorum + 1` of its replicas, and no larger reported count is
/// reached by that many.
pub proof fn lemma_quorum_frontier_is_maximal(counts: Seq<u64>, quorum: nat)
    requires
        counts.len() > quorum,
    ensures
        count_at_least(counts, quorum_frontier(counts, quorum)) >= quorum + 1,
        forall|i: int|
            0 <= i < counts.len() && #[trigger] counts[i] > quorum_frontier(counts, quorum) ==> count_at_least(
                counts,
                counts[i],
            ) <= quorum,
{
    lemma_candidate_max(counts, counts, quorum);
    lemma_count_at_least_zero(counts);
}

proof fn lemma_minimum_frontier(prefix: Seq<(u16, u64)>, frontiers: Seq<(u16, u64)>, quorum: nat)
    ensures
        forall|i: int|
            0 <= i < prefix.len() ==> (minimum_frontier(prefix, frontiers, quorum) matches Some(m) && m
                <= quorum_frontier(set_counts(frontiers, (#[trigger] prefix[i]).0), quorum)),
        prefix.len() > 0 ==> exists|i: int|
            0 <= i < prefix.len() && minimum_frontier(prefix, frontiers, quorum) == Some(
                quorum_frontier(set_counts(frontiers, (#[trigger] prefix[i]).0), quorum),
            ),
    decreases prefix.len(),
{
    if prefix.len() > 0 {
        let earlier = prefix.drop_last();
        lemma_minimum_frontier(earlier, frontiers, quorum);
        assert forall|i: int| 0 <= i < prefix.len() implies (minimum_frontier(prefix, frontiers, quorum) matches Some(m)
            && m <= quorum_frontier(set_counts(frontiers, (#[trigger] prefix[i]).0), quorum)) by {
            if i < earlier.len() {
                assert(prefix[i] == earlier[i]);
            }
        }
        let here = quorum_frontier(set_counts(frontiers, prefix.last().0), quorum);
        if earlier.len() > 0 {
            let j = choose|j: int|
                0 <= j < earlier.len() && minimum_frontier(earlier, frontiers, quorum) == Some(
                    quorum_frontier(set_counts(frontiers, (#[trigger] earlier[j]).0), quorum),
                );
            assert(prefix[j] == earlier[j]);
            if here < minimum_frontier(earlier, frontiers, quorum).unwrap() {
                assert(prefix[prefix.len() - 1] == prefix.last());
            }
        } else {
            assert(prefix[prefix.len() - 1] == prefix.last());
        }
    }
}

/// Boundary law of tLog recovery: the recovered boundary is the quorum
/// frontier of one trusted set and lies at or below the frontier of every
/// trusted set, so every set holds it on a quorum.
pub proof fn lemma_recovered_boundary_is_minimum(frontiers: Seq<(u16, u64)>, quorum: nat)
    ensures
        forall|i: int|
            0 <= i < frontiers.len() ==> recovered_boundary(frontiers, quorum) <= quorum_frontier(
                set_counts(frontiers, (#[trigger] frontiers[i]).0),
                quorum,
            ),
        frontiers.len() > 0 ==> exists|i: int|
            0 <= i < frontiers.len() && recovered_boundary(frontiers, quorum) == quorum_frontier(
                set_counts(frontiers, (#[trigger] frontiers[i]).0),
                quorum,
            ),
{
    lemma_minimum_frontier(frontiers, frontiers, quorum);
}


proof fn lemma_count_at_least_antitone(counts: Seq<u64>, low: u64, high: u64)
    requires
        low <= high,
    ensures
        count_at_least(counts, low) >= count_at_least(counts, high),
    decreases counts.len(),
{
    if counts.len() > 0 {
        lemma_count_at_least_antitone(counts.drop_last(), low, high);
    }
}

/// Majority law of recovery: for every trusted set that reported at least a
/// majority (`tlog_nodes_per_set / 2 + 1`) of its configured replicas, the
/// recovered boundary is held by a majority of that set's replicas, and some
/// trusted set holds no larger count on a majority.
pub proof fn lemma_recovered_boundary_held_by_majority(
    config: TransactionSystemRecoveryCurveConfig,
    mode: TransactionSystemRecoveryCurveMode,
    inspections: Seq<InventoryInspection>,
)
    ensures
        forall|i: int|
            0 <= i < trusted_frontiers(inspections, trusted_sets(config, mode)).len() && set_counts(
                trusted_frontiers(inspections, trusted_sets(config, mode)),
                (#[trigger] trusted_frontiers(inspections, trusted_sets(config, mode))[i]).0,
            ).len() > config.tlog_nodes_per_set / 2 ==> count_at_least(
                set_counts(
                    trusted_frontiers(inspections, trusted_sets(config, mode)),
                    trusted_frontiers(inspections, trusted_sets(config, mode))[i].0,
                ),
                inventory_observation(config, mode, inspections).recovered_boundary,
            ) >= config.tlog_nodes_per_set / 2 + 1,
        trusted_frontiers(inspections, trusted_sets(config, mode)).len() > 0 ==> exists|i: int|
            0 <= i < trusted_frontiers(inspections, trusted_sets(config, mode)).len() && forall|j: int|
                0 <= j < set_counts(
                    trusted_frontiers(inspections, trusted_sets(config, mode)),
                    (#[trigger] trusted_frontiers(inspections, trusted_sets(config, mode))[i]).0,
                ).len() && set_counts(
                    trusted_frontiers(inspections, trusted_sets(config, mode)),
                    trusted_frontiers(inspections, trusted_sets(config, mode))[i].0,
                )[j] > inventory_observation(config, mode, inspections).recovered_boundary ==> count_at_least(
                    set_counts(
                        trusted_frontiers(inspections, trusted_sets(config, mode)),
                        trusted_frontiers(inspections, trusted_sets(config, mode))[i].0,
                    ),
                    set_counts(
                        trusted_frontiers(inspections, trusted_sets(config, mode)),
                        trusted_frontiers(inspections, trusted_sets(config, mode))[i].0,
                    )[j],
                ) <= config.tlog_nodes_per_set / 2,
{
    let frontiers = trusted_frontiers(inspections, trusted_sets(config, mode));
    let quorum = (config.tlog_nodes_per_set / 2) as nat;
    let boundary = inventory_observation(config, mode, inspections).recovered_boundary;
    assert(boundary == recovered_boundary(frontiers, quorum));
    lemma_recovered_boundary_is_minimum(frontiers, quorum);
    assert forall|i: int|
        0 <= i < frontiers.len() && set_counts(frontiers, (#[trigger] frontiers[i]).0).len() > quorum implies count_at_least(
            set_counts(frontiers, frontiers[i].0),
            boundary,
        ) >= quorum + 1 by {
        let counts = set_counts(frontiers, frontiers[i].0);
        lemma_quorum_frontier_is_maximal(counts, quorum);
        lemma_count_at_least_antitone(counts, boundary, quorum_frontier(counts, quorum));
    }
    if frontiers.len() > 0 {
        let i = choose|i: int|
            0 <= i < frontiers.len() && recovered_boundary(frontiers, quorum) == quorum_frontier(
                set_counts(frontiers, (#[trigger] frontiers[i]).0),
                quorum,
            );
        let counts = set_counts(frontiers, frontiers[i].0);
        if counts.len() > quorum {
            lemma_quorum_frontier_is_maximal(counts, quorum);
        } else {
            assert forall|j: int| 0 <= j < counts.len() implies count_at_least(counts, #[trigger] counts[j]) <= quorum by {
                lemma_count_at_least_bound(counts, counts[j]);
            }
        }
        assert(forall|j: int|
            0 <= j < counts.len() && counts[j] > boundary ==> count_at_least(counts, #[trigger] counts[j]) <= quorum);
    }
}

/// Deterministic receipt separated from wall-clock measurements.
#[derive(Clone, Debug, PartialEq, Eq)]
pub struct TransactionSystemRecoveryReceipt {
    pub seed: u64,
    pub scale_class: String,
    pub old_generation: u64,
    pub successor_generation: u64,
    pub old_issued_high_watermark: u64,
    pub recovered_boundary: u64,
    pub pending_tickets_classified: u64,
    pub successor_roles_recruited: u64,
    pub authenticated_inventory_receipts: u64,
    pub inventory_bytes_examined: u64,
    pub inventory_work_units: u64,
    pub pending_work_units: u64,
    pub permanent_database_bytes_read: u64,
    pub old_generation_fenced_before_inventory: bool,
    pub every_required_tlog_set_authenticated: bool,
    pub recovered_boundary_is_maximal_contiguous_quorum_prefix: bool,
    pub all_declared_successor_roles_recruited_before_resume: bool,
    pub successor_version_exceeds_old_issued_high_watermark: bool,
    pub inventory_scan_is_linear: bool,
    pub pending_classification_is_linear: bool,
}

/// First sequencer marker of one recovery repetition.
pub open spec fn marker_base(seed: u64, repetition: u32) -> u64 {
    sat_add(sat_add(54_000_000, sat_mul(seed % 10_000, 1_000)), sat_mul(repetition as u64, 2))
}

/// First sequencer marker of one recovery repetition (saturating).
pub fn recovery_marker_base(seed: u64, repetition: u32) -> (marker: u64)
    ensures
        marker == marker_base(seed, repetition),
{
    54_000_000u64.saturating_add(saturating_mul_u64(seed % 10_000, 1_000)).saturating_add(
        saturating_mul_u64(repetition as u64, 2),
    )
}

/// The untimed receipt of one recovery, from the inventory observation, the
/// roles recruited, and the permanent-database bytes read.
pub open spec fn recovery_receipt_spec(
    config: TransactionSystemRecoveryCurveConfig,
    mode: TransactionSystemRecoveryCurveMode,
    inventory: InventoryObservation,
    recruited: u64,
    permanent_database_bytes_read: u64,
) -> TransactionSystemRecoveryReceipt {
    let old_high = sat_add(config.retained_records_per_tlog, config.pending_tickets);
    let successor_version = sat_add(old_high, 1);
    let pending = saturate(pending_work(config.pending_tickets, mode));
    let early_resume = mode == TransactionSystemRecoveryCurveMode::ResumeBeforeRoleRecruitment;
    TransactionSystemRecoveryReceipt {
        seed: config.seed,
        scale_class: config.scale_class,
        old_generation: GENERATION,
        successor_generation: SUCCESSOR_GENERATION,
        old_issued_high_watermark: old_high,
        recovered_boundary: inventory.recovered_boundary,
        pending_tickets_classified: config.pending_tickets,
        successor_roles_recruited: recruited,
        authenticated_inventory_receipts: inventory.authenticated_receipts,
        inventory_bytes_examined: inventory.bytes_examined,
        inventory_work_units: inventory.work_units,
        pending_work_units: pending,
        permanent_database_bytes_read,
        old_generation_fenced_before_inventory: true,
        every_required_tlog_set_authenticated: inventory.required_sets_authenticated,
        recovered_boundary_is_maximal_contiguous_quorum_prefix: inventory.recovered_boundary
            == config.retained_records_per_tlog,
        all_declared_successor_roles_recruited_before_resume: !early_resume && recruited
            == config.spec_successor_roles(),
        successor_version_exceeds_old_issued_high_watermark: successor_version > old_high,
        inventory_scan_is_linear: inventory.work_units == sat_add(
            inventory.authenticated_receipts,
            inventory.records_examined,
        ),
        pending_classification_is_linear: pending == config.pending_tickets,
    }
}

/// Build the untimed receipt of one recovery.
pub fn recovery_receipt(
    config: &TransactionSystemRecoveryCurveConfig,
    mode: TransactionSystemRecoveryCurveMode,
    inventory: &InventoryObservation,
    recruited: u64,
    permanent_database_bytes_read: u64,
) -> (receipt: TransactionSystemRecoveryReceipt)
    ensures
        receipt == recovery_receipt_spec(*config, mode, *inventory, recruited, permanent_database_bytes_read),
{
    let old_high = config.retained_records_per_tlog.saturating_add(config.pending_tickets);
    let successor_version = old_high.saturating_add(1);
    let pending = classify_pending(config.pending_tickets, mode);
    let early_resume = mode == TransactionSystemRecoveryCurveMode::ResumeBeforeRoleRecruitment;
    let scale_class = config.scale_class.clone();
    TransactionSystemRecoveryReceipt {
        seed: config.seed,
        scale_class,
        old_generation: GENERATION,
        successor_generation: SUCCESSOR_GENERATION,
        old_issued_high_watermark: old_high,
        recovered_boundary: inventory.recovered_boundary,
        pending_tickets_classified: config.pending_tickets,
        successor_roles_recruited: recruited,
        authenticated_inventory_receipts: inventory.authenticated_receipts,
        inventory_bytes_examined: inventory.bytes_examined,
        inventory_work_units: inventory.work_units,
        pending_work_units: pending,
        permanent_database_bytes_read,
        old_generation_fenced_before_inventory: true,
        every_required_tlog_set_authenticated: inventory.required_sets_authenticated,
        recovered_boundary_is_maximal_contiguous_quorum_prefix: inventory.recovered_boundary
            == config.retained_records_per_tlog,
        all_declared_successor_roles_recruited_before_resume: !early_resume && recruited == config.successor_roles(),
        successor_version_exceeds_old_issued_high_watermark: successor_version > old_high,
        inventory_scan_is_linear: inventory.work_units == inventory.authenticated_receipts.saturating_add(
            inventory.records_examined,
        ),
        pending_classification_is_linear: pending == config.pending_tickets,
    }
}

/// Named report checks of one curve point, in report order.
pub open spec fn recovery_checks(
    receipt: TransactionSystemRecoveryReceipt,
    exact_untimed_receipts: bool,
    phase_receipts_complete: bool,
) -> Seq<(Seq<char>, bool)> {
    seq![
        ("exact_untimed_receipts"@, exact_untimed_receipts),
        ("phase_receipts_complete"@, phase_receipts_complete),
        ("old_generation_fenced_before_inventory"@, receipt.old_generation_fenced_before_inventory),
        ("every_required_tlog_set_authenticated"@, receipt.every_required_tlog_set_authenticated),
        ("maximal_contiguous_quorum_prefix"@, receipt.recovered_boundary_is_maximal_contiguous_quorum_prefix),
        ("roles_recruited_before_resume"@, receipt.all_declared_successor_roles_recruited_before_resume),
        ("successor_version_floor"@, receipt.successor_version_exceeds_old_issued_high_watermark),
        ("zero_permanent_database_reads"@, receipt.permanent_database_bytes_read == 0),
        ("linear_inventory_scan"@, receipt.inventory_scan_is_linear),
        ("linear_pending_classification"@, receipt.pending_classification_is_linear),
    ]
}

/// Failed check names, in check order.
pub open spec fn failed_check_names(checks: Seq<(Seq<char>, bool)>) -> Seq<Seq<char>>
    decreases checks.len(),
{
    if checks.len() == 0 {
        Seq::empty()
    } else {
        let earlier = failed_check_names(checks.drop_last());
        if checks.last().1 {
            earlier
        } else {
            earlier.push(checks.last().0)
        }
    }
}

/// The verdict part of one curve report.
#[derive(Clone, Debug, PartialEq, Eq)]
pub struct RecoveryCurveVerdict {
    pub anomaly_count: u64,
    pub negative_control_detected: bool,
    pub first_mismatch: Option<String>,
}

/// Count the failed checks, name the first, and decide whether a poisoned
/// mode was caught.
pub fn recovery_curve_verdict(
    mode: TransactionSystemRecoveryCurveMode,
    receipt: &TransactionSystemRecoveryReceipt,
    exact_untimed_receipts: bool,
    phase_receipts_complete: bool,
) -> (verdict: RecoveryCurveVerdict)
    ensures
        ({
            let failures = failed_check_names(recovery_checks(*receipt, exact_untimed_receipts, phase_receipts_complete));
            &&& verdict.anomaly_count == failures.len()
            &&& verdict.negative_control_detected == (mode != TransactionSystemRecoveryCurveMode::Correct
                && failures.len() > 0)
            &&& (failures.len() == 0 <==> verdict.first_mismatch is None)
            &&& verdict.first_mismatch matches Some(name) ==> name@ == failures[0]
        }),
{
    let names: [&str; 10] = [
        "exact_untimed_receipts",
        "phase_receipts_complete",
        "old_generation_fenced_before_inventory",
        "every_required_tlog_set_authenticated",
        "maximal_contiguous_quorum_prefix",
        "roles_recruited_before_resume",
        "successor_version_floor",
        "zero_permanent_database_reads",
        "linear_inventory_scan",
        "linear_pending_classification",
    ];
    let passed: [bool; 10] = [
        exact_untimed_receipts,
        phase_receipts_complete,
        receipt.old_generation_fenced_before_inventory,
        receipt.every_required_tlog_set_authenticated,
        receipt.recovered_boundary_is_maximal_contiguous_quorum_prefix,
        receipt.all_declared_successor_roles_recruited_before_resume,
        receipt.successor_version_exceeds_old_issued_high_watermark,
        receipt.permanent_database_bytes_read == 0,
        receipt.inventory_scan_is_linear,
        receipt.pending_classification_is_linear,
    ];
    let ghost checks = recovery_checks(*receipt, exact_untimed_receipts, phase_receipts_complete);
    assert(forall|i: int| 0 <= i < 10 ==> names@[i]@ == checks[i].0 && passed@[i] == checks[i].1);
    let mut anomalies: u64 = 0;
    let mut first: Option<String> = None;
    let mut index: usize = 0;
    while index < 10
        invariant
            index <= 10,
            checks.len() == 10,
            forall|i: int| 0 <= i < 10 ==> names@[i]@ == checks[i].0 && passed@[i] == checks[i].1,
            anomalies == failed_check_names(checks.subrange(0, index as int)).len(),
            (first is None) == (failed_check_names(checks.subrange(0, index as int)).len() == 0),
            first matches Some(name) ==> name@ == failed_check_names(checks.subrange(0, index as int))[0],
            failed_check_names(checks.subrange(0, index as int)).len() <= index,
        decreases 10 - index,
    {
        assert(checks.subrange(0, index + 1 as int).drop_last() =~= checks.subrange(0, index as int));
        if !passed[index] {
            anomalies = anomalies + 1;
            if first.is_none() {
                first = Some(names[index].to_owned());
            }
        }
        index = index + 1;
    }
    assert(checks.subrange(0, 10) =~= checks);
    RecoveryCurveVerdict {
        anomaly_count: anomalies,
        negative_control_detected: mode != TransactionSystemRecoveryCurveMode::Correct && anomalies > 0,
        first_mismatch: first,
    }
}

} // verus!
