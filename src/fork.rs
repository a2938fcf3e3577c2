use vstd::prelude::*;

use crate::primitives::U256;

verus! {

/// The hardforks of Ethereum, oldest first.
#[allow(non_camel_case_types)]
#[derive(Clone, Copy, Debug, PartialEq, Eq, Structural)]
pub enum SpecId {
    FRONTIER,
    FRONTIER_THAWING,
    HOMESTEAD,
    DAO_FORK,
    TANGERINE,
    SPURIOUS_DRAGON,
    BYZANTIUM,
    CONSTANTINOPLE,
    PETERSBURG,
    ISTANBUL,
    MUIR_GLACIER,
    BERLIN,
    LONDON,
    ARROW_GLACIER,
    GRAY_GLACIER,
    MERGE,
    SHANGHAI,
    LATEST,
}

impl SpecId {
    /// The position of this hardfork in the order of activation.
    pub open spec fn rank(self) -> nat {
        match self {
            SpecId::FRONTIER => 0,
            SpecId::FRONTIER_THAWING => 1,
            SpecId::HOMESTEAD => 2,
            SpecId::DAO_FORK => 3,
            SpecId::TANGERINE => 4,
            SpecId::SPURIOUS_DRAGON => 5,
            SpecId::BYZANTIUM => 6,
            SpecId::CONSTANTINOPLE => 7,
            SpecId::PETERSBURG => 8,
            SpecId::ISTANBUL => 9,
            SpecId::MUIR_GLACIER => 10,
            SpecId::BERLIN => 11,
            SpecId::LONDON => 12,
            SpecId::ARROW_GLACIER => 13,
            SpecId::GRAY_GLACIER => 14,
            SpecId::MERGE => 15,
            SpecId::SHANGHAI => 16,
            SpecId::LATEST => 17,
        }
    }

    /// Whether this hardfork activated before `other`.
    pub fn is_before(&self, other: &SpecId) -> (r: bool)
        ensures
            r == (self.rank() < other.rank()),
    {
        self.position() < other.position()
    }

    fn position(&self) -> (r: u8)
        ensures
            r as nat == self.rank(),
    {
        match self {
            SpecId::FRONTIER => 0,
            SpecId::FRONTIER_THAWING => 1,
            SpecId::HOMESTEAD => 2,
            SpecId::DAO_FORK => 3,
            SpecId::TANGERINE => 4,
            SpecId::SPURIOUS_DRAGON => 5,
            SpecId::BYZANTIUM => 6,
            SpecId::CONSTANTINOPLE => 7,
            SpecId::PETERSBURG => 8,
            SpecId::ISTANBUL => 9,
            SpecId::MUIR_GLACIER => 10,
            SpecId::BERLIN => 11,
            SpecId::LONDON => 12,
            SpecId::ARROW_GLACIER => 13,
            SpecId::GRAY_GLACIER => 14,
            SpecId::MERGE => 15,
            SpecId::SHANGHAI => 16,
            SpecId::LATEST => 17,
        }
    }
}

/// The reorg depth assumed for a chain that the policy table does not list.
pub const FALLBACK_MAX_REORG: u64 = 30;

/// The largest reorg expected on each known chain.
pub open spec fn reorg_policy(chain_id: nat) -> Option<u64> {
    if chain_id == 1 {
        Some(5)
    } else if chain_id == 3 {
        Some(100)
    } else if chain_id == 4 {
        Some(5)
    } else if chain_id == 5 {
        Some(5)
    } else if chain_id == 42 {
        Some(5)
    } else if chain_id == 100 {
        Some(38)
    } else {
        None
    }
}

/// A table from chain id to reorg depth, held in a `hashbrown::HashMap`.
#[verifier::external_body]
pub struct ReorgTable {
    table: hashbrown::HashMap<u64, u64>,
}

/// What a reorg table holds.
pub uninterp spec fn reorg_entries(t: ReorgTable) -> Map<u64, u64>;

/// Relies on `hashbrown::HashMap::new`: the map it makes is empty.
#[verifier::external_body]
fn reorg_table_new() -> (r: ReorgTable)
    ensures
        reorg_entries(r) =~= Map::empty(),
{
    ReorgTable { table: hashbrown::HashMap::new() }
}

/// Relies on `hashbrown::HashMap::insert`: afterwards `k` maps to `v`, and
/// every other key to what it mapped to before.
#[verifier::external_body]
fn reorg_table_insert(t: &mut ReorgTable, k: u64, v: u64)
    ensures
        reorg_entries(*final(t)) == reorg_entries(*old(t)).insert(k, v),
{
    t.table.insert(k, v);
}

/// Relies on `hashbrown::HashMap::get`: the value of `k`, where the map has
/// the key.
#[verifier::external_body]
fn reorg_table_get(t: &ReorgTable, k: u64) -> (r: Option<u64>)
    ensures
        reorg_entries(*t).contains_key(k) ==> r == Some(reorg_entries(*t)[k]),
        !reorg_entries(*t).contains_key(k) ==> r is None,
{
    t.table.get(&k).cloned()
}

/// Looks up the largest reorg expected on the chain `chain_id`.
pub fn largest_possible_reorg(chain_id: &U256) -> (r: Option<u64>)
    ensures
        r == reorg_policy(chain_id.value()),
{
    proof {
        crate::primitives::lemma_value_order(*chain_id, U256 { hi: 0, lo: chain_id.lo });
    }
    if chain_id.hi != 0 || chain_id.lo > u64::MAX as u128 {
        return None;
    }
    let id: u64 = chain_id.lo as u64;
    let mut network_configs = reorg_table_new();
    reorg_table_insert(&mut network_configs, 1, 5);  // mainnet
    reorg_table_insert(&mut network_configs, 3, 100);  // Ropsten
    reorg_table_insert(&mut network_configs, 4, 5);  // Rinkeby
    reorg_table_insert(&mut network_configs, 5, 5);  // Goerli
    reorg_table_insert(&mut network_configs, 42, 5);  // Kovan
    reorg_table_insert(&mut network_configs, 100, 38);  // xDai
    let r = reorg_table_get(&network_configs, id);
    proof {
        let m = reorg_entries(network_configs);
        assert(m.dom() =~= set![1u64, 3u64, 4u64, 5u64, 42u64, 100u64]);
    }
    r
}

/// The reorg depth used for a chain: its entry in the table, else the fallback.
pub open spec fn max_reorg_of(chain_id: nat) -> u64 {
    match reorg_policy(chain_id) {
        Some(d) => d,
        None => FALLBACK_MAX_REORG,
    }
}

/// `a - b`, or zero where `b > a`.
pub open spec fn saturating_sub(a: nat, b: nat) -> nat {
    if b > a {
        0
    } else {
        (a - b) as nat
    }
}

/// The advice given when a fork block has fewer confirmations than the reorg
/// depth asks for.
#[derive(Clone, Copy, Debug, PartialEq, Eq, Structural)]
pub struct ConfirmationWarning {
    /// Confirmations a block needs to be safe to fork from.
    pub required_confirmations: u64,
    /// Confirmations the requested block still lacks.
    pub missing_confirmations: u64,
    /// The newest block that is safe to fork from.
    pub safe_block_number: U256,
}

/// Where the local chain detaches from the remote one.
#[derive(Clone, Copy, Debug, PartialEq, Eq, Structural)]
pub struct ForkPoint {
    pub max_reorg: u64,
    pub safe_block_number: U256,
    pub fork_block_number: U256,
    /// Present where the fork block lies within the reorg depth of the tip.
    pub warning: Option<ConfirmationWarning>,
}

/// Why the fork point cannot be chosen, or the chain cannot be forked.
#[derive(Clone, Debug, PartialEq, Eq)]
pub enum CreationError {
    /// JSON-RPC error
    JsonRpcError(String),
    /// The requested fork block lies past the remote chain's tip.
    InvalidBlockNumber { fork_block_number: U256, latest_block_number: U256 },
    /// The hardfork at the fork block is older than Spurious Dragon.
    InvalidHardfork { fork_block_number: U256, chain_name: String, hardfork: SpecId },
    /// No hardfork schedule is known for the chain.
    UnsupportedChain { chain_id: U256 },
}

/// The fork point chosen for a chain whose tip is `latest` when `requested`
/// was asked for: the requested block if it exists (with a warning where it is
/// newer than the safe block), else the safe block.
pub open spec fn fork_point_ok(
    chain_id: U256,
    latest: U256,
    requested: Option<U256>,
    r: Result<ForkPoint, CreationError>,
) -> bool {
    let max_reorg = max_reorg_of(chain_id.value());
    let safe = saturating_sub(latest.value(), max_reorg as nat);
    match requested {
        Some(n) if n.value() > latest.value() => r == Err::<ForkPoint, CreationError>(
            CreationError::InvalidBlockNumber { fork_block_number: n, latest_block_number: latest },
        ),
        _ => r matches Ok(p) && p.max_reorg == max_reorg && p.safe_block_number.value() == safe
            && p.fork_block_number == (match requested {
            Some(n) => n,
            None => p.safe_block_number,
        }) && (p.warning is Some <==> p.fork_block_number.value() > safe) && (
        p.warning matches Some(w) ==> w.required_confirmations == max_reorg + 1
            && w.missing_confirmations == max_reorg - (latest.value()
            - p.fork_block_number.value()) && w.safe_block_number == p.safe_block_number),
    }
}

/// Chooses where to fork a chain, given its id, its latest block number, and
/// the block number the caller asked for, if any.
pub fn fork_point(chain_id: &U256, latest_block_number: &U256, requested: Option<U256>) -> (r:
    Result<ForkPoint, CreationError>)
    ensures
        fork_point_ok(*chain_id, *latest_block_number, requested, r),
{
    let max_reorg: u64 = match largest_possible_reorg(chain_id) {
        Some(d) => d,
        None => FALLBACK_MAX_REORG,
    };
    let reorg = U256::from_u64(max_reorg);
    let safe_block_number = if reorg.le(latest_block_number) {
        latest_block_number.sub(&reorg)
    } else {
        U256::zero()
    };
    match requested {
        Some(fork_block_number) => {
            if !fork_block_number.le(latest_block_number) {
                return Err(
                    CreationError::InvalidBlockNumber {
                        fork_block_number,
                        latest_block_number: *latest_block_number,
                    },
                );
            }
            let warning = if !fork_block_number.le(&safe_block_number) {
                let behind = latest_block_number.sub(&fork_block_number);
                proof {
                    crate::primitives::lemma_value_order(behind, U256 { hi: 0, lo: behind.lo });
                }
                let behind: u64 = behind.lo as u64;
                Some(
                    ConfirmationWarning {
                        required_confirmations: max_reorg + 1,
                        missing_confirmations: max_reorg - behind,
                        safe_block_number,
                    },
                )
            } else {
                None
            };
            Ok(ForkPoint { max_reorg, safe_block_number, fork_block_number, warning })
        },
        None => Ok(
            ForkPoint {
                max_reorg,
                safe_block_number,
                fork_block_number: safe_block_number,
                warning: None,
            },
        ),
    }
}

/// Forking at the remote chain's tip, above block zero, is allowed, with a
/// warning.
pub proof fn lemma_fork_at_tip(chain_id: U256, latest: U256, r: Result<ForkPoint, CreationError>)
    requires
        fork_point_ok(chain_id, latest, Some(latest), r),
        latest.value() > 0,
    ensures
        r matches Ok(p) && p.fork_block_number == latest && p.warning is Some,
{
}

/// Forking past the remote chain's tip fails with `InvalidBlockNumber`.
pub proof fn lemma_fork_past_tip(
    chain_id: U256,
    latest: U256,
    requested: U256,
    r: Result<ForkPoint, CreationError>,
)
    requires
        fork_point_ok(chain_id, latest, Some(requested), r),
        requested.value() == latest.value() + 1,
    ensures
        r == Err::<ForkPoint, _>(
            CreationError::InvalidBlockNumber { fork_block_number: requested, latest_block_number: latest },
        ),
{
}

} // verus!
