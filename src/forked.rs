use vstd::prelude::*;

use crate::block::Block;
use crate::eth;
use crate::fork::{CreationError, SpecId};
use crate::primitives::{pow256, B256, U256};

verus! {

/// A block held by the overlay, with its hash, the hashes of its
/// transactions, and the total difficulty of the chain up to it.
#[derive(Clone, Debug, PartialEq, Eq)]
pub struct StoredBlock {
    pub block: Block,
    pub hash: B256,
    pub transaction_hashes: Vec<B256>,
    pub total_difficulty: U256,
}

/// The answer of a read: the value, the knowledge that there is none, or the
/// need to fetch from the remote chain and admit what comes back first.
#[derive(Clone, Copy, Debug, PartialEq, Eq)]
pub enum Lookup<T> {
    Found(T),
    Missing,
    Fetch,
}

/// An error of a read or an append.
#[derive(Clone, Debug, PartialEq, Eq)]
pub enum BlockchainError {
    /// JSON-RPC error
    JsonRpcError(String),
    /// The block number does not fit a machine index.
    BlockNumberTooLarge,
    /// No block with this number exists.
    UnknownBlockNumber,
    /// The appended block does not follow the last block.
    InvalidBlockNumber { actual: U256, expected: U256 },
    /// The appended block's parent is not the last block.
    InvalidParentHash,
    /// A block with this hash is already held.
    DuplicateBlockHash,
    /// The total difficulty does not fit 256 bits.
    TotalDifficultyOverflow,
    /// A block from the remote chain lacks what every mined block has.
    InvalidRemoteBlock,
}

/// `i` is the first position of `s` whose block has hash `h`.
pub open spec fn is_first_hash(s: Seq<StoredBlock>, h: B256, i: int) -> bool {
    0 <= i < s.len() && s[i].hash == h && forall|j: int| 0 <= j < i ==> s[j].hash != h
}

/// `i` is the first position of `s` whose block has number `n`.
pub open spec fn is_first_number(s: Seq<StoredBlock>, n: U256, i: int) -> bool {
    0 <= i < s.len() && s[i].block.header.number == n && forall|j: int|
        0 <= j < i ==> s[j].block.header.number != n
}

/// The block at position `i` of `s` holds a transaction with hash `th`.
pub open spec fn holds_transaction(s: Seq<StoredBlock>, th: B256, i: int) -> bool {
    0 <= i < s.len() && s[i].transaction_hashes@.contains(th)
}

/// `i` is the first position of `s` whose block holds transaction `th`.
pub open spec fn is_first_transaction(s: Seq<StoredBlock>, th: B256, i: int) -> bool {
    holds_transaction(s, th, i) && forall|j: int| 0 <= j < i ==> !holds_transaction(s, th, j)
}

fn position_by_hash(v: &Vec<StoredBlock>, h: &B256) -> (r: Option<usize>)
    ensures
        match r {
            Some(i) => is_first_hash(v@, *h, i as int),
            None => forall|i: int| 0 <= i < v@.len() ==> v@[i].hash != *h,
        },
{
    let mut i: usize = 0;
    while i < v.len()
        invariant
            i <= v@.len(),
            forall|j: int| 0 <= j < i ==> v@[j].hash != *h,
        decreases v@.len() - i,
    {
        if v[i].hash == *h {
            return Some(i);
        }
        i += 1;
    }
    None
}

fn position_by_number(v: &Vec<StoredBlock>, n: &U256) -> (r: Option<usize>)
    ensures
        match r {
            Some(i) => is_first_number(v@, *n, i as int),
            None => forall|i: int| 0 <= i < v@.len() ==> v@[i].block.header.number != *n,
        },
{
    let mut i: usize = 0;
    while i < v.len()
        invariant
            i <= v@.len(),
            forall|j: int| 0 <= j < i ==> v@[j].block.header.number != *n,
        decreases v@.len() - i,
    {
        if v[i].block.header.number == *n {
            return Some(i);
        }
        i += 1;
    }
    None
}

fn contains_hash(v: &Vec<B256>, h: &B256) -> (r: bool)
    ensures
        r == v@.contains(*h),
{
    let mut i: usize = 0;
    while i < v.len()
        invariant
            i <= v@.len(),
            forall|j: int| 0 <= j < i ==> v@[j] != *h,
        decreases v@.len() - i,
    {
        if v[i] == *h {
            return true;
        }
        i += 1;
    }
    false
}

fn position_by_transaction(v: &Vec<StoredBlock>, th: &B256) -> (r: Option<usize>)
    ensures
        match r {
            Some(i) => is_first_transaction(v@, *th, i as int),
            None => forall|i: int| 0 <= i < v@.len() ==> !holds_transaction(v@, *th, i),
        },
{
    let mut i: usize = 0;
    while i < v.len()
        invariant
            i <= v@.len(),
            forall|j: int| 0 <= j < i ==> !holds_transaction(v@, *th, j),
        decreases v@.len() - i,
    {
        if contains_hash(&v[i].transaction_hashes, th) {
            return Some(i);
        }
        i += 1;
    }
    None
}

/// A block from the remote chain carries all that admission needs: its hash,
/// its total difficulty, and a block form.
pub open spec fn remote_valid(remote: eth::Block<eth::Transaction>) -> bool {
    &&& remote.hash is Some
    &&& remote.total_difficulty is Some
    &&& eth::every_gas_fits(remote.transactions@)
    &&& remote.miner is Some
    &&& remote.nonce is Some
    &&& eth::converted_transactions(remote.transactions@) is Ok
}

/// The hashes of a block's transactions, in order.
pub open spec fn transaction_hashes_of(txs: Seq<eth::Transaction>) -> Seq<B256> {
    txs.map_values(|t: eth::Transaction| t.hash)
}

/// `s` is what the cache holds for the remote block `remote`.
pub open spec fn stored_from(remote: eth::Block<eth::Transaction>, s: StoredBlock) -> bool {
    &&& remote.hash == Some(s.hash)
    &&& remote.total_difficulty == Some(s.total_difficulty)
    &&& eth::block_conversion_ok(remote, Ok(s.block))
    &&& s.transaction_hashes@ == transaction_hashes_of(remote.transactions@)
}

fn all_gas_fits(txs: &Vec<eth::Transaction>) -> (r: bool)
    ensures
        r == eth::every_gas_fits(txs@),
{
    let mut i: usize = 0;
    while i < txs.len()
        invariant
            i <= txs@.len(),
            forall|j: int| 0 <= j < i ==> eth::gas_fits(#[trigger] txs@[j]),
        decreases txs@.len() - i,
    {
        let gas = txs[i].gas;
        proof {
            crate::primitives::lemma_value_order(gas, U256 { hi: 0, lo: u64::MAX as u128 });
        }
        if !(gas.hi == 0 && gas.lo <= u64::MAX as u128) {
            assert(!eth::gas_fits(txs@[i as int]));
            return false;
        }
        i += 1;
    }
    true
}

fn hashes_of(txs: &Vec<eth::Transaction>) -> (r: Vec<B256>)
    ensures
        r@ == transaction_hashes_of(txs@),
{
    let mut r: Vec<B256> = Vec::new();
    let mut i: usize = 0;
    while i < txs.len()
        invariant
            i <= txs@.len(),
            r@ == transaction_hashes_of(txs@.take(i as int)),
        decreases txs@.len() - i,
    {
        r.push(txs[i].hash);
        i += 1;
        assert(transaction_hashes_of(txs@.take(i as int)) =~= transaction_hashes_of(
            txs@.take(i - 1 as int),
        ).push(txs@[i - 1].hash));
    }
    assert(txs@.take(i as int) =~= txs@);
    r
}

/// A blockchain that forked from a remote blockchain: blocks up to the fork
/// block are served from a cache of the remote chain, later ones from a local
/// store that only grows at its end.
pub struct ForkedBlockchain {
    local_storage: Vec<StoredBlock>,
    remote_cache: Vec<StoredBlock>,
    fork_block_number: U256,
    chain_id: U256,
    network_id: U256,
}

/// The block of a read's answer, seen through the reference it is handed out by.
pub open spec fn deref_lookup(r: Lookup<&Block>) -> Lookup<Block> {
    match r {
        Lookup::Found(b) => Lookup::Found(*b),
        Lookup::Missing => Lookup::Missing,
        Lookup::Fetch => Lookup::Fetch,
    }
}

impl ForkedBlockchain {
    /// The blocks appended locally, in order.
    pub closed spec fn local_blocks(&self) -> Seq<StoredBlock> {
        self.local_storage@
    }

    /// The blocks of the remote chain admitted so far, in order of admission.
    pub closed spec fn cached_blocks(&self) -> Seq<StoredBlock> {
        self.remote_cache@
    }

    pub closed spec fn fork_number(&self) -> U256 {
        self.fork_block_number
    }

    pub closed spec fn chain(&self) -> U256 {
        self.chain_id
    }

    pub closed spec fn network(&self) -> U256 {
        self.network_id
    }

    /// The overlay's invariant. Local blocks are numbered on from the fork
    /// block, each the child of the one before, with total difficulties that
    /// add up; the cache holds only blocks up to the fork block, no number
    /// and no hash twice.
    pub open spec fn wf(&self) -> bool {
        let local = self.local_blocks();
        let cache = self.cached_blocks();
        let fork = self.fork_number().value();
        &&& forall|i: int|
            0 <= i < local.len() ==> (#[trigger] local[i]).block.header.number.value() == fork + i + 1
        &&& forall|i: int|
            0 < i < local.len() ==> (#[trigger] local[i]).block.header.parent_hash == local[i - 1].hash
        &&& forall|i: int|
            0 < i < local.len() ==> (#[trigger] local[i]).total_difficulty.value() == local[i
                - 1].total_difficulty.value() + local[i].block.header.difficulty.value()
        &&& forall|i: int|
            0 <= i < cache.len() ==> (#[trigger] cache[i]).block.header.number.value() <= fork
        &&& forall|i: int, j: int|
            0 <= i < j < cache.len() ==> (#[trigger] cache[i]).block.header.number
                != (#[trigger] cache[j]).block.header.number && cache[i].hash != cache[j].hash
        &&& forall|i: int, j: int|
            0 <= i < j < local.len() ==> (#[trigger] local[i]).hash != (#[trigger] local[j]).hash
        &&& forall|i: int, j: int|
            0 <= i < local.len() && 0 <= j < cache.len() ==> (#[trigger] local[i]).hash != (
            #[trigger] cache[j]).hash
        &&& fork + local.len() < pow256()
    }

    /// Some block of either store has hash `h`.
    pub open spec fn holds_hash(&self, h: B256) -> bool {
        ||| exists|i: int| 0 <= i < self.local_blocks().len() && self.local_blocks()[i].hash == h
        ||| exists|i: int| 0 <= i < self.cached_blocks().len() && self.cached_blocks()[i].hash == h
    }

    fn holds_block_hash(&self, h: &B256) -> (r: bool)
        ensures
            r == self.holds_hash(*h),
    {
        if let Some(i) = position_by_hash(&self.local_storage, h) {
            assert(self.local_blocks()[i as int].hash == *h);
            return true;
        }
        if let Some(i) = position_by_hash(&self.remote_cache, h) {
            assert(self.cached_blocks()[i as int].hash == *h);
            return true;
        }
        false
    }

    /// The number of the newest block.
    pub open spec fn last_number(&self) -> nat {
        self.fork_number().value() + self.local_blocks().len()
    }

    /// Creates an overlay with empty stores on a chain whose hardfork at the
    /// fork block is `hardfork` (`None` where the chain is not supported).
    /// The hardfork must be Spurious Dragon or later.
    pub fn new(
        chain_id: U256,
        network_id: U256,
        fork_block_number: U256,
        hardfork: Option<SpecId>,
        chain_name: String,
    ) -> (r: Result<ForkedBlockchain, CreationError>)
        ensures
            match hardfork {
                None => r == Err::<ForkedBlockchain, _>(CreationError::UnsupportedChain { chain_id }),
                Some(h) => if h.rank() < SpecId::SPURIOUS_DRAGON.rank() {
                    r == Err::<ForkedBlockchain, _>(
                        CreationError::InvalidHardfork { fork_block_number, chain_name, hardfork: h },
                    )
                } else {
                    &&& r matches Ok(f)
                    &&& r->Ok_0.wf()
                    &&& r->Ok_0.local_blocks().len() == 0
                    &&& r->Ok_0.cached_blocks().len() == 0
                    &&& r->Ok_0.fork_number() == fork_block_number
                    &&& r->Ok_0.chain() == chain_id
                    &&& r->Ok_0.network() == network_id
                },
            },
    {
        let hardfork = match hardfork {
            Some(h) => h,
            None => return Err(CreationError::UnsupportedChain { chain_id }),
        };
        if hardfork.is_before(&SpecId::SPURIOUS_DRAGON) {
            return Err(CreationError::InvalidHardfork { fork_block_number, chain_name, hardfork });
        }
        proof {
            crate::primitives::lemma_value_bound(fork_block_number);
        }
        Ok(
            ForkedBlockchain {
                local_storage: Vec::new(),
                remote_cache: Vec::new(),
                fork_block_number,
                chain_id,
                network_id,
            },
        )
    }

    pub fn fork_block_number(&self) -> (r: U256)
        ensures
            r == self.fork_number(),
    {
        self.fork_block_number
    }

    pub fn chain_id(&self) -> (r: U256)
        ensures
            r == self.chain(),
    {
        self.chain_id
    }

    pub fn network_id(&self) -> (r: U256)
        ensures
            r == self.network(),
    {
        self.network_id
    }

    /// The number of the newest block: the fork block's, plus one for each
    /// local block.
    pub fn last_block_number(&self) -> (r: U256)
        requires
            self.wf(),
        ensures
            r.value() == self.last_number(),
    {
        let len = U256 { hi: 0, lo: self.local_storage.len() as u128 };
        match self.fork_block_number.checked_add(&len) {
            Some(n) => n,
            None => {
                proof {
                    assert(false);
                }
                self.fork_block_number
            },
        }
    }

    /// What a read of block `number` answers.
    pub open spec fn number_answer(&self, number: U256) -> Result<Lookup<Block>, BlockchainError> {
        let cache = self.cached_blocks();
        let local = self.local_blocks();
        let fork = self.fork_number().value();
        if number.value() <= fork {
            if exists|i: int| is_first_number(cache, number, i) {
                Ok(Lookup::Found(cache[choose|i: int| is_first_number(cache, number, i)].block))
            } else {
                Ok(Lookup::Fetch)
            }
        } else {
            let index = number.value() - fork - 1;
            if index > usize::MAX {
                Err(BlockchainError::BlockNumberTooLarge)
            } else if index < local.len() {
                Ok(Lookup::Found(local[index].block))
            } else {
                Ok(Lookup::Missing)
            }
        }
    }

    /// Reads the block numbered `number`: up to the fork block from the
    /// cache (or `Fetch` where it is not there yet), later ones from the
    /// local store.
    pub fn block_by_number(&self, number: &U256) -> (r: Result<Lookup<&Block>, BlockchainError>)
        requires
            self.wf(),
        ensures
            match r {
                Ok(l) => self.number_answer(*number) == Ok::<_, BlockchainError>(deref_lookup(l)),
                Err(e) => self.number_answer(*number) == Err::<Lookup<Block>, _>(e),
            },
    {
        if number.le(&self.fork_block_number) {
            match position_by_number(&self.remote_cache, number) {
                Some(i) => {
                    proof {
                        lemma_first_number_unique(self.remote_cache@, *number, i as int);
                    }
                    Ok(Lookup::Found(&self.remote_cache[i].block))
                },
                None => Ok(Lookup::Fetch),
            }
        } else {
            match self.local_index(number) {
                Some(index) => {
                    if index < self.local_storage.len() {
                        Ok(Lookup::Found(&self.local_storage[index].block))
                    } else {
                        Ok(Lookup::Missing)
                    }
                },
                None => Err(BlockchainError::BlockNumberTooLarge),
            }
        }
    }

    /// The position in the local store of the block numbered `number`, past
    /// the fork block, where it fits a machine index.
    fn local_index(&self, number: &U256) -> (r: Option<usize>)
        requires
            number.value() > self.fork_number().value(),
        ensures
            number.value() - self.fork_number().value() - 1 <= usize::MAX ==> r == Some(
                (number.value() - self.fork_number().value() - 1) as usize,
            ),
            number.value() - self.fork_number().value() - 1 > usize::MAX ==> r.is_none(),
    {
        let past = number.sub(&self.fork_block_number);
        let index = past.sub(&U256::from_u64(1));
        index.to_usize()
    }

    /// What a read of the block with hash `hash` answers: the local store
    /// first, then the cache.
    pub open spec fn hash_answer(&self, hash: B256) -> Lookup<StoredBlock> {
        let local = self.local_blocks();
        let cache = self.cached_blocks();
        if exists|i: int| is_first_hash(local, hash, i) {
            Lookup::Found(local[choose|i: int| is_first_hash(local, hash, i)])
        } else if exists|i: int| is_first_hash(cache, hash, i) {
            Lookup::Found(cache[choose|i: int| is_first_hash(cache, hash, i)])
        } else {
            Lookup::Fetch
        }
    }

    fn stored_by_hash(&self, hash: &B256) -> (r: Option<&StoredBlock>)
        ensures
            match self.hash_answer(*hash) {
                Lookup::Found(s) => r == Some(&s),
                _ => r is None,
            },
    {
        match position_by_hash(&self.local_storage, hash) {
            Some(i) => {
                proof {
                    lemma_first_hash_unique(self.local_storage@, *hash, i as int);
                    assert(is_first_hash(self.local_blocks(), *hash, i as int));
                }
                return Some(&self.local_storage[i]);
            },
            None => {},
        }
        assert(!exists|k: int| is_first_hash(self.local_blocks(), *hash, k));
        match position_by_hash(&self.remote_cache, hash) {
            Some(i) => {
                proof {
                    lemma_first_hash_unique(self.remote_cache@, *hash, i as int);
                    assert(is_first_hash(self.cached_blocks(), *hash, i as int));
                }
                Some(&self.remote_cache[i])
            },
            None => {
                assert(!exists|k: int| is_first_hash(self.cached_blocks(), *hash, k));
                None
            },
        }
    }

    /// Reads the block with hash `hash`, or `Fetch` where neither store holds it.
    pub fn block_by_hash(&self, hash: &B256) -> (r: Lookup<&Block>)
        ensures
            deref_lookup(r) == match self.hash_answer(*hash) {
                Lookup::Found(s) => Lookup::Found(s.block),
                _ => Lookup::<Block>::Fetch,
            },
    {
        match self.stored_by_hash(hash) {
            Some(s) => Lookup::Found(&s.block),
            None => Lookup::Fetch,
        }
    }

    /// Reads the total difficulty of the chain up to the block with hash
    /// `hash`, or `Fetch` where neither store holds that block.
    pub fn total_difficulty_by_hash(&self, hash: &B256) -> (r: Lookup<U256>)
        ensures
            r == match self.hash_answer(*hash) {
                Lookup::Found(s) => Lookup::Found(s.total_difficulty),
                _ => Lookup::<U256>::Fetch,
            },
    {
        match self.stored_by_hash(hash) {
            Some(s) => Lookup::Found(s.total_difficulty),
            None => Lookup::Fetch,
        }
    }

    /// What a read of the block holding transaction `th` answers: the local
    /// store first, then the cache.
    pub open spec fn transaction_answer(&self, th: B256) -> Lookup<Block> {
        let local = self.local_blocks();
        let cache = self.cached_blocks();
        if exists|i: int| is_first_transaction(local, th, i) {
            Lookup::Found(local[choose|i: int| is_first_transaction(local, th, i)].block)
        } else if exists|i: int| is_first_transaction(cache, th, i) {
            Lookup::Found(cache[choose|i: int| is_first_transaction(cache, th, i)].block)
        } else {
            Lookup::Fetch
        }
    }

    /// Reads the block that holds the transaction with hash `transaction_hash`,
    /// or `Fetch` where neither store holds one.
    pub fn block_by_transaction_hash(&self, transaction_hash: &B256) -> (r: Lookup<&Block>)
        ensures
            deref_lookup(r) == self.transaction_answer(*transaction_hash),
    {
        match position_by_transaction(&self.local_storage, transaction_hash) {
            Some(i) => {
                proof {
                    lemma_first_transaction_unique(self.local_storage@, *transaction_hash, i as int);
                    assert(is_first_transaction(self.local_blocks(), *transaction_hash, i as int));
                }
                return Lookup::Found(&self.local_storage[i].block);
            },
            None => {},
        }
        assert(!exists|k: int| is_first_transaction(self.local_blocks(), *transaction_hash, k));
        match position_by_transaction(&self.remote_cache, transaction_hash) {
            Some(i) => {
                proof {
                    lemma_first_transaction_unique(self.remote_cache@, *transaction_hash, i as int);
                    assert(is_first_transaction(self.cached_blocks(), *transaction_hash, i as int));
                }
                Lookup::Found(&self.remote_cache[i].block)
            },
            None => {
                assert(!exists|k: int| is_first_transaction(self.cached_blocks(), *transaction_hash, k));
                Lookup::Fetch
            },
        }
    }

    /// The newest block: the last local one, else the fork block where the
    /// cache holds it.
    pub open spec fn last_stored(&self) -> Option<StoredBlock> {
        let local = self.local_blocks();
        let cache = self.cached_blocks();
        if local.len() > 0 {
            Some(local.last())
        } else if exists|i: int| is_first_number(cache, self.fork_number(), i) {
            Some(cache[choose|i: int| is_first_number(cache, self.fork_number(), i)])
        } else {
            None
        }
    }

    fn last_stored_block(&self) -> (r: Option<&StoredBlock>)
        ensures
            match self.last_stored() {
                Some(s) => r == Some(&s),
                None => r is None,
            },
    {
        let len = self.local_storage.len();
        if len > 0 {
            return Some(&self.local_storage[len - 1]);
        }
        match position_by_number(&self.remote_cache, &self.fork_block_number) {
            Some(i) => {
                proof {
                    lemma_first_number_unique(self.remote_cache@, self.fork_block_number, i as int);
                    assert(is_first_number(self.cached_blocks(), self.fork_number(), i as int));
                }
                Some(&self.remote_cache[i])
            },
            None => {
                assert(!exists|k: int| is_first_number(self.cached_blocks(), self.fork_number(), k));
                None
            },
        }
    }

    /// Reads the newest block, or `Fetch` where it is the fork block and the
    /// cache does not hold it yet.
    pub fn last_block(&self) -> (r: Lookup<&Block>)
        ensures
            deref_lookup(r) == match self.last_stored() {
                Some(s) => Lookup::Found(s.block),
                None => Lookup::<Block>::Fetch,
            },
    {
        match self.last_stored_block() {
            Some(s) => Lookup::Found(&s.block),
            None => Lookup::Fetch,
        }
    }

    /// The cache would take `remote`: it lies at or before the fork block,
    /// its number is not cached, and no block of either store has its hash.
    pub open spec fn admits(&self, remote: eth::Block<eth::Transaction>) -> bool {
        let cache = self.cached_blocks();
        &&& remote.number.value() <= self.fork_number().value()
        &&& forall|i: int| 0 <= i < cache.len() ==> cache[i].block.header.number != remote.number
        &&& !self.holds_hash(remote.hash->Some_0)
    }

    /// Admits a block fetched from the remote chain into the cache, with the
    /// total difficulty it came with. A block that is already cached, or that
    /// lies past the fork block, is dropped; the answer says whether it was
    /// taken. A block that lacks what every mined block has is an error.
    pub fn admit_remote_block(&mut self, remote: eth::Block<eth::Transaction>) -> (r: Result<
        bool,
        BlockchainError,
    >)
        requires
            old(self).wf(),
        ensures
            final(self).wf(),
            final(self).local_blocks() == old(self).local_blocks(),
            final(self).fork_number() == old(self).fork_number(),
            final(self).chain() == old(self).chain(),
            final(self).network() == old(self).network(),
            !remote_valid(remote) ==> r == Err::<bool, _>(BlockchainError::InvalidRemoteBlock)
                && final(self).cached_blocks() == old(self).cached_blocks(),
            remote_valid(remote) && !old(self).admits(remote) ==> r == Ok::<_, BlockchainError>(
                false,
            ) && final(self).cached_blocks() == old(self).cached_blocks(),
            remote_valid(remote) && old(self).admits(remote) ==> r == Ok::<_, BlockchainError>(true)
                && final(self).cached_blocks().len() == old(self).cached_blocks().len() + 1
                && final(self).cached_blocks().drop_last() == old(self).cached_blocks()
                && stored_from(remote, final(self).cached_blocks().last()),
    {
        let hash = match remote.hash {
            Some(h) => h,
            None => return Err(BlockchainError::InvalidRemoteBlock),
        };
        let total_difficulty = match remote.total_difficulty {
            Some(d) => d,
            None => return Err(BlockchainError::InvalidRemoteBlock),
        };
        if !all_gas_fits(&remote.transactions) {
            return Err(BlockchainError::InvalidRemoteBlock);
        }
        proof {
            eth::lemma_every_gas_fits(remote.transactions@);
        }
        let transaction_hashes = hashes_of(&remote.transactions);
        let number = remote.number;
        let block = match Block::try_from(remote) {
            Ok(b) => b,
            Err(_) => return Err(BlockchainError::InvalidRemoteBlock),
        };
        if !number.le(&self.fork_block_number) {
            return Ok(false);
        }
        if position_by_number(&self.remote_cache, &number).is_some() {
            return Ok(false);
        }
        if self.holds_block_hash(&hash) {
            return Ok(false);
        }
        let stored = StoredBlock { block, hash, transaction_hashes, total_difficulty };
        self.remote_cache.push(stored);
        assert(self.remote_cache@.drop_last() =~= old(self).remote_cache@);
        Ok(true)
    }

    /// Appends `block`, whose hash is `hash` and whose transactions have the
    /// hashes `transaction_hashes`, after the newest block. It must carry the
    /// next number, name the newest block as its parent, and have a hash that
    /// no held block has; its total
    /// difficulty is the newest block's plus its own difficulty.
    pub fn insert_block(&mut self, block: Block, hash: B256, transaction_hashes: Vec<B256>) -> (r:
        Result<(), BlockchainError>)
        requires
            old(self).wf(),
            old(self).last_number() + 1 < pow256(),
        ensures
            final(self).wf(),
            final(self).cached_blocks() == old(self).cached_blocks(),
            final(self).fork_number() == old(self).fork_number(),
            final(self).chain() == old(self).chain(),
            final(self).network() == old(self).network(),
            r is Err ==> final(self).local_blocks() == old(self).local_blocks(),
            match old(self).last_stored() {
                None => r == Err::<(), _>(BlockchainError::UnknownBlockNumber),
                Some(last) => if block.header.number.value() != old(self).last_number() + 1 {
                    r == Err::<(), _>(
                        BlockchainError::InvalidBlockNumber {
                            actual: block.header.number,
                            expected: U256::from_value(old(self).last_number() + 1),
                        },
                    )
                } else if block.header.parent_hash != last.hash {
                    r == Err::<(), _>(BlockchainError::InvalidParentHash)
                } else if old(self).holds_hash(hash) {
                    r == Err::<(), _>(BlockchainError::DuplicateBlockHash)
                } else if last.total_difficulty.value() + block.header.difficulty.value()
                    >= pow256() {
                    r == Err::<(), _>(BlockchainError::TotalDifficultyOverflow)
                } else {
                    &&& r is Ok
                    &&& final(self).local_blocks() == old(self).local_blocks().push(
                        StoredBlock {
                            block,
                            hash,
                            transaction_hashes,
                            total_difficulty: U256::from_value(
                                last.total_difficulty.value() + block.header.difficulty.value(),
                            ),
                        },
                    )
                },
            },
    {
        let (last_hash, last_total_difficulty) = match self.last_stored_block() {
            Some(s) => (s.hash, s.total_difficulty),
            None => return Err(BlockchainError::UnknownBlockNumber),
        };
        let last_number = self.last_block_number();
        let expected = match last_number.checked_add(&U256::from_u64(1)) {
            Some(n) => n,
            None => {
                proof {
                    assert(false);
                }
                last_number
            },
        };
        if block.header.number != expected {
            proof {
                crate::primitives::lemma_value_order(block.header.number, expected);
            }
            return Err(BlockchainError::InvalidBlockNumber { actual: block.header.number, expected });
        }
        if block.header.parent_hash != last_hash {
            return Err(BlockchainError::InvalidParentHash);
        }
        if self.holds_block_hash(&hash) {
            return Err(BlockchainError::DuplicateBlockHash);
        }
        let total_difficulty = match last_total_difficulty.checked_add(&block.header.difficulty) {
            Some(d) => d,
            None => return Err(BlockchainError::TotalDifficultyOverflow),
        };
        proof {
            crate::primitives::lemma_value_bound(block.header.number);
            crate::primitives::lemma_from_value_of(total_difficulty);
        }
        self.local_storage.push(StoredBlock { block, hash, transaction_hashes, total_difficulty });
        Ok(())
    }

    /// What a read of the hash of block `number` answers.
    pub open spec fn block_hash_answer(&self, number: U256) -> Result<Lookup<B256>, BlockchainError> {
        let cache = self.cached_blocks();
        let local = self.local_blocks();
        let fork = self.fork_number().value();
        if number.value() <= fork {
            if exists|i: int| is_first_number(cache, number, i) {
                Ok(Lookup::Found(cache[choose|i: int| is_first_number(cache, number, i)].hash))
            } else {
                Ok(Lookup::Fetch)
            }
        } else {
            let index = number.value() - fork - 1;
            if index > usize::MAX {
                Err(BlockchainError::BlockNumberTooLarge)
            } else if index < local.len() {
                Ok(Lookup::Found(local[index].hash))
            } else {
                Err(BlockchainError::UnknownBlockNumber)
            }
        }
    }

    /// Reads the hash of the block numbered `number`, as the EVM asks for it.
    pub fn block_hash(&self, number: &U256) -> (r: Result<Lookup<B256>, BlockchainError>)
        requires
            self.wf(),
        ensures
            r == self.block_hash_answer(*number),
    {
        if number.le(&self.fork_block_number) {
            match position_by_number(&self.remote_cache, number) {
                Some(i) => {
                    proof {
                        lemma_first_number_unique(self.remote_cache@, *number, i as int);
                    }
                    Ok(Lookup::Found(self.remote_cache[i].hash))
                },
                None => Ok(Lookup::Fetch),
            }
        } else {
            match self.local_index(number) {
                Some(index) => {
                    if index < self.local_storage.len() {
                        Ok(Lookup::Found(self.local_storage[index].hash))
                    } else {
                        Err(BlockchainError::UnknownBlockNumber)
                    }
                },
                None => Err(BlockchainError::BlockNumberTooLarge),
            }
        }
    }
}

/// Every cached block lies at or before the fork block, and no two cached
/// blocks share a number or a hash.
pub proof fn lemma_cache_entries(f: ForkedBlockchain)
    requires
        f.wf(),
    ensures
        forall|i: int|
            0 <= i < f.cached_blocks().len() ==> (#[trigger] f.cached_blocks()[i]).block.header.number.value()
                <= f.fork_number().value(),
        forall|i: int, j: int|
            0 <= i < f.cached_blocks().len() && 0 <= j < f.cached_blocks().len() && i != j ==> (
            #[trigger] f.cached_blocks()[i]).hash != (#[trigger] f.cached_blocks()[j]).hash,
{
    assert forall|i: int, j: int|
        0 <= i < f.cached_blocks().len() && 0 <= j < f.cached_blocks().len() && i != j implies (
        #[trigger] f.cached_blocks()[i]).hash != (#[trigger] f.cached_blocks()[j]).hash by {
        if i < j {
            assert(f.cached_blocks()[i].hash != f.cached_blocks()[j].hash);
        } else {
            assert(f.cached_blocks()[j].hash != f.cached_blocks()[i].hash);
        }
    }
}

/// The local block at position `i` is numbered `i + 1` past the fork block,
/// and each but the first names the one before it as its parent.
pub proof fn lemma_local_entries(f: ForkedBlockchain)
    requires
        f.wf(),
    ensures
        forall|i: int|
            0 <= i < f.local_blocks().len() ==> (#[trigger] f.local_blocks()[i]).block.header.number.value()
                == f.fork_number().value() + i + 1,
        forall|i: int|
            0 < i < f.local_blocks().len() ==> (#[trigger] f.local_blocks()[i]).block.header.parent_hash
                == f.local_blocks()[i - 1].hash,
{
}

/// No block number is held both by the cache and by the local store.
pub proof fn lemma_number_in_one_store(f: ForkedBlockchain, n: U256)
    requires
        f.wf(),
    ensures
        !((exists|i: int|
            0 <= i < f.cached_blocks().len() && (#[trigger] f.cached_blocks()[i]).block.header.number
                == n) && (exists|j: int|
            0 <= j < f.local_blocks().len() && (#[trigger] f.local_blocks()[j]).block.header.number
                == n)),
{
    if exists|i: int|
        0 <= i < f.cached_blocks().len() && (#[trigger] f.cached_blocks()[i]).block.header.number
            == n {
        let i = choose|i: int|
            0 <= i < f.cached_blocks().len() && (#[trigger] f.cached_blocks()[i]).block.header.number
                == n;
        assert(n.value() <= f.fork_number().value());
        assert forall|j: int| 0 <= j < f.local_blocks().len() implies (#[trigger] f.local_blocks()[j]).block.header.number != n by {
            assert(f.local_blocks()[j].block.header.number.value() == f.fork_number().value() + j + 1);
        }
    }
}

/// Admitting the same remote block a second time leaves the cache as it is,
/// and once admitted, a read of its number answers with it.
pub proof fn lemma_admission_idempotent(
    before: ForkedBlockchain,
    after: ForkedBlockchain,
    remote: eth::Block<eth::Transaction>,
)
    requires
        before.wf(),
        remote_valid(remote),
        after.local_blocks() == before.local_blocks(),
        after.fork_number() == before.fork_number(),
        !before.admits(remote) ==> after.cached_blocks() == before.cached_blocks(),
        before.admits(remote) ==> after.cached_blocks().len() == before.cached_blocks().len() + 1
            && after.cached_blocks().drop_last() == before.cached_blocks() && stored_from(
            remote,
            after.cached_blocks().last(),
        ),
    ensures
        !after.admits(remote),
        before.admits(remote) ==> after.number_answer(remote.number) == Ok::<_, BlockchainError>(
            Lookup::Found(after.cached_blocks().last().block),
        ),
{
    let old_cache = before.cached_blocks();
    let cache = after.cached_blocks();
    if before.admits(remote) {
        let k = old_cache.len() as int;
        let last = cache.last();
        assert(cache[k] == last);
        assert(last.block.header.number == remote.number);
        assert forall|j: int| 0 <= j < k implies cache[j].block.header.number != remote.number by {
            assert(cache[j] == old_cache[j]);
        }
        assert(is_first_number(cache, remote.number, k));
        lemma_first_number_unique(cache, remote.number, k);
    }
}

/// After an append, the appended block answers for its hash, with the total
/// difficulty it was stored with, and the newest number has grown by one.
pub proof fn lemma_append_answers(before: ForkedBlockchain, after: ForkedBlockchain, s: StoredBlock)
    requires
        before.wf(),
        !before.holds_hash(s.hash),
        after.local_blocks() == before.local_blocks().push(s),
        after.cached_blocks() == before.cached_blocks(),
        after.fork_number() == before.fork_number(),
    ensures
        after.hash_answer(s.hash) == Lookup::Found(s),
        after.last_number() == before.last_number() + 1,
        after.last_stored() == Some(s),
{
    let local = after.local_blocks();
    let k = before.local_blocks().len() as int;
    assert(local[k] == s);
    assert forall|j: int| 0 <= j < k implies local[j].hash != s.hash by {
        assert(local[j] == before.local_blocks()[j]);
    }
    assert(is_first_hash(local, s.hash, k));
    lemma_first_hash_unique(local, s.hash, k);
}

/// A first position is the only one.
pub proof fn lemma_first_number_unique(s: Seq<StoredBlock>, n: U256, i: int)
    requires
        is_first_number(s, n, i),
    ensures
        (choose|k: int| is_first_number(s, n, k)) == i,
{
    let k = choose|k: int| is_first_number(s, n, k);
    assert(is_first_number(s, n, k));
    if k < i {
        assert(s[k].block.header.number != n);
    } else if k > i {
        assert(s[i].block.header.number != n);
    }
}

/// A first position is the only one.
pub proof fn lemma_first_hash_unique(s: Seq<StoredBlock>, h: B256, i: int)
    requires
        is_first_hash(s, h, i),
    ensures
        (choose|k: int| is_first_hash(s, h, k)) == i,
{
    let k = choose|k: int| is_first_hash(s, h, k);
    assert(is_first_hash(s, h, k));
    if k < i {
        assert(s[k].hash != h);
    } else if k > i {
        assert(s[i].hash != h);
    }
}

/// A first position is the only one.
pub proof fn lemma_first_transaction_unique(s: Seq<StoredBlock>, th: B256, i: int)
    requires
        is_first_transaction(s, th, i),
    ensures
        (choose|k: int| is_first_transaction(s, th, k)) == i,
{
    let k = choose|k: int| is_first_transaction(s, th, k);
    assert(is_first_transaction(s, th, k));
    if k < i {
        assert(!holds_transaction(s, th, k));
    } else if k > i {
        assert(!holds_transaction(s, th, i));
    }
}

} // verus!
