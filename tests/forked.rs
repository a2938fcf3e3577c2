use rethnet_evm::block::{Block, Header};
use rethnet_evm::eth;
use rethnet_evm::fork::{fork_point, largest_possible_reorg, CreationError, SpecId};
use rethnet_evm::forked::{BlockchainError, ForkedBlockchain, Lookup};
use rethnet_evm::primitives::{Address, B256, U256};

fn word(n: u128) -> U256 {
    U256 { hi: 0, lo: n }
}

fn hash(n: u128) -> B256 {
    B256 { hi: 0xfeed, lo: n }
}

fn header(number: u128, parent: B256, difficulty: u128) -> Header {
    Header {
        parent_hash: parent,
        ommers_hash: hash(0),
        beneficiary: Address { hi: 0, lo: 9 },
        state_root: hash(0),
        transactions_root: hash(0),
        receipts_root: hash(0),
        logs_bloom: vec![0; 256],
        difficulty: word(difficulty),
        number: word(number),
        gas_limit: word(30_000_000),
        gas_used: word(0),
        timestamp: word(1000 + number),
        extra_data: Vec::new(),
        mix_hash: hash(0),
        nonce: 0,
        base_fee_per_gas: None,
        withdrawals_root: None,
    }
}

fn local_block(number: u128, parent: B256, difficulty: u128) -> Block {
    Block {
        header: header(number, parent, difficulty),
        transactions: Vec::new(),
        ommers: Vec::new(),
    }
}

fn remote_transaction(tx_hash: B256) -> eth::Transaction {
    eth::Transaction {
        hash: tx_hash,
        nonce: 0,
        block_hash: None,
        block_number: None,
        transaction_index: None,
        from: Address { hi: 0, lo: 1 },
        to: None,
        value: word(0),
        gas_price: word(1),
        gas: word(21000),
        input: Vec::new(),
        v: 27,
        r: word(1),
        s: word(1),
        chain_id: None,
        transaction_type: 0,
        access_list: None,
        max_fee_per_gas: None,
        max_priority_fee_per_gas: None,
    }
}

fn remote_block(number: u128, total_difficulty: u128) -> eth::Block<eth::Transaction> {
    eth::Block {
        hash: Some(hash(number)),
        parent_hash: hash(number.wrapping_sub(1)),
        sha3_uncles: hash(0),
        state_root: hash(0),
        transactions_root: hash(0),
        receipts_root: hash(0),
        number: word(number),
        gas_used: word(0),
        gas_limit: word(30_000_000),
        extra_data: Vec::new(),
        logs_bloom: vec![0; 256],
        timestamp: word(number),
        difficulty: word(3),
        total_difficulty: Some(word(total_difficulty)),
        uncles: Vec::new(),
        transactions: vec![remote_transaction(hash(0x1000 + number))],
        size: word(500),
        mix_hash: hash(0),
        nonce: Some(1),
        base_fee_per_gas: None,
        miner: Some(Address { hi: 0, lo: 2 }),
        withdrawals: Vec::new(),
        withdrawals_root: None,
    }
}

/// An overlay on chain 1 whose tip is block 100, forked where it is safe.
fn fresh_overlay() -> ForkedBlockchain {
    let point = fork_point(&word(1), &word(100), None).unwrap();
    ForkedBlockchain::new(
        word(1),
        word(1),
        point.fork_block_number,
        Some(SpecId::LONDON),
        String::from("mainnet"),
    )
    .unwrap()
}

#[test]
fn fresh_overlay_unsupplied_fork() {
    let point = fork_point(&word(1), &word(100), None).unwrap();
    assert_eq!(point.max_reorg, 5);
    assert_eq!(point.fork_block_number, word(95));
    assert_eq!(point.warning, None);
    let mut chain = fresh_overlay();
    assert_eq!(chain.last_block_number(), word(95));
    assert_eq!(chain.fork_block_number(), word(95));
    assert_eq!(chain.chain_id(), word(1));
    assert_eq!(chain.network_id(), word(1));

    // The first read needs the remote chain; the second is served from the cache.
    assert_eq!(chain.block_by_number(&word(50)), Ok(Lookup::Fetch));
    assert_eq!(chain.admit_remote_block(remote_block(50, 500)), Ok(true));
    let first = match chain.block_by_number(&word(50)) {
        Ok(Lookup::Found(b)) => b.clone(),
        other => panic!("expected a cached block, got {:?}", other),
    };
    assert_eq!(first.header.number, word(50));
    let second = match chain.block_by_number(&word(50)) {
        Ok(Lookup::Found(b)) => b.clone(),
        other => panic!("expected a cached block, got {:?}", other),
    };
    assert_eq!(first, second);
    // Admitting the same block again changes nothing.
    assert_eq!(chain.admit_remote_block(remote_block(50, 500)), Ok(false));
    assert_eq!(chain.block_hash(&word(50)), Ok(Lookup::Found(hash(50))));
}

#[test]
fn explicit_safe_fork() {
    let point = fork_point(&word(100), &word(1000), Some(word(900))).unwrap();
    assert_eq!(point.max_reorg, 38);
    assert_eq!(point.safe_block_number, word(962));
    assert_eq!(point.fork_block_number, word(900));
    assert_eq!(point.warning, None);
}

#[test]
fn explicit_unsafe_fork() {
    let point = fork_point(&word(1), &word(1000), Some(word(999))).unwrap();
    assert_eq!(point.safe_block_number, word(995));
    assert_eq!(point.fork_block_number, word(999));
    let warning = point.warning.unwrap();
    assert_eq!(warning.required_confirmations, 6);
    assert_eq!(warning.missing_confirmations, 4);
    assert_eq!(warning.safe_block_number, word(995));
}

#[test]
fn fork_at_latest_block_warns() {
    let point = fork_point(&word(1), &word(1000), Some(word(1000))).unwrap();
    assert_eq!(point.fork_block_number, word(1000));
    assert!(point.warning.is_some());
}

#[test]
fn fork_past_latest_block_fails() {
    assert_eq!(
        fork_point(&word(1), &word(1000), Some(word(1001))),
        Err(CreationError::InvalidBlockNumber {
            fork_block_number: word(1001),
            latest_block_number: word(1000),
        })
    );
}

#[test]
fn reorg_depths() {
    assert_eq!(largest_possible_reorg(&word(100)), Some(38));
    assert_eq!(largest_possible_reorg(&word(3)), Some(100));
    assert_eq!(largest_possible_reorg(&word(1337)), None);
    assert_eq!(largest_possible_reorg(&U256 { hi: 1, lo: 1 }), None);
    let point = fork_point(&word(1337), &word(1000), None).unwrap();
    assert_eq!(point.max_reorg, 30);
    assert_eq!(point.fork_block_number, word(970));
    let point = fork_point(&word(1337), &word(10), None).unwrap();
    assert_eq!(point.safe_block_number, word(0));
}

#[test]
fn hardfork_before_spurious_dragon_is_rejected() {
    assert_eq!(
        ForkedBlockchain::new(
            word(1),
            word(1),
            word(2_000_000),
            Some(SpecId::TANGERINE),
            String::from("mainnet"),
        )
        .err(),
        Some(CreationError::InvalidHardfork {
            fork_block_number: word(2_000_000),
            chain_name: String::from("mainnet"),
            hardfork: SpecId::TANGERINE,
        })
    );
    assert!(ForkedBlockchain::new(
        word(1),
        word(1),
        word(3_000_000),
        Some(SpecId::SPURIOUS_DRAGON),
        String::from("mainnet"),
    )
    .is_ok());
    assert_eq!(
        ForkedBlockchain::new(word(777), word(777), word(5), None, String::new()).err(),
        Some(CreationError::UnsupportedChain { chain_id: word(777) })
    );
}

#[test]
fn append_after_fork_block() {
    let mut chain = fresh_overlay();
    assert_eq!(chain.last_block(), Lookup::Fetch);
    assert_eq!(
        chain.insert_block(local_block(96, hash(95), 10), hash(96), Vec::new()),
        Err(BlockchainError::UnknownBlockNumber)
    );
    let d: u128 = 12_345;
    assert_eq!(chain.admit_remote_block(remote_block(95, d)), Ok(true));
    assert_eq!(chain.total_difficulty_by_hash(&hash(95)), Lookup::Found(word(d)));
    assert_eq!(
        chain.insert_block(local_block(96, hash(95), 10), hash(96), vec![hash(0x5000)]),
        Ok(())
    );
    assert_eq!(chain.total_difficulty_by_hash(&hash(96)), Lookup::Found(word(d + 10)));
    assert_eq!(chain.last_block_number(), word(96));
    match chain.last_block() {
        Lookup::Found(b) => assert_eq!(b.header.number, word(96)),
        other => panic!("expected the appended block, got {:?}", other),
    }
    match chain.block_by_number(&word(96)) {
        Ok(Lookup::Found(b)) => assert_eq!(b.header.difficulty, word(10)),
        other => panic!("expected the appended block, got {:?}", other),
    }
    assert_eq!(chain.block_by_number(&word(97)), Ok(Lookup::Missing));
    assert_eq!(chain.block_hash(&word(96)), Ok(Lookup::Found(hash(96))));
    assert_eq!(chain.block_hash(&word(97)), Err(BlockchainError::UnknownBlockNumber));
    match chain.block_by_transaction_hash(&hash(0x5000)) {
        Lookup::Found(b) => assert_eq!(b.header.number, word(96)),
        other => panic!("expected the appended block, got {:?}", other),
    }
    match chain.block_by_transaction_hash(&hash(0x1000 + 95)) {
        Lookup::Found(b) => assert_eq!(b.header.number, word(95)),
        other => panic!("expected the cached block, got {:?}", other),
    }
    assert_eq!(chain.block_by_transaction_hash(&hash(0x6000)), Lookup::Fetch);
    match chain.block_by_hash(&hash(96)) {
        Lookup::Found(b) => assert_eq!(b.header.number, word(96)),
        other => panic!("expected the appended block, got {:?}", other),
    }
    assert_eq!(chain.block_by_hash(&hash(3)), Lookup::Fetch);
}

#[test]
fn append_with_wrong_number_is_rejected() {
    let mut chain = fresh_overlay();
    assert_eq!(chain.admit_remote_block(remote_block(95, 700)), Ok(true));
    assert_eq!(
        chain.insert_block(local_block(97, hash(95), 10), hash(97), Vec::new()),
        Err(BlockchainError::InvalidBlockNumber { actual: word(97), expected: word(96) })
    );
    assert_eq!(chain.last_block_number(), word(95));
    assert_eq!(chain.block_by_number(&word(96)), Ok(Lookup::Missing));
}

#[test]
fn append_with_wrong_parent_is_rejected() {
    let mut chain = fresh_overlay();
    assert_eq!(chain.admit_remote_block(remote_block(95, 700)), Ok(true));
    assert_eq!(
        chain.insert_block(local_block(96, hash(94), 10), hash(96), Vec::new()),
        Err(BlockchainError::InvalidParentHash)
    );
    assert_eq!(chain.last_block_number(), word(95));
}

#[test]
fn append_with_overflowing_difficulty_is_rejected() {
    let mut chain = fresh_overlay();
    let mut fork_block = remote_block(95, 0);
    fork_block.total_difficulty = Some(U256 { hi: u128::MAX, lo: u128::MAX });
    assert_eq!(chain.admit_remote_block(fork_block), Ok(true));
    assert_eq!(
        chain.insert_block(local_block(96, hash(95), 1), hash(96), Vec::new()),
        Err(BlockchainError::TotalDifficultyOverflow)
    );
}

#[test]
fn remote_blocks_past_the_fork_or_malformed_are_not_cached() {
    let mut chain = fresh_overlay();
    assert_eq!(chain.admit_remote_block(remote_block(99, 700)), Ok(false));
    assert_eq!(chain.block_by_hash(&hash(99)), Lookup::Fetch);
    let mut no_td = remote_block(40, 1);
    no_td.total_difficulty = None;
    assert_eq!(chain.admit_remote_block(no_td), Err(BlockchainError::InvalidRemoteBlock));
    let mut no_miner = remote_block(40, 1);
    no_miner.miner = None;
    assert_eq!(chain.admit_remote_block(no_miner), Err(BlockchainError::InvalidRemoteBlock));
    assert_eq!(chain.block_by_number(&word(40)), Ok(Lookup::Fetch));
}

#[test]
fn block_number_beyond_machine_index() {
    let chain = fresh_overlay();
    let huge = U256 { hi: 1, lo: 0 };
    assert_eq!(chain.block_by_number(&huge), Err(BlockchainError::BlockNumberTooLarge));
    assert_eq!(chain.block_hash(&huge), Err(BlockchainError::BlockNumberTooLarge));
}

#[test]
fn cache_and_local_store_hold_distinct_numbers() {
    let mut chain = fresh_overlay();
    assert_eq!(chain.admit_remote_block(remote_block(95, 700)), Ok(true));
    assert_eq!(
        chain.insert_block(local_block(96, hash(95), 10), hash(96), Vec::new()),
        Ok(())
    );
    // A remote block with a local number is never cached.
    assert_eq!(chain.admit_remote_block(remote_block(96, 800)), Ok(false));
    // Nor is a second block with a cached number.
    let mut other = remote_block(95, 700);
    other.hash = Some(hash(0xabc));
    assert_eq!(chain.admit_remote_block(other), Ok(false));
    assert_eq!(chain.block_hash(&word(95)), Ok(Lookup::Found(hash(95))));
    assert_eq!(chain.block_hash(&word(96)), Ok(Lookup::Found(hash(96))));
}

#[test]
fn append_with_held_hash_is_rejected() {
    let mut chain = fresh_overlay();
    assert_eq!(chain.admit_remote_block(remote_block(95, 700)), Ok(true));
    assert_eq!(chain.admit_remote_block(remote_block(60, 600)), Ok(true));
    assert_eq!(
        chain.insert_block(local_block(96, hash(95), 10), hash(60), Vec::new()),
        Err(BlockchainError::DuplicateBlockHash)
    );
    assert_eq!(chain.last_block_number(), word(95));
    assert_eq!(
        chain.insert_block(local_block(96, hash(95), 10), hash(96), Vec::new()),
        Ok(())
    );
    assert_eq!(
        chain.insert_block(local_block(97, hash(96), 10), hash(96), Vec::new()),
        Err(BlockchainError::DuplicateBlockHash)
    );
    // A remote block whose hash a local block has is not cached.
    let mut clash = remote_block(70, 1);
    clash.hash = Some(hash(96));
    assert_eq!(chain.admit_remote_block(clash), Ok(false));
    assert_eq!(chain.block_by_number(&word(70)), Ok(Lookup::Fetch));
}
