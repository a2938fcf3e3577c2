use rethnet_evm::block::{Block as InternalBlock, SignedTransaction, TransactionKind};
use rethnet_evm::eth::{
    Block, BlockConversionError, Transaction, TransactionConversionError,
};
use rethnet_evm::primitives::{Address, B256, U256};

fn word(n: u128) -> U256 {
    U256 { hi: 0, lo: n }
}

fn hash(n: u128) -> B256 {
    B256 { hi: 0, lo: n }
}

fn address_aa() -> Address {
    Address { hi: 0xaaaa_aaaa, lo: u128::MAX / 0xff * 0xaa }
}

fn transaction(transaction_type: u64) -> Transaction {
    Transaction {
        hash: hash(0x77),
        nonce: 3,
        block_hash: None,
        block_number: None,
        transaction_index: None,
        from: Address { hi: 0, lo: 1 },
        to: Some(address_aa()),
        value: word(1000),
        gas_price: word(20),
        gas: word(21000),
        input: vec![1, 2, 3],
        v: 1,
        r: word(1),
        s: word(2),
        chain_id: Some(1),
        transaction_type,
        access_list: Some(Vec::new()),
        max_fee_per_gas: Some(word(100)),
        max_priority_fee_per_gas: Some(word(2)),
    }
}

fn remote_block(transactions: Vec<Transaction>) -> Block<Transaction> {
    Block {
        hash: Some(hash(0xb1)),
        parent_hash: hash(0xb0),
        sha3_uncles: hash(0x11),
        state_root: hash(0x12),
        transactions_root: hash(0x13),
        receipts_root: hash(0x14),
        number: word(7),
        gas_used: word(21000),
        gas_limit: word(30_000_000),
        extra_data: vec![0xde, 0xad],
        logs_bloom: vec![0; 256],
        timestamp: word(1_700_000_000),
        difficulty: word(5),
        total_difficulty: Some(word(50)),
        uncles: vec![hash(0x99)],
        transactions,
        size: word(600),
        mix_hash: hash(0x15),
        nonce: Some(42),
        base_fee_per_gas: Some(word(7)),
        miner: Some(Address { hi: 0, lo: 0x1234 }),
        withdrawals: Vec::new(),
        withdrawals_root: None,
    }
}

#[test]
fn eip1559_transaction_converts() {
    let converted = SignedTransaction::try_from(transaction(2)).unwrap();
    match converted {
        SignedTransaction::EIP1559(t) => {
            assert_eq!(t.kind, TransactionKind::Call(address_aa()));
            assert!(t.odd_y_parity);
            assert_eq!(t.chain_id, 1);
            assert_eq!(t.max_fee_per_gas, word(100));
            assert_eq!(t.max_priority_fee_per_gas, word(2));
            assert_eq!(t.gas_limit, 21000);
            assert_eq!(t.r, hash(1));
            assert_eq!(t.s, hash(2));
            assert!(t.access_list.items.is_empty());
            assert_eq!(t.input, vec![1, 2, 3]);
        }
        other => panic!("expected an EIP-1559 transaction, got {:?}", other),
    }
}

#[test]
fn eip1559_transaction_without_max_fee() {
    let mut tx = transaction(2);
    tx.max_fee_per_gas = None;
    assert_eq!(
        SignedTransaction::try_from(tx),
        Err(TransactionConversionError::MissingMaxFeePerGas)
    );
}

#[test]
fn eip1559_transaction_without_priority_fee() {
    let mut tx = transaction(2);
    tx.max_priority_fee_per_gas = None;
    tx.max_fee_per_gas = None;
    assert_eq!(
        SignedTransaction::try_from(tx),
        Err(TransactionConversionError::MissingMaxPriorityFeePerGas)
    );
}

#[test]
fn legacy_transaction_keeps_v() {
    let mut tx = transaction(0);
    tx.to = None;
    tx.v = 37;
    match SignedTransaction::try_from(tx).unwrap() {
        SignedTransaction::Legacy(t) => {
            assert_eq!(t.kind, TransactionKind::Create);
            assert_eq!(t.signature.v, 37);
            assert_eq!(t.signature.r, word(1));
            assert_eq!(t.gas_price, word(20));
        }
        other => panic!("expected a legacy transaction, got {:?}", other),
    }
}

#[test]
fn eip2930_transaction_parity_and_missing_fields() {
    let mut tx = transaction(1);
    tx.v = 0;
    match SignedTransaction::try_from(tx).unwrap() {
        SignedTransaction::EIP2930(t) => {
            assert!(!t.odd_y_parity);
            assert_eq!(t.gas_price, word(20));
        }
        other => panic!("expected an EIP-2930 transaction, got {:?}", other),
    }
    let mut tx = transaction(1);
    tx.chain_id = None;
    tx.access_list = None;
    assert_eq!(
        SignedTransaction::try_from(tx),
        Err(TransactionConversionError::MissingChainId)
    );
    let mut tx = transaction(1);
    tx.access_list = None;
    assert_eq!(
        SignedTransaction::try_from(tx),
        Err(TransactionConversionError::MissingAccessList)
    );
}

#[test]
fn unsupported_transaction_type() {
    assert_eq!(
        SignedTransaction::try_from(transaction(3)),
        Err(TransactionConversionError::UnsupportedType(3))
    );
    assert_eq!(
        SignedTransaction::try_from(transaction(126)),
        Err(TransactionConversionError::UnsupportedType(126))
    );
}

#[test]
fn u256_to_hash_is_big_endian() {
    let u = U256 { hi: 5, lo: 9 };
    assert_eq!(B256::from_u256(u), B256 { hi: 5, lo: 9 });
}

#[test]
fn block_converts_without_ommers() {
    let block = InternalBlock::try_from(remote_block(vec![transaction(0), transaction(2)])).unwrap();
    assert_eq!(block.header.beneficiary, Address { hi: 0, lo: 0x1234 });
    assert_eq!(block.header.nonce, 42);
    assert_eq!(block.header.number, word(7));
    assert_eq!(block.header.ommers_hash, hash(0x11));
    assert_eq!(block.header.extra_data, vec![0xde, 0xad]);
    assert_eq!(block.transactions.len(), 2);
    assert!(matches!(block.transactions[0], SignedTransaction::Legacy(_)));
    assert!(matches!(block.transactions[1], SignedTransaction::EIP1559(_)));
    assert!(block.ommers.is_empty());
}

#[test]
fn block_without_miner_or_nonce() {
    let mut b = remote_block(Vec::new());
    b.miner = None;
    b.nonce = None;
    assert_eq!(InternalBlock::try_from(b), Err(BlockConversionError::MissingMiner));
    let mut b = remote_block(Vec::new());
    b.nonce = None;
    assert_eq!(InternalBlock::try_from(b), Err(BlockConversionError::MissingNonce));
}

#[test]
fn block_forwards_first_transaction_error() {
    let mut bad = transaction(2);
    bad.chain_id = None;
    let b = remote_block(vec![transaction(0), transaction(5), bad]);
    assert_eq!(
        InternalBlock::try_from(b),
        Err(BlockConversionError::TransactionConversionError(
            TransactionConversionError::UnsupportedType(5)
        ))
    );
}

#[test]
fn u256_arithmetic_carries() {
    let a = U256 { hi: 0, lo: u128::MAX };
    assert_eq!(a.checked_add(&word(1)), Some(U256 { hi: 1, lo: 0 }));
    let top = U256 { hi: u128::MAX, lo: u128::MAX };
    assert_eq!(top.checked_add(&word(1)), None);
    assert_eq!(U256 { hi: 1, lo: 0 }.sub(&word(1)), a);
    assert!(word(3).le(&word(3)));
    assert!(!U256 { hi: 1, lo: 0 }.le(&a));
    assert_eq!(U256 { hi: 1, lo: 0 }.to_usize(), None);
    assert_eq!(word(12).to_usize(), Some(12));
}

fn huge_gas() -> U256 {
    U256 { hi: 1, lo: 0 }
}

#[test]
fn unsupported_type_whatever_the_gas() {
    let mut tx = transaction(4);
    tx.gas = huge_gas();
    assert_eq!(
        SignedTransaction::try_from(tx),
        Err(TransactionConversionError::UnsupportedType(4))
    );
}

#[test]
fn missing_fields_reported_before_the_gas_is_narrowed() {
    let mut tx = transaction(1);
    tx.gas = huge_gas();
    tx.chain_id = None;
    assert_eq!(
        SignedTransaction::try_from(tx),
        Err(TransactionConversionError::MissingChainId)
    );
    let mut tx = transaction(2);
    tx.gas = huge_gas();
    tx.max_fee_per_gas = None;
    assert_eq!(
        SignedTransaction::try_from(tx),
        Err(TransactionConversionError::MissingMaxFeePerGas)
    );
}

#[test]
fn block_without_miner_whatever_the_gas() {
    let mut tx = transaction(0);
    tx.gas = huge_gas();
    let mut b = remote_block(vec![tx]);
    b.miner = None;
    assert_eq!(InternalBlock::try_from(b), Err(BlockConversionError::MissingMiner));
}

#[test]
fn block_stops_at_first_failure_whatever_follows() {
    let mut later = transaction(0);
    later.gas = huge_gas();
    let b = remote_block(vec![transaction(9), later]);
    assert_eq!(
        InternalBlock::try_from(b),
        Err(BlockConversionError::TransactionConversionError(
            TransactionConversionError::UnsupportedType(9)
        ))
    );
}
