use vstd::prelude::*;

use crate::block::{
    self, AccessList, AccessListItem, EIP1559SignedTransaction, EIP2930SignedTransaction,
    LegacySignedTransaction, SignedTransaction, TransactionKind,
};
use crate::primitives::{Address, B256, U256};

verus! {

/// A transaction as a JSON-RPC node reports it.
#[derive(Clone, Debug, PartialEq, Eq)]
pub struct Transaction {
    /// The transaction's hash
    pub hash: B256,
    pub nonce: u64,
    pub block_hash: Option<B256>,
    pub block_number: Option<U256>,
    pub transaction_index: Option<u64>,
    pub from: Address,
    pub to: Option<Address>,
    pub value: U256,
    pub gas_price: U256,
    pub gas: U256,
    pub input: Vec<u8>,
    pub v: u64,
    pub r: U256,
    pub s: U256,
    pub chain_id: Option<u64>,
    pub transaction_type: u64,
    pub access_list: Option<Vec<AccessListItem>>,
    pub max_fee_per_gas: Option<U256>,
    pub max_priority_fee_per_gas: Option<U256>,
}

/// A log entry as a JSON-RPC node reports it.
#[derive(Clone, Debug, PartialEq, Eq)]
pub struct Log {
    pub address: Address,
    pub topics: Vec<B256>,
    pub data: Vec<u8>,
    pub block_hash: Option<B256>,
    pub block_number: Option<U256>,
    pub transaction_hash: Option<B256>,
    pub transaction_index: Option<u64>,
    pub log_index: Option<U256>,
    pub transaction_log_index: Option<U256>,
    pub log_type: Option<String>,
    pub removed: Option<bool>,
}

/// A transaction receipt as a JSON-RPC node reports it.
#[derive(Clone, Debug, PartialEq, Eq)]
pub struct TransactionReceipt {
    pub block_hash: Option<B256>,
    pub block_number: Option<U256>,
    pub contract_address: Option<Address>,
    pub cumulative_gas_used: U256,
    pub effective_gas_price: Option<U256>,
    pub from: Address,
    pub gas_used: Option<U256>,
    pub logs: Vec<Log>,
    pub logs_bloom: Vec<u8>,
    pub root: Option<B256>,
    pub status: Option<u64>,
    pub to: Option<Address>,
    pub transaction_hash: B256,
    pub transaction_index: u64,
    pub transaction_type: Option<u64>,
}

/// A validator withdrawal carried by a block.
#[derive(Clone, Copy, Debug, PartialEq, Eq, Structural)]
pub struct Withdrawal {
    pub index: u64,
    pub validator_index: u64,
    pub address: Address,
    pub amount: U256,
}

/// A block as a JSON-RPC node reports it, with transactions of shape `TX`.
#[derive(Clone, Debug, PartialEq, Eq)]
pub struct Block<TX> {
    pub hash: Option<B256>,
    pub parent_hash: B256,
    pub sha3_uncles: B256,
    pub state_root: B256,
    pub transactions_root: B256,
    pub receipts_root: B256,
    pub number: U256,
    pub gas_used: U256,
    pub gas_limit: U256,
    pub extra_data: Vec<u8>,
    pub logs_bloom: Vec<u8>,
    pub timestamp: U256,
    pub difficulty: U256,
    pub total_difficulty: Option<U256>,
    pub uncles: Vec<B256>,
    pub transactions: Vec<TX>,
    pub size: U256,
    pub mix_hash: B256,
    pub nonce: Option<u64>,
    pub base_fee_per_gas: Option<U256>,
    pub miner: Option<Address>,
    pub withdrawals: Vec<Withdrawal>,
    pub withdrawals_root: Option<B256>,
}

/// Why a JSON-RPC transaction has no signed-transaction form.
#[derive(Clone, Copy, Debug, PartialEq, Eq, Structural)]
pub enum TransactionConversionError {
    /// Missing access list
    MissingAccessList,
    /// Missing chain ID
    MissingChainId,
    /// Missing max fee per gas
    MissingMaxFeePerGas,
    /// Missing max priority fee per gas
    MissingMaxPriorityFeePerGas,
    /// The transaction type is not supported.
    UnsupportedType(u64),
}

/// Why a JSON-RPC block has no block form.
#[derive(Clone, Copy, Debug, PartialEq, Eq, Structural)]
pub enum BlockConversionError {
    /// Missing miner
    MissingMiner,
    /// Missing nonce
    MissingNonce,
    /// Transaction conversion error
    TransactionConversionError(TransactionConversionError),
}

/// The gas field fits the 64-bit gas limit it is narrowed to.
pub open spec fn gas_fits(value: Transaction) -> bool {
    value.gas.value() <= u64::MAX
}

pub open spec fn kind_of(to: Option<Address>) -> TransactionKind {
    match to {
        Some(a) => TransactionKind::Call(a),
        None => TransactionKind::Create,
    }
}

/// The signed transaction a JSON-RPC transaction denotes: its envelope is
/// chosen by `transaction_type`, and each typed envelope needs its fields.
pub open spec fn converted_transaction(value: Transaction) -> Result<
    SignedTransaction,
    TransactionConversionError,
> {
    let kind = kind_of(value.to);
    let gas_limit = value.gas.lo as u64;
    if value.transaction_type == 0 {
        Ok(
            SignedTransaction::Legacy(
                LegacySignedTransaction {
                    nonce: value.nonce,
                    gas_price: value.gas_price,
                    gas_limit,
                    kind,
                    value: value.value,
                    input: value.input,
                    signature: block::Signature { r: value.r, s: value.s, v: value.v },
                },
            ),
        )
    } else if value.transaction_type == 1 {
        if value.chain_id is None {
            Err(TransactionConversionError::MissingChainId)
        } else if value.access_list is None {
            Err(TransactionConversionError::MissingAccessList)
        } else {
            Ok(
                SignedTransaction::EIP2930(
                    EIP2930SignedTransaction {
                        chain_id: value.chain_id->Some_0,
                        nonce: value.nonce,
                        gas_price: value.gas_price,
                        gas_limit,
                        kind,
                        value: value.value,
                        input: value.input,
                        access_list: AccessList { items: value.access_list->Some_0 },
                        odd_y_parity: value.v != 0,
                        r: B256::of_u256(value.r),
                        s: B256::of_u256(value.s),
                    },
                ),
            )
        }
    } else if value.transaction_type == 2 {
        if value.chain_id is None {
            Err(TransactionConversionError::MissingChainId)
        } else if value.max_priority_fee_per_gas is None {
            Err(TransactionConversionError::MissingMaxPriorityFeePerGas)
        } else if value.max_fee_per_gas is None {
            Err(TransactionConversionError::MissingMaxFeePerGas)
        } else if value.access_list is None {
            Err(TransactionConversionError::MissingAccessList)
        } else {
            Ok(
                SignedTransaction::EIP1559(
                    EIP1559SignedTransaction {
                        chain_id: value.chain_id->Some_0,
                        nonce: value.nonce,
                        max_priority_fee_per_gas: value.max_priority_fee_per_gas->Some_0,
                        max_fee_per_gas: value.max_fee_per_gas->Some_0,
                        gas_limit,
                        kind,
                        value: value.value,
                        input: value.input,
                        access_list: AccessList { items: value.access_list->Some_0 },
                        odd_y_parity: value.v != 0,
                        r: B256::of_u256(value.r),
                        s: B256::of_u256(value.s),
                    },
                ),
            )
        }
    } else {
        Err(TransactionConversionError::UnsupportedType(value.transaction_type))
    }
}

/// The transactions a sequence of JSON-RPC transactions denotes, in order, or
/// the error of the first one that has none.
pub open spec fn converted_transactions(txs: Seq<Transaction>) -> Result<
    Seq<SignedTransaction>,
    TransactionConversionError,
>
    decreases txs.len(),
{
    if txs.len() == 0 {
        Ok(Seq::empty())
    } else {
        match converted_transaction(txs[0]) {
            Err(e) => Err(e),
            Ok(t) => match converted_transactions(txs.drop_first()) {
                Ok(rest) => Ok(seq![t] + rest),
                Err(e) => Err(e),
            },
        }
    }
}

/// The header a JSON-RPC block carries, given its miner and nonce.
pub open spec fn converted_header(value: Block<Transaction>, miner: Address, nonce: u64) -> block::Header {
    block::Header {
        parent_hash: value.parent_hash,
        ommers_hash: value.sha3_uncles,
        beneficiary: miner,
        state_root: value.state_root,
        transactions_root: value.transactions_root,
        receipts_root: value.receipts_root,
        logs_bloom: value.logs_bloom,
        difficulty: value.difficulty,
        number: value.number,
        gas_limit: value.gas_limit,
        gas_used: value.gas_used,
        timestamp: value.timestamp,
        extra_data: value.extra_data,
        mix_hash: value.mix_hash,
        nonce,
        base_fee_per_gas: value.base_fee_per_gas,
        withdrawals_root: value.withdrawals_root,
    }
}

/// The conversion of `value` reaches the step that narrows its gas to 64
/// bits: every field that its type checks before that step is present.
pub open spec fn narrows_gas(value: Transaction) -> bool {
    if value.transaction_type == 0 {
        true
    } else if value.transaction_type == 1 {
        value.chain_id is Some
    } else if value.transaction_type == 2 {
        value.chain_id is Some && value.max_priority_fee_per_gas is Some
            && value.max_fee_per_gas is Some
    } else {
        false
    }
}

/// Where the conversion of `value` narrows its gas, the gas fits.
pub open spec fn gas_narrowable(value: Transaction) -> bool {
    narrows_gas(value) ==> gas_fits(value)
}

/// Converting the transactions in order, up to the first that fails, never
/// narrows a gas that does not fit.
pub open spec fn transactions_gas_narrowable(txs: Seq<Transaction>) -> bool
    decreases txs.len(),
{
    txs.len() == 0 || (gas_narrowable(txs[0]) && (converted_transaction(txs[0]) is Ok
        ==> transactions_gas_narrowable(txs.drop_first())))
}

/// Converting the block never narrows a gas that does not fit: its
/// transactions are reached only where it names its miner and nonce.
pub open spec fn block_gas_fits(value: Block<Transaction>) -> bool {
    value.miner is Some && value.nonce is Some ==> transactions_gas_narrowable(
        value.transactions@,
    )
}

/// Every transaction in `txs` has a gas that fits 64 bits.
pub open spec fn every_gas_fits(txs: Seq<Transaction>) -> bool {
    forall|i: int| 0 <= i < txs.len() ==> gas_fits(#[trigger] txs[i])
}

/// Where every gas fits, no conversion narrows one that does not.
pub proof fn lemma_every_gas_fits(txs: Seq<Transaction>)
    requires
        every_gas_fits(txs),
    ensures
        transactions_gas_narrowable(txs),
    decreases txs.len(),
{
    if txs.len() > 0 {
        assert(gas_fits(txs[0]));
        let rest = txs.drop_first();
        assert forall|i: int| 0 <= i < rest.len() implies gas_fits(#[trigger] rest[i]) by {
            assert(rest[i] == txs[i + 1]);
        }
        lemma_every_gas_fits(rest);
    }
}

/// The block a JSON-RPC block denotes: `Ok` exactly where it names its miner
/// and nonce and every transaction converts; otherwise the first error met.
pub open spec fn block_conversion_ok(value: Block<Transaction>, r: Result<block::Block, BlockConversionError>) -> bool {
    if value.miner is None {
        r == Err::<block::Block, _>(BlockConversionError::MissingMiner)
    } else if value.nonce is None {
        r == Err::<block::Block, _>(BlockConversionError::MissingNonce)
    } else {
        match converted_transactions(value.transactions@) {
            Err(e) => r == Err::<block::Block, _>(BlockConversionError::TransactionConversionError(e)),
            Ok(ts) => r matches Ok(b) && b.header == converted_header(
                value,
                value.miner->Some_0,
                value.nonce->Some_0,
            ) && b.transactions@ == ts && b.ommers@.len() == 0,
        }
    }
}

/// A transaction of type 0, 1 or 2 that carries the fields its type needs
/// always converts; one of any other type fails with `UnsupportedType`.
pub proof fn lemma_conversion_total(value: Transaction)
    ensures
        (value.transaction_type == 0 || (value.transaction_type == 1 && value.chain_id is Some
            && value.access_list is Some) || (value.transaction_type == 2 && value.chain_id is Some
            && value.access_list is Some && value.max_fee_per_gas is Some
            && value.max_priority_fee_per_gas is Some)) ==> converted_transaction(value) is Ok,
        value.transaction_type > 2 ==> converted_transaction(value) == Err::<SignedTransaction, _>(
            TransactionConversionError::UnsupportedType(value.transaction_type),
        ),
{
}

impl SignedTransaction {
    /// Converts a JSON-RPC transaction into the signed transaction it denotes.
    pub fn try_from(value: Transaction) -> (r: Result<SignedTransaction, TransactionConversionError>)
        requires
            gas_narrowable(value),
        ensures
            r == converted_transaction(value),
    {
        let kind = match value.to {
            Some(to) => TransactionKind::Call(to),
            None => TransactionKind::Create,
        };
        let gas_limit: u64 = value.gas.lo as u64;
        match value.transaction_type {
            0 => Ok(
                SignedTransaction::Legacy(
                    LegacySignedTransaction {
                        nonce: value.nonce,
                        gas_price: value.gas_price,
                        gas_limit,
                        kind,
                        value: value.value,
                        input: value.input,
                        signature: block::Signature { r: value.r, s: value.s, v: value.v },
                    },
                ),
            ),
            1 => {
                let chain_id = match value.chain_id {
                    Some(c) => c,
                    None => return Err(TransactionConversionError::MissingChainId),
                };
                let access_list = match value.access_list {
                    Some(a) => a,
                    None => return Err(TransactionConversionError::MissingAccessList),
                };
                Ok(
                    SignedTransaction::EIP2930(
                        EIP2930SignedTransaction {
                            chain_id,
                            nonce: value.nonce,
                            gas_price: value.gas_price,
                            gas_limit,
                            kind,
                            value: value.value,
                            input: value.input,
                            access_list: AccessList { items: access_list },
                            odd_y_parity: value.v != 0,
                            r: B256::from_u256(value.r),
                            s: B256::from_u256(value.s),
                        },
                    ),
                )
            },
            2 => {
                let chain_id = match value.chain_id {
                    Some(c) => c,
                    None => return Err(TransactionConversionError::MissingChainId),
                };
                let max_priority_fee_per_gas = match value.max_priority_fee_per_gas {
                    Some(f) => f,
                    None => return Err(TransactionConversionError::MissingMaxPriorityFeePerGas),
                };
                let max_fee_per_gas = match value.max_fee_per_gas {
                    Some(f) => f,
                    None => return Err(TransactionConversionError::MissingMaxFeePerGas),
                };
                let access_list = match value.access_list {
                    Some(a) => a,
                    None => return Err(TransactionConversionError::MissingAccessList),
                };
                Ok(
                    SignedTransaction::EIP1559(
                        EIP1559SignedTransaction {
                            chain_id,
                            nonce: value.nonce,
                            max_priority_fee_per_gas,
                            max_fee_per_gas,
                            gas_limit,
                            kind,
                            value: value.value,
                            input: value.input,
                            access_list: AccessList { items: access_list },
                            odd_y_parity: value.v != 0,
                            r: B256::from_u256(value.r),
                            s: B256::from_u256(value.s),
                        },
                    ),
                )
            },
            other => Err(TransactionConversionError::UnsupportedType(other)),
        }
    }
}

impl block::Block {
    /// Converts a JSON-RPC block into the block it denotes. Its uncles are not
    /// carried over: the block has no ommers.
    pub fn try_from(value: Block<Transaction>) -> (r: Result<block::Block, BlockConversionError>)
        requires
            block_gas_fits(value),
        ensures
            block_conversion_ok(value, r),
    {
        let ghost orig = value;
        let beneficiary = match value.miner {
            Some(m) => m,
            None => return Err(BlockConversionError::MissingMiner),
        };
        let nonce = match value.nonce {
            Some(n) => n,
            None => return Err(BlockConversionError::MissingNonce),
        };
        let header = block::Header {
            parent_hash: value.parent_hash,
            ommers_hash: value.sha3_uncles,
            beneficiary,
            state_root: value.state_root,
            transactions_root: value.transactions_root,
            receipts_root: value.receipts_root,
            logs_bloom: value.logs_bloom,
            difficulty: value.difficulty,
            number: value.number,
            gas_limit: value.gas_limit,
            gas_used: value.gas_used,
            timestamp: value.timestamp,
            extra_data: value.extra_data,
            mix_hash: value.mix_hash,
            nonce,
            base_fee_per_gas: value.base_fee_per_gas,
            withdrawals_root: value.withdrawals_root,
        };
        assert(header == converted_header(orig, beneficiary, nonce));
        let mut remaining = value.transactions;
        let mut transactions: Vec<SignedTransaction> = Vec::new();
        while remaining.len() > 0
            invariant
                value == orig,
                orig.miner == Some(beneficiary),
                orig.nonce == Some(nonce),
                header == converted_header(orig, beneficiary, nonce),
                transactions_gas_narrowable(remaining@),
                converted_transactions(orig.transactions@) == match converted_transactions(
                    remaining@,
                ) {
                    Ok(rest) => Ok(transactions@ + rest),
                    Err(e) => Err::<Seq<SignedTransaction>, _>(e),
                },
            decreases remaining@.len(),
        {
            let ghost before = remaining@;
            let tx = remaining.remove(0);
            assert(remaining@ == before.drop_first());
            assert(gas_narrowable(before[0]));
            match SignedTransaction::try_from(tx) {
                Ok(t) => {
                    let ghost prev = transactions@;
                    transactions.push(t);
                    proof {
                        if let Ok(rest) = converted_transactions(remaining@) {
                            assert(prev + (seq![t] + rest) =~= transactions@ + rest);
                        }
                    }
                },
                Err(e) => {
                    assert(converted_transactions(before) == Err::<Seq<SignedTransaction>, _>(e));
                    return Err(BlockConversionError::TransactionConversionError(e));
                },
            }
        }
        assert(transactions@ + Seq::<SignedTransaction>::empty() =~= transactions@);
        Ok(block::Block { header, transactions, ommers: Vec::new() })
    }
}

} // verus!
