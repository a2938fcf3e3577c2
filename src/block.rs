use vstd::prelude::*;

use crate::primitives::{Address, B256, U256};

verus! {

/// Whether a transaction calls an account or creates a contract.
#[derive(Clone, Copy, Debug, PartialEq, Eq, Structural)]
pub enum TransactionKind {
    Call(Address),
    Create,
}

/// An ECDSA signature in the shape that legacy transactions carry.
#[derive(Clone, Copy, Debug, PartialEq, Eq, Structural)]
pub struct Signature {
    pub r: U256,
    pub s: U256,
    pub v: u64,
}

/// One entry of an access list: an account and the storage keys it touches.
#[derive(Clone, Debug, PartialEq, Eq)]
pub struct AccessListItem {
    pub address: Address,
    pub storage_keys: Vec<B256>,
}

/// The accounts and storage keys a typed transaction declares up front.
#[derive(Clone, Debug, PartialEq, Eq)]
pub struct AccessList {
    pub items: Vec<AccessListItem>,
}

#[derive(Clone, Debug, PartialEq, Eq)]
pub struct LegacySignedTransaction {
    pub nonce: u64,
    pub gas_price: U256,
    pub gas_limit: u64,
    pub kind: TransactionKind,
    pub value: U256,
    pub input: Vec<u8>,
    pub signature: Signature,
}

#[derive(Clone, Debug, PartialEq, Eq)]
pub struct EIP2930SignedTransaction {
    pub chain_id: u64,
    pub nonce: u64,
    pub gas_price: U256,
    pub gas_limit: u64,
    pub kind: TransactionKind,
    pub value: U256,
    pub input: Vec<u8>,
    pub access_list: AccessList,
    pub odd_y_parity: bool,
    pub r: B256,
    pub s: B256,
}

#[derive(Clone, Debug, PartialEq, Eq)]
pub struct EIP1559SignedTransaction {
    pub chain_id: u64,
    pub nonce: u64,
    pub max_priority_fee_per_gas: U256,
    pub max_fee_per_gas: U256,
    pub gas_limit: u64,
    pub kind: TransactionKind,
    pub value: U256,
    pub input: Vec<u8>,
    pub access_list: AccessList,
    pub odd_y_parity: bool,
    pub r: B256,
    pub s: B256,
}

/// A signed transaction in one of the three envelopes.
#[derive(Clone, Debug, PartialEq, Eq)]
pub enum SignedTransaction {
    Legacy(LegacySignedTransaction),
    EIP2930(EIP2930SignedTransaction),
    EIP1559(EIP1559SignedTransaction),
}

/// A block header.
#[derive(Clone, Debug, PartialEq, Eq)]
pub struct Header {
    pub parent_hash: B256,
    pub ommers_hash: B256,
    pub beneficiary: Address,
    pub state_root: B256,
    pub transactions_root: B256,
    pub receipts_root: B256,
    pub logs_bloom: Vec<u8>,
    pub difficulty: U256,
    pub number: U256,
    pub gas_limit: U256,
    pub gas_used: U256,
    pub timestamp: U256,
    pub extra_data: Vec<u8>,
    pub mix_hash: B256,
    pub nonce: u64,
    pub base_fee_per_gas: Option<U256>,
    pub withdrawals_root: Option<B256>,
}

/// A block: its header, its transactions in order, and its ommers' headers.
#[derive(Clone, Debug, PartialEq, Eq)]
pub struct Block {
    pub header: Header,
    pub transactions: Vec<SignedTransaction>,
    pub ommers: Vec<Header>,
}

} // verus!
