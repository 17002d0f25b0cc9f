//! What a node answers when it is asked for a receipt, a transaction, a
//! header or a block, whatever the network.
//!
//! Each trait reads one answer field by field. The pass-through wrapper of
//! `alloy_serde`, which keeps the fields of an answer that no type knows
//! beside the answer itself, answers every question as the value it wraps.

use vstd::prelude::*;
use alloy_eips::eip2930::AccessList;
use alloy_eips::eip7702::SignedAuthorization;
use alloy_primitives::{Address, BlockHash, Bytes, ChainId, TxHash, B256, U256};
use alloy_serde::{OtherFields, WithOtherFields};

verus! {

/// `alloy_primitives::Address`, an address of 20 bytes. The library hands
/// such values on and never looks into one.
#[verifier::external_type_specification]
#[verifier::external_body]
pub struct ExAddress(alloy_primitives::Address);

/// `alloy_primitives::FixedBytes`, a byte array of fixed length; hashes are
/// such arrays. Handed on, never looked into.
#[verifier::external_type_specification]
#[verifier::external_body]
pub struct ExFixedBytes<const N: usize>(alloy_primitives::FixedBytes<N>);

/// `alloy_primitives::Uint`, an unsigned integer of fixed width; `U256` is
/// one. Handed on, never looked into.
#[verifier::external_type_specification]
#[verifier::external_body]
pub struct ExUint<const BITS: usize, const LIMBS: usize>(alloy_primitives::Uint<BITS, LIMBS>);

/// `alloy_primitives::Bytes`, a byte string. Handed on, never looked into.
#[verifier::external_type_specification]
#[verifier::external_body]
pub struct ExBytes(alloy_primitives::Bytes);

/// `alloy_eips::eip2930::AccessList`, the access list of a transaction.
/// Handed on, never looked into.
#[verifier::external_type_specification]
#[verifier::external_body]
pub struct ExAccessList(alloy_eips::eip2930::AccessList);

/// `alloy_eips::eip2930::AccessListItem`, which an access list is made of.
/// Declared because an access list dereferences to a vector of them; the
/// library itself names no such value.
#[verifier::external_type_specification]
#[verifier::external_body]
pub struct ExAccessListItem(alloy_eips::eip2930::AccessListItem);

/// `alloy_eips::eip7702::SignedAuthorization`, a signed authorization.
/// Handed on, never looked into.
#[verifier::external_type_specification]
#[verifier::external_body]
pub struct ExSignedAuthorization(alloy_eips::eip7702::SignedAuthorization);

/// `serde_json::Value`, which the fields that no type knows are kept as.
/// Declared because `OtherFields` dereferences to a map of them; the
/// library itself names no such value.
#[verifier::external_type_specification]
#[verifier::external_body]
pub struct ExValue(serde_json::Value);

/// `alloy_serde::OtherFields`, the fields of an answer that no type knows.
/// Handed on, never looked into.
#[verifier::external_type_specification]
#[verifier::external_body]
pub struct ExOtherFields(alloy_serde::OtherFields);

/// `alloy_serde::WithOtherFields`, a value together with the fields that
/// came with it and that its type does not know. Both of its fields are
/// public, and the library reads them as they are declared: `inner`, the
/// value, and `other`, the fields beside it.
#[verifier::external_type_specification]
#[verifier::reject_recursive_types(T)]
pub struct ExWithOtherFields<T>(alloy_serde::WithOtherFields<T>);

/// The view of a slice that may be missing.
pub open spec fn slice_view<T>(r: Option<&[T]>) -> Option<Seq<T>> {
    match r {
        Some(s) => Some(s@),
        None => None,
    }
}

/// The view of a vector that may be missing.
pub open spec fn vec_view<T>(r: Option<Vec<T>>) -> Option<Seq<T>> {
    match r {
        Some(v) => Some(v@),
        None => None,
    }
}

/// What a receipt answers, field by field.
pub struct ReceiptFields {
    pub contract_address: Option<Address>,
    pub status: bool,
    pub block_hash: Option<BlockHash>,
    pub block_number: Option<u64>,
    pub transaction_hash: TxHash,
    pub transaction_index: Option<u64>,
    pub gas_used: u128,
    pub effective_gas_price: u128,
    pub blob_gas_used: Option<u128>,
    pub blob_gas_price: Option<u128>,
    pub from: Address,
    pub to: Option<Address>,
    pub authorization_list: Option<Seq<SignedAuthorization>>,
    pub cumulative_gas_used: u128,
    pub state_root: Option<B256>,
}

/// The answer to a request for a receipt.
pub trait ReceiptResponse {
    /// What the receipt answers, field by field: each method returns its field
    /// of this record. Unless a type says what its record is, nothing is known
    /// of it.
    open spec fn receipt(&self) -> ReceiptFields {
        arbitrary()
    }

    /// Address of the created contract, or `None` if the transaction was not a deployment.
    fn contract_address(&self) -> (r: Option<Address>)
        ensures
            r == self.receipt().contract_address,
    ;

    /// Status of the transaction.
    ///
    /// For receipts from before the status was part of a receipt, this may not
    /// reflect what became of the transaction.
    fn status(&self) -> (r: bool)
        ensures
            r == self.receipt().status,
    ;

    /// Hash of the block this transaction was included within.
    fn block_hash(&self) -> (r: Option<BlockHash>)
        ensures
            r == self.receipt().block_hash,
    ;

    /// Number of the block this transaction was included within.
    fn block_number(&self) -> (r: Option<u64>)
        ensures
            r == self.receipt().block_number,
    ;

    /// Transaction hash.
    fn transaction_hash(&self) -> (r: TxHash)
        ensures
            r == self.receipt().transaction_hash,
    ;

    /// Index within the block.
    fn transaction_index(&self) -> (r: Option<u64>)
        ensures
            r == self.receipt().transaction_index,
    ;

    /// Gas used by this transaction alone.
    fn gas_used(&self) -> (r: u128)
        ensures
            r == self.receipt().gas_used,
    ;

    /// Effective gas price.
    fn effective_gas_price(&self) -> (r: u128)
        ensures
            r == self.receipt().effective_gas_price,
    ;

    /// Blob gas used by the transaction, where it carries blobs.
    fn blob_gas_used(&self) -> (r: Option<u128>)
        ensures
            r == self.receipt().blob_gas_used,
    ;

    /// Blob gas price paid by the transaction, where it carries blobs.
    fn blob_gas_price(&self) -> (r: Option<u128>)
        ensures
            r == self.receipt().blob_gas_price,
    ;

    /// Address of the sender.
    fn from(&self) -> (r: Address)
        ensures
            r == self.receipt().from,
    ;

    /// Address of the receiver.
    fn to(&self) -> (r: Option<Address>)
        ensures
            r == self.receipt().to,
    ;

    /// The signed authorizations of the transaction.
    fn authorization_list(&self) -> (r: Option<&[SignedAuthorization]>)
        ensures
            slice_view(r) == self.receipt().authorization_list,
    ;

    /// The cumulative gas used at this receipt.
    fn cumulative_gas_used(&self) -> (r: u128)
        ensures
            r == self.receipt().cumulative_gas_used,
    ;

    /// The state root after the transaction, where the receipt carries one.
    fn state_root(&self) -> (r: Option<B256>)
        ensures
            r == self.receipt().state_root,
    ;
}

/// What a transaction answers, field by field; `S` is the type of its
/// signature.
pub struct TransactionFields<S> {
    pub tx_hash: TxHash,
    pub nonce: u64,
    pub block_hash: Option<BlockHash>,
    pub block_number: Option<u64>,
    pub transaction_index: Option<u64>,
    pub from: Address,
    pub to: Option<Address>,
    pub value: U256,
    pub gas_price: Option<u128>,
    pub gas: u64,
    pub max_fee_per_gas: Option<u128>,
    pub max_priority_fee_per_gas: Option<u128>,
    pub max_fee_per_blob_gas: Option<u128>,
    pub input: Bytes,
    pub signature: Option<S>,
    pub chain_id: Option<ChainId>,
    pub blob_versioned_hashes: Option<Seq<B256>>,
    pub access_list: Option<AccessList>,
    pub transaction_type: Option<u8>,
    pub authorization_list: Option<Seq<SignedAuthorization>>,
}

/// The answer to a request for a transaction.
pub trait TransactionResponse {
    /// Signature type of the transaction.
    type Signature;

    /// What the transaction answers, field by field: each method returns its
    /// field of this record. Unless a type says what its record is, nothing is
    /// known of it.
    open spec fn transaction(&self) -> TransactionFields<Self::Signature> {
        arbitrary()
    }

    /// Hash of the transaction.
    fn tx_hash(&self) -> (r: TxHash)
        ensures
            r == self.transaction().tx_hash,
    ;

    /// Nonce.
    fn nonce(&self) -> (r: u64)
        ensures
            r == self.transaction().nonce,
    ;

    /// Block hash.
    fn block_hash(&self) -> (r: Option<BlockHash>)
        ensures
            r == self.transaction().block_hash,
    ;

    /// Block number.
    fn block_number(&self) -> (r: Option<u64>)
        ensures
            r == self.transaction().block_number,
    ;

    /// Transaction index.
    fn transaction_index(&self) -> (r: Option<u64>)
        ensures
            r == self.transaction().transaction_index,
    ;

    /// Sender of the transaction.
    fn from(&self) -> (r: Address)
        ensures
            r == self.transaction().from,
    ;

    /// Recipient of the transaction.
    fn to(&self) -> (r: Option<Address>)
        ensures
            r == self.transaction().to,
    ;

    /// Transferred value.
    fn value(&self) -> (r: U256)
        ensures
            r == self.transaction().value,
    ;

    /// Gas price.
    fn gas_price(&self) -> (r: Option<u128>)
        ensures
            r == self.transaction().gas_price,
    ;

    /// Gas limit.
    fn gas(&self) -> (r: u64)
        ensures
            r == self.transaction().gas,
    ;

    /// The largest base fee per gas that the sender is willing to pay.
    fn max_fee_per_gas(&self) -> (r: Option<u128>)
        ensures
            r == self.transaction().max_fee_per_gas,
    ;

    /// The tip for the block's producer.
    fn max_priority_fee_per_gas(&self) -> (r: Option<u128>)
        ensures
            r == self.transaction().max_priority_fee_per_gas,
    ;

    /// The largest fee per blob gas that the sender is willing to pay.
    fn max_fee_per_blob_gas(&self) -> (r: Option<u128>)
        ensures
            r == self.transaction().max_fee_per_blob_gas,
    ;

    /// Input data.
    fn input(&self) -> (r: &Bytes)
        ensures
            *r == self.transaction().input,
    ;

    /// Transaction signature.
    fn signature(&self) -> (r: Option<Self::Signature>)
        ensures
            r == self.transaction().signature,
    ;

    /// The chain id of the transaction.
    fn chain_id(&self) -> (r: Option<ChainId>)
        ensures
            r == self.transaction().chain_id,
    ;

    /// The hashes of the blobs that the transaction carries.
    fn blob_versioned_hashes(&self) -> (r: Option<Vec<B256>>)
        ensures
            vec_view(r) == self.transaction().blob_versioned_hashes,
    ;

    /// The access list of the transaction.
    fn access_list(&self) -> (r: Option<AccessList>)
        ensures
            r == self.transaction().access_list,
    ;

    /// Transaction type.
    fn transaction_type(&self) -> (r: Option<u8>)
        ensures
            r == self.transaction().transaction_type,
    ;

    /// The signed authorizations of the transaction.
    fn authorization_list(&self) -> (r: Option<Vec<SignedAuthorization>>)
        ensures
            vec_view(r) == self.transaction().authorization_list,
    ;
}

/// What a header answers, field by field.
pub struct HeaderFields {
    pub hash: BlockHash,
    pub number: u64,
    pub timestamp: u64,
    pub extra_data: Bytes,
    pub base_fee_per_gas: Option<u64>,
    pub next_block_blob_fee: Option<u128>,
    pub coinbase: Address,
    pub gas_limit: u64,
    pub mix_hash: Option<B256>,
    pub difficulty: U256,
}

/// The answer to a request for a header.
pub trait HeaderResponse {
    /// What the header answers, field by field: each method returns its field
    /// of this record. Unless a type says what its record is, nothing is known
    /// of it.
    open spec fn header_fields(&self) -> HeaderFields {
        arbitrary()
    }

    /// Block hash.
    fn hash(&self) -> (r: BlockHash)
        ensures
            r == self.header_fields().hash,
    ;

    /// Block number.
    fn number(&self) -> (r: u64)
        ensures
            r == self.header_fields().number,
    ;

    /// Block timestamp.
    fn timestamp(&self) -> (r: u64)
        ensures
            r == self.header_fields().timestamp,
    ;

    /// Extra data.
    fn extra_data(&self) -> (r: &Bytes)
        ensures
            *r == self.header_fields().extra_data,
    ;

    /// Base fee per unit of gas, where the block has one.
    fn base_fee_per_gas(&self) -> (r: Option<u64>)
        ensures
            r == self.header_fields().base_fee_per_gas,
    ;

    /// Blob fee for the next block, where blocks carry blobs.
    fn next_block_blob_fee(&self) -> (r: Option<u128>)
        ensures
            r == self.header_fields().next_block_blob_fee,
    ;

    /// The address that the rewards of the block go to.
    fn coinbase(&self) -> (r: Address)
        ensures
            r == self.header_fields().coinbase,
    ;

    /// Gas limit of the block.
    fn gas_limit(&self) -> (r: u64)
        ensures
            r == self.header_fields().gas_limit,
    ;

    /// Mix hash of the block.
    ///
    /// It is optional because not every network sets it.
    fn mix_hash(&self) -> (r: Option<B256>)
        ensures
            r == self.header_fields().mix_hash,
    ;

    /// Difficulty of the block.
    fn difficulty(&self) -> (r: U256)
        ensures
            r == self.header_fields().difficulty,
    ;
}

/// The transactions of a block, as a node hands them out.
#[derive(Clone, Debug, PartialEq, Eq)]
pub enum BlockTransactions<T> {
    /// The transactions in full.
    Full(Vec<T>),
    /// The hashes of the transactions only.
    Hashes(Vec<B256>),
    /// No transactions: the block is an uncle.
    Uncle,
}

/// The fields that came with an answer, where there are any.
pub open spec fn fields_of(r: Option<&OtherFields>) -> Option<OtherFields> {
    match r {
        Some(f) => Some(*f),
        None => None,
    }
}

/// The answer to a request for a block.
pub trait BlockResponse {
    /// Header type.
    type Header: HeaderResponse;

    /// Transaction type.
    type Transaction: TransactionResponse;

    /// The header of the block. Unless a type says what it is, nothing is
    /// known of it.
    open spec fn block_header(&self) -> Self::Header {
        arbitrary()
    }

    /// The transactions of the block. Unless a type says what they are,
    /// nothing is known of them.
    open spec fn block_transactions(&self) -> BlockTransactions<Self::Transaction> {
        arbitrary()
    }

    /// The fields that came with the block and that its type does not know,
    /// where it keeps any. A block keeps none unless its type says otherwise.
    open spec fn block_other_fields(&self) -> Option<OtherFields> {
        None
    }

    /// Block header.
    fn header(&self) -> (r: &Self::Header)
        ensures
            *r == self.block_header(),
    ;

    /// Block transactions.
    fn transactions(&self) -> (r: &BlockTransactions<Self::Transaction>)
        ensures
            *r == self.block_transactions(),
    ;

    /// Mutable reference to block transactions. What is written through it
    /// becomes the transactions of the block, and nothing else changes.
    fn transactions_mut(&mut self) -> (r: &mut BlockTransactions<Self::Transaction>)
        ensures
            *r == old(self).block_transactions(),
            final(self).block_transactions() == *final(r),
            final(self).block_header() == old(self).block_header(),
            final(self).block_other_fields() == old(self).block_other_fields(),
    ;

    /// The fields that came with the block and that its type does not know:
    /// `None` for a type that keeps none.
    fn other_fields(&self) -> (r: Option<&OtherFields>)
        ensures
            fields_of(r) == self.block_other_fields(),
    ;
}

impl<T: TransactionResponse> TransactionResponse for WithOtherFields<T> {
    type Signature = T::Signature;

    open spec fn transaction(&self) -> TransactionFields<T::Signature> {
        self.inner.transaction()
    }

    fn tx_hash(&self) -> (r: TxHash) {
        self.inner.tx_hash()
    }

    fn nonce(&self) -> (r: u64) {
        self.inner.nonce()
    }

    fn block_hash(&self) -> (r: Option<BlockHash>) {
        self.inner.block_hash()
    }

    fn block_number(&self) -> (r: Option<u64>) {
        self.inner.block_number()
    }

    fn transaction_index(&self) -> (r: Option<u64>) {
        self.inner.transaction_index()
    }

    fn from(&self) -> (r: Address) {
        self.inner.from()
    }

    fn to(&self) -> (r: Option<Address>) {
        self.inner.to()
    }

    fn value(&self) -> (r: U256) {
        self.inner.value()
    }

    fn gas_price(&self) -> (r: Option<u128>) {
        self.inner.gas_price()
    }

    fn gas(&self) -> (r: u64) {
        self.inner.gas()
    }

    fn max_fee_per_gas(&self) -> (r: Option<u128>) {
        self.inner.max_fee_per_gas()
    }

    fn max_priority_fee_per_gas(&self) -> (r: Option<u128>) {
        self.inner.max_priority_fee_per_gas()
    }

    fn max_fee_per_blob_gas(&self) -> (r: Option<u128>) {
        self.inner.max_fee_per_blob_gas()
    }

    fn input(&self) -> (r: &Bytes) {
        self.inner.input()
    }

    fn signature(&self) -> (r: Option<T::Signature>) {
        self.inner.signature()
    }

    fn chain_id(&self) -> (r: Option<ChainId>) {
        self.inner.chain_id()
    }

    fn blob_versioned_hashes(&self) -> (r: Option<Vec<B256>>) {
        self.inner.blob_versioned_hashes()
    }

    fn access_list(&self) -> (r: Option<AccessList>) {
        self.inner.access_list()
    }

    fn transaction_type(&self) -> (r: Option<u8>) {
        self.inner.transaction_type()
    }

    fn authorization_list(&self) -> (r: Option<Vec<SignedAuthorization>>) {
        self.inner.authorization_list()
    }
}

impl<T: ReceiptResponse> ReceiptResponse for WithOtherFields<T> {
    open spec fn receipt(&self) -> ReceiptFields {
        self.inner.receipt()
    }

    fn contract_address(&self) -> (r: Option<Address>) {
        self.inner.contract_address()
    }

    fn status(&self) -> (r: bool) {
        self.inner.status()
    }

    fn block_hash(&self) -> (r: Option<BlockHash>) {
        self.inner.block_hash()
    }

    fn block_number(&self) -> (r: Option<u64>) {
        self.inner.block_number()
    }

    fn transaction_hash(&self) -> (r: TxHash) {
        self.inner.transaction_hash()
    }

    fn transaction_index(&self) -> (r: Option<u64>) {
        self.inner.transaction_index()
    }

    fn gas_used(&self) -> (r: u128) {
        self.inner.gas_used()
    }

    fn effective_gas_price(&self) -> (r: u128) {
        self.inner.effective_gas_price()
    }

    fn blob_gas_used(&self) -> (r: Option<u128>) {
        self.inner.blob_gas_used()
    }

    fn blob_gas_price(&self) -> (r: Option<u128>) {
        self.inner.blob_gas_price()
    }

    fn from(&self) -> (r: Address) {
        self.inner.from()
    }

    fn to(&self) -> (r: Option<Address>) {
        self.inner.to()
    }

    fn authorization_list(&self) -> (r: Option<&[SignedAuthorization]>) {
        self.inner.authorization_list()
    }

    fn cumulative_gas_used(&self) -> (r: u128) {
        self.inner.cumulative_gas_used()
    }

    fn state_root(&self) -> (r: Option<B256>) {
        self.inner.state_root()
    }
}

impl<T: BlockResponse> BlockResponse for WithOtherFields<T> {
    type Header = T::Header;

    type Transaction = T::Transaction;

    open spec fn block_header(&self) -> T::Header {
        self.inner.block_header()
    }

    open spec fn block_transactions(&self) -> BlockTransactions<T::Transaction> {
        self.inner.block_transactions()
    }

    /// The wrapper answers with the fields that it keeps beside the block.
    open spec fn block_other_fields(&self) -> Option<OtherFields> {
        Some(self.other)
    }

    fn header(&self) -> (r: &T::Header) {
        self.inner.header()
    }

    fn transactions(&self) -> (r: &BlockTransactions<T::Transaction>) {
        self.inner.transactions()
    }

    fn transactions_mut(&mut self) -> (r: &mut BlockTransactions<T::Transaction>) {
        self.inner.transactions_mut()
    }

    fn other_fields(&self) -> (r: Option<&OtherFields>) {
        Some(&self.other)
    }
}

impl<T: HeaderResponse> HeaderResponse for WithOtherFields<T> {
    open spec fn header_fields(&self) -> HeaderFields {
        self.inner.header_fields()
    }

    fn hash(&self) -> (r: BlockHash) {
        self.inner.hash()
    }

    fn number(&self) -> (r: u64) {
        self.inner.number()
    }

    fn timestamp(&self) -> (r: u64) {
        self.inner.timestamp()
    }

    fn extra_data(&self) -> (r: &Bytes) {
        self.inner.extra_data()
    }

    fn base_fee_per_gas(&self) -> (r: Option<u64>) {
        self.inner.base_fee_per_gas()
    }

    fn next_block_blob_fee(&self) -> (r: Option<u128>) {
        self.inner.next_block_blob_fee()
    }

    fn coinbase(&self) -> (r: Address) {
        self.inner.coinbase()
    }

    fn gas_limit(&self) -> (r: u64) {
        self.inner.gas_limit()
    }

    fn mix_hash(&self) -> (r: Option<B256>) {
        self.inner.mix_hash()
    }

    fn difficulty(&self) -> (r: U256) {
        self.inner.difficulty()
    }
}

} // verus!
