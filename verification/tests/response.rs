use alloy_eips::eip2930::{AccessList, AccessListItem};
use alloy_eips::eip7702::SignedAuthorization;
use alloy_primitives::{Address, BlockHash, Bytes, ChainId, TxHash, B256, U256};
use alloy_serde::{OtherFields, WithOtherFields};
use block_codec::response::{
    BlockResponse, BlockTransactions, HeaderResponse, ReceiptResponse, TransactionResponse,
};
use std::collections::BTreeMap;

#[derive(Clone, Debug, PartialEq)]
struct SampleHeader {
    number: u64,
    extra: Bytes,
}

impl HeaderResponse for SampleHeader {
    fn hash(&self) -> BlockHash {
        B256::repeat_byte(0xaa)
    }
    fn number(&self) -> u64 {
        self.number
    }
    fn timestamp(&self) -> u64 {
        1_700_000_000
    }
    fn extra_data(&self) -> &Bytes {
        &self.extra
    }
    fn base_fee_per_gas(&self) -> Option<u64> {
        Some(7)
    }
    fn next_block_blob_fee(&self) -> Option<u128> {
        None
    }
    fn coinbase(&self) -> Address {
        Address::repeat_byte(0x0c)
    }
    fn gas_limit(&self) -> u64 {
        30_000_000
    }
    fn mix_hash(&self) -> Option<B256> {
        Some(B256::repeat_byte(0x0d))
    }
    fn difficulty(&self) -> U256 {
        U256::from(131072u64)
    }
}

#[derive(Clone, Debug, PartialEq)]
struct SampleTransaction {
    nonce: u64,
    input: Bytes,
}

impl TransactionResponse for SampleTransaction {
    type Signature = (u8, u64);

    fn tx_hash(&self) -> TxHash {
        B256::repeat_byte(0x01)
    }
    fn nonce(&self) -> u64 {
        self.nonce
    }
    fn block_hash(&self) -> Option<BlockHash> {
        Some(B256::repeat_byte(0x02))
    }
    fn block_number(&self) -> Option<u64> {
        Some(17)
    }
    fn transaction_index(&self) -> Option<u64> {
        Some(3)
    }
    fn from(&self) -> Address {
        Address::repeat_byte(0x04)
    }
    fn to(&self) -> Option<Address> {
        None
    }
    fn value(&self) -> U256 {
        U256::from(1_000_000u64)
    }
    fn gas_price(&self) -> Option<u128> {
        Some(5)
    }
    fn gas(&self) -> u64 {
        21000
    }
    fn max_fee_per_gas(&self) -> Option<u128> {
        Some(6)
    }
    fn max_priority_fee_per_gas(&self) -> Option<u128> {
        Some(1)
    }
    fn max_fee_per_blob_gas(&self) -> Option<u128> {
        None
    }
    fn input(&self) -> &Bytes {
        &self.input
    }
    fn signature(&self) -> Option<(u8, u64)> {
        Some((27, 99))
    }
    fn chain_id(&self) -> Option<ChainId> {
        Some(1)
    }
    fn blob_versioned_hashes(&self) -> Option<Vec<B256>> {
        Some(vec![B256::repeat_byte(0x05)])
    }
    fn access_list(&self) -> Option<AccessList> {
        Some(AccessList(vec![AccessListItem {
            address: Address::repeat_byte(0x06),
            storage_keys: vec![B256::repeat_byte(0x07)],
        }]))
    }
    fn transaction_type(&self) -> Option<u8> {
        Some(2)
    }
    fn authorization_list(&self) -> Option<Vec<SignedAuthorization>> {
        None
    }
}

#[derive(Clone, Debug, PartialEq)]
struct SampleReceipt {
    status: bool,
}

impl ReceiptResponse for SampleReceipt {
    fn contract_address(&self) -> Option<Address> {
        Some(Address::repeat_byte(0x10))
    }
    fn status(&self) -> bool {
        self.status
    }
    fn block_hash(&self) -> Option<BlockHash> {
        Some(B256::repeat_byte(0x11))
    }
    fn block_number(&self) -> Option<u64> {
        Some(12)
    }
    fn transaction_hash(&self) -> TxHash {
        B256::repeat_byte(0x13)
    }
    fn transaction_index(&self) -> Option<u64> {
        Some(14)
    }
    fn gas_used(&self) -> u128 {
        15
    }
    fn effective_gas_price(&self) -> u128 {
        16
    }
    fn blob_gas_used(&self) -> Option<u128> {
        Some(17)
    }
    fn blob_gas_price(&self) -> Option<u128> {
        None
    }
    fn from(&self) -> Address {
        Address::repeat_byte(0x19)
    }
    fn to(&self) -> Option<Address> {
        Some(Address::repeat_byte(0x1a))
    }
    fn authorization_list(&self) -> Option<&[SignedAuthorization]> {
        None
    }
    fn cumulative_gas_used(&self) -> u128 {
        28
    }
    fn state_root(&self) -> Option<B256> {
        Some(B256::repeat_byte(0x1d))
    }
}

#[derive(Clone, Debug, PartialEq)]
struct SampleBlock {
    header: SampleHeader,
    transactions: BlockTransactions<SampleTransaction>,
}

impl BlockResponse for SampleBlock {
    type Header = SampleHeader;
    type Transaction = SampleTransaction;

    fn header(&self) -> &SampleHeader {
        &self.header
    }
    fn transactions(&self) -> &BlockTransactions<SampleTransaction> {
        &self.transactions
    }
    fn transactions_mut(&mut self) -> &mut BlockTransactions<SampleTransaction> {
        &mut self.transactions
    }
    fn other_fields(&self) -> Option<&OtherFields> {
        None
    }
}

fn sample_header() -> SampleHeader {
    SampleHeader { number: 42, extra: Bytes::from(vec![1, 2, 3]) }
}

fn sample_transaction() -> SampleTransaction {
    SampleTransaction { nonce: 9, input: Bytes::from(vec![0xde, 0xad]) }
}

fn sample_other() -> OtherFields {
    let mut map = BTreeMap::new();
    map.insert("l1Fee".to_string(), serde_json::Value::from(5u64));
    OtherFields::new(map)
}

#[test]
fn wrapped_header_answers_as_the_header() {
    let inner = sample_header();
    let wrapped = WithOtherFields { inner: inner.clone(), other: sample_other() };
    assert_eq!(wrapped.hash(), inner.hash());
    assert_eq!(wrapped.number(), 42);
    assert_eq!(wrapped.timestamp(), 1_700_000_000);
    assert_eq!(wrapped.extra_data(), &Bytes::from(vec![1, 2, 3]));
    assert_eq!(wrapped.base_fee_per_gas(), Some(7));
    assert_eq!(wrapped.next_block_blob_fee(), None);
    assert_eq!(wrapped.coinbase(), Address::repeat_byte(0x0c));
    assert_eq!(wrapped.gas_limit(), 30_000_000);
    assert_eq!(wrapped.mix_hash(), Some(B256::repeat_byte(0x0d)));
    assert_eq!(wrapped.difficulty(), U256::from(131072u64));
}

#[test]
fn wrapped_transaction_answers_as_the_transaction() {
    let inner = sample_transaction();
    let wrapped = WithOtherFields::new(inner.clone());
    assert_eq!(wrapped.tx_hash(), B256::repeat_byte(0x01));
    assert_eq!(TransactionResponse::nonce(&wrapped), 9);
    assert_eq!(TransactionResponse::block_hash(&wrapped), Some(B256::repeat_byte(0x02)));
    assert_eq!(TransactionResponse::block_number(&wrapped), Some(17));
    assert_eq!(TransactionResponse::transaction_index(&wrapped), Some(3));
    assert_eq!(TransactionResponse::from(&wrapped), Address::repeat_byte(0x04));
    assert_eq!(TransactionResponse::to(&wrapped), None);
    assert_eq!(wrapped.value(), U256::from(1_000_000u64));
    assert_eq!(wrapped.gas_price(), Some(5));
    assert_eq!(wrapped.gas(), 21000);
    assert_eq!(wrapped.max_fee_per_gas(), Some(6));
    assert_eq!(wrapped.max_priority_fee_per_gas(), Some(1));
    assert_eq!(wrapped.max_fee_per_blob_gas(), None);
    assert_eq!(wrapped.input(), &Bytes::from(vec![0xde, 0xad]));
    assert_eq!(wrapped.signature(), Some((27, 99)));
    assert_eq!(wrapped.chain_id(), Some(1));
    assert_eq!(wrapped.blob_versioned_hashes(), Some(vec![B256::repeat_byte(0x05)]));
    assert_eq!(wrapped.access_list(), inner.access_list());
    assert_eq!(wrapped.transaction_type(), Some(2));
    assert_eq!(TransactionResponse::authorization_list(&wrapped), None);
}

#[test]
fn wrapped_receipt_answers_as_the_receipt() {
    let wrapped = WithOtherFields::new(SampleReceipt { status: true });
    assert_eq!(wrapped.contract_address(), Some(Address::repeat_byte(0x10)));
    assert!(wrapped.status());
    assert!(!WithOtherFields::new(SampleReceipt { status: false }).status());
    assert_eq!(ReceiptResponse::block_hash(&wrapped), Some(B256::repeat_byte(0x11)));
    assert_eq!(ReceiptResponse::block_number(&wrapped), Some(12));
    assert_eq!(wrapped.transaction_hash(), B256::repeat_byte(0x13));
    assert_eq!(ReceiptResponse::transaction_index(&wrapped), Some(14));
    assert_eq!(wrapped.gas_used(), 15);
    assert_eq!(wrapped.effective_gas_price(), 16);
    assert_eq!(wrapped.blob_gas_used(), Some(17));
    assert_eq!(wrapped.blob_gas_price(), None);
    assert_eq!(ReceiptResponse::from(&wrapped), Address::repeat_byte(0x19));
    assert_eq!(ReceiptResponse::to(&wrapped), Some(Address::repeat_byte(0x1a)));
    assert!(ReceiptResponse::authorization_list(&wrapped).is_none());
    assert_eq!(wrapped.cumulative_gas_used(), 28);
    assert_eq!(wrapped.state_root(), Some(B256::repeat_byte(0x1d)));
}

#[test]
fn wrapped_block_answers_as_the_block() {
    let block = SampleBlock {
        header: sample_header(),
        transactions: BlockTransactions::Full(vec![sample_transaction()]),
    };
    let wrapped = WithOtherFields { inner: block.clone(), other: sample_other() };
    assert_eq!(wrapped.header(), &sample_header());
    assert_eq!(wrapped.transactions(), &BlockTransactions::Full(vec![sample_transaction()]));
}

#[test]
fn wrapped_block_hands_out_its_other_fields() {
    let block = SampleBlock { header: sample_header(), transactions: BlockTransactions::Uncle };
    assert!(block.other_fields().is_none());
    let wrapped = WithOtherFields { inner: block.clone(), other: sample_other() };
    assert_eq!(wrapped.other_fields(), Some(&sample_other()));
    let bare = WithOtherFields::new(block);
    assert_eq!(bare.other_fields(), Some(&OtherFields::default()));
}

#[test]
fn wrapped_block_lets_its_transactions_be_changed() {
    let block = SampleBlock {
        header: sample_header(),
        transactions: BlockTransactions::Hashes(vec![B256::repeat_byte(0x01)]),
    };
    let mut wrapped = WithOtherFields { inner: block, other: sample_other() };
    *wrapped.transactions_mut() = BlockTransactions::Full(vec![sample_transaction()]);
    assert_eq!(wrapped.transactions(), &BlockTransactions::Full(vec![sample_transaction()]));
    assert_eq!(wrapped.inner.transactions, BlockTransactions::Full(vec![sample_transaction()]));
    assert_eq!(wrapped.header(), &sample_header());
    assert_eq!(wrapped.other_fields(), Some(&sample_other()));
    if let BlockTransactions::Full(list) = wrapped.transactions_mut() {
        list.push(SampleTransaction { nonce: 10, input: Bytes::new() });
    }
    assert_eq!(
        wrapped.transactions(),
        &BlockTransactions::Full(vec![
            sample_transaction(),
            SampleTransaction { nonce: 10, input: Bytes::new() }
        ])
    );
}
