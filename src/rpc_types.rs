//! Values that the query surface hands to clients.
use vstd::prelude::*;

use crate::filter::{Filter, Log};
use crate::types::{Bloom, H160, H256, U256};

verus! {

/// A named account.
#[derive(Clone, Debug, Default)]
pub struct AccountInfo {
    pub name: String,
}

/// A named account with metadata.
#[derive(Clone, Debug, Default)]
pub struct ExtAccountInfo {
    pub name: String,
    pub meta: String,
    pub uuid: Option<String>,
}

/// A value with extra fields that are serialised next to its own.
#[derive(Clone, Debug)]
pub struct Rich<T> {
    pub inner: T,
    pub extra_info: std::collections::BTreeMap<String, String>,
}

impl<T> Rich<T> {
    /// The value itself.
    pub fn inner(&self) -> (r: &T)
        ensures
            *r == self.inner,
    {
        &self.inner
    }
}

/// Whether the node is syncing, as a subscription reports it.
#[derive(Clone, Copy, Debug, PartialEq, Eq, Structural)]
pub struct PubSubSyncStatus {
    pub syncing: bool,
}

/// What a subscription follows.
#[derive(Clone, Copy, Debug, PartialEq, Eq, Structural)]
pub enum Kind {
    NewHeads,
    Logs,
    NewPendingTransactions,
    Syncing,
}

/// The parameters of a subscription: none, or a log filter.
#[derive(Clone, Debug)]
pub enum Params {
    Empty,
    Logs(Filter),
}

impl Default for Params {
    fn default() -> (r: Params)
        ensures
            r is Empty,
    {
        Params::Empty
    }
}

/// A peer's network addresses.
#[derive(Clone, Debug, Default)]
pub struct PeerNetworkInfo {
    pub remote_address: String,
    pub local_address: String,
}

/// A 64-byte public key.
#[derive(Clone, Copy, Debug)]
pub struct H512 {
    pub bytes: [u8; 64],
}

/// A transaction as a query returns it.
#[derive(Clone, Debug)]
pub struct Transaction {
    pub hash: H256,
    pub nonce: U256,
    pub block_hash: Option<H256>,
    pub block_number: Option<U256>,
    pub transaction_index: Option<U256>,
    pub from: H160,
    pub to: Option<H160>,
    pub value: U256,
    pub gas_price: U256,
    pub gas: U256,
    pub input: Vec<u8>,
    pub creates: Option<H160>,
    pub raw: Vec<u8>,
    pub public_key: Option<H512>,
    pub chain_id: Option<u64>,
    pub standard_v: U256,
    pub v: U256,
    pub r: U256,
    pub s: U256,
}

/// A transaction waiting in the pool, with the block it was seen at.
#[derive(Debug)]
pub struct PendingTransaction {
    pub transaction: Transaction,
    pub at_block: u64,
}

impl PendingTransaction {
    pub fn new(transaction: Transaction, at_block: u64) -> (r: Self)
        ensures
            r.transaction == transaction,
            r.at_block == at_block,
    {
        Self { transaction, at_block }
    }
}

/// A proof-of-work package.
#[derive(Clone, Copy, Debug)]
pub struct Work {
    pub pow_hash: H256,
    pub seed_hash: H256,
    pub target: H256,
    pub number: Option<u64>,
}

/// A storage slot with its Merkle proof.
#[derive(Clone, Debug)]
pub struct StorageProof {
    pub key: U256,
    pub value: U256,
    pub proof: Vec<Vec<u8>>,
}

/// An account with its Merkle proofs.
#[derive(Clone, Debug)]
pub struct EthAccount {
    pub address: H160,
    pub balance: U256,
    pub nonce: U256,
    pub code_hash: H256,
    pub storage_hash: H256,
    pub account_proof: Vec<Vec<u8>>,
    pub storage_proof: Vec<StorageProof>,
}

/// The account a signature recovers to.
#[derive(Clone, Copy, Debug)]
pub struct RecoveredAccount {
    pub address: H160,
    pub public_key: H512,
    pub is_valid_for_current_chain: bool,
}

/// The transactions of a block: hashes only, or in full.
#[derive(Debug)]
pub enum BlockTransactions {
    Hashes(Vec<H256>),
    Full(Vec<Transaction>),
}

/// A block as a query returns it.
#[derive(Debug)]
pub struct Block {
    pub hash: Option<H256>,
    pub parent_hash: H256,
    pub uncles_hash: H256,
    pub author: H160,
    pub miner: H160,
    pub state_root: H256,
    pub transactions_root: H256,
    pub receipts_root: H256,
    pub number: Option<U256>,
    pub gas_used: U256,
    pub gas_limit: U256,
    pub extra_data: Vec<u8>,
    pub logs_bloom: Option<Bloom>,
    pub timestamp: U256,
    pub difficulty: U256,
    pub total_difficulty: Option<U256>,
    pub seal_fields: Vec<Vec<u8>>,
    pub uncles: Vec<H256>,
    pub transactions: BlockTransactions,
    pub size: Option<U256>,
}

/// A block header as a query returns it.
#[derive(Clone, Debug)]
pub struct Header {
    pub hash: Option<H256>,
    pub parent_hash: H256,
    pub uncles_hash: H256,
    pub author: H160,
    pub miner: H160,
    pub state_root: H256,
    pub transactions_root: H256,
    pub receipts_root: H256,
    pub number: Option<U256>,
    pub gas_used: U256,
    pub gas_limit: U256,
    pub extra_data: Vec<u8>,
    pub logs_bloom: Bloom,
    pub timestamp: U256,
    pub difficulty: U256,
    pub seal_fields: Vec<Vec<u8>>,
    pub size: Option<U256>,
}

/// A transaction receipt as a query returns it.
#[derive(Debug)]
pub struct Receipt {
    pub transaction_hash: Option<H256>,
    pub transaction_index: Option<U256>,
    pub block_hash: Option<H256>,
    pub from: Option<H160>,
    pub to: Option<H160>,
    pub block_number: Option<U256>,
    pub cumulative_gas_used: U256,
    pub gas_used: Option<U256>,
    pub contract_address: Option<H160>,
    pub logs: Vec<Log>,
    pub state_root: Option<H256>,
    pub logs_bloom: Bloom,
    pub status_code: Option<u64>,
}

/// A call to simulate.
#[derive(Clone, Debug)]
pub struct CallRequest {
    pub from: Option<H160>,
    pub to: Option<H160>,
    pub gas_price: Option<U256>,
    pub gas: Option<U256>,
    pub value: Option<U256>,
    pub data: Option<Vec<u8>>,
    pub nonce: Option<U256>,
}

/// A transaction to sign and send.
#[derive(Clone, Debug)]
pub struct TransactionRequest {
    pub from: Option<H160>,
    pub to: Option<H160>,
    pub gas_price: Option<U256>,
    pub gas: Option<U256>,
    pub value: Option<U256>,
    pub data: Option<Vec<u8>>,
    pub nonce: Option<U256>,
}

/// What a filter poll returns.
#[derive(Debug)]
pub enum FilterChanges {
    Logs(Vec<Log>),
    Hashes(Vec<H256>),
    Empty,
}

/// What an installed filter follows.
#[derive(Clone, Debug)]
pub enum FilterType {
    Block,
    PendingTransaction,
    Log(Filter),
}

/// An installed filter with the block it was last polled at.
#[derive(Clone, Debug)]
pub struct FilterPoolItem {
    pub last_poll: crate::filter::BlockNumber,
    pub filter_type: FilterType,
    pub at_block: u64,
}

/// What a subscription delivers.
#[derive(Debug)]
pub enum PubSubResult {
    Header(Box<Rich<Header>>),
    Log(Box<Log>),
    TransactionHash(H256),
    SyncState(PubSubSyncStatus),
}

/// Progress of a sync.
#[derive(Clone, Copy, Debug)]
pub struct SyncInfo {
    pub starting_block: U256,
    pub current_block: U256,
    pub highest_block: U256,
    pub warp_chunks_amount: Option<U256>,
    pub warp_chunks_processed: Option<U256>,
}

/// Whether the node syncs, and how far.
#[derive(Clone, Copy, Debug)]
pub enum SyncStatus {
    Info(SyncInfo),
    NotSyncing,
}

/// The peers of the node.
#[derive(Debug, Default)]
pub struct Peers {
    pub active: usize,
    pub connected: usize,
    pub max: u32,
    pub peers: Vec<PeerInfo>,
}

/// One peer.
#[derive(Debug, Default)]
pub struct PeerInfo {
    pub id: Option<String>,
    pub name: String,
    pub caps: Vec<String>,
    pub network: PeerNetworkInfo,
    pub protocols: PeerProtocolsInfo,
}

/// The protocols a peer speaks.
#[derive(Debug, Default)]
pub struct PeerProtocolsInfo {
    pub eth: Option<EthProtocolInfo>,
    pub pip: Option<PipProtocolInfo>,
}

/// A peer's Ethereum protocol state.
#[derive(Debug, Default)]
pub struct EthProtocolInfo {
    pub version: u32,
    pub difficulty: Option<U256>,
    pub head: String,
}

/// A peer's light protocol state.
#[derive(Debug)]
pub struct PipProtocolInfo {
    pub version: u32,
    pub difficulty: U256,
    pub head: String,
}

/// When a transaction was first seen, and to how many peers it went.
#[derive(Debug, Default)]
pub struct TransactionStats {
    pub first_seen: u64,
    pub propagated_to: Vec<(H512, usize)>,
}

/// A gap in the chain's blocks.
#[derive(Clone, Copy, Debug, Default)]
pub struct ChainStatus {
    pub block_gap: Option<(U256, U256)>,
}

/// Where a locally submitted transaction stands.
#[derive(Debug)]
pub enum LocalTransactionStatus {
    Pending,
    Future,
    Mined(Transaction),
    Culled(Transaction),
    Dropped(Transaction),
    Replaced(Transaction, U256, H256),
    Rejected(Transaction, String),
    Invalid(Transaction),
    Canceled(Transaction),
}

impl LocalTransactionStatus {
    /// The name of the status, as clients see it.
    pub fn status(&self) -> (r: &'static str)
        ensures
            self is Pending ==> r@ == "pending"@,
            self is Future ==> r@ == "future"@,
            self is Mined ==> r@ == "mined"@,
            self is Culled ==> r@ == "culled"@,
            self is Dropped ==> r@ == "dropped"@,
            self is Replaced ==> r@ == "replaced"@,
            self is Rejected ==> r@ == "rejected"@,
            self is Invalid ==> r@ == "invalid"@,
            self is Canceled ==> r@ == "canceled"@,
    {
        match self {
            LocalTransactionStatus::Pending => "pending",
            LocalTransactionStatus::Future => "future",
            LocalTransactionStatus::Mined(..) => "mined",
            LocalTransactionStatus::Culled(..) => "culled",
            LocalTransactionStatus::Dropped(..) => "dropped",
            LocalTransactionStatus::Replaced(..) => "replaced",
            LocalTransactionStatus::Rejected(..) => "rejected",
            LocalTransactionStatus::Invalid(..) => "invalid",
            LocalTransactionStatus::Canceled(..) => "canceled",
        }
    }

    /// How many fields the status has as an object: the status, then the transaction, an
    /// error message for a rejection, and the replacing hash and gas price for a replacement.
    pub fn field_count(&self) -> (r: usize)
        ensures
            r == (match self {
                LocalTransactionStatus::Pending | LocalTransactionStatus::Future => 1usize,
                LocalTransactionStatus::Rejected(..) => 3usize,
                LocalTransactionStatus::Replaced(..) => 4usize,
                _ => 2usize,
            }),
    {
        match self {
            LocalTransactionStatus::Pending | LocalTransactionStatus::Future => 1,
            LocalTransactionStatus::Mined(..) | LocalTransactionStatus::Culled(..)
            | LocalTransactionStatus::Dropped(..) | LocalTransactionStatus::Invalid(..)
            | LocalTransactionStatus::Canceled(..) => 2,
            LocalTransactionStatus::Rejected(..) => 3,
            LocalTransactionStatus::Replaced(..) => 4,
        }
    }

    /// The transaction the status is about, if any.
    pub fn transaction(&self) -> (r: Option<&Transaction>)
        ensures
            (self is Pending || self is Future) <==> r is None,
            self is Mined ==> r == Some(&self->Mined_0),
            self is Culled ==> r == Some(&self->Culled_0),
            self is Dropped ==> r == Some(&self->Dropped_0),
            self is Invalid ==> r == Some(&self->Invalid_0),
            self is Canceled ==> r == Some(&self->Canceled_0),
            self is Replaced ==> r == Some(&self->Replaced_0),
            self is Rejected ==> r == Some(&self->Rejected_0),
    {
        match self {
            LocalTransactionStatus::Pending | LocalTransactionStatus::Future => None,
            LocalTransactionStatus::Mined(tx) | LocalTransactionStatus::Culled(tx)
            | LocalTransactionStatus::Dropped(tx) | LocalTransactionStatus::Invalid(tx)
            | LocalTransactionStatus::Canceled(tx) | LocalTransactionStatus::Replaced(tx, _, _)
            | LocalTransactionStatus::Rejected(tx, _) => Some(tx),
        }
    }
}

/// A signed transaction with its raw encoding.
#[derive(Clone, Debug)]
pub struct RichRawTransaction {
    pub raw: Vec<u8>,
    pub transaction: Transaction,
}

/// Turns a chain transaction into the form some consumer wants.
pub trait ConvertTransaction<E> {
    fn convert_transaction(&self, transaction: crate::ethereum::Transaction) -> E;
}

} // verus!
