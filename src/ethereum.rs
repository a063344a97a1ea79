//! Block assembly: Ethereum transactions are executed one by one into a pending list, and at
//! the end of each native block they become an Ethereum block with its receipts, announced by
//! a consensus digest entry.
use vstd::prelude::*;

use ethereum_types::{
    Bloom as EthBloom, H160 as EthH160, H256 as EthH256, H64 as EthH64, U256 as EthU256,
};

use crate::codec::scale_end_block_bytes_of;
use crate::consensus::{ConsensusLog, DigestItem, END_BLOCK_TAG, FRONTIER_ENGINE_ID, frontier_log_of};
use crate::hashing::{
    be_value, bloom_bits_of, input_bloom, keccak256_of, keccak_256, ordered_trie_root,
    ordered_trie_root_of, rlp_bytes_of, rlp_list, rlp_list_of, rlp_uint_of, secp256k1_recover,
    secp256k1_recover_of,
};
use crate::evm::Account;
use crate::types::{
    copy_bytes, Bloom, H160, H256, H64, U256, bloom_covers, bloom_or, lemma_bloom_covers_trans,
    lemma_bloom_or_covers, u256_checked_sub, u256_max, min_nat, u256_saturating_add, u256_saturating_mul,
};

verus! {

/// Where a transaction goes: a call to an account, or the creation of a contract.
#[derive(Clone, Copy, Debug)]
pub enum TransactionAction {
    Call(H160),
    Create,
}

/// A legacy signature: `v` carries the recovery id and, from 37 on, the chain id.
#[derive(Clone, Copy, Debug)]
pub struct TransactionSignature {
    pub v: u64,
    pub r: H256,
    pub s: H256,
}

/// A signed legacy Ethereum transaction.
#[derive(Clone, Debug)]
pub struct Transaction {
    pub nonce: U256,
    pub gas_price: U256,
    pub gas_limit: U256,
    pub action: TransactionAction,
    pub value: U256,
    pub input: Vec<u8>,
    pub signature: TransactionSignature,
}

/// A log emitted by contract code.
#[derive(Clone, Debug)]
pub struct Log {
    pub address: H160,
    pub topics: Vec<H256>,
    pub data: Vec<u8>,
}

/// The receipt of one executed transaction.
#[derive(Clone, Debug)]
pub struct Receipt {
    pub state_root: H256,
    pub used_gas: U256,
    pub logs_bloom: Bloom,
    pub logs: Vec<Log>,
}

/// What execution found out about one transaction.
#[derive(Clone, Debug)]
pub struct TransactionStatus {
    pub transaction_hash: H256,
    pub transaction_index: u32,
    pub from: H160,
    pub to: Option<H160>,
    pub contract_address: Option<H160>,
    pub logs: Vec<Log>,
    pub logs_bloom: Bloom,
}

/// An Ethereum block header.
#[derive(Clone, Debug)]
pub struct Header {
    pub parent_hash: H256,
    pub ommers_hash: H256,
    pub beneficiary: H160,
    pub state_root: H256,
    pub transactions_root: H256,
    pub receipts_root: H256,
    pub logs_bloom: Bloom,
    pub difficulty: U256,
    pub number: U256,
    pub gas_limit: U256,
    pub gas_used: U256,
    pub timestamp: u64,
    pub extra_data: Vec<u8>,
    pub mix_hash: H256,
    pub nonce: H64,
}

/// An Ethereum block.
#[derive(Clone, Debug)]
pub struct Block {
    pub header: Header,
    pub transactions: Vec<Transaction>,
    pub ommers: Vec<Header>,
}

/// How execution ended.
#[derive(Clone, Copy, Debug, PartialEq, Eq, Structural)]
pub enum ExitReason {
    Succeed,
    Error,
    Revert,
    Fatal,
}

/// The outcome of a call.
#[derive(Clone, Debug)]
pub struct CallInfo {
    pub exit_reason: ExitReason,
    pub value: Vec<u8>,
    pub used_gas: U256,
    pub logs: Vec<Log>,
}

/// The outcome of a contract creation; `value` is the new contract's address.
#[derive(Clone, Debug)]
pub struct CreateInfo {
    pub exit_reason: ExitReason,
    pub value: H160,
    pub used_gas: U256,
    pub logs: Vec<Log>,
}

/// The outcome of executing a transaction.
#[derive(Clone, Debug)]
pub enum CallOrCreateInfo {
    Call(CallInfo),
    Create(CreateInfo),
}

/// What a call returns: output bytes, or the address of a created contract.
#[derive(Clone, Debug)]
pub enum ReturnValue {
    Bytes(Vec<u8>),
    Hash(H160),
}

/// Why the runner could not execute a transaction at all.
#[derive(Clone, Debug)]
pub struct DispatchError {
    pub message: Vec<u8>,
}

/// Why `transact` failed.
#[derive(Clone, Debug)]
pub enum TransactError {
    InvalidSignature,
    Dispatch(DispatchError),
}

/// The event `transact` emits: sender, target or created contract (zero for none),
/// transaction hash and exit reason.
#[derive(Clone, Copy, Debug)]
pub struct Executed {
    pub source: H160,
    pub target: H160,
    pub transaction_hash: H256,
    pub exit_reason: ExitReason,
}

// ----- encodings -----

/// The recovery id that a legacy `v` stands for (4: none).
pub open spec fn standard_v_of(v: u64) -> u8 {
    if v == 27 || v == 28 || v > 36 {
        ((v - 1) % 2) as u8
    } else {
        4
    }
}

/// The chain id that a legacy `v` carries, from 37 on.
pub open spec fn chain_id_of(v: u64) -> Option<u64> {
    if v > 36 {
        Some(((v - 35) / 2) as u64)
    } else {
        None
    }
}

impl TransactionSignature {
    /// The recovery id: 0 or 1, or 4 when `v` stands for none.
    pub fn standard_v(&self) -> (r: u8)
        ensures
            r == standard_v_of(self.v),
    {
        if self.v == 27 || self.v == 28 || self.v > 36 {
            ((self.v - 1) % 2) as u8
        } else {
            4
        }
    }

    /// The chain id the signature commits to, if any.
    pub fn chain_id(&self) -> (r: Option<u64>)
        ensures
            r == chain_id_of(self.v),
    {
        if self.v > 36 {
            Some((self.v - 35) / 2)
        } else {
            None
        }
    }
}

pub open spec fn rlp_action_of(a: TransactionAction) -> Seq<u8> {
    match a {
        TransactionAction::Call(t) => rlp_bytes_of(t@),
        TransactionAction::Create => rlp_bytes_of(seq![]),
    }
}

/// The encoded fields that a transaction and its signing message share.
pub open spec fn transaction_fields_of(tx: Transaction) -> Seq<u8> {
    rlp_uint_of(tx.nonce.value()) + rlp_uint_of(tx.gas_price.value()) + rlp_uint_of(
        tx.gas_limit.value(),
    ) + rlp_action_of(tx.action) + rlp_uint_of(tx.value.value()) + rlp_bytes_of(tx.input@)
}

/// The RLP encoding of a signed transaction.
pub open spec fn transaction_rlp_of(tx: Transaction) -> Seq<u8> {
    rlp_list_of(
        transaction_fields_of(tx) + rlp_uint_of(tx.signature.v as nat) + rlp_uint_of(
            be_value(tx.signature.r@),
        ) + rlp_uint_of(be_value(tx.signature.s@)),
    )
}

/// The RLP encoding of what the sender signs (with the chain id from EIP-155 on).
pub open spec fn message_rlp_of(tx: Transaction) -> Seq<u8> {
    message_rlp_for(tx, chain_id_of(tx.signature.v))
}

/// The hash of a transaction.
pub open spec fn transaction_hash_of(tx: Transaction) -> Seq<u8> {
    keccak256_of(transaction_rlp_of(tx))
}

pub open spec fn topics_payload_of(ts: Seq<H256>) -> Seq<u8>
    decreases ts.len(),
{
    if ts.len() == 0 {
        seq![]
    } else {
        topics_payload_of(ts.drop_last()) + rlp_bytes_of(ts.last()@)
    }
}

pub open spec fn log_rlp_of(l: Log) -> Seq<u8> {
    rlp_list_of(
        rlp_bytes_of(l.address@) + rlp_list_of(topics_payload_of(l.topics@)) + rlp_bytes_of(
            l.data@,
        ),
    )
}

pub open spec fn logs_payload_of(ls: Seq<Log>) -> Seq<u8>
    decreases ls.len(),
{
    if ls.len() == 0 {
        seq![]
    } else {
        logs_payload_of(ls.drop_last()) + log_rlp_of(ls.last())
    }
}

pub open spec fn receipt_rlp_of(r: Receipt) -> Seq<u8> {
    rlp_list_of(
        rlp_bytes_of(r.state_root@) + rlp_uint_of(r.used_gas.value()) + rlp_bytes_of(
            r.logs_bloom@,
        ) + rlp_list_of(logs_payload_of(r.logs@)),
    )
}

pub open spec fn receipts_payload_of(rs: Seq<Receipt>) -> Seq<u8>
    decreases rs.len(),
{
    if rs.len() == 0 {
        seq![]
    } else {
        receipts_payload_of(rs.drop_last()) + receipt_rlp_of(rs.last())
    }
}

/// The receipts root: the Keccak-256 hash of the RLP list of the receipts.
pub open spec fn receipts_root_of(rs: Seq<Receipt>) -> Seq<u8> {
    keccak256_of(rlp_list_of(receipts_payload_of(rs)))
}

pub open spec fn header_rlp_of(h: Header) -> Seq<u8> {
    rlp_list_of(
        rlp_bytes_of(h.parent_hash@) + rlp_bytes_of(h.ommers_hash@) + rlp_bytes_of(
            h.beneficiary@,
        ) + rlp_bytes_of(h.state_root@) + rlp_bytes_of(h.transactions_root@) + rlp_bytes_of(
            h.receipts_root@,
        ) + rlp_bytes_of(h.logs_bloom@) + rlp_uint_of(h.difficulty.value()) + rlp_uint_of(
            h.number.value(),
        ) + rlp_uint_of(h.gas_limit.value()) + rlp_uint_of(h.gas_used.value()) + rlp_uint_of(
            h.timestamp as nat,
        ) + rlp_bytes_of(h.extra_data@) + rlp_bytes_of(h.mix_hash@) + rlp_bytes_of(h.nonce@),
    )
}

/// The hash of a header.
pub open spec fn header_hash_of(h: Header) -> Seq<u8> {
    keccak256_of(header_rlp_of(h))
}

fn cat(out: &mut Vec<u8>, part: Vec<u8>)
    ensures
        final(out)@ == old(out)@ + part@,
{
    let mut part = part;
    out.append(&mut part);
}

/// The order of the secp256k1 group: signature scalars lie below it.
pub open spec fn secp256k1_order() -> nat {
    0xffff_ffff_ffff_ffff_ffff_ffff_ffff_fffe_baae_dce6_af48_a03b_bfd2_5e8c_d036_4141nat
}

/// A signature that a legacy Ethereum transaction can hold: recovery id 0 or 1, and `r` and
/// `s` from 1 up to below the group order.
pub open spec fn signature_accepted(sig: TransactionSignature) -> bool {
    &&& standard_v_of(sig.v) <= 1
    &&& 1 <= be_value(sig.r@) < secp256k1_order()
    &&& 1 <= be_value(sig.s@) < secp256k1_order()
}

/// Relies on `ethereum::legacy::TransactionSignature::new`, which refuses the signatures outside
/// `signature_accepted`, and on `rlp::encode` of an `ethereum::LegacyTransaction`: the list of
/// nonce, gas price, gas limit, action, value, input, `v`, `r` and `s`.
#[verifier::external_body]
fn legacy_transaction_rlp(tx: &Transaction) -> (r: Option<Vec<u8>>)
    ensures
        r is Some <==> signature_accepted(tx.signature),
        r is Some ==> r->0@ == transaction_rlp_of(*tx),
{
    let s = &tx.signature;
    let signature = ethereum::legacy::TransactionSignature::new(s.v, EthH256(s.r.bytes), EthH256(s.s.bytes))?;
    let action = match tx.action {
        TransactionAction::Call(t) => ethereum::TransactionAction::Call(EthH160(t.bytes)),
        TransactionAction::Create => ethereum::TransactionAction::Create,
    };
    let (nonce, gas_price, gas_limit) = (EthU256(tx.nonce.limbs), EthU256(tx.gas_price.limbs), EthU256(tx.gas_limit.limbs));
    let value = EthU256(tx.value.limbs);
    let legacy = ethereum::LegacyTransaction { nonce, gas_price, gas_limit, action, value, input: tx.input.clone(), signature };
    Some(rlp::encode(&legacy).to_vec())
}

/// The RLP encoding of what the sender signs, for a given chain id.
pub open spec fn message_rlp_for(tx: Transaction, chain_id: Option<u64>) -> Seq<u8> {
    match chain_id {
        Some(c) => rlp_list_of(
            transaction_fields_of(tx) + rlp_uint_of(c as nat) + rlp_uint_of(0) + rlp_uint_of(0),
        ),
        None => rlp_list_of(transaction_fields_of(tx)),
    }
}

/// Relies on `rlp::encode` of an `ethereum::LegacyTransactionMessage`: the list of nonce, gas
/// price, gas limit, action, value and input, then the chain id and two zeros when there is one.
#[verifier::external_body]
fn legacy_message_rlp(tx: &Transaction, chain_id: Option<u64>) -> (r: Vec<u8>)
    ensures
        r@ == message_rlp_for(*tx, chain_id),
{
    let action = match tx.action {
        TransactionAction::Call(t) => ethereum::TransactionAction::Call(EthH160(t.bytes)),
        TransactionAction::Create => ethereum::TransactionAction::Create,
    };
    let (nonce, gas_price, gas_limit) = (EthU256(tx.nonce.limbs), EthU256(tx.gas_price.limbs), EthU256(tx.gas_limit.limbs));
    let value = EthU256(tx.value.limbs);
    let message = ethereum::LegacyTransactionMessage { nonce, gas_price, gas_limit, action, value, input: tx.input.clone(), chain_id };
    rlp::encode(&message).to_vec()
}

/// Relies on `rlp::encode` of an `ethereum::ReceiptV0`: the list of state root, gas used, bloom
/// and logs, each log the list of address, topics and data.
#[verifier::external_body]
fn frontier_receipt_rlp(r: &Receipt) -> (out: Vec<u8>)
    ensures
        out@ == receipt_rlp_of(*r),
{
    let logs = r.logs.iter().map(|l| ethereum::Log {
        address: EthH160(l.address.bytes),
        topics: l.topics.iter().map(|t| EthH256(t.bytes)).collect(),
        data: l.data.clone(),
    }).collect();
    let (state_root, used_gas) = (EthH256(r.state_root.bytes), EthU256(r.used_gas.limbs));
    let receipt = ethereum::ReceiptV0 { state_root, used_gas, logs_bloom: EthBloom(r.logs_bloom.bytes), logs };
    rlp::encode(&receipt).to_vec()
}

/// Relies on `rlp::encode` of an `ethereum::Header`: the list of its fifteen fields in order.
#[verifier::external_body]
fn ethereum_header_rlp(h: &Header) -> (r: Vec<u8>)
    ensures
        r@ == header_rlp_of(*h),
{
    let header = ethereum::Header {
        parent_hash: EthH256(h.parent_hash.bytes), ommers_hash: EthH256(h.ommers_hash.bytes), beneficiary: EthH160(h.beneficiary.bytes),
        state_root: EthH256(h.state_root.bytes), transactions_root: EthH256(h.transactions_root.bytes),
        receipts_root: EthH256(h.receipts_root.bytes), logs_bloom: EthBloom(h.logs_bloom.bytes), difficulty: EthU256(h.difficulty.limbs),
        number: EthU256(h.number.limbs), gas_limit: EthU256(h.gas_limit.limbs), gas_used: EthU256(h.gas_used.limbs), timestamp: h.timestamp,
        extra_data: h.extra_data.clone(), mix_hash: EthH256(h.mix_hash.bytes), nonce: EthH64(h.nonce.bytes),
    };
    rlp::encode(&header).to_vec()
}

/// Relies on `rlp::encode_list` of an empty list of `ethereum::Header`, as `Block::new` encodes
/// a block without ommers: the empty list.
#[verifier::external_body]
fn empty_ommers_rlp() -> (r: Vec<u8>)
    ensures
        r@ == rlp_list_of(seq![]),
{
    rlp::encode_list::<ethereum::Header, ethereum::Header>(&[]).to_vec()
}

/// The RLP encoding of a signed transaction; `None` for a signature it cannot hold.
pub fn transaction_rlp(tx: &Transaction) -> (r: Option<Vec<u8>>)
    ensures
        r is Some <==> signature_accepted(tx.signature),
        r is Some ==> r->0@ == transaction_rlp_of(*tx),
{
    legacy_transaction_rlp(tx)
}

/// The hash of a transaction: Keccak-256 of its RLP encoding; `None` for a signature it cannot
/// hold.
pub fn transaction_hash(tx: &Transaction) -> (r: Option<H256>)
    ensures
        r is Some <==> signature_accepted(tx.signature),
        r is Some ==> r->0@ == transaction_hash_of(*tx),
{
    match legacy_transaction_rlp(tx) {
        Some(encoded) => Some(keccak_256(encoded.as_slice())),
        None => None,
    }
}

/// The RLP encoding of what the sender of a transaction signs.
pub fn message_rlp(tx: &Transaction) -> (r: Vec<u8>)
    ensures
        r@ == message_rlp_of(*tx),
{
    legacy_message_rlp(tx, tx.signature.chain_id())
}

/// The hash the sender signs: Keccak-256 of the signing message's RLP encoding.
pub fn message_hash(tx: &Transaction) -> (r: H256)
    ensures
        r@ == keccak256_of(message_rlp_of(*tx)),
{
    let encoded = message_rlp(tx);
    keccak_256(encoded.as_slice())
}

/// The receipts root: Keccak-256 of the RLP list of the receipts.
pub fn receipts_root(rs: &Vec<Receipt>) -> (r: H256)
    ensures
        r@ == receipts_root_of(rs@),
{
    let mut payload: Vec<u8> = Vec::new();
    let mut i: usize = 0;
    while i < rs.len()
        invariant
            i <= rs@.len(),
            payload@ == receipts_payload_of(rs@.subrange(0, i as int)),
        decreases rs.len() - i,
    {
        cat(&mut payload, frontier_receipt_rlp(&rs[i]));
        proof {
            let s = rs@.subrange(0, i + 1);
            assert(s.drop_last() =~= rs@.subrange(0, i as int));
        }
        i = i + 1;
    }
    assert(rs@.subrange(0, rs@.len() as int) =~= rs@);
    let encoded = rlp_list(payload.as_slice());
    keccak_256(encoded.as_slice())
}

/// The hash of a header: Keccak-256 of its RLP encoding.
pub fn header_hash(h: &Header) -> (r: H256)
    ensures
        r@ == header_hash_of(*h),
{
    let encoded = ethereum_header_rlp(h);
    keccak_256(encoded.as_slice())
}

// ----- blooms -----

/// `acc` with the bits of each topic set.
pub open spec fn topics_bloom_of(acc: Seq<u8>, ts: Seq<H256>) -> Seq<u8>
    decreases ts.len(),
{
    if ts.len() == 0 {
        acc
    } else {
        bloom_or(topics_bloom_of(acc, ts.drop_last()), bloom_bits_of(ts.last()@))
    }
}

/// `acc` with the bits of each log's address and topics set.
pub open spec fn logs_bloom_of(acc: Seq<u8>, ls: Seq<Log>) -> Seq<u8>
    decreases ls.len(),
{
    if ls.len() == 0 {
        acc
    } else {
        let l = ls.last();
        topics_bloom_of(bloom_or(logs_bloom_of(acc, ls.drop_last()), bloom_bits_of(l.address@)), l.topics@)
    }
}

/// The OR of the receipts' blooms.
pub open spec fn receipts_bloom_of(rs: Seq<Receipt>) -> Seq<u8>
    decreases rs.len(),
{
    if rs.len() == 0 {
        Seq::new(256, |_i: int| 0u8)
    } else {
        bloom_or(receipts_bloom_of(rs.drop_last()), rs.last().logs_bloom@)
    }
}

/// Sets in `bloom` the bits of every log's address and topics.
pub fn logs_bloom(logs: &Vec<Log>, bloom: &mut Bloom)
    ensures
        final(bloom)@ == logs_bloom_of(old(bloom)@, logs@),
{
    let mut i: usize = 0;
    while i < logs.len()
        invariant
            i <= logs@.len(),
            bloom@ == logs_bloom_of(old(bloom)@, logs@.subrange(0, i as int)),
        decreases logs.len() - i,
    {
        let log = &logs[i];
        let ghost before = bloom@;
        bloom.accrue_bloom(&input_bloom(vstd::array::array_as_slice(&log.address.bytes)));
        let ghost after_address = bloom@;
        let mut k: usize = 0;
        while k < log.topics.len()
            invariant
                k <= log.topics@.len(),
                bloom@ == topics_bloom_of(after_address, log.topics@.subrange(0, k as int)),
            decreases log.topics.len() - k,
        {
            bloom.accrue_bloom(&input_bloom(vstd::array::array_as_slice(&log.topics[k].bytes)));
            proof {
                let s = log.topics@.subrange(0, k + 1);
                assert(s.drop_last() =~= log.topics@.subrange(0, k as int));
            }
            k = k + 1;
        }
        proof {
            assert(log.topics@.subrange(0, log.topics@.len() as int) =~= log.topics@);
            let s = logs@.subrange(0, i + 1);
            assert(s.drop_last() =~= logs@.subrange(0, i as int));
            assert(s.last() == logs@[i as int]);
        }
        i = i + 1;
    }
    assert(logs@.subrange(0, logs@.len() as int) =~= logs@);
}

impl Default for TransactionStatus {
    fn default() -> (r: TransactionStatus)
        ensures
            r.transaction_hash@ == Seq::new(32, |_i: int| 0u8),
            r.transaction_index == 0,
            r.from@ == Seq::new(20, |_i: int| 0u8),
            r.to is None,
            r.contract_address is None,
            r.logs@.len() == 0,
            r.logs_bloom@ == Seq::new(256, |_i: int| 0u8),
    {
        TransactionStatus {
            transaction_hash: H256::zero(),
            transaction_index: 0,
            from: H160::zero(),
            to: None,
            contract_address: None,
            logs: Vec::new(),
            logs_bloom: Bloom::zero(),
        }
    }
}

/// Names the author of a native block from its pre-runtime digest entries (engine id and
/// data), as the chain's consensus configures it.
pub trait FindAuthor {
    fn find_author(pre_runtime_digests: &Vec<([u8; 4], Vec<u8>)>) -> Option<H160>;
}

/// The pre-runtime entries of a digest, in order.
pub open spec fn pre_runtime_entries(items: Seq<DigestItem>) -> Seq<([u8; 4], Seq<u8>)>
    decreases items.len(),
{
    if items.len() == 0 {
        seq![]
    } else {
        let rest = pre_runtime_entries(items.drop_last());
        match items.last() {
            DigestItem::PreRuntime(id, data) => rest.push((id, data@)),
            _ => rest,
        }
    }
}

/// The author found, or the zero address when none was.
pub fn author_or_default(found: Option<H160>) -> (r: H160)
    ensures
        match found {
            Some(a) => r == a,
            None => r@ == Seq::new(20, |_i: int| 0u8),
        },
{
    match found {
        Some(a) => a,
        None => H160::zero(),
    }
}

/// The pre-runtime entries of a digest (engine id and data), in order.
pub fn pre_runtime_digests(digest: &Vec<DigestItem>) -> (r: Vec<([u8; 4], Vec<u8>)>)
    ensures
        r@.map_values(|e: ([u8; 4], Vec<u8>)| (e.0, e.1@)) == pre_runtime_entries(digest@),
{
    let mut entries: Vec<([u8; 4], Vec<u8>)> = Vec::new();
    let mut i: usize = 0;
    while i < digest.len()
        invariant
            i <= digest@.len(),
            entries@.map_values(|e: ([u8; 4], Vec<u8>)| (e.0, e.1@)) == pre_runtime_entries(
                digest@.subrange(0, i as int),
            ),
        decreases digest.len() - i,
    {
        let ghost old_entries = entries@;
        match &digest[i] {
            DigestItem::PreRuntime(id, data) => {
                let copy = copy_bytes(data);
                entries.push((*id, copy));
                assert(entries@.map_values(|e: ([u8; 4], Vec<u8>)| (e.0, e.1@)) =~= old_entries.map_values(
                    |e: ([u8; 4], Vec<u8>)| (e.0, e.1@),
                ).push((*id, data@)));
            },
            _ => {},
        }
        proof {
            let s = digest@.subrange(0, i + 1);
            assert(s.drop_last() =~= digest@.subrange(0, i as int));
        }
        i = i + 1;
    }
    assert(digest@.subrange(0, digest@.len() as int) =~= digest@);
    entries
}

// ----- signer recovery -----

/// The address that signed a transaction: the last twenty bytes of the Keccak-256 hash of the
/// public key recovered from its signature over the hash of its signing message.
pub open spec fn signer_of(tx: Transaction) -> Option<Seq<u8>> {
    match secp256k1_recover_of(
        tx.signature.r@ + tx.signature.s@,
        standard_v_of(tx.signature.v),
        keccak256_of(message_rlp_of(tx)),
    ) {
        Some(key) => Some(keccak256_of(key).subrange(12, 32)),
        None => None,
    }
}

/// The address that signed the transaction, or `None` when the signature does not recover.
pub fn recover_signer(transaction: &Transaction) -> (r: Option<H160>)
    ensures
        match r {
            Some(a) => signer_of(*transaction) == Some(a@),
            None => signer_of(*transaction) is None,
        },
{
    let mut sig = [0u8; 64];
    let mut i: usize = 0;
    while i < 32
        invariant
            i <= 32,
            sig@.len() == 64,
            transaction.signature.r@.len() == 32,
            transaction.signature.s@.len() == 32,
            forall|j: int| 0 <= j < i ==> sig@[j] == transaction.signature.r@[j],
            forall|j: int| 0 <= j < i ==> sig@[j + 32] == transaction.signature.s@[j],
        decreases 32 - i,
    {
        sig[i] = transaction.signature.r.bytes[i];
        sig[i + 32] = transaction.signature.s.bytes[i];
        i = i + 1;
    }
    assert(sig@ =~= transaction.signature.r@ + transaction.signature.s@);
    let msg = message_hash(transaction);
    let key = match secp256k1_recover(&sig, transaction.signature.standard_v(), &msg.bytes) {
        Some(k) => k,
        None => {
            return None;
        },
    };
    let hashed = keccak_256(vstd::array::array_as_slice(&key));
    Some(H160::from_h256(&hashed))
}

// ----- execution -----

/// What the runner is asked to execute for a transaction.
#[derive(Clone, Debug)]
pub struct RunnerRequest {
    pub source: H160,
    /// `None` creates a contract.
    pub target: Option<H160>,
    pub input: Vec<u8>,
    pub value: U256,
    pub gas_limit: u64,
    pub gas_price: Option<U256>,
    pub nonce: Option<U256>,
}

/// The runner request for a transaction sent by `source`: its gas limit is cut to its low
/// 64 bits, and its gas price and nonce are given.
pub fn execution_request(source: H160, transaction: &Transaction) -> (r: RunnerRequest)
    ensures
        r.source == source,
        r.target == (match transaction.action {
            TransactionAction::Call(t) => Some(t),
            TransactionAction::Create => None::<H160>,
        }),
        r.input@ == transaction.input@,
        r.value == transaction.value,
        r.gas_limit == transaction.gas_limit.limbs[0],
        r.gas_price == Some(transaction.gas_price),
        r.nonce == Some(transaction.nonce),
{
    let target = match transaction.action {
        TransactionAction::Call(t) => Some(t),
        TransactionAction::Create => None,
    };
    RunnerRequest {
        source,
        target,
        input: copy_bytes(&transaction.input),
        value: transaction.value,
        gas_limit: transaction.gas_limit.low_u64(),
        gas_price: Some(transaction.gas_price),
        nonce: Some(transaction.nonce),
    }
}

/// The outcome kind matches the action: a call for a call, a creation for a creation.
pub open spec fn outcome_matches(action: TransactionAction, info: CallOrCreateInfo) -> bool {
    (action is Call) == (info is Call)
}

fn copy_hashes(v: &Vec<H256>) -> (r: Vec<H256>)
    ensures
        r@ == v@,
{
    let mut r: Vec<H256> = Vec::new();
    let mut i: usize = 0;
    while i < v.len()
        invariant
            i <= v@.len(),
            r@ == v@.subrange(0, i as int),
        decreases v.len() - i,
    {
        r.push(v[i]);
        i = i + 1;
        assert(r@ =~= v@.subrange(0, i as int));
    }
    assert(v@.subrange(0, v@.len() as int) =~= v@);
    r
}

impl Log {
    /// The address, topics and data.
    pub open spec fn view(self) -> (H160, Seq<H256>, Seq<u8>) {
        (self.address, self.topics@, self.data@)
    }
}

/// The views of a list of logs.
pub open spec fn logs_view(ls: Seq<Log>) -> Seq<(H160, Seq<H256>, Seq<u8>)> {
    ls.map_values(|l: Log| l@)
}

fn copy_logs(v: &Vec<Log>) -> (r: Vec<Log>)
    ensures
        logs_view(r@) == logs_view(v@),
{
    let mut r: Vec<Log> = Vec::new();
    let mut i: usize = 0;
    while i < v.len()
        invariant
            i <= v@.len(),
            logs_view(r@) == logs_view(v@.subrange(0, i as int)),
        decreases v.len() - i,
    {
        let l = Log {
            address: v[i].address,
            topics: copy_hashes(&v[i].topics),
            data: copy_bytes(&v[i].data),
        };
        assert(l@ == v@[i as int]@);
        let ghost old_r = r@;
        r.push(l);
        assert(logs_view(r@) =~= logs_view(old_r).push(v@[i as int]@));
        assert(logs_view(v@.subrange(0, i + 1)) =~= logs_view(v@.subrange(0, i as int)).push(
            v@[i as int]@,
        ));
        i = i + 1;
    }
    assert(v@.subrange(0, v@.len() as int) =~= v@);
    r
}

/// The receipt's state-root field: one for success, zero otherwise.
pub open spec fn status_root_of(reason: ExitReason) -> Seq<u8> {
    if reason == ExitReason::Succeed {
        Seq::new(32, |i: int| if i == 31 { 1u8 } else { 0u8 })
    } else {
        Seq::new(32, |_i: int| 0u8)
    }
}

/// The receipt's state-root field for an exit reason.
fn status_root(reason: ExitReason) -> (r: H256)
    ensures
        r@ == status_root_of(reason),
{
    let mut bytes = [0u8; 32];
    if reason == ExitReason::Succeed {
        bytes[31] = 1;
    }
    let r = H256 { bytes };
    assert(r@ =~= status_root_of(reason));
    r
}

/// The parts of an outcome that `transact` records.
pub open spec fn info_parts(info: CallOrCreateInfo) -> (ExitReason, U256, Seq<Log>) {
    match info {
        CallOrCreateInfo::Call(c) => (c.exit_reason, c.used_gas, c.logs@),
        CallOrCreateInfo::Create(c) => (c.exit_reason, c.used_gas, c.logs@),
    }
}

/// `entry` is what `transact` records for `tx`, sent by `source`, at position `index`, with
/// the runner's outcome `info`.
pub open spec fn pending_entry(
    entry: (Transaction, TransactionStatus, Receipt),
    tx: Transaction,
    source: Seq<u8>,
    index: u32,
    info: CallOrCreateInfo,
) -> bool {
    let (status, receipt) = (entry.1, entry.2);
    let (reason, used_gas, logs) = info_parts(info);
    &&& entry.0 == tx
    &&& status.transaction_hash@ == transaction_hash_of(tx)
    &&& status.transaction_index == index
    &&& status.from@ == source
    &&& status.to == (match tx.action {
        TransactionAction::Call(t) => Some(t),
        TransactionAction::Create => None::<H160>,
    })
    &&& status.contract_address == (match info {
        CallOrCreateInfo::Create(c) => Some(c.value),
        CallOrCreateInfo::Call(_) => None::<H160>,
    })
    &&& logs_view(status.logs@) == logs_view(logs)
    &&& status.logs_bloom@ == logs_bloom_of(Seq::new(256, |_i: int| 0u8), logs)
    &&& receipt.state_root@ == status_root_of(reason)
    &&& receipt.used_gas == used_gas
    &&& receipt.logs_bloom == status.logs_bloom
    &&& logs_view(receipt.logs@) == logs_view(logs)
}

/// The values a native block's finalisation takes from the chain.
#[derive(Clone, Copy, Debug)]
pub struct BlockEnvironment {
    /// The author of the native block.
    pub author: H160,
    /// The commitment to the native state.
    pub state_root: H256,
    pub block_gas_limit: U256,
    pub number: u64,
    /// The native chain's timestamp.
    pub timestamp: u64,
}

/// The sum of the receipts' gas, saturating at the largest word.
pub open spec fn gas_used_of(rs: Seq<Receipt>) -> nat
    decreases rs.len(),
{
    if rs.len() == 0 {
        0
    } else {
        let s = gas_used_of(rs.drop_last()) + rs.last().used_gas.value();
        if s > u256_max() {
            u256_max()
        } else {
            s
        }
    }
}

/// The RLP encodings of the transactions, in order.
pub open spec fn transactions_rlp_of(txs: Seq<Transaction>) -> Seq<Seq<u8>> {
    txs.map_values(|t: Transaction| transaction_rlp_of(t))
}

/// The hashes of the transactions, in order.
pub open spec fn transaction_hashes_of(txs: Seq<Transaction>) -> Seq<Seq<u8>> {
    txs.map_values(|t: Transaction| transaction_hash_of(t))
}

/// The views of a list of hashes.
pub open spec fn hash_views(hs: Seq<H256>) -> Seq<Seq<u8>> {
    hs.map_values(|h: H256| h@)
}

/// Why a transaction is refused from the pool.
#[derive(Clone, Copy, Debug, PartialEq, Eq, Structural)]
pub enum InvalidTransaction {
    /// A code of this pallet: `INVALID_CHAIN_ID` or `INVALID_SIGNATURE`.
    Custom(u8),
    /// The nonce is below the account's.
    Stale,
    /// The balance does not cover the gas.
    Payment,
}

/// The chain id of the transaction is not the configured one.
pub const INVALID_CHAIN_ID: u8 = 1;

/// The signature does not recover.
pub const INVALID_SIGNATURE: u8 = 2;

/// A transaction admitted to the pool, with the tags that order it: it provides
/// (sender, nonce) and, ahead of the account's nonce, requires (sender, nonce - 1).
#[derive(Clone, Debug)]
pub struct ValidTransaction {
    pub provided_tags: Vec<(H160, U256)>,
    pub required_tags: Vec<(H160, U256)>,
}

/// What admission decides for a transaction, given the configured chain id and the account
/// of its signer.
pub open spec fn admission_of(tx: Transaction, chain_id: u64, account: Account) -> Result<
    (Seq<u8>, bool),
    InvalidTransaction,
> {
    if chain_id_of(tx.signature.v) is Some && chain_id_of(tx.signature.v)->0 != chain_id {
        Err(InvalidTransaction::Custom(INVALID_CHAIN_ID))
    } else if signer_of(tx) is None || !signature_accepted(tx.signature) {
        Err(InvalidTransaction::Custom(INVALID_SIGNATURE))
    } else if tx.nonce.value() < account.nonce.value() {
        Err(InvalidTransaction::Stale)
    } else if account.balance.value() < min_nat(
        tx.gas_price.value() * tx.gas_limit.value(),
        u256_max(),
    ) {
        Err(InvalidTransaction::Payment)
    } else {
        Ok((signer_of(tx)->0, tx.nonce.value() > account.nonce.value()))
    }
}

/// A transaction that admission accepts has a signer and a signature a legacy transaction can
/// hold: the two conditions under which `transact` records it once the runner executes it.
pub proof fn lemma_admitted_transaction_is_signed(tx: Transaction, chain_id: u64, account: Account)
    requires
        admission_of(tx, chain_id, account) is Ok,
    ensures
        signer_of(tx) is Some,
        signature_accepted(tx.signature),
        admission_of(tx, chain_id, account)->Ok_0.0 == signer_of(tx)->0,
{
}

/// Checks a transaction before it enters the pool. `account` is the state's account of the
/// transaction's signer.
pub fn validate_unsigned(transaction: &Transaction, chain_id: u64, account: &Account) -> (r:
    Result<ValidTransaction, InvalidTransaction>)
    ensures
        match admission_of(*transaction, chain_id, *account) {
            Err(e) => r == Err::<ValidTransaction, InvalidTransaction>(e),
            Ok((origin, ahead)) => {
                &&& r is Ok
                &&& r->Ok_0.provided_tags@.len() == 1
                &&& r->Ok_0.provided_tags@[0].0@ == origin
                &&& r->Ok_0.provided_tags@[0].1 == transaction.nonce
                &&& ahead ==> r->Ok_0.required_tags@.len() == 1 && r->Ok_0.required_tags@[0].0@ == origin
                    && r->Ok_0.required_tags@[0].1.value() == transaction.nonce.value() - 1
                &&& !ahead ==> r->Ok_0.required_tags@.len() == 0
            },
        },
{
    if let Some(id) = transaction.signature.chain_id() {
        if id != chain_id {
            return Err(InvalidTransaction::Custom(INVALID_CHAIN_ID));
        }
    }
    let origin = match recover_signer(transaction) {
        Some(o) => o,
        None => {
            return Err(InvalidTransaction::Custom(INVALID_SIGNATURE));
        },
    };
    if transaction_rlp(transaction).is_none() {
        return Err(InvalidTransaction::Custom(INVALID_SIGNATURE));
    }
    if transaction.nonce.lt(&account.nonce) {
        return Err(InvalidTransaction::Stale);
    }
    let fee = u256_saturating_mul(&transaction.gas_price, &transaction.gas_limit);
    if account.balance.lt(&fee) {
        return Err(InvalidTransaction::Payment);
    }
    let mut provided_tags: Vec<(H160, U256)> = Vec::new();
    provided_tags.push((origin, transaction.nonce));
    let mut required_tags: Vec<(H160, U256)> = Vec::new();
    if account.nonce.lt(&transaction.nonce) {
        let one = U256::from_u64(1);
        if let Some(prev_nonce) = u256_checked_sub(&transaction.nonce, &one) {
            required_tags.push((origin, prev_nonce));
        }
    }
    Ok(ValidTransaction { provided_tags, required_tags })
}

/// The transactions of pending entries, in order.
pub open spec fn pending_transactions(p: Seq<(Transaction, TransactionStatus, Receipt)>) -> Seq<
    Transaction,
> {
    p.map_values(|e: (Transaction, TransactionStatus, Receipt)| e.0)
}

/// `post` is `pre` after finalising a native block in `env`, and `digest` the entry that
/// announces the new Ethereum block.
pub open spec fn finalized(pre: Module, post: Module, env: BlockEnvironment, digest: DigestItem) -> bool {
    let ps = pre.pending@;
    &&& post.pending@ == ps
    &&& post.current_receipts is Some
    &&& post.current_transaction_statuses is Some
    &&& post.current_block is Some
    &&& {
        let b = post.current_block->0;
        let h = b.header;
        let txs = b.transactions@;
        let rs = post.current_receipts->0@;
        let sts = post.current_transaction_statuses->0@;
        &&& txs.len() == ps.len()
        &&& rs.len() == ps.len()
        &&& sts.len() == ps.len()
        &&& forall|i: int| 0 <= i < ps.len() ==> same_transaction(#[trigger] txs[i], ps[i].0)
        &&& forall|i: int| 0 <= i < ps.len() ==> same_receipt(#[trigger] rs[i], ps[i].2)
        &&& forall|i: int| 0 <= i < ps.len() ==> same_status(#[trigger] sts[i], ps[i].1)
        &&& transaction_hashes_of(txs) == transaction_hashes_of(pending_transactions(ps))
        &&& b.ommers@.len() == 0
        &&& h.parent_hash@ == (match pre.current_block {
            Some(p) => header_hash_of(p.header),
            None => Seq::new(32, |_i: int| 0u8),
        })
        &&& h.ommers_hash@ == keccak256_of(rlp_list_of(seq![]))
        &&& h.beneficiary == env.author
        &&& h.state_root == env.state_root
        &&& h.transactions_root@ == ordered_trie_root_of(transactions_rlp_of(txs))
        &&& h.receipts_root@ == receipts_root_of(rs)
        &&& h.logs_bloom@ == receipts_bloom_of(rs)
        &&& forall|i: int|
            0 <= i < ps.len() ==> bloom_covers(h.logs_bloom@, #[trigger] ps[i].2.logs_bloom@)
        &&& h.difficulty.value() == 0
        &&& h.number.value() == env.number
        &&& h.gas_limit == env.block_gas_limit
        &&& h.gas_used.value() == gas_used_of(rs)
        &&& h.timestamp == env.timestamp
        &&& h.extra_data@.len() == 0
        &&& h.mix_hash@ == Seq::new(32, |_i: int| 0u8)
        &&& h.nonce@ == Seq::new(8, |_i: int| 0u8)
        &&& frontier_log_of(digest) is Some
        &&& (frontier_log_of(digest)->0).0@ == header_hash_of(h)
        &&& hash_views((frontier_log_of(digest)->0).1) == transaction_hashes_of(txs)
        &&& match digest {
            DigestItem::Consensus(id, data) => id == FRONTIER_ENGINE_ID && data@
                == scale_end_block_bytes_of(
                END_BLOCK_TAG,
                (frontier_log_of(digest)->0).0,
                (frontier_log_of(digest)->0).1,
            ),
            _ => false,
        }
    }
}

/// `a` holds the same transaction as `b`.
pub open spec fn same_transaction(a: Transaction, b: Transaction) -> bool {
    &&& a.nonce == b.nonce
    &&& a.gas_price == b.gas_price
    &&& a.gas_limit == b.gas_limit
    &&& a.action == b.action
    &&& a.value == b.value
    &&& a.input@ == b.input@
    &&& a.signature == b.signature
}

/// `a` holds the same receipt as `b`.
pub open spec fn same_receipt(a: Receipt, b: Receipt) -> bool {
    &&& a.state_root == b.state_root
    &&& a.used_gas == b.used_gas
    &&& a.logs_bloom == b.logs_bloom
    &&& logs_view(a.logs@) == logs_view(b.logs@)
}

/// `a` holds the same status as `b`.
pub open spec fn same_status(a: TransactionStatus, b: TransactionStatus) -> bool {
    &&& a.transaction_hash == b.transaction_hash
    &&& a.transaction_index == b.transaction_index
    &&& a.from == b.from
    &&& a.to == b.to
    &&& a.contract_address == b.contract_address
    &&& logs_view(a.logs@) == logs_view(b.logs@)
    &&& a.logs_bloom == b.logs_bloom
}

fn copy_transaction(t: &Transaction) -> (r: Transaction)
    ensures
        same_transaction(r, *t),
{
    Transaction {
        nonce: t.nonce,
        gas_price: t.gas_price,
        gas_limit: t.gas_limit,
        action: t.action,
        value: t.value,
        input: copy_bytes(&t.input),
        signature: t.signature,
    }
}

fn copy_receipt(r: &Receipt) -> (out: Receipt)
    ensures
        same_receipt(out, *r),
{
    Receipt {
        state_root: r.state_root,
        used_gas: r.used_gas,
        logs_bloom: r.logs_bloom,
        logs: copy_logs(&r.logs),
    }
}

fn copy_status(s: &TransactionStatus) -> (r: TransactionStatus)
    ensures
        same_status(r, *s),
{
    TransactionStatus {
        transaction_hash: s.transaction_hash,
        transaction_index: s.transaction_index,
        from: s.from,
        to: s.to,
        contract_address: s.contract_address,
        logs: copy_logs(&s.logs),
        logs_bloom: s.logs_bloom,
    }
}

/// The state of block assembly: the transactions executed in the current native block, and
/// the last Ethereum block built with its receipts and statuses.
#[derive(Debug)]
pub struct Module {
    pub pending: Vec<(Transaction, TransactionStatus, Receipt)>,
    pub current_block: Option<Block>,
    pub current_receipts: Option<Vec<Receipt>>,
    pub current_transaction_statuses: Option<Vec<TransactionStatus>>,
}

impl Module {
    /// A state with nothing pending and no block built yet.
    pub fn new() -> (r: Module)
        ensures
            r.pending@.len() == 0,
            r.current_block is None,
            r.current_receipts is None,
            r.current_transaction_statuses is None,
    {
        Module {
            pending: Vec::new(),
            current_block: None,
            current_receipts: None,
            current_transaction_statuses: None,
        }
    }

    /// Start of a native block: nothing is pending.
    pub fn on_initialize(&mut self)
        ensures
            final(self).pending@.len() == 0,
            final(self).current_block == old(self).current_block,
            final(self).current_receipts == old(self).current_receipts,
            final(self).current_transaction_statuses == old(self).current_transaction_statuses,
    {
        self.pending = Vec::new();
    }

    /// Records an executed transaction. The runner executed `transaction` as
    /// `execution_request` describes, for the signer `recover_signer` gives, and `outcome`
    /// is what it returned. Fails, recording nothing, when the signature does not recover
    /// or is one a legacy transaction cannot hold, or the runner could not execute; an
    /// execution that reverted or failed is recorded.
    pub fn transact(
        &mut self,
        transaction: Transaction,
        outcome: Result<CallOrCreateInfo, DispatchError>,
    ) -> (r: Result<Executed, TransactError>)
        requires
            outcome is Ok ==> outcome_matches(transaction.action, outcome->Ok_0),
        ensures
            final(self).current_block == old(self).current_block,
            final(self).current_receipts == old(self).current_receipts,
            final(self).current_transaction_statuses == old(self).current_transaction_statuses,
            signer_of(transaction) is None || !signature_accepted(transaction.signature) ==> r is Err
                && r->Err_0 is InvalidSignature,
            signer_of(transaction) is Some && signature_accepted(transaction.signature) && outcome
                is Err ==> r == Err::<Executed, TransactError>(TransactError::Dispatch(outcome->Err_0)),
            r is Err ==> final(self).pending@ == old(self).pending@,
            transact_step(old(self).pending@, final(self).pending@),
            signer_of(transaction) is Some && signature_accepted(transaction.signature) && outcome
                is Ok ==> {
                &&& r is Ok
                &&& final(self).pending@.len() == old(self).pending@.len() + 1
                &&& final(self).pending@.drop_last() == old(self).pending@
                &&& pending_entry(
                    final(self).pending@.last(),
                    transaction,
                    signer_of(transaction)->0,
                    old(self).pending@.len() as u32,
                    outcome->Ok_0,
                )
                &&& r->Ok_0.source@ == signer_of(transaction)->0
                &&& r->Ok_0.transaction_hash@ == transaction_hash_of(transaction)
                &&& r->Ok_0.exit_reason == info_parts(outcome->Ok_0).0
                &&& transaction.action is Call ==> r->Ok_0.target == transaction.action->Call_0
                &&& outcome->Ok_0 is Create ==> r->Ok_0.target == outcome->Ok_0->Create_0.value
            },
    {
        let source = match recover_signer(&transaction) {
            Some(s) => s,
            None => {
                return Err(TransactError::InvalidSignature);
            },
        };
        let transaction_hash = match transaction_hash(&transaction) {
            Some(h) => h,
            None => {
                return Err(TransactError::InvalidSignature);
            },
        };
        let transaction_index = self.pending.len() as u32;
        let (to, contract_address, info) = match Self::execute(transaction.action, outcome) {
            Ok(t) => t,
            Err(e) => {
                return Err(TransactError::Dispatch(e));
            },
        };
        let (reason, used_gas, logs) = match info {
            CallOrCreateInfo::Call(c) => (c.exit_reason, c.used_gas, c.logs),
            CallOrCreateInfo::Create(c) => (c.exit_reason, c.used_gas, c.logs),
        };
        let mut bloom = Bloom::zero();
        logs_bloom(&logs, &mut bloom);
        let receipt_logs = copy_logs(&logs);
        let status = TransactionStatus {
            transaction_hash,
            transaction_index,
            from: source,
            to,
            contract_address,
            logs,
            logs_bloom: bloom,
        };
        let state_root = status_root(reason);
        let receipt = Receipt { state_root, used_gas, logs_bloom: bloom, logs: receipt_logs };
        let target = match to {
            Some(t) => t,
            None => match contract_address {
                Some(c) => c,
                None => H160::zero(),
            },
        };
        let event = Executed { source, target, transaction_hash, exit_reason: reason };
        self.pending.push((transaction, status, receipt));
        proof {
            assert(self.pending@.drop_last() =~= old(self).pending@);
        }
        Ok(event)
    }

    /// End of a native block: builds the Ethereum block from the pending transactions.
    pub fn on_finalize(&mut self, env: &BlockEnvironment) -> (r: DigestItem)
        requires
            old(self).pending@.len() <= u32::MAX,
            forall|i: int|
                0 <= i < old(self).pending@.len() ==> signature_accepted(
                    (#[trigger] old(self).pending@[i]).0.signature,
                ),
        ensures
            finalized(*old(self), *final(self), *env, r),
    {
        self.store_block(env)
    }

    /// Builds the Ethereum block, its receipts and statuses from the pending entries, in
    /// order, and keeps them as the current ones; the pending list stays as it is until the
    /// next `on_initialize`. Returns the digest entry that announces the block's hash and its transactions' hashes.
    pub fn store_block(&mut self, env: &BlockEnvironment) -> (r: DigestItem)
        requires
            old(self).pending@.len() <= u32::MAX,
            forall|i: int|
                0 <= i < old(self).pending@.len() ==> signature_accepted(
                    (#[trigger] old(self).pending@[i]).0.signature,
                ),
        ensures
            finalized(*old(self), *final(self), *env, r),
    {
        let ghost pend = self.pending@;
        let parent_hash = match self.current_block_hash() {
            Some(h) => h,
            None => H256::zero(),
        };
        let mut transactions: Vec<Transaction> = Vec::new();
        let mut statuses: Vec<TransactionStatus> = Vec::new();
        let mut receipts: Vec<Receipt> = Vec::new();
        let mut logs_bloom = Bloom::zero();
        let n = self.pending.len();
        let mut i: usize = 0;
        while i < n
            invariant
                n == pend.len(),
                i <= n,
                self.pending@ == pend,
                transactions@.len() == i,
                statuses@.len() == i,
                receipts@.len() == i,
                forall|j: int| 0 <= j < i ==> same_transaction(#[trigger] transactions@[j], pend[j].0),
                forall|j: int| 0 <= j < i ==> same_status(#[trigger] statuses@[j], pend[j].1),
                forall|j: int| 0 <= j < i ==> same_receipt(#[trigger] receipts@[j], pend[j].2),
                logs_bloom@ == receipts_bloom_of(receipts@),
            decreases n - i,
        {
            let entry = &self.pending[i];
            let receipt = copy_receipt(&entry.2);
            logs_bloom.accrue_bloom(&receipt.logs_bloom);
            let ghost before = receipts@;
            transactions.push(copy_transaction(&entry.0));
            statuses.push(copy_status(&entry.1));
            receipts.push(receipt);
            proof {
                assert(receipts@.drop_last() =~= before);
            }
            i = i + 1;
        }
        proof {
            assert(transaction_hashes_of(transactions@) =~= transaction_hashes_of(
                pending_transactions(pend),
            )) by {
                assert forall|j: int| 0 <= j < n implies transaction_hash_of(
                    #[trigger] transactions@[j],
                ) == transaction_hash_of(pend[j].0) by {
                    assert(same_transaction(transactions@[j], pend[j].0));
                    assert(transactions@[j].input@ == pend[j].0.input@);
                }
            }
        }
        let mut gas_used = U256::zero();
        let mut k: usize = 0;
        while k < receipts.len()
            invariant
                k <= receipts@.len(),
                gas_used.value() == gas_used_of(receipts@.subrange(0, k as int)),
            decreases receipts.len() - k,
        {
            gas_used = u256_saturating_add(&gas_used, &receipts[k].used_gas);
            proof {
                let s = receipts@.subrange(0, k + 1);
                assert(s.drop_last() =~= receipts@.subrange(0, k as int));
            }
            k = k + 1;
        }
        assert(receipts@.subrange(0, receipts@.len() as int) =~= receipts@);
        let mut encoded: Vec<Vec<u8>> = Vec::new();
        let mut transaction_hashes: Vec<H256> = Vec::new();
        let mut j: usize = 0;
        while j < transactions.len()
            invariant
                j <= transactions@.len(),
                transactions@.len() == pend.len(),
                forall|q: int| 0 <= q < pend.len() ==> same_transaction(#[trigger] transactions@[q], pend[q].0),
                forall|q: int| 0 <= q < pend.len() ==> signature_accepted(#[trigger] pend[q].0.signature),
                encoded@.map_values(|e: Vec<u8>| e@) == transactions_rlp_of(
                    transactions@.subrange(0, j as int),
                ),
                hash_views(transaction_hashes@) == transaction_hashes_of(
                    transactions@.subrange(0, j as int),
                ),
            decreases transactions.len() - j,
        {
            proof {
                assert(same_transaction(transactions@[j as int], pend[j as int].0));
            }
            let e = transaction_rlp(&transactions[j]).unwrap();
            let h = keccak_256(e.as_slice());
            let ghost ev = e@;
            let ghost old_encoded = encoded@;
            let ghost old_hashes = transaction_hashes@;
            encoded.push(e);
            transaction_hashes.push(h);
            proof {
                assert(encoded@.map_values(|e: Vec<u8>| e@) =~= old_encoded.map_values(
                    |e: Vec<u8>| e@,
                ).push(ev));
                assert(hash_views(transaction_hashes@) =~= hash_views(old_hashes).push(h@));
                assert(transactions_rlp_of(transactions@.subrange(0, j + 1)) =~= transactions_rlp_of(
                    transactions@.subrange(0, j as int),
                ).push(ev));
                assert(transaction_hashes_of(transactions@.subrange(0, j + 1))
                    =~= transaction_hashes_of(transactions@.subrange(0, j as int)).push(h@));
            }
            j = j + 1;
        }
        assert(transactions@.subrange(0, transactions@.len() as int) =~= transactions@);
        let transactions_root = ordered_trie_root(&encoded);
        let receipts_root = receipts_root(&receipts);
        let ommers_list = empty_ommers_rlp();
        let ommers_hash = keccak_256(ommers_list.as_slice());
        let header = Header {
            parent_hash,
            ommers_hash,
            beneficiary: env.author,
            state_root: env.state_root,
            transactions_root,
            receipts_root,
            logs_bloom,
            difficulty: U256::zero(),
            number: U256::from_u64(env.number),
            gas_limit: env.block_gas_limit,
            gas_used,
            timestamp: env.timestamp,
            extra_data: Vec::new(),
            mix_hash: H256::zero(),
            nonce: H64::zero(),
        };
        let block_hash = header_hash(&header);
        let log = ConsensusLog::EndBlock { block_hash, transaction_hashes };
        let data = log.encode();
        proof {
            lemma_receipts_bloom_covers(receipts@);
            assert forall|j: int| 0 <= j < n implies bloom_covers(
                logs_bloom@,
                #[trigger] pend[j].2.logs_bloom@,
            ) by {
                assert(same_receipt(receipts@[j], pend[j].2));
                assert(bloom_covers(receipts_bloom_of(receipts@), receipts@[j].logs_bloom@));
            }
        }
        self.current_block = Some(Block { header, transactions, ommers: Vec::new() });
        self.current_receipts = Some(receipts);
        self.current_transaction_statuses = Some(statuses);
        DigestItem::Consensus(FRONTIER_ENGINE_ID, data)
    }

    /// The target and created contract of an executed transaction, with the runner's outcome:
    /// a call names its target, a creation the new contract's address.
    pub fn execute(action: TransactionAction, result: Result<CallOrCreateInfo, DispatchError>) -> (r:
        Result<(Option<H160>, Option<H160>, CallOrCreateInfo), DispatchError>)
        requires
            result is Ok ==> outcome_matches(action, result->Ok_0),
        ensures
            result is Err <==> r is Err,
            result is Err ==> r == Err::<(Option<H160>, Option<H160>, CallOrCreateInfo), DispatchError>(
                result->Err_0,
            ),
            r is Ok ==> {
                &&& (r->Ok_0).0 == (match action {
                    TransactionAction::Call(t) => Some(t),
                    TransactionAction::Create => None::<H160>,
                })
                &&& (r->Ok_0).1 == (match result->Ok_0 {
                    CallOrCreateInfo::Create(c) => Some(c.value),
                    CallOrCreateInfo::Call(_) => None::<H160>,
                })
                &&& (r->Ok_0).2 == result->Ok_0
            },
    {
        let info = match result {
            Ok(info) => info,
            Err(e) => {
                return Err(e);
            },
        };
        match action {
            TransactionAction::Call(target) => Ok((Some(target), None, info)),
            TransactionAction::Create => {
                let created = match &info {
                    CallOrCreateInfo::Create(c) => Some(c.value),
                    CallOrCreateInfo::Call(_) => None,
                };
                Ok((None, created, info))
            },
        }
    }

    /// The author of the current native block: what `F` finds among the digest's pre-runtime
    /// entries, which `pre_runtime_digests` lists, or the zero address when it finds none.
    pub fn find_author<F: FindAuthor>(digest: &Vec<DigestItem>) -> H160 {
        let entries = pre_runtime_digests(digest);
        author_or_default(F::find_author(&entries))
    }

    /// The last Ethereum block built.
    pub fn current_block(&self) -> (r: &Option<Block>)
        ensures
            *r == self.current_block,
    {
        &self.current_block
    }

    /// The receipts of the last Ethereum block built.
    pub fn current_receipts(&self) -> (r: &Option<Vec<Receipt>>)
        ensures
            *r == self.current_receipts,
    {
        &self.current_receipts
    }

    /// The statuses of the transactions of the last Ethereum block built.
    pub fn current_transaction_statuses(&self) -> (r: &Option<Vec<TransactionStatus>>)
        ensures
            *r == self.current_transaction_statuses,
    {
        &self.current_transaction_statuses
    }

    /// The hash of the last Ethereum block built.
    pub fn current_block_hash(&self) -> (r: Option<H256>)
        ensures
            match self.current_block {
                Some(b) => r is Some && r->0@ == header_hash_of(b.header),
                None => r is None,
            },
    {
        match &self.current_block {
            Some(b) => Some(header_hash(&b.header)),
            None => None,
        }
    }
}

/// One `transact` call as its contract describes the pending list: a failed call leaves it as
/// it was, a successful one appends one entry whose index counts the entries before it.
pub open spec fn transact_step(
    before: Seq<(Transaction, TransactionStatus, Receipt)>,
    after: Seq<(Transaction, TransactionStatus, Receipt)>,
) -> bool {
    after == before || (after.len() == before.len() + 1 && after.drop_last() == before
        && after.last().1.transaction_index == before.len() as u32)
}

/// The entries that the successful calls of a run of `transact` calls appended, in order;
/// `pending[c]` is the pending list after the first `c` calls.
pub open spec fn run_appended(pending: Seq<Seq<(Transaction, TransactionStatus, Receipt)>>) -> Seq<
    (Transaction, TransactionStatus, Receipt),
>
    decreases pending.len(),
{
    if pending.len() <= 1 {
        seq![]
    } else {
        let rest = run_appended(pending.drop_last());
        if pending.last() == pending[pending.len() - 2] {
            rest
        } else {
            rest.push(pending.last().last())
        }
    }
}

/// In a block's run of `transact` calls from an empty pending list, failed ones among them,
/// the pending list ends as the entries the successful calls appended, in order, and the entry
/// at position `i` has index `i`: the number of successful calls before it.
pub proof fn lemma_transact_indices(pending: Seq<Seq<(Transaction, TransactionStatus, Receipt)>>)
    requires
        pending.len() > 0,
        pending[0].len() == 0,
        forall|c: int| 0 <= c < pending.len() - 1 ==> transact_step(pending[c], #[trigger] pending[c + 1]),
    ensures
        pending.last() == run_appended(pending),
        pending.last().len() <= pending.len() - 1,
        forall|i: int|
            0 <= i < pending.last().len() ==> (#[trigger] pending.last()[i]).1.transaction_index
                == i as u32,
    decreases pending.len(),
{
    if pending.len() == 1 {
        assert(pending.last() =~= run_appended(pending));
    } else {
        let prev = pending.drop_last();
        assert forall|c: int| 0 <= c < prev.len() - 1 implies transact_step(prev[c], #[trigger] prev[c + 1]) by {
            assert(prev[c + 1] == pending[c + 1]);
            assert(prev[c] == pending[c]);
        }
        lemma_transact_indices(prev);
        let n = pending.len() - 2;
        let last = pending.last();
        assert(pending[n + 1] == last);
        assert(prev.last() == pending[n]);
        assert(transact_step(pending[n], pending[n + 1]));
        if last != pending[n] {
            assert(last =~= pending[n].push(last.last()));
        }
        assert forall|i: int| 0 <= i < last.len() implies (#[trigger] last[i]).1.transaction_index
            == i as u32 by {
            if last != prev.last() {
                if i < last.len() - 1 {
                    assert(last[i] == last.drop_last()[i]);
                }
            }
        }
    }
}

/// The block's bloom covers the bloom of each of its receipts.
pub proof fn lemma_receipts_bloom_covers(rs: Seq<Receipt>)
    ensures
        receipts_bloom_of(rs).len() == 256,
        forall|i: int|
            0 <= i < rs.len() ==> bloom_covers(receipts_bloom_of(rs), #[trigger] rs[i].logs_bloom@),
    decreases rs.len(),
{
    if rs.len() > 0 {
        let prev = rs.drop_last();
        lemma_receipts_bloom_covers(prev);
        let b = receipts_bloom_of(prev);
        let last = rs.last().logs_bloom@;
        lemma_bloom_or_covers(b, last);
        assert forall|i: int| 0 <= i < rs.len() implies bloom_covers(
            receipts_bloom_of(rs),
            #[trigger] rs[i].logs_bloom@,
        ) by {
            if i < rs.len() - 1 {
                assert(prev[i] == rs[i]);
                lemma_bloom_covers_trans(receipts_bloom_of(rs), b, rs[i].logs_bloom@);
            }
        }
    }
}

} // verus!
