//! The consensus digest that carries an Ethereum block's hashes in a native header, and the
//! block-import hook that reads it back and fills the auxiliary index.
use vstd::prelude::*;

use crate::aux_schema::{
    block_hash_key, block_hash_key_of, hashes_written, loaded_hashes, loaded_metadata,
    metadata_written, transaction_metadata_key, transaction_metadata_key_of, write_block_hash,
    write_transaction_metadata,
};
use crate::codec::{decode_end_block, encode_end_block, scale_end_block_bytes_of, scale_end_block_of};
use crate::types::{H256, copy_bytes};

verus! {

/// The engine identifier that tags this system's digest entries.
pub const FRONTIER_ENGINE_ID: [u8; 4] = [102, 114, 111, 110];

/// The variant tag of `ConsensusLog::EndBlock` in its encoding.
pub const END_BLOCK_TAG: u8 = 1;

/// What block finalisation tells the import pipeline.
#[derive(Clone, Debug)]
pub enum ConsensusLog {
    EndBlock { block_hash: H256, transaction_hashes: Vec<H256> },
}

impl ConsensusLog {
    /// The Ethereum block hash and the transaction hashes, in order.
    pub open spec fn view(self) -> (H256, Seq<H256>) {
        match self {
            ConsensusLog::EndBlock { block_hash, transaction_hashes } => (
                block_hash,
                transaction_hashes@,
            ),
        }
    }

    /// The encoded log, as it stands in a digest entry.
    pub fn encode(&self) -> (r: Vec<u8>)
        requires
            self@.1.len() <= u32::MAX,
        ensures
            r@ == scale_end_block_bytes_of(END_BLOCK_TAG, self@.0, self@.1),
            end_block_of(r@) == Some(self@),
    {
        match self {
            ConsensusLog::EndBlock { block_hash, transaction_hashes } => {
                encode_end_block(END_BLOCK_TAG, block_hash, transaction_hashes)
            },
        }
    }
}

/// The end-of-block log that `data` encodes, if it encodes one.
pub open spec fn end_block_of(data: Seq<u8>) -> Option<(H256, Seq<H256>)> {
    match scale_end_block_of(data) {
        Some((tag, h, txs)) => if tag == END_BLOCK_TAG {
            Some((h, txs))
        } else {
            None
        },
        None => None,
    }
}

/// An entry of a native header's digest.
#[derive(Clone, Debug)]
pub enum DigestItem {
    PreRuntime([u8; 4], Vec<u8>),
    Consensus([u8; 4], Vec<u8>),
    Seal([u8; 4], Vec<u8>),
    Other(Vec<u8>),
}

/// The end-of-block log an entry carries: a consensus entry of this engine that decodes.
pub open spec fn frontier_log_of(item: DigestItem) -> Option<(H256, Seq<H256>)> {
    match item {
        DigestItem::Consensus(id, data) => if id == FRONTIER_ENGINE_ID {
            end_block_of(data@)
        } else {
            None
        },
        _ => None,
    }
}

/// The end-of-block logs of a digest, in order.
pub open spec fn frontier_logs(items: Seq<DigestItem>) -> Seq<(H256, Seq<H256>)>
    decreases items.len(),
{
    if items.len() == 0 {
        seq![]
    } else {
        let rest = frontier_logs(items.drop_last());
        match frontier_log_of(items.last()) {
            Some(l) => rest.push(l),
            None => rest,
        }
    }
}

/// Why an import is rejected.
#[derive(Clone, Copy, Debug, PartialEq, Eq, Structural)]
pub enum Error {
    MultiplePostRuntimeLogs,
    NoPostRuntimeLog,
    RuntimeApiCallFailed,
}

impl Error {
    /// A sentence that describes the error.
    pub fn message(&self) -> (r: &'static str)
        ensures
            *self is MultiplePostRuntimeLogs ==> r@
                == "Multiple post-runtime Ethereum blocks, rejecting!"@,
            *self is NoPostRuntimeLog ==> r@ == "Post-runtime Ethereum block not found, rejecting!"@,
            *self is RuntimeApiCallFailed ==> r@
                == "Cannot access the runtime at genesis, rejecting!"@,
    {
        match self {
            Error::MultiplePostRuntimeLogs => "Multiple post-runtime Ethereum blocks, rejecting!",
            Error::NoPostRuntimeLog => "Post-runtime Ethereum block not found, rejecting!",
            Error::RuntimeApiCallFailed => "Cannot access the runtime at genesis, rejecting!",
        }
    }
}

/// The engine identifier of this system.
fn is_frontier_engine(id: &[u8; 4]) -> (r: bool)
    ensures
        r == (*id == FRONTIER_ENGINE_ID),
{
    let r = id[0] == 102 && id[1] == 114 && id[2] == 111 && id[3] == 110;
    proof {
        if r {
            assert(*id =~= FRONTIER_ENGINE_ID);
        }
    }
    r
}

/// The end-of-block log of one digest entry.
fn decode_frontier_log(item: &DigestItem) -> (r: Option<ConsensusLog>)
    ensures
        match r {
            Some(l) => frontier_log_of(*item) == Some(l@),
            None => frontier_log_of(*item) is None,
        },
{
    match item {
        DigestItem::Consensus(id, data) => {
            if !is_frontier_engine(id) {
                return None;
            }
            match decode_end_block(data.as_slice()) {
                Some((tag, block_hash, transaction_hashes)) => {
                    if tag == END_BLOCK_TAG {
                        Some(ConsensusLog::EndBlock { block_hash, transaction_hashes })
                    } else {
                        None
                    }
                },
                None => None,
            }
        },
        _ => None,
    }
}

/// The single end-of-block log of a digest; none and more than one are errors.
pub fn find_frontier_log(logs: &Vec<DigestItem>) -> (r: Result<ConsensusLog, Error>)
    ensures
        frontier_logs(logs@).len() == 0 <==> r == Err::<ConsensusLog, Error>(
            Error::NoPostRuntimeLog,
        ),
        frontier_logs(logs@).len() > 1 <==> r == Err::<ConsensusLog, Error>(
            Error::MultiplePostRuntimeLogs,
        ),
        frontier_logs(logs@).len() == 1 <==> r is Ok,
        r is Ok ==> r->Ok_0@ == frontier_logs(logs@)[0],
{
    let mut frontier_log: Option<ConsensusLog> = None;
    let mut i: usize = 0;
    while i < logs.len()
        invariant
            i <= logs@.len(),
            frontier_logs(logs@.subrange(0, i as int)).len() <= 1,
            frontier_logs(logs@.subrange(0, i as int)).len() == 0 <==> frontier_log is None,
            frontier_log is Some ==> frontier_log->0@ == frontier_logs(
                logs@.subrange(0, i as int),
            )[0],
        decreases logs.len() - i,
    {
        let found = decode_frontier_log(&logs[i]);
        proof {
            let s = logs@.subrange(0, i + 1);
            assert(s.drop_last() =~= logs@.subrange(0, i as int));
        }
        match found {
            Some(log) => {
                if frontier_log.is_some() {
                    proof {
                        lemma_frontier_logs_prefix(logs@, i + 1);
                    }
                    return Err(Error::MultiplePostRuntimeLogs);
                }
                frontier_log = Some(log);
            },
            None => {},
        }
        i = i + 1;
    }
    assert(logs@.subrange(0, logs@.len() as int) =~= logs@);
    match frontier_log {
        Some(log) => Ok(log),
        None => Err(Error::NoPostRuntimeLog),
    }
}

/// A digest has at least as many end-of-block logs as any of its prefixes.
proof fn lemma_frontier_logs_prefix(items: Seq<DigestItem>, n: int)
    requires
        0 <= n <= items.len(),
    ensures
        frontier_logs(items).len() >= frontier_logs(items.subrange(0, n)).len(),
    decreases items.len() - n,
{
    if n < items.len() {
        lemma_frontier_logs_prefix(items, n + 1);
        let s = items.subrange(0, n + 1);
        assert(s.drop_last() =~= items.subrange(0, n));
    } else {
        assert(items.subrange(0, n) =~= items);
    }
}

/// An index update that an import asks for.
#[derive(Clone, Copy, Debug)]
pub enum IndexWrite {
    BlockHash { ethereum_hash: H256, native_hash: H256 },
    Transaction { hash: H256, block_hash: H256, index: u32 },
}

/// The index key an update writes.
pub open spec fn index_write_key(w: IndexWrite) -> Seq<u8> {
    match w {
        IndexWrite::BlockHash { ethereum_hash, .. } => block_hash_key_of(ethereum_hash),
        IndexWrite::Transaction { hash, .. } => transaction_metadata_key_of(hash),
    }
}

/// What the backend held under a key when the import started; absent keys read as `None`.
pub open spec fn lookup(reads: Seq<(Vec<u8>, Option<Vec<u8>>)>, key: Seq<u8>) -> Option<Seq<u8>>
    decreases reads.len(),
{
    if reads.len() == 0 {
        None
    } else if reads[0].0@ == key {
        match reads[0].1 {
            Some(v) => Some(v@),
            None => None,
        }
    } else {
        lookup(reads.drop_first(), key)
    }
}

/// The stored list under the update's key decodes, so the update can be made.
pub open spec fn index_write_possible(w: IndexWrite, stored: Option<Seq<u8>>) -> bool {
    match w {
        IndexWrite::BlockHash { .. } => loaded_hashes(stored) is Ok,
        IndexWrite::Transaction { .. } => loaded_metadata(stored) is Ok,
    }
}

/// `value` is what the update leaves under its key.
pub open spec fn index_write_value(w: IndexWrite, stored: Option<Seq<u8>>, value: Seq<u8>) -> bool {
    match w {
        IndexWrite::BlockHash { native_hash, .. } => hashes_written(stored, native_hash, value),
        IndexWrite::Transaction { block_hash, index, .. } => metadata_written(
            stored,
            (block_hash, index),
            value,
        ),
    }
}

/// The updates an end-of-block log asks for: the block's, then each transaction's in order.
pub open spec fn log_index_writes(log: (H256, Seq<H256>), native_hash: H256) -> Seq<IndexWrite> {
    seq![IndexWrite::BlockHash { ethereum_hash: log.0, native_hash }] + Seq::new(
        log.1.len(),
        |i: int| IndexWrite::Transaction { hash: log.1[i], block_hash: log.0, index: i as u32 },
    )
}

/// The updates that can be made, in order; the others are skipped.
pub open spec fn possible_writes(
    ws: Seq<IndexWrite>,
    reads: Seq<(Vec<u8>, Option<Vec<u8>>)>,
) -> Seq<IndexWrite>
    decreases ws.len(),
{
    if ws.len() == 0 {
        seq![]
    } else {
        let rest = possible_writes(ws.drop_last(), reads);
        if index_write_possible(ws.last(), lookup(reads, index_write_key(ws.last()))) {
            rest.push(ws.last())
        } else {
            rest
        }
    }
}

/// `added` makes exactly the updates `ws`, in order, each from what `reads` held.
pub open spec fn entries_make(
    added: Seq<(Vec<u8>, Option<Vec<u8>>)>,
    ws: Seq<IndexWrite>,
    reads: Seq<(Vec<u8>, Option<Vec<u8>>)>,
) -> bool {
    &&& added.len() == ws.len()
    &&& forall|j: int|
        0 <= j < ws.len() ==> {
            &&& (#[trigger] added[j]).0@ == index_write_key(ws[j])
            &&& added[j].1 is Some
            &&& index_write_value(ws[j], lookup(reads, index_write_key(ws[j])), added[j].1->0@)
        }
}

/// An update that can be made is among the updates made, and every update made after it
/// comes later in `ws`.
proof fn lemma_possible_write_last(
    ws: Seq<IndexWrite>,
    reads: Seq<(Vec<u8>, Option<Vec<u8>>)>,
    p: int,
)
    requires
        0 <= p < ws.len(),
        index_write_possible(ws[p], lookup(reads, index_write_key(ws[p]))),
    ensures
        exists|j: int|
            0 <= j < possible_writes(ws, reads).len() && possible_writes(ws, reads)[j] == ws[p]
                && forall|k: int|
                j < k < possible_writes(ws, reads).len() ==> exists|q: int|
                    p < q < ws.len() && #[trigger] possible_writes(ws, reads)[k] == ws[q],
    decreases ws.len(),
{
    let kept = possible_writes(ws, reads);
    let rest = possible_writes(ws.drop_last(), reads);
    let n = ws.len() - 1;
    if p == n {
        let j = kept.len() - 1;
        assert(kept[j] == ws[p]);
        assert forall|k: int| j < k < kept.len() implies exists|q: int|
            p < q < ws.len() && #[trigger] kept[k] == ws[q] by {}
    } else {
        lemma_possible_write_last(ws.drop_last(), reads, p);
        let j = choose|j: int|
            0 <= j < rest.len() && rest[j] == ws.drop_last()[p] && forall|k: int|
                j < k < rest.len() ==> exists|q: int|
                    p < q < ws.drop_last().len() && #[trigger] rest[k] == ws.drop_last()[q];
        assert(kept[j] == ws[p]);
        assert forall|k: int| j < k < kept.len() implies exists|q: int|
            p < q < ws.len() && #[trigger] kept[k] == ws[q] by {
            if k < rest.len() {
                let q = choose|q: int| p < q < ws.drop_last().len() && #[trigger] rest[k] == ws.drop_last()[q];
                assert(kept[k] == ws[q]);
            } else {
                assert(kept[k] == ws[n]);
            }
        }
    }
}

/// The value a key holds once `added` is committed over what `reads` held: the last entry
/// for the key (`None`: deleted), else what was held.
pub open spec fn committed_value(
    reads: Seq<(Vec<u8>, Option<Vec<u8>>)>,
    added: Seq<(Vec<u8>, Option<Vec<u8>>)>,
    key: Seq<u8>,
) -> Option<Seq<u8>>
    decreases added.len(),
{
    if added.len() == 0 {
        lookup(reads, key)
    } else if added.last().0@ == key {
        match added.last().1 {
            Some(v) => Some(v@),
            None => None,
        }
    } else {
        committed_value(reads, added.drop_last(), key)
    }
}

/// The last entry for a key decides what the key holds.
proof fn lemma_committed_last(
    reads: Seq<(Vec<u8>, Option<Vec<u8>>)>,
    added: Seq<(Vec<u8>, Option<Vec<u8>>)>,
    key: Seq<u8>,
    j: int,
)
    requires
        0 <= j < added.len(),
        added[j].0@ == key,
        added[j].1 is Some,
        forall|k: int| j < k < added.len() ==> (#[trigger] added[k]).0@ != key,
    ensures
        committed_value(reads, added, key) == Some(added[j].1->0@),
    decreases added.len(),
{
    if j < added.len() - 1 {
        let prev = added.drop_last();
        assert forall|k: int| j < k < prev.len() implies (#[trigger] prev[k]).0@ != key by {
            assert(prev[k] == added[k]);
        }
        lemma_committed_last(reads, prev, key, j);
    }
}

/// Keys of the two indexes differ in length, and each index's keys determine their hash.
proof fn lemma_index_keys(a: H256, b: H256)
    ensures
        block_hash_key_of(a).len() == 52,
        transaction_metadata_key_of(a).len() == 58,
        block_hash_key_of(a) == block_hash_key_of(b) ==> a == b,
        transaction_metadata_key_of(a) == transaction_metadata_key_of(b) ==> a == b,
{
    if block_hash_key_of(a) == block_hash_key_of(b) {
        assert(block_hash_key_of(a).subrange(20, 52) =~= a@);
        assert(block_hash_key_of(b).subrange(20, 52) =~= b@);
        assert(a.bytes =~= b.bytes);
    }
    if transaction_metadata_key_of(a) == transaction_metadata_key_of(b) {
        assert(transaction_metadata_key_of(a).subrange(26, 58) =~= a@);
        assert(transaction_metadata_key_of(b).subrange(26, 58) =~= b@);
        assert(a.bytes =~= b.bytes);
    }
}

/// The updates an import asks for, as `log_index_writes` lists them, then the genesis one.
proof fn lemma_import_writes_shape(
    log: (H256, Seq<H256>),
    native_hash: H256,
    number: u64,
    genesis: GenesisLookup,
)
    ensures
        ({
            let ws = import_writes(log, native_hash, number, genesis);
            let base = log_index_writes(log, native_hash);
            &&& ws[0] == base[0]
            &&& forall|q: int| 0 < q <= log.1.len() ==> ws[q] == base[q]
            &&& ws.len() == log.1.len() + 1 || (ws.len() == log.1.len() + 2 && number == 1
                && genesis is Found && ws[log.1.len() as int + 1] == IndexWrite::BlockHash {
                ethereum_hash: genesis->Found_ethereum_hash,
                native_hash: genesis->Found_native_hash,
            })
        }),
{
}

/// Once the entries that an import queued for a block's end-of-block log are committed, the
/// Ethereum block hash's key loads as a list that holds the native hash, wherever the list
/// stored before decoded, provided a genesis mapping made by the same import is for another
/// Ethereum hash.
pub proof fn lemma_import_indexes_block(
    log: (H256, Seq<H256>),
    native_hash: H256,
    number: u64,
    genesis: GenesisLookup,
    reads: Seq<(Vec<u8>, Option<Vec<u8>>)>,
    added: Seq<(Vec<u8>, Option<Vec<u8>>)>,
)
    requires
        entries_make(
            added,
            possible_writes(import_writes(log, native_hash, number, genesis), reads),
            reads,
        ),
        number == 1 && genesis is Found ==> genesis->Found_ethereum_hash != log.0,
    ensures
        loaded_hashes(lookup(reads, block_hash_key_of(log.0))) is Ok ==> match loaded_hashes(
            committed_value(reads, added, block_hash_key_of(log.0)),
        ) {
            Ok(Some(l)) => l.contains(native_hash),
            _ => false,
        },
{
    let ws = import_writes(log, native_hash, number, genesis);
    let kept = possible_writes(ws, reads);
    let n = log.1.len() as int;
    lemma_import_writes_shape(log, native_hash, number, genesis);
    let kb = block_hash_key_of(log.0);
    if loaded_hashes(lookup(reads, kb)) is Ok {
        lemma_possible_write_last(ws, reads, 0);
        let j = choose|j: int|
            0 <= j < kept.len() && kept[j] == ws[0] && forall|k: int|
                j < k < kept.len() ==> exists|q: int| 0 < q < ws.len() && #[trigger] kept[k] == ws[q];
        assert forall|k: int| j < k < added.len() implies (#[trigger] added[k]).0@ != kb by {
            let q = choose|q: int| 0 < q < ws.len() && #[trigger] kept[k] == ws[q];
            assert(added[k].0@ == index_write_key(kept[k]));
            if q <= n {
                lemma_index_keys(log.1[q - 1], log.0);
            } else {
                lemma_index_keys(genesis->Found_ethereum_hash, log.0);
            }
        }
        lemma_committed_last(reads, added, kb, j);
        let l = match loaded_hashes(lookup(reads, kb)) {
            Ok(Some(l)) => l,
            _ => seq![],
        };
        assert(l.push(native_hash)[l.len() as int] == native_hash);
    }
}

/// Once the entries that an import queued for a block's end-of-block log are committed, the
/// key of each transaction hash that occurs once in the log loads as a list that holds (the
/// Ethereum block hash, the transaction's index), wherever the list stored before decoded.
pub proof fn lemma_import_indexes_transactions(
    log: (H256, Seq<H256>),
    native_hash: H256,
    number: u64,
    genesis: GenesisLookup,
    reads: Seq<(Vec<u8>, Option<Vec<u8>>)>,
    added: Seq<(Vec<u8>, Option<Vec<u8>>)>,
)
    requires
        entries_make(
            added,
            possible_writes(import_writes(log, native_hash, number, genesis), reads),
            reads,
        ),
    ensures
        forall|i: int|
            0 <= i < log.1.len() && (forall|k: int|
                0 <= k < log.1.len() && k != i ==> log.1[k] != log.1[i]) && loaded_metadata(
                lookup(reads, transaction_metadata_key_of(#[trigger] log.1[i])),
            ) is Ok ==> match loaded_metadata(
                committed_value(reads, added, transaction_metadata_key_of(log.1[i])),
            ) {
                Ok(Some(l)) => l.contains((log.0, i as u32)),
                _ => false,
            },
{
    let ws = import_writes(log, native_hash, number, genesis);
    let kept = possible_writes(ws, reads);
    let n = log.1.len() as int;
    lemma_import_writes_shape(log, native_hash, number, genesis);
    assert forall|i: int|
        0 <= i < n && (forall|k: int| 0 <= k < n && k != i ==> log.1[k] != log.1[i])
            && loaded_metadata(
            lookup(reads, transaction_metadata_key_of(#[trigger] log.1[i])),
        ) is Ok implies match loaded_metadata(
            committed_value(reads, added, transaction_metadata_key_of(log.1[i])),
        ) {
            Ok(Some(l)) => l.contains((log.0, i as u32)),
            _ => false,
        } by {
        let kt = transaction_metadata_key_of(log.1[i]);
        lemma_possible_write_last(ws, reads, i + 1);
        let j = choose|j: int|
            0 <= j < kept.len() && kept[j] == ws[i + 1] && forall|k: int|
                j < k < kept.len() ==> exists|q: int|
                    i + 1 < q < ws.len() && #[trigger] kept[k] == ws[q];
        assert forall|k: int| j < k < added.len() implies (#[trigger] added[k]).0@ != kt by {
            let q = choose|q: int| i + 1 < q < ws.len() && #[trigger] kept[k] == ws[q];
            assert(added[k].0@ == index_write_key(kept[k]));
            if q <= n {
                assert(log.1[q - 1] != log.1[i]);
                lemma_index_keys(log.1[q - 1], log.1[i]);
            } else {
                lemma_index_keys(genesis->Found_ethereum_hash, log.1[i]);
            }
        }
        lemma_committed_last(reads, added, kt, j);
        let l = match loaded_metadata(lookup(reads, kt)) {
            Ok(Some(l)) => l,
            _ => seq![],
        };
        assert(l.push((log.0, i as u32))[l.len() as int] == (log.0, i as u32));
    }
}

/// What an import learned of the genesis block, asked for when block 1 is imported.
#[derive(Clone, Copy, Debug)]
pub enum GenesisLookup {
    /// Not asked for, or the genesis header is not known.
    Missing,
    /// The runtime could not be queried at genesis.
    RuntimeApiFailed,
    /// The genesis native hash and the hash of the genesis Ethereum block.
    Found { native_hash: H256, ethereum_hash: H256 },
}

/// The updates an import makes for a log: those of the log, and for block 1 the genesis
/// mapping when it was found.
pub open spec fn import_writes(
    log: (H256, Seq<H256>),
    native_hash: H256,
    number: u64,
    genesis: GenesisLookup,
) -> Seq<IndexWrite> {
    let ws = log_index_writes(log, native_hash);
    match genesis {
        GenesisLookup::Found { native_hash: g, ethereum_hash: e } => if number == 1 {
            ws.push(IndexWrite::BlockHash { ethereum_hash: e, native_hash: g })
        } else {
            ws
        },
        _ => ws,
    }
}

/// A native block on its way into the chain.
#[derive(Clone, Debug)]
pub struct ImportBlock {
    pub number: u64,
    pub post_hash: H256,
    pub digest: Vec<DigestItem>,
    /// Key/value pairs committed together with the block (`None`: delete).
    pub auxiliary: Vec<(Vec<u8>, Option<Vec<u8>>)>,
}

/// Every value that `reads` holds is short enough for the index to grow it.
pub open spec fn reads_fit(reads: Seq<(Vec<u8>, Option<Vec<u8>>)>) -> bool {
    forall|i: int|
        0 <= i < reads.len() && (#[trigger] reads[i]).1 is Some ==> reads[i].1->0@.len() < 32 * (
        u32::MAX as nat)
}

proof fn lemma_lookup_fits(reads: Seq<(Vec<u8>, Option<Vec<u8>>)>, key: Seq<u8>)
    requires
        reads_fit(reads),
    ensures
        lookup(reads, key) is Some ==> lookup(reads, key)->0.len() < 32 * (u32::MAX as nat),
    decreases reads.len(),
{
    if reads.len() > 0 && reads[0].0@ != key {
        let rest = reads.drop_first();
        assert forall|i: int| 0 <= i < rest.len() && (#[trigger] rest[i]).1 is Some implies rest[i].1->0@.len()
            < 32 * (u32::MAX as nat) by {
            assert(rest[i] == reads[i + 1]);
        }
        lemma_lookup_fits(rest, key);
    }
}

/// The value `reads` gives for a key: the first pair with that key, else nothing.
fn lookup_exec(reads: &Vec<(Vec<u8>, Option<Vec<u8>>)>, key: &Vec<u8>) -> (r: Option<Vec<u8>>)
    ensures
        match r {
            Some(v) => lookup(reads@, key@) == Some(v@),
            None => lookup(reads@, key@) is None,
        },
{
    let mut i: usize = 0;
    assert(reads@.subrange(0, reads@.len() as int) =~= reads@);
    while i < reads.len()
        invariant
            i <= reads@.len(),
            lookup(reads@, key@) == lookup(reads@.subrange(i as int, reads@.len() as int), key@),
        decreases reads.len() - i,
    {
        let ghost rest = reads@.subrange(i as int, reads@.len() as int);
        if bytes_equal(&reads[i].0, key) {
            return match &reads[i].1 {
                Some(v) => Some(copy_bytes(v)),
                None => None,
            };
        }
        assert(rest.drop_first() =~= reads@.subrange(i + 1, reads@.len() as int));
        i = i + 1;
    }
    None
}

fn bytes_equal(a: &Vec<u8>, b: &Vec<u8>) -> (r: bool)
    ensures
        r == (a@ == b@),
{
    if a.len() != b.len() {
        return false;
    }
    let mut i: usize = 0;
    while i < a.len()
        invariant
            i <= a@.len(),
            a@.len() == b@.len(),
            forall|j: int| 0 <= j < i ==> a@[j] == b@[j],
        decreases a.len() - i,
    {
        if a[i] != b[i] {
            return false;
        }
        i = i + 1;
    }
    assert(a@ =~= b@);
    true
}

/// Makes one update from what `reads` held under its key; `None` when that cannot be decoded.
fn make_index_write(w: &IndexWrite, reads: &Vec<(Vec<u8>, Option<Vec<u8>>)>) -> (r: Option<
    (Vec<u8>, Option<Vec<u8>>),
>)
    requires
        reads_fit(reads@),
    ensures
        r is Some <==> index_write_possible(*w, lookup(reads@, index_write_key(*w))),
        r is Some ==> {
            &&& (r->0).0@ == index_write_key(*w)
            &&& (r->0).1 is Some
            &&& index_write_value(*w, lookup(reads@, index_write_key(*w)), (r->0).1->0@)
        },
{
    match w {
        IndexWrite::BlockHash { ethereum_hash, native_hash } => {
            let key = block_hash_key(*ethereum_hash);
            let stored = lookup_exec(reads, &key);
            proof {
                lemma_lookup_fits(reads@, key@);
            }
            match write_block_hash(&stored, *ethereum_hash, *native_hash) {
                Ok((k, v)) => Some((k, Some(v))),
                Err(_) => None,
            }
        },
        IndexWrite::Transaction { hash, block_hash, index } => {
            let key = transaction_metadata_key(*hash);
            let stored = lookup_exec(reads, &key);
            proof {
                lemma_lookup_fits(reads@, key@);
            }
            match write_transaction_metadata(&stored, *hash, (*block_hash, *index)) {
                Ok((k, v)) => Some((k, Some(v))),
                Err(_) => None,
            }
        },
    }
}

/// Appends to `aux` each update of `ws` that can be made, skipping the others.
fn push_index_writes(
    aux: &mut Vec<(Vec<u8>, Option<Vec<u8>>)>,
    ws: &Vec<IndexWrite>,
    reads: &Vec<(Vec<u8>, Option<Vec<u8>>)>,
)
    requires
        reads_fit(reads@),
    ensures
        final(aux)@.subrange(0, old(aux)@.len() as int) == old(aux)@,
        entries_make(
            final(aux)@.subrange(old(aux)@.len() as int, final(aux)@.len() as int),
            possible_writes(ws@, reads@),
            reads@,
        ),
{
    let ghost start = aux@;
    let mut k: usize = 0;
    while k < ws.len()
        invariant
            k <= ws@.len(),
            reads_fit(reads@),
            aux@.subrange(0, start.len() as int) == start,
            aux@.len() >= start.len(),
            entries_make(
                aux@.subrange(start.len() as int, aux@.len() as int),
                possible_writes(ws@.subrange(0, k as int), reads@),
                reads@,
            ),
        decreases ws.len() - k,
    {
        let made = make_index_write(&ws[k], reads);
        let ghost before = aux@;
        proof {
            let s = ws@.subrange(0, k + 1);
            assert(s.drop_last() =~= ws@.subrange(0, k as int));
            assert(s.last() == ws@[k as int]);
        }
        match made {
            Some(entry) => {
                aux.push(entry);
                proof {
                    assert(aux@.subrange(0, start.len() as int) =~= start);
                    let added = aux@.subrange(start.len() as int, aux@.len() as int);
                    let prev = before.subrange(start.len() as int, before.len() as int);
                    assert(added =~= prev.push(aux@.last()));
                }
            },
            None => {},
        }
        k = k + 1;
    }
    assert(ws@.subrange(0, ws@.len() as int) =~= ws@);
}

/// The updates an end-of-block log asks for, as values.
fn log_writes(log: &ConsensusLog, native_hash: H256) -> (r: Vec<IndexWrite>)
    ensures
        r@ == log_index_writes(log@, native_hash),
{
    match log {
        ConsensusLog::EndBlock { block_hash, transaction_hashes } => {
            let mut ws: Vec<IndexWrite> = Vec::new();
            ws.push(IndexWrite::BlockHash { ethereum_hash: *block_hash, native_hash });
            let mut i: usize = 0;
            while i < transaction_hashes.len()
                invariant
                    i <= transaction_hashes@.len(),
                    ws@ == seq![IndexWrite::BlockHash { ethereum_hash: *block_hash, native_hash }]
                        + Seq::new(
                        i as nat,
                        |j: int|
                            IndexWrite::Transaction {
                                hash: transaction_hashes@[j],
                                block_hash: *block_hash,
                                index: j as u32,
                            },
                    ),
                decreases transaction_hashes.len() - i,
            {
                ws.push(
                    IndexWrite::Transaction {
                        hash: transaction_hashes[i],
                        block_hash: *block_hash,
                        index: i as u32,
                    },
                );
                i = i + 1;
                assert(ws@ =~= seq![
                    IndexWrite::BlockHash { ethereum_hash: *block_hash, native_hash },
                ] + Seq::new(
                    i as nat,
                    |j: int|
                        IndexWrite::Transaction {
                            hash: transaction_hashes@[j],
                            block_hash: *block_hash,
                            index: j as u32,
                        },
                ));
            }
            ws
        },
    }
}

/// The import hook: it checks a block's end-of-block log and queues the index updates, then
/// the wrapped import takes the block.
#[derive(Clone, Debug)]
pub struct FrontierBlockImport<I, C> {
    pub inner: I,
    pub client: C,
    pub enabled: bool,
}

impl<I, C> FrontierBlockImport<I, C> {
    pub fn new(inner: I, client: C, enabled: bool) -> (r: Self)
        ensures
            r.inner == inner,
            r.client == client,
            r.enabled == enabled,
    {
        FrontierBlockImport { inner, client, enabled }
    }

    /// Checks the block's digest and queues its index updates into `block.auxiliary`.
    /// On `Ok` the caller hands the block to the wrapped import; on `Err` it does not, and
    /// the block is rejected. `reads` holds what the backend stores under the keys of the
    /// updates; `genesis` what was learned of the genesis block when `block.number` is 1.
    /// An update whose stored list cannot be decoded is skipped.
    pub fn import_block(
        &self,
        block: &mut ImportBlock,
        reads: &Vec<(Vec<u8>, Option<Vec<u8>>)>,
        genesis: GenesisLookup,
    ) -> (r: Result<(), Error>)
        requires
            reads_fit(reads@),
        ensures
            final(block).number == old(block).number,
            final(block).post_hash == old(block).post_hash,
            final(block).digest@ == old(block).digest@,
            !self.enabled ==> r is Ok && final(block).auxiliary@ == old(block).auxiliary@,
            self.enabled ==> {
                let logs = frontier_logs(old(block).digest@);
                &&& logs.len() == 0 ==> r == Err::<(), Error>(Error::NoPostRuntimeLog)
                &&& logs.len() > 1 ==> r == Err::<(), Error>(Error::MultiplePostRuntimeLogs)
                &&& logs.len() != 1 ==> final(block).auxiliary@ == old(block).auxiliary@
                &&& logs.len() == 1 && old(block).number == 1 && genesis is RuntimeApiFailed
                    ==> r == Err::<(), Error>(Error::RuntimeApiCallFailed)
                &&& logs.len() == 1 && !(old(block).number == 1 && genesis is RuntimeApiFailed)
                    ==> r is Ok
                &&& logs.len() == 1 ==> {
                    let start = old(block).auxiliary@.len() as int;
                    let aux = final(block).auxiliary@;
                    &&& aux.subrange(0, start) == old(block).auxiliary@
                    &&& entries_make(
                        aux.subrange(start, aux.len() as int),
                        possible_writes(
                            import_writes(logs[0], old(block).post_hash, old(block).number, genesis),
                            reads@,
                        ),
                        reads@,
                    )
                }
            },
    {
        if !self.enabled {
            return Ok(());
        }
        let log = find_frontier_log(&block.digest)?;
        let mut ws = log_writes(&log, block.post_hash);
        if block.number == 1 {
            match genesis {
                GenesisLookup::Found { native_hash, ethereum_hash } => {
                    ws.push(IndexWrite::BlockHash { ethereum_hash, native_hash });
                },
                GenesisLookup::RuntimeApiFailed => {
                    push_index_writes(&mut block.auxiliary, &ws, reads);
                    return Err(Error::RuntimeApiCallFailed);
                },
                GenesisLookup::Missing => {},
            }
        }
        push_index_writes(&mut block.auxiliary, &ws, reads);
        Ok(())
    }
}

} // verus!
