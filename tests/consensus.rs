use frontier::aux_schema::{block_hash_key, load_block_hash, load_transaction_metadata, transaction_metadata_key};
use frontier::consensus::{
    find_frontier_log, ConsensusLog, DigestItem, Error, FrontierBlockImport, GenesisLookup, ImportBlock,
    FRONTIER_ENGINE_ID,
};
use frontier::types::H256;

fn h(b: u8) -> H256 {
    H256::from_bytes([b; 32])
}

fn end_block(block: u8, txs: &[u8]) -> DigestItem {
    let log = ConsensusLog::EndBlock {
        block_hash: h(block),
        transaction_hashes: txs.iter().map(|b| h(*b)).collect(),
    };
    DigestItem::Consensus(FRONTIER_ENGINE_ID, log.encode())
}

fn block(number: u64, digest: Vec<DigestItem>) -> ImportBlock {
    ImportBlock { number, post_hash: h(0xee), digest, auxiliary: vec![] }
}

/// Runs the hook and, as the wrapped import would, counts the blocks that reach it.
fn import(enabled: bool, b: &mut ImportBlock, genesis: GenesisLookup, inner_calls: &mut u32) -> Result<(), Error> {
    let hook = FrontierBlockImport::new((), (), enabled);
    let r = hook.import_block(b, &vec![], genesis);
    if r.is_ok() {
        *inner_calls += 1;
    }
    r
}

#[test]
fn encoded_log_is_found() {
    let digest = vec![DigestItem::Other(vec![1, 2]), end_block(7, &[1, 2])];
    match find_frontier_log(&digest) {
        Ok(ConsensusLog::EndBlock { block_hash, transaction_hashes }) => {
            assert_eq!(block_hash, h(7));
            assert_eq!(transaction_hashes, vec![h(1), h(2)]);
        }
        Err(e) => panic!("unexpected {:?}", e),
    }
}

#[test]
fn no_log_is_rejected_before_the_inner_import() {
    let mut calls = 0;
    let other_engine = DigestItem::Consensus(*b"aura", ConsensusLog::EndBlock { block_hash: h(1), transaction_hashes: vec![] }.encode());
    let mut b = block(5, vec![other_engine, DigestItem::Consensus(FRONTIER_ENGINE_ID, vec![9, 9])]);
    assert_eq!(import(true, &mut b, GenesisLookup::Missing, &mut calls), Err(Error::NoPostRuntimeLog));
    assert_eq!(calls, 0);
    assert!(b.auxiliary.is_empty());
}

#[test]
fn two_logs_are_rejected_before_the_inner_import() {
    let mut calls = 0;
    let mut b = block(5, vec![end_block(1, &[]), end_block(2, &[])]);
    assert_eq!(import(true, &mut b, GenesisLookup::Missing, &mut calls), Err(Error::MultiplePostRuntimeLogs));
    assert_eq!(calls, 0);
    assert!(b.auxiliary.is_empty());
}

#[test]
fn disabled_hook_passes_blocks_through() {
    let mut calls = 0;
    let mut b = block(5, vec![]);
    assert_eq!(import(false, &mut b, GenesisLookup::Missing, &mut calls), Ok(()));
    assert_eq!(calls, 1);
    assert!(b.auxiliary.is_empty());
}

#[test]
fn import_indexes_block_and_transactions() {
    let mut calls = 0;
    let mut b = block(5, vec![end_block(7, &[1, 2])]);
    assert_eq!(import(true, &mut b, GenesisLookup::Missing, &mut calls), Ok(()));
    assert_eq!(calls, 1);
    assert_eq!(b.auxiliary.len(), 3);
    let find = |key: Vec<u8>| b.auxiliary.iter().find(|(k, _)| *k == key).map(|(_, v)| v.clone()).unwrap();
    assert_eq!(load_block_hash(&find(block_hash_key(h(7)))), Ok(Some(vec![h(0xee)])));
    assert_eq!(load_transaction_metadata(&find(transaction_metadata_key(h(1)))), Ok(Some(vec![(h(7), 0)])));
    assert_eq!(load_transaction_metadata(&find(transaction_metadata_key(h(2)))), Ok(Some(vec![(h(7), 1)])));
}

#[test]
fn import_appends_to_stored_lists_and_skips_corrupt_ones() {
    let hook = FrontierBlockImport::new((), (), true);
    let (_, earlier) = frontier::aux_schema::write_block_hash(&None, h(7), h(0x11)).unwrap();
    let reads = vec![
        (block_hash_key(h(7)), Some(earlier)),
        (transaction_metadata_key(h(1)), Some(vec![0xff])),
    ];
    let mut b = block(5, vec![end_block(7, &[1])]);
    assert_eq!(hook.import_block(&mut b, &reads, GenesisLookup::Missing), Ok(()));
    assert_eq!(b.auxiliary.len(), 1);
    assert_eq!(b.auxiliary[0].0, block_hash_key(h(7)));
    assert_eq!(load_block_hash(&b.auxiliary[0].1), Ok(Some(vec![h(0x11), h(0xee)])));
}

#[test]
fn block_one_backfills_genesis() {
    let mut calls = 0;
    let mut b = block(1, vec![end_block(7, &[])]);
    let genesis = GenesisLookup::Found { native_hash: h(0x60), ethereum_hash: h(0x61) };
    assert_eq!(import(true, &mut b, genesis, &mut calls), Ok(()));
    assert_eq!(b.auxiliary.len(), 2);
    assert_eq!(b.auxiliary[1].0, block_hash_key(h(0x61)));
    assert_eq!(load_block_hash(&b.auxiliary[1].1), Ok(Some(vec![h(0x60)])));
}

#[test]
fn genesis_runtime_failure_rejects_block_one() {
    let mut calls = 0;
    let mut b = block(1, vec![end_block(7, &[])]);
    assert_eq!(import(true, &mut b, GenesisLookup::RuntimeApiFailed, &mut calls), Err(Error::RuntimeApiCallFailed));
    assert_eq!(calls, 0);
    let mut b = block(2, vec![end_block(7, &[])]);
    assert_eq!(import(true, &mut b, GenesisLookup::RuntimeApiFailed, &mut calls), Ok(()));
}

#[test]
fn error_messages() {
    assert_eq!(Error::NoPostRuntimeLog.message(), "Post-runtime Ethereum block not found, rejecting!");
    assert_eq!(Error::MultiplePostRuntimeLogs.message(), "Multiple post-runtime Ethereum blocks, rejecting!");
    assert_eq!(Error::RuntimeApiCallFailed.message(), "Cannot access the runtime at genesis, rejecting!");
}
