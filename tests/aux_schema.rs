use frontier::aux_schema::{
    block_hash_key, load_block_hash, load_transaction_metadata, transaction_metadata_key,
    write_block_hash, write_transaction_metadata, AuxError,
};
use frontier::types::H256;

fn h(b: u8) -> H256 {
    H256::from_bytes([b; 32])
}

#[test]
fn keys_are_prefixed_hashes() {
    let key = block_hash_key(h(3));
    assert_eq!(&key[..20], b"ethereum_block_hash:");
    assert_eq!(&key[20..], &[3u8; 32][..]);
    let key = transaction_metadata_key(h(4));
    assert_eq!(&key[..26], b"ethereum_transaction_hash:");
    assert_eq!(&key[26..], &[4u8; 32][..]);
}

#[test]
fn absent_key_loads_as_none() {
    assert_eq!(load_block_hash(&None), Ok(None));
    assert_eq!(load_transaction_metadata(&None), Ok(None));
}

#[test]
fn block_hash_writes_read_back_in_order() {
    let eth = h(9);
    let mut stored: Option<Vec<u8>> = None;
    let natives = [h(1), h(2), h(1)];
    for n in natives {
        let (key, value) = write_block_hash(&stored, eth, n).unwrap();
        assert_eq!(key, block_hash_key(eth));
        stored = Some(value);
    }
    assert_eq!(load_block_hash(&stored), Ok(Some(natives.to_vec())));
}

#[test]
fn block_hash_value_is_scale_encoded() {
    let (_, value) = write_block_hash(&None, h(9), h(1)).unwrap();
    let mut expected = vec![4u8];
    expected.extend_from_slice(&[1u8; 32]);
    assert_eq!(value, expected);
}

#[test]
fn transaction_metadata_writes_read_back_in_order() {
    let tx = h(5);
    let mut stored: Option<Vec<u8>> = None;
    let items = [(h(1), 0u32), (h(2), 7u32)];
    for m in items {
        let (key, value) = write_transaction_metadata(&stored, tx, m).unwrap();
        assert_eq!(key, transaction_metadata_key(tx));
        stored = Some(value);
    }
    assert_eq!(load_transaction_metadata(&stored), Ok(Some(items.to_vec())));
}

#[test]
fn corrupt_index_is_reported() {
    let corrupt = Some(vec![8u8, 1, 2]);
    assert_eq!(load_block_hash(&corrupt), Err(AuxError::CorruptIndex));
    assert_eq!(load_transaction_metadata(&corrupt), Err(AuxError::CorruptIndex));
    assert_eq!(write_block_hash(&corrupt, h(1), h(2)), Err(AuxError::CorruptIndex));
    assert_eq!(write_transaction_metadata(&corrupt, h(1), (h(2), 0)), Err(AuxError::CorruptIndex));
}
