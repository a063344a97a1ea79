//! The auxiliary index: Ethereum block hash to native block hashes, and Ethereum transaction
//! hash to (Ethereum block hash, index) pairs. Lists only grow; a write hands back the new
//! key/value pair for the caller to commit with the rest of the import.
use vstd::prelude::*;

use crate::codec::{
    decode_hash_list, decode_metadata_list, encode_hash_list, encode_metadata_list,
    scale_hash_list_bytes_of, scale_hash_list_of, scale_metadata_list_bytes_of,
    scale_metadata_list_of,
};
use crate::types::H256;

verus! {

/// An index read found bytes that do not decode to the expected list.
#[derive(Clone, Copy, Debug, PartialEq, Eq, Structural)]
pub enum AuxError {
    CorruptIndex,
}

/// The key prefix of the block index: ASCII `ethereum_block_hash:`.
pub const BLOCK_HASH_KEY_PREFIX: [u8; 20] = [
    101, 116, 104, 101, 114, 101, 117, 109, 95, 98, 108, 111, 99, 107, 95, 104, 97, 115, 104, 58,
];

/// The key prefix of the transaction index: ASCII `ethereum_transaction_hash:`.
pub const TRANSACTION_METADATA_KEY_PREFIX: [u8; 26] = [
    101, 116, 104, 101, 114, 101, 117, 109, 95, 116, 114, 97, 110, 115, 97, 99, 116, 105, 111, 110,
    95, 104, 97, 115, 104, 58,
];

pub open spec fn block_hash_prefix() -> Seq<u8> {
    BLOCK_HASH_KEY_PREFIX@
}

pub open spec fn transaction_metadata_prefix() -> Seq<u8> {
    TRANSACTION_METADATA_KEY_PREFIX@
}

/// The index key of an Ethereum block hash.
pub open spec fn block_hash_key_of(h: H256) -> Seq<u8> {
    block_hash_prefix() + h@
}

/// The index key of an Ethereum transaction hash.
pub open spec fn transaction_metadata_key_of(h: H256) -> Seq<u8> {
    transaction_metadata_prefix() + h@
}

/// The longest stored value the index reads: shorter than 32 bytes per `u32` count, so that
/// every list it holds can grow by one item and still be encoded.
pub open spec fn stored_fits(stored: Option<Vec<u8>>) -> bool {
    match stored {
        Some(b) => b@.len() < 32 * (u32::MAX as nat),
        None => true,
    }
}

/// The view of what the backend holds under a key.
pub open spec fn stored_view(stored: Option<Vec<u8>>) -> Option<Seq<u8>> {
    match stored {
        Some(b) => Some(b@),
        None => None,
    }
}

/// What loading a list of native block hashes gives for the stored bytes.
pub open spec fn loaded_hashes(stored: Option<Seq<u8>>) -> Result<Option<Seq<H256>>, AuxError> {
    match stored {
        None => Ok(None),
        Some(b) => match scale_hash_list_of(b) {
            Some(l) => Ok(Some(l)),
            None => Err(AuxError::CorruptIndex),
        },
    }
}

/// What loading a list of transaction locations gives for the stored bytes.
pub open spec fn loaded_metadata(stored: Option<Seq<u8>>) -> Result<
    Option<Seq<(H256, u32)>>,
    AuxError,
> {
    match stored {
        None => Ok(None),
        Some(b) => match scale_metadata_list_of(b) {
            Some(l) => Ok(Some(l)),
            None => Err(AuxError::CorruptIndex),
        },
    }
}

/// The list loaded from `stored` (empty when absent) with `h` appended.
pub open spec fn hashes_after(stored: Option<Seq<u8>>, h: H256) -> Seq<H256> {
    match loaded_hashes(stored) {
        Ok(Some(l)) => l.push(h),
        _ => seq![h],
    }
}

/// The list loaded from `stored` (empty when absent) with `m` appended.
pub open spec fn metadata_after(stored: Option<Seq<u8>>, m: (H256, u32)) -> Seq<(H256, u32)> {
    match loaded_metadata(stored) {
        Ok(Some(l)) => l.push(m),
        _ => seq![m],
    }
}

/// `value` is the encoding of the list loaded from `stored` (empty when absent) with `h`
/// appended, and decodes back to that list.
pub open spec fn hashes_written(stored: Option<Seq<u8>>, h: H256, value: Seq<u8>) -> bool {
    &&& loaded_hashes(stored) is Ok
    &&& value == scale_hash_list_bytes_of(hashes_after(stored, h))
    &&& scale_hash_list_of(value) == Some(hashes_after(stored, h))
}

/// `value` is the encoding of the list loaded from `stored` (empty when absent) with `m`
/// appended, and decodes back to that list.
pub open spec fn metadata_written(stored: Option<Seq<u8>>, m: (H256, u32), value: Seq<u8>) -> bool {
    &&& loaded_metadata(stored) is Ok
    &&& value == scale_metadata_list_bytes_of(metadata_after(stored, m))
    &&& scale_metadata_list_of(value) == Some(metadata_after(stored, m))
}

pub open spec fn hashes_result_view(r: Result<Option<Vec<H256>>, AuxError>) -> Result<
    Option<Seq<H256>>,
    AuxError,
> {
    match r {
        Ok(Some(v)) => Ok(Some(v@)),
        Ok(None) => Ok(None),
        Err(e) => Err(e),
    }
}

pub open spec fn metadata_result_view(r: Result<Option<Vec<(H256, u32)>>, AuxError>) -> Result<
    Option<Seq<(H256, u32)>>,
    AuxError,
> {
    match r {
        Ok(Some(v)) => Ok(Some(v@)),
        Ok(None) => Ok(None),
        Err(e) => Err(e),
    }
}

/// `prefix` followed by the hash's bytes.
fn prefixed_key(prefix: &[u8], h: &H256) -> (r: Vec<u8>)
    ensures
        r@ == prefix@ + h@,
{
    let mut ret: Vec<u8> = Vec::new();
    let mut k: usize = 0;
    while k < prefix.len()
        invariant
            k <= prefix@.len(),
            ret@ == prefix@.subrange(0, k as int),
        decreases prefix.len() - k,
    {
        ret.push(prefix[k]);
        k = k + 1;
        assert(ret@ =~= prefix@.subrange(0, k as int));
    }
    assert(prefix@.subrange(0, prefix@.len() as int) =~= prefix@);
    let ghost p = ret@;
    let mut i: usize = 0;
    while i < 32
        invariant
            i <= 32,
            h@.len() == 32,
            ret@ == p + h@.subrange(0, i as int),
        decreases 32 - i,
    {
        ret.push(h.bytes[i]);
        i = i + 1;
        assert(ret@ =~= p + h@.subrange(0, i as int));
    }
    assert(h@.subrange(0, 32) =~= h@);
    ret
}

/// The index key of an Ethereum block hash.
pub fn block_hash_key(ethereum_block_hash: H256) -> (r: Vec<u8>)
    ensures
        r@ == block_hash_key_of(ethereum_block_hash),
{
    let prefix = BLOCK_HASH_KEY_PREFIX;
    prefixed_key(vstd::array::array_as_slice(&prefix), &ethereum_block_hash)
}

/// The index key of an Ethereum transaction hash.
pub fn transaction_metadata_key(ethereum_transaction_hash: H256) -> (r: Vec<u8>)
    ensures
        r@ == transaction_metadata_key_of(ethereum_transaction_hash),
{
    let prefix = TRANSACTION_METADATA_KEY_PREFIX;
    prefixed_key(vstd::array::array_as_slice(&prefix), &ethereum_transaction_hash)
}

/// Decodes the native block hashes stored under an Ethereum block hash's key.
pub fn load_block_hash(stored: &Option<Vec<u8>>) -> (r: Result<Option<Vec<H256>>, AuxError>)
    ensures
        hashes_result_view(r) == loaded_hashes(stored_view(*stored)),
        r is Ok && r->Ok_0 is Some ==> 32 * r->Ok_0->0@.len() <= stored->0@.len(),
{
    match stored {
        None => Ok(None),
        Some(bytes) => match decode_hash_list(bytes.as_slice()) {
            Some(list) => Ok(Some(list)),
            None => Err(AuxError::CorruptIndex),
        },
    }
}

/// Decodes the (Ethereum block hash, index) pairs stored under a transaction hash's key.
pub fn load_transaction_metadata(stored: &Option<Vec<u8>>) -> (r: Result<
    Option<Vec<(H256, u32)>>,
    AuxError,
>)
    ensures
        metadata_result_view(r) == loaded_metadata(stored_view(*stored)),
        r is Ok && r->Ok_0 is Some ==> 36 * r->Ok_0->0@.len() <= stored->0@.len(),
{
    match stored {
        None => Ok(None),
        Some(bytes) => match decode_metadata_list(bytes.as_slice()) {
            Some(list) => Ok(Some(list)),
            None => Err(AuxError::CorruptIndex),
        },
    }
}

/// Appends a native block hash to the list stored under an Ethereum block hash's key, and
/// returns the key with the new value; fails when the stored bytes are corrupt.
pub fn write_block_hash(stored: &Option<Vec<u8>>, ethereum_hash: H256, block_hash: H256) -> (r:
    Result<(Vec<u8>, Vec<u8>), AuxError>)
    requires
        stored_fits(*stored),
    ensures
        r is Err <==> loaded_hashes(stored_view(*stored)) is Err,
        r is Err ==> r == Err::<(Vec<u8>, Vec<u8>), AuxError>(AuxError::CorruptIndex),
        r is Ok ==> r->Ok_0.0@ == block_hash_key_of(ethereum_hash) && hashes_written(
            stored_view(*stored),
            block_hash,
            r->Ok_0.1@,
        ),
{
    let key = block_hash_key(ethereum_hash);
    let mut data: Vec<H256> = match load_block_hash(stored) {
        Ok(Some(hashes)) => hashes,
        Ok(None) => Vec::new(),
        Err(e) => {
            return Err(e);
        },
    };
    data.push(block_hash);
    let value = encode_hash_list(&data);
    Ok((key, value))
}

/// Appends an (Ethereum block hash, index) pair to the list stored under a transaction
/// hash's key, and returns the key with the new value; fails when the stored bytes are corrupt.
pub fn write_transaction_metadata(
    stored: &Option<Vec<u8>>,
    hash: H256,
    metadata: (H256, u32),
) -> (r: Result<(Vec<u8>, Vec<u8>), AuxError>)
    requires
        stored_fits(*stored),
    ensures
        r is Err <==> loaded_metadata(stored_view(*stored)) is Err,
        r is Err ==> r == Err::<(Vec<u8>, Vec<u8>), AuxError>(AuxError::CorruptIndex),
        r is Ok ==> r->Ok_0.0@ == transaction_metadata_key_of(hash) && metadata_written(
            stored_view(*stored),
            metadata,
            r->Ok_0.1@,
        ),
{
    let key = transaction_metadata_key(hash);
    let mut data: Vec<(H256, u32)> = match load_transaction_metadata(stored) {
        Ok(Some(items)) => items,
        Ok(None) => Vec::new(),
        Err(e) => {
            return Err(e);
        },
    };
    data.push(metadata);
    let value = encode_metadata_list(&data);
    Ok((key, value))
}

/// Hashes written one after another under one key, each write reading what the previous one
/// left (nothing before the first), are loaded back as the same list in the same order,
/// repeated hashes included.
pub proof fn lemma_block_hash_writes_read_back(hashes: Seq<H256>, values: Seq<Seq<u8>>)
    requires
        hashes.len() > 0,
        values.len() == hashes.len(),
        hashes_written(None, hashes[0], values[0]),
        forall|i: int|
            0 < i < hashes.len() ==> hashes_written(
                Some(#[trigger] values[i - 1]),
                hashes[i],
                values[i],
            ),
    ensures
        loaded_hashes(Some(values.last())) == Ok::<Option<Seq<H256>>, AuxError>(Some(hashes)),
    decreases hashes.len(),
{
    if hashes.len() == 1 {
        assert(seq![hashes[0]] =~= hashes);
    } else {
        let n = hashes.len() - 1;
        let hs = hashes.drop_last();
        let vs = values.drop_last();
        assert forall|i: int| 0 < i < hs.len() implies hashes_written(
            Some(#[trigger] vs[i - 1]),
            hs[i],
            vs[i],
        ) by {
            assert(hashes_written(Some(values[i - 1]), hashes[i], values[i]));
        }
        lemma_block_hash_writes_read_back(hs, vs);
        assert(hashes_written(Some(values[n - 1]), hashes[n], values[n]));
        assert(hs.push(hashes[n]) =~= hashes);
    }
}

/// The native hashes written under Ethereum hash `e` in a list of (Ethereum hash, native hash)
/// writes, in order.
pub open spec fn hashes_for(writes: Seq<(H256, H256)>, e: H256) -> Seq<H256>
    decreases writes.len(),
{
    if writes.len() == 0 {
        seq![]
    } else {
        let rest = hashes_for(writes.drop_last(), e);
        if writes.last().0 == e {
            rest.push(writes.last().1)
        } else {
            rest
        }
    }
}

/// What a store holds under a key.
pub open spec fn stored_at(store: Map<Seq<u8>, Seq<u8>>, key: Seq<u8>) -> Option<Seq<u8>> {
    if store.contains_key(key) {
        Some(store[key])
    } else {
        None
    }
}

/// Block index keys determine their hash.
proof fn lemma_block_hash_key_injective(a: H256, b: H256)
    ensures
        block_hash_key_of(a) == block_hash_key_of(b) ==> a == b,
{
    if block_hash_key_of(a) == block_hash_key_of(b) {
        assert(block_hash_key_of(a).subrange(20, 52) =~= a@);
        assert(block_hash_key_of(b).subrange(20, 52) =~= b@);
        assert(a.bytes =~= b.bytes);
    }
}

/// Writes of (Ethereum hash, native hash) pairs one after another into a store that held no
/// block index entry, each write reading what the store held under its key and committing its
/// value there, leave every Ethereum hash's key loading as the native hashes written under it,
/// in order and repeats included, and keys never written absent.
pub proof fn lemma_block_hash_index_writes(
    writes: Seq<(H256, H256)>,
    stores: Seq<Map<Seq<u8>, Seq<u8>>>,
    values: Seq<Seq<u8>>,
)
    requires
        stores.len() == writes.len() + 1,
        values.len() == writes.len(),
        forall|e: H256| !(#[trigger] stores[0].contains_key(block_hash_key_of(e))),
        forall|j: int|
            0 <= j < writes.len() ==> hashes_written(
                stored_at(stores[j], block_hash_key_of(writes[j].0)),
                writes[j].1,
                #[trigger] values[j],
            ) && stores[j + 1] == stores[j].insert(block_hash_key_of(writes[j].0), values[j]),
    ensures
        forall|e: H256|
            #[trigger] loaded_hashes(stored_at(stores.last(), block_hash_key_of(e))) == if hashes_for(
                writes,
                e,
            ).len() == 0 {
                Ok::<Option<Seq<H256>>, AuxError>(None)
            } else {
                Ok::<Option<Seq<H256>>, AuxError>(Some(hashes_for(writes, e)))
            },
    decreases writes.len(),
{
    if writes.len() == 0 {
        assert forall|e: H256|
            #[trigger] loaded_hashes(stored_at(stores.last(), block_hash_key_of(e)))
                == Ok::<Option<Seq<H256>>, AuxError>(None) by {
            assert(!stores[0].contains_key(block_hash_key_of(e)));
        }
    } else {
        let n = writes.len() - 1;
        let ws = writes.drop_last();
        let ss = stores.drop_last();
        let vs = values.drop_last();
        assert forall|j: int|
            0 <= j < ws.len() implies hashes_written(
            stored_at(ss[j], block_hash_key_of(ws[j].0)),
            ws[j].1,
            #[trigger] vs[j],
        ) && ss[j + 1] == ss[j].insert(block_hash_key_of(ws[j].0), vs[j]) by {
            assert(values[j] == vs[j]);
        }
        lemma_block_hash_index_writes(ws, ss, vs);
        let last = stores.last();
        assert(last == stores[n + 1]);
        assert(ss.last() == stores[n]);
        assert(hashes_written(stored_at(stores[n], block_hash_key_of(writes[n].0)), writes[n].1, values[n]));
        assert forall|e: H256|
            #[trigger] loaded_hashes(stored_at(last, block_hash_key_of(e))) == if hashes_for(
                writes,
                e,
            ).len() == 0 {
                Ok::<Option<Seq<H256>>, AuxError>(None)
            } else {
                Ok::<Option<Seq<H256>>, AuxError>(Some(hashes_for(writes, e)))
            } by {
            lemma_block_hash_key_injective(e, writes[n].0);
            assert(loaded_hashes(stored_at(ss.last(), block_hash_key_of(e))) == if hashes_for(
                ws,
                e,
            ).len() == 0 {
                Ok::<Option<Seq<H256>>, AuxError>(None)
            } else {
                Ok::<Option<Seq<H256>>, AuxError>(Some(hashes_for(ws, e)))
            });
            if writes[n].0 == e {
                assert(stored_at(last, block_hash_key_of(e)) == Some(values[n]));
                assert(hashes_for(writes, e) == hashes_for(ws, e).push(writes[n].1));
                if hashes_for(ws, e).len() == 0 {
                    assert(hashes_for(ws, e).push(writes[n].1) =~= seq![writes[n].1]);
                }
            } else {
                assert(hashes_for(writes, e) == hashes_for(ws, e));
                assert(stored_at(last, block_hash_key_of(e)) == stored_at(
                    stores[n],
                    block_hash_key_of(e),
                ));
            }
        }
    }
}

/// Transaction locations written one after another under one key, each write reading what the
/// previous one left, are loaded back as the same list in the same order.
pub proof fn lemma_transaction_metadata_writes_read_back(
    items: Seq<(H256, u32)>,
    values: Seq<Seq<u8>>,
)
    requires
        items.len() > 0,
        values.len() == items.len(),
        metadata_written(None, items[0], values[0]),
        forall|i: int|
            0 < i < items.len() ==> metadata_written(
                Some(#[trigger] values[i - 1]),
                items[i],
                values[i],
            ),
    ensures
        loaded_metadata(Some(values.last())) == Ok::<Option<Seq<(H256, u32)>>, AuxError>(
            Some(items),
        ),
    decreases items.len(),
{
    if items.len() == 1 {
        assert(seq![items[0]] =~= items);
    } else {
        let n = items.len() - 1;
        let its = items.drop_last();
        let vs = values.drop_last();
        assert forall|i: int| 0 < i < its.len() implies metadata_written(
            Some(#[trigger] vs[i - 1]),
            its[i],
            vs[i],
        ) by {
            assert(metadata_written(Some(values[i - 1]), items[i], values[i]));
        }
        lemma_transaction_metadata_writes_read_back(its, vs);
        assert(metadata_written(Some(values[n - 1]), items[n], values[n]));
        assert(its.push(items[n]) =~= items);
    }
}

} // verus!
