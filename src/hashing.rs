//! Keccak-256, log blooms, RLP, trie roots and signer recovery, through outside crates.
use vstd::prelude::*;

use crate::types::{Bloom, H256};

verus! {

/// The Keccak-256 digest of the bytes.
pub uninterp spec fn keccak256_of(data: Seq<u8>) -> Seq<u8>;

/// The `i`-th of the three bit positions (0 to 2047) that an input sets in a bloom: two bytes
/// of its Keccak-256 hash, big-endian, keeping the low eleven bits.
pub open spec fn bloom_index(hash: Seq<u8>, i: int) -> nat {
    ((hash[2 * i] as nat * 256 + hash[2 * i + 1] as nat) % 2048) as nat
}

/// The bits that bit position `index` sets in byte `j` of a bloom (bytes run from the most
/// significant bit position down).
pub open spec fn bloom_bit(index: nat, j: int) -> u8 {
    if j == 255 - (index / 8) as int {
        (1u8 << ((index % 8) as u8)) as u8
    } else {
        0u8
    }
}

/// The bloom that has exactly the bits of one input set.
pub open spec fn bloom_bits_of(data: Seq<u8>) -> Seq<u8> {
    let h = keccak256_of(data);
    Seq::new(
        256,
        |j: int|
            bloom_bit(bloom_index(h, 0), j) | bloom_bit(bloom_index(h, 1), j) | bloom_bit(
                bloom_index(h, 2),
                j,
            ),
    )
}

/// The big-endian bytes of a number, without leading zero bytes (none for zero).
pub open spec fn be_bytes(n: nat) -> Seq<u8>
    decreases n,
{
    if n == 0 {
        seq![]
    } else {
        be_bytes(n / 256).push((n % 256) as u8)
    }
}

/// The RLP header of a payload of `len` bytes: `short + len` up to 55 bytes, else
/// `short + 55 +` the size of the length, then the length as a big-endian `u32`.
pub open spec fn rlp_header(len: nat, short: nat) -> Seq<u8> {
    if len <= 55 {
        seq![(short + len) as u8]
    } else {
        let size = be_bytes(len % 0x1_0000_0000);
        seq![(short + 55 + size.len()) as u8] + size
    }
}

/// The RLP encoding of a byte string: a single byte below `0x80` stands for itself.
pub open spec fn rlp_bytes_of(data: Seq<u8>) -> Seq<u8> {
    if data.len() == 1 && data[0] < 0x80 {
        data
    } else {
        rlp_header(data.len(), 0x80) + data
    }
}

/// The RLP encoding of an unsigned integer: its big-endian bytes as a byte string.
pub open spec fn rlp_uint_of(value: nat) -> Seq<u8> {
    rlp_bytes_of(be_bytes(value))
}

/// The RLP list whose items, already encoded, are concatenated in `payload`.
pub open spec fn rlp_list_of(payload: Seq<u8>) -> Seq<u8> {
    rlp_header(payload.len(), 0xc0) + payload
}

/// The root of the Keccak Merkle-Patricia trie that maps each RLP-encoded index to its item.
pub uninterp spec fn ordered_trie_root_of(items: Seq<Seq<u8>>) -> Seq<u8>;

/// The 64-byte public key that signed `msg`, recovered from a signature and recovery id.
pub uninterp spec fn secp256k1_recover_of(sig: Seq<u8>, recovery_id: u8, msg: Seq<u8>) -> Option<
    Seq<u8>,
>;

/// The number whose big-endian bytes these are.
pub open spec fn be_value(bytes: Seq<u8>) -> nat
    decreases bytes.len(),
{
    if bytes.len() == 0 {
        0
    } else {
        be_value(bytes.drop_last()) * 256 + bytes.last() as nat
    }
}

/// Relies on `sha3::Keccak256::digest`: a function of the bytes alone.
#[verifier::external_body]
pub(crate) fn keccak_256(data: &[u8]) -> (r: H256)
    ensures
        r@ == keccak256_of(data@),
{
    let digest = <sha3::Keccak256 as sha3::Digest>::digest(data);
    H256 { bytes: digest.into() }
}

/// Relies on `ethereum_types::Bloom::from(BloomInput::Raw(..))`, which accrues one input into
/// an empty bloom: three bit positions taken from the input's Keccak-256 hash.
#[verifier::external_body]
pub(crate) fn input_bloom(data: &[u8]) -> (r: Bloom)
    ensures
        r@ == bloom_bits_of(data@),
{
    let bloom = ethereum_types::Bloom::from(ethereum_types::BloomInput::Raw(data));
    Bloom { bytes: bloom.0 }
}

/// Relies on `rlp::RlpStream`: a list opened for one raw item and closed by appending the
/// encoded items as that item, which prefixes the list header for the payload's length.
#[verifier::external_body]
pub(crate) fn rlp_list(payload: &[u8]) -> (r: Vec<u8>)
    ensures
        r@ == rlp_list_of(payload@),
{
    let mut stream = rlp::RlpStream::new_list(1);
    stream.append_raw(payload, 1);
    stream.out().to_vec()
}

/// Relies on `ethereum::util::ordered_trie_root`: a function of the items alone.
#[verifier::external_body]
pub(crate) fn ordered_trie_root(items: &Vec<Vec<u8>>) -> (r: H256)
    ensures
        r@ == ordered_trie_root_of(items@.map_values(|i: Vec<u8>| i@)),
{
    H256 { bytes: ethereum::util::ordered_trie_root(items.iter()).0 }
}

/// Relies on `libsecp256k1::recover` with the signature parsed by
/// `Signature::parse_overflowing_slice`, the id by `RecoveryId::parse` (which refuses ids
/// from 4 on) and the key serialised without its format byte: a function of the inputs alone.
#[verifier::external_body]
pub(crate) fn secp256k1_recover(sig: &[u8; 64], recovery_id: u8, msg: &[u8; 32]) -> (r: Option<
    [u8; 64],
>)
    ensures
        r is Some <==> secp256k1_recover_of(sig@, recovery_id, msg@) is Some,
        r is Some ==> secp256k1_recover_of(sig@, recovery_id, msg@) == Some(r->0@),
        recovery_id >= 4 ==> r is None,
{
    let signature = libsecp256k1::Signature::parse_overflowing_slice(&sig[..]).ok()?;
    let id = libsecp256k1::RecoveryId::parse(recovery_id).ok()?;
    let message = libsecp256k1::Message::parse(msg);
    let key = libsecp256k1::recover(&message, &signature, &id).ok()?.serialize();
    let mut out = [0u8; 64];
    out.copy_from_slice(&key[1..65]);
    Some(out)
}

} // verus!
