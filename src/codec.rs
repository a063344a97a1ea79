//! SCALE encoding and decoding of the values this crate stores, through `parity-scale-codec`.
use vstd::prelude::*;

use crate::types::H256;

verus! {

/// What SCALE decoding of a list of 32-byte hashes makes of the bytes (`None`: it fails).
pub uninterp spec fn scale_hash_list_of(bytes: Seq<u8>) -> Option<Seq<H256>>;

/// What SCALE decoding of a list of (32-byte hash, `u32`) pairs makes of the bytes.
pub uninterp spec fn scale_metadata_list_of(bytes: Seq<u8>) -> Option<Seq<(H256, u32)>>;

/// What SCALE decoding of a (`u8` tag, 32-byte hash, list of 32-byte hashes) triple makes of
/// the bytes.
pub uninterp spec fn scale_end_block_of(bytes: Seq<u8>) -> Option<(u8, H256, Seq<H256>)>;

/// The SCALE encoding of a list of 32-byte hashes.
pub uninterp spec fn scale_hash_list_bytes_of(hashes: Seq<H256>) -> Seq<u8>;

/// The SCALE encoding of a list of (32-byte hash, `u32`) pairs.
pub uninterp spec fn scale_metadata_list_bytes_of(items: Seq<(H256, u32)>) -> Seq<u8>;

/// The SCALE encoding of a (`u8` tag, 32-byte hash, list of 32-byte hashes) triple.
pub uninterp spec fn scale_end_block_bytes_of(tag: u8, block_hash: H256, hashes: Seq<H256>) -> Seq<
    u8,
>;

/// Relies on `<Vec<[u8; 32]> as Decode>::decode`: the outcome depends on the bytes alone,
/// and each hash takes 32 bytes of the input.
#[verifier::external_body]
pub(crate) fn decode_hash_list(bytes: &[u8]) -> (r: Option<Vec<H256>>)
    ensures
        r is Some <==> scale_hash_list_of(bytes@) is Some,
        r is Some ==> Some(r->0@) == scale_hash_list_of(bytes@),
        r is Some ==> 32 * r->0@.len() <= bytes@.len(),
{
    let mut input = bytes;
    <Vec<[u8; 32]> as parity_scale_codec::Decode>::decode(&mut input).ok().map(
        |v| v.into_iter().map(|b| H256 { bytes: b }).collect(),
    )
}

/// Relies on `<Vec<[u8; 32]> as Encode>::encode`: a function of the list alone, whose output
/// decodes back to the same list. It panics on more than `u32::MAX` items.
#[verifier::external_body]
pub(crate) fn encode_hash_list(hashes: &Vec<H256>) -> (r: Vec<u8>)
    requires
        hashes@.len() <= u32::MAX,
    ensures
        r@ == scale_hash_list_bytes_of(hashes@),
        scale_hash_list_of(r@) == Some(hashes@),
{
    let v: Vec<[u8; 32]> = hashes.iter().map(|h| h.bytes).collect();
    parity_scale_codec::Encode::encode(&v)
}

/// Relies on `<Vec<([u8; 32], u32)> as Decode>::decode`: the outcome depends on the bytes
/// alone, and each pair takes 36 bytes of the input.
#[verifier::external_body]
pub(crate) fn decode_metadata_list(bytes: &[u8]) -> (r: Option<Vec<(H256, u32)>>)
    ensures
        r is Some <==> scale_metadata_list_of(bytes@) is Some,
        r is Some ==> Some(r->0@) == scale_metadata_list_of(bytes@),
        r is Some ==> 36 * r->0@.len() <= bytes@.len(),
{
    let mut input = bytes;
    <Vec<([u8; 32], u32)> as parity_scale_codec::Decode>::decode(&mut input).ok().map(
        |v| v.into_iter().map(|(b, i)| (H256 { bytes: b }, i)).collect(),
    )
}

/// Relies on `<Vec<([u8; 32], u32)> as Encode>::encode`: a function of the list alone, whose
/// output decodes back to the same list. It panics on more than `u32::MAX` items.
#[verifier::external_body]
pub(crate) fn encode_metadata_list(items: &Vec<(H256, u32)>) -> (r: Vec<u8>)
    requires
        items@.len() <= u32::MAX,
    ensures
        r@ == scale_metadata_list_bytes_of(items@),
        scale_metadata_list_of(r@) == Some(items@),
{
    let v: Vec<([u8; 32], u32)> = items.iter().map(|(h, i)| (h.bytes, *i)).collect();
    parity_scale_codec::Encode::encode(&v)
}

/// Relies on `<(u8, [u8; 32], Vec<[u8; 32]>) as Decode>::decode`: the outcome depends on the
/// bytes alone.
#[verifier::external_body]
pub(crate) fn decode_end_block(bytes: &[u8]) -> (r: Option<(u8, H256, Vec<H256>)>)
    ensures
        r is Some <==> scale_end_block_of(bytes@) is Some,
        r is Some ==> scale_end_block_of(bytes@) == Some(((r->0).0, (r->0).1, (r->0).2@)),
{
    let mut input = bytes;
    <(u8, [u8; 32], Vec<[u8; 32]>) as parity_scale_codec::Decode>::decode(&mut input).ok().map(
        |(t, b, v)| (t, H256 { bytes: b }, v.into_iter().map(|x| H256 { bytes: x }).collect()),
    )
}

/// Relies on `<(u8, [u8; 32], Vec<[u8; 32]>) as Encode>::encode`: a function of the triple
/// alone, whose output decodes back to the same triple. It panics on more than `u32::MAX`
/// hashes.
#[verifier::external_body]
pub(crate) fn encode_end_block(tag: u8, block_hash: &H256, hashes: &Vec<H256>) -> (r: Vec<u8>)
    requires
        hashes@.len() <= u32::MAX,
    ensures
        r@ == scale_end_block_bytes_of(tag, *block_hash, hashes@),
        scale_end_block_of(r@) == Some((tag, *block_hash, hashes@)),
{
    let v: Vec<[u8; 32]> = hashes.iter().map(|h| h.bytes).collect();
    parity_scale_codec::Encode::encode(&(tag, block_hash.bytes, v))
}

} // verus!
