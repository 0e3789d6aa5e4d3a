//! Pseudo-random bytes for genomes and lock identifiers.
//!
//! The bytes are a digest of three things: the seed of the current block, the
//! account that asks, and the index of the extrinsic that is being executed.
//! All three are public, so the outcome can be predicted by anyone who knows
//! them: it is repeatable, not secret.

use crate::types::AccountId;
use parity_scale_codec::Encode;
use vstd::bytes::{spec_u32_to_le_bytes, spec_u64_to_le_bytes};
use vstd::prelude::*;

verus! {

/// The BLAKE2b digest of sixteen bytes, without key, of `data`.
pub uninterp spec fn blake2_128_of(data: Seq<u8>) -> [u8; 16];

/// The XXH64 hash of `data` under seed zero, in eight bytes, low byte first.
pub uninterp spec fn twox_64_of(data: Seq<u8>) -> [u8; 8];

/// The SCALE encoding of an optional extrinsic index: a zero byte for none,
/// else a one byte and the index in four bytes, low byte first.
pub open spec fn encoded_index(extrinsic_index: Option<u32>) -> Seq<u8> {
    match extrinsic_index {
        None => seq![0u8],
        Some(index) => seq![1u8] + spec_u32_to_le_bytes(index),
    }
}

/// The SCALE encoding of the triple of seed, account and extrinsic index: the
/// seed as it is, the account in eight bytes, low byte first, then the index.
pub open spec fn payload(seed: Seq<u8>, sender: AccountId, extrinsic_index: Option<u32>) -> Seq<u8> {
    seed + spec_u64_to_le_bytes(sender) + encoded_index(extrinsic_index)
}

/// The sixteen bytes that `random_value` derives.
pub open spec fn random_value_of(
    seed: Seq<u8>,
    sender: AccountId,
    extrinsic_index: Option<u32>,
) -> [u8; 16] {
    blake2_128_of(payload(seed, sender, extrinsic_index))
}

/// The eight bytes that `random_lock_id` derives.
pub open spec fn random_lock_id_of(
    seed: Seq<u8>,
    sender: AccountId,
    extrinsic_index: Option<u32>,
) -> [u8; 8] {
    twox_64_of(payload(seed, sender, extrinsic_index))
}

/// Calls `parity_scale_codec::Encode::encode` on the triple. Trusted: the
/// codec writes a tuple as its fields one after the other, an array of bytes
/// as those bytes, a `u64` and a `u32` low byte first, and an `Option` as a
/// zero byte or a one byte followed by the value.
#[verifier::external_body]
fn encode_payload(seed: &[u8; 32], sender: &AccountId, extrinsic_index: Option<u32>) -> (bytes: Vec<u8>)
    ensures
        bytes@ == payload(seed@, *sender, extrinsic_index),
{
    (seed, sender, extrinsic_index).encode()
}

/// Calls `sp_io::hashing::blake2_128`. Trusted: the digest depends on the
/// bytes alone.
#[verifier::external_body]
fn blake2_128(data: &Vec<u8>) -> (digest: [u8; 16])
    ensures
        digest == blake2_128_of(data@),
{
    sp_io::hashing::blake2_128(data.as_slice())
}

/// Calls `sp_io::hashing::twox_64`. Trusted: the digest depends on the bytes
/// alone.
#[verifier::external_body]
fn twox_64(data: &Vec<u8>) -> (digest: [u8; 8])
    ensures
        digest == twox_64_of(data@),
{
    sp_io::hashing::twox_64(data.as_slice())
}

/// Derives sixteen bytes from the block's seed, the account that asks and the
/// index of the extrinsic. The same three inputs always give the same bytes.
pub fn random_value(seed: &[u8; 32], sender: &AccountId, extrinsic_index: Option<u32>) -> (dna: [u8; 16])
    ensures
        dna == random_value_of(seed@, *sender, extrinsic_index),
{
    let payload = encode_payload(seed, sender, extrinsic_index);
    blake2_128(&payload)
}

/// Derives eight bytes for a lock identifier from the same three inputs.
pub fn random_lock_id(seed: &[u8; 32], sender: &AccountId, extrinsic_index: Option<u32>) -> (id: [u8; 8])
    ensures
        id == random_lock_id_of(seed@, *sender, extrinsic_index),
{
    let payload = encode_payload(seed, sender, extrinsic_index);
    twox_64(&payload)
}

} // verus!
