//! Keyed hashing of tri-grams down to 32-bit fingerprints.

use sha2::{Digest, Sha256};
use std::collections::HashSet;
use vstd::prelude::*;
use vstd::set_lib::lemma_map_size_bound;
use vstd::utf8::encode_utf8;

verus! {

/// The SHA-256 digest of a message.
pub uninterp spec fn sha256(data: Seq<u8>) -> Seq<u8>;

/// `sha2::Sha256::digest` makes a fresh hasher, feeds it the whole message
/// and finalises it. The digest is 32 bytes and depends on the message alone.
#[verifier::external_body]
fn sha256_digest(data: &[u8]) -> (digest: [u8; 32])
    ensures
        digest@ == sha256(data@),
{
    Sha256::digest(data).into()
}

/// The number that the first four bytes of `bytes` spell, most significant
/// byte first.
pub open spec fn be_u32(bytes: Seq<u8>) -> u32 {
    (bytes[0] * 0x100_0000 + bytes[1] * 0x1_0000 + bytes[2] * 0x100 + bytes[3]) as u32
}

/// What is hashed ahead of every tri-gram: the bytes of the partition
/// identifier, where there is one, and then the salt.
pub open spec fn key_prefix(partition_id: Option<Seq<char>>, salt: Seq<u8>) -> Seq<u8> {
    match partition_id {
        Some(id) => encode_utf8(id) + salt,
        None => salt,
    }
}

/// The fingerprint of a word under a key prefix: the leading four bytes of
/// the digest of prefix and word, read big-endian.
pub open spec fn fingerprint(prefix: Seq<u8>, word: Seq<u8>) -> u32 {
    be_u32(sha256(prefix + word))
}

/// The fingerprints of a set of tri-grams under a key prefix.
pub open spec fn fingerprints(prefix: Seq<u8>, grams: Set<Seq<char>>) -> Set<u32> {
    grams.map(|gram: Seq<char>| fingerprint(prefix, encode_utf8(gram)))
}

/// The partition identifier as the contracts see it.
pub open spec fn partition_view(partition_id: Option<&str>) -> Option<Seq<char>> {
    match partition_id {
        Some(id) => Some(id@),
        None => None,
    }
}

/// Reads the four leading bytes of a digest as a big-endian `u32`; the other
/// 28 bytes play no part.
pub fn as_u32_be(slice: &[u8; 32]) -> (value: u32)
    ensures
        value == be_u32(slice@),
{
    let b0: u8 = slice[0];
    let b1: u8 = slice[1];
    let b2: u8 = slice[2];
    let b3: u8 = slice[3];
    assert((b0 as u32) << 24 == b0 * 0x100_0000) by (bit_vector);
    assert((b1 as u32) << 16 == b1 * 0x1_0000) by (bit_vector);
    assert((b2 as u32) << 8 == b2 * 0x100) by (bit_vector);
    ((b0 as u32) << 24) + ((b1 as u32) << 16) + ((b2 as u32) << 8) + (b3 as u32)
}

/// Appends a run of bytes to a buffer.
fn append_bytes(buffer: &mut Vec<u8>, bytes: &[u8])
    ensures
        final(buffer)@ == old(buffer)@ + bytes@,
{
    buffer.extend_from_slice(bytes);
}

/// The key prefix for a partition identifier and a salt.
pub fn make_key_prefix(partition_id: Option<&str>, salt: &[u8]) -> (prefix: Vec<u8>)
    ensures
        prefix@ == key_prefix(partition_view(partition_id), salt@),
{
    let mut prefix: Vec<u8> = Vec::new();
    match partition_id {
        Some(id) => {
            append_bytes(&mut prefix, id.as_bytes());
        },
        None => {},
    }
    append_bytes(&mut prefix, salt);
    prefix
}

/// Hashes a word behind a key prefix and cuts the digest down to 32 bits.
pub fn short_hash(prefix: &[u8], word: &[u8]) -> (hash: u32)
    ensures
        hash == fingerprint(prefix@, word@),
{
    let mut message: Vec<u8> = Vec::new();
    append_bytes(&mut message, prefix);
    append_bytes(&mut message, word);
    let digest = sha256_digest(message.as_slice());
    as_u32_be(&digest)
}

/// The fingerprints of a list of tri-grams under a key prefix. Equal
/// fingerprints of different tri-grams fall together.
pub fn hash_tri_grams(prefix: &[u8], grams: &Vec<String>) -> (hashes: HashSet<u32>)
    ensures
        hashes@ == fingerprints(prefix@, grams.deep_view().to_set()),
        hashes@.finite(),
        hashes@.len() <= grams.deep_view().to_set().len(),
{
    let ghost hash_of = |gram: Seq<char>| fingerprint(prefix@, encode_utf8(gram));
    let mut hashes: HashSet<u32> = HashSet::new();
    let mut k: usize = 0;
    while k < grams.len()
        invariant
            k <= grams.len(),
            hash_of == |gram: Seq<char>| fingerprint(prefix@, encode_utf8(gram)),
            hashes@ == grams.deep_view().take(k as int).to_set().map(hash_of),
        decreases grams.len() - k,
    {
        let hash = short_hash(prefix, grams[k].as_str().as_bytes());
        proof {
            let done = grams.deep_view().take(k as int);
            assert(grams.deep_view().take(k + 1) =~= done.push(grams[k as int]@));
            done.lemma_push_to_set_commute(grams[k as int]@);
            done.to_set().lemma_set_map_insert_commute(grams[k as int]@, hash_of);
        }
        hashes.insert(hash);
        k += 1;
    }
    proof {
        assert(grams.deep_view().take(grams.len() as int) == grams.deep_view());
        lemma_map_size_bound(grams.deep_view().to_set(), hashes@, hash_of);
    }
    hashes
}

} // verus!
