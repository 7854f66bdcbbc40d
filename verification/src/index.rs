//! The index of a string: the fingerprints of its tri-grams.

use crate::error::IndexError;
use crate::hashing::{fingerprints, hash_tri_grams, key_prefix, make_key_prefix, partition_view};
use crate::padding::{is_padding_of, pad_hashes_shared, CAPACITY};
use crate::trigram::{make_tri_grams, tri_grams};
use rand::{CryptoRng, Rng};
use std::collections::HashSet;
use std::sync::Mutex;
use vstd::prelude::*;
use vstd::utf8::encode_utf8;

verus! {

/// The longest input that is indexed, in bytes of UTF-8.
pub const MAX_STRING_LEN: usize = 200;

/// The largest number of distinct tri-grams of an input. It leaves room for
/// two random values under `CAPACITY`, so that padding always has something
/// to add.
pub const MAX_TRI_GRAMS: usize = 198;

/// The index of a text under a partition identifier and a salt, or the reason
/// why it has none.
pub open spec fn index_of(
    text: Seq<char>,
    partition_id: Option<Seq<char>>,
    salt: Seq<u8>,
) -> Result<Set<u32>, IndexError> {
    if encode_utf8(text).len() > MAX_STRING_LEN {
        Err(IndexError::InputTooLong)
    } else if tri_grams(text).len() > MAX_TRI_GRAMS {
        Err(IndexError::TooManyNGrams)
    } else {
        Ok(fingerprints(key_prefix(partition_id, salt), tri_grams(text)))
    }
}

/// Whether `result` is the outcome that `index_of` names.
pub open spec fn is_index_of(
    text: Seq<char>,
    partition_id: Option<Seq<char>>,
    salt: Seq<u8>,
    result: Result<HashSet<u32>, IndexError>,
) -> bool {
    match index_of(text, partition_id, salt) {
        Ok(expected) => result matches Ok(hashes) && hashes@ == expected,
        Err(error) => result matches Err(e) && e == error,
    }
}

/// Makes an index for the string `s` from all of its tri-grams.
///
/// The string is latinised, lower-cased and stripped of special characters
/// before it is cut into tri-grams. Each tri-gram is hashed behind the
/// partition identifier and the salt, and the hash is cut down to 32 bits,
/// read big-endian. A string of more than `MAX_STRING_LEN` bytes is refused,
/// and so is one with more than `MAX_TRI_GRAMS` distinct tri-grams.
pub fn generate_hashes_for_string(s: &str, partition_id: Option<&str>, salt: &[u8]) -> (result:
    Result<HashSet<u32>, IndexError>)
    ensures
        is_index_of(s@, partition_view(partition_id), salt@, result),
        result matches Ok(hashes) ==> (hashes@.finite() && hashes@.len() <= MAX_TRI_GRAMS),
        s@.len() == 0 ==> (result matches Ok(hashes) && hashes@.len() == 0),
{
    if s.as_bytes().len() > MAX_STRING_LEN {
        return Err(IndexError::InputTooLong);
    }
    let grams = make_tri_grams(s);
    proof {
        grams.deep_view().unique_seq_to_set();
    }
    if grams.len() > MAX_TRI_GRAMS {
        return Err(IndexError::TooManyNGrams);
    }
    let prefix = make_key_prefix(partition_id, salt);
    Ok(hash_tri_grams(prefix.as_slice(), &grams))
}

/// Two outcomes of indexing the same text under the same partition identifier
/// and salt agree: both fail with the same error, or both hold the same
/// fingerprints.
pub proof fn lemma_index_is_deterministic(
    text: Seq<char>,
    partition_id: Option<Seq<char>>,
    salt: Seq<u8>,
    first: Result<HashSet<u32>, IndexError>,
    second: Result<HashSet<u32>, IndexError>,
)
    requires
        is_index_of(text, partition_id, salt, first),
        is_index_of(text, partition_id, salt, second),
    ensures
        first matches Ok(a) ==> (second matches Ok(b) && a@ == b@),
        first matches Err(e) ==> (second matches Err(f) && e == f),
{
}

/// Makes an index for the string `s` as `generate_hashes_for_string` does, and
/// adds random entries to it, so that the size of the set does not show how
/// many tri-grams were found.
///
/// At least one random value is drawn, whatever the string, and the padded
/// set never holds more than `CAPACITY` fingerprints. The random values come
/// from `rng`, which is locked while they are drawn. If the lock is poisoned,
/// no set is handed out.
pub fn generate_hashes_for_string_with_padding<R: Rng + CryptoRng>(
    s: &str,
    partition_id: Option<&str>,
    salt: &[u8],
    rng: &Mutex<R>,
) -> (result: Result<HashSet<u32>, IndexError>)
    ensures
        match index_of(s@, partition_view(partition_id), salt@) {
            Ok(genuine) => (result matches Err(e) && e == IndexError::RandomSourcePoisoned) || (
            result matches Ok(padded) && is_padding_of(genuine, padded@) && genuine.subset_of(
                padded@,
            )),
            Err(error) => result matches Err(e) && e == error,
        },
        result matches Ok(padded) ==> (padded@.finite() && 1 <= padded@.len() <= CAPACITY),
{
    match generate_hashes_for_string(s, partition_id, salt) {
        Err(error) => Err(error),
        Ok(hashes) => pad_hashes_shared(hashes, rng),
    }
}

} // verus!
