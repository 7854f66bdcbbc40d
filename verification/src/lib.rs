//! Blind search index generation.
//!
//! A string is normalised, cut into tri-grams, and every tri-gram is hashed
//! together with a partition identifier and a salt. The resulting set of 32-bit
//! fingerprints can be stored by a party that never sees the text, and may be
//! padded with random values so that its size does not reveal how many
//! tri-grams the text had.
//!
//! The stages, each in a module of its own:
//!
//! - `normalize` drops special characters and transliterates the rest;
//! - `trigram` cuts the normalised text into words and the words into
//!   tri-grams;
//! - `hashing` turns a tri-gram into a fingerprint;
//! - `padding` adds random fingerprints to a set;
//! - `index` puts them together and holds the limits.

pub mod error;
pub mod hashing;
pub mod index;
pub mod normalize;
pub mod padding;
pub mod trigram;

pub use error::IndexError;
pub use hashing::{as_u32_be, short_hash};
pub use index::{generate_hashes_for_string, generate_hashes_for_string_with_padding};
pub use normalize::{char_to_trans, normalize, should_keep_char};
pub use padding::{pad_hashes, pad_hashes_shared};
pub use trigram::{make_tri_grams, trigrams_of_words, word_to_trigrams};
