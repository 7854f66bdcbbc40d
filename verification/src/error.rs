//! The ways in which index generation fails.

use vstd::prelude::*;

verus! {

/// The description of `IndexError::InputTooLong`.
pub const INPUT_TOO_LONG: &'static str =
    "The input string is too long. Only strings of no more than 200 bytes are supported.";

/// The description of `IndexError::TooManyNGrams`.
pub const TOO_MANY_N_GRAMS: &'static str =
    "The input string has too many tri-grams. No more than 198 distinct ones are supported.";

/// The description of `IndexError::RandomSourcePoisoned`.
pub const RANDOM_SOURCE_POISONED: &'static str = "The lock around the random source is poisoned.";

/// Why no fingerprint set was produced.
#[derive(Debug, Clone, Copy, PartialEq, Eq, Structural)]
pub enum IndexError {
    /// The input string takes more bytes than are supported.
    InputTooLong,
    /// The input string has more distinct tri-grams than are supported.
    TooManyNGrams,
    /// The lock around the shared random source was poisoned: a thread
    /// panicked while it drew from the source, and no padding is drawn from
    /// what it left behind.
    RandomSourcePoisoned,
}

impl IndexError {
    /// The text that `message` gives.
    pub open spec fn spec_message(self) -> Seq<char> {
        match self {
            IndexError::InputTooLong => INPUT_TOO_LONG@,
            IndexError::TooManyNGrams => TOO_MANY_N_GRAMS@,
            IndexError::RandomSourcePoisoned => RANDOM_SOURCE_POISONED@,
        }
    }

    /// A description of the error for people.
    pub fn message(&self) -> (text: String)
        ensures
            text@ == self.spec_message(),
    {
        match self {
            IndexError::InputTooLong => INPUT_TOO_LONG.to_owned(),
            IndexError::TooManyNGrams => TOO_MANY_N_GRAMS.to_owned(),
            IndexError::RandomSourcePoisoned => RANDOM_SOURCE_POISONED.to_owned(),
        }
    }
}

} // verus!
