//! Random padding of a fingerprint set, so that its size does not give away
//! the number of tri-grams behind it.

use crate::error::IndexError;
use rand::distributions::Uniform;
use rand::{CryptoRng, Rng};
use std::collections::HashSet;
use std::sync::{Mutex, MutexGuard};
use vstd::prelude::*;
use vstd::set_lib::{lemma_len_subset, lemma_len_union, lemma_set_subset_finite};

verus! {

/// `std::sync::Mutex`, which guards the shared random source.
#[verifier::external_type_specification]
#[verifier::external_body]
#[verifier::reject_recursive_types(T)]
pub struct ExMutex<T: ?Sized>(Mutex<T>);

/// `std::sync::MutexGuard`, which stands for a held lock and gives it back
/// when it is dropped.
#[verifier::external_type_specification]
#[verifier::external_body]
#[verifier::reject_recursive_types(T)]
pub struct ExMutexGuard<'a, T: ?Sized + 'a>(MutexGuard<'a, T>);

/// The largest number of fingerprints in a set, with or without padding.
pub const CAPACITY: usize = 200;

/// The largest tier roll.
pub const MAX_TIER_ROLL: u8 = 200;

/// The largest number of random values that a tier roll allows: 199 for one
/// roll in two hundred, 29 for the next four, 9 for the next forty-five and 4
/// for the rest.
pub open spec fn spec_max_pad_count(tier_roll: u8) -> u8 {
    if tier_roll <= 1 {
        199
    } else if tier_roll <= 5 {
        29
    } else if tier_roll <= 50 {
        9
    } else {
        4
    }
}

/// The number of random values to draw for a set of `current` entries when
/// `to_add` were asked for: no more than fit under `CAPACITY`.
pub open spec fn spec_padding_len(current: nat, to_add: u8) -> nat {
    if current >= CAPACITY {
        0
    } else if CAPACITY - current < to_add {
        (CAPACITY - current) as nat
    } else {
        to_add as nat
    }
}

/// Whether `padded` is `genuine` with padding: with the random values of some
/// draw, as many as `spec_padding_len` allows for a wish of 1 to 199.
pub open spec fn is_padding_of(genuine: Set<u32>, padded: Set<u32>) -> bool {
    exists|to_add: u8, noise: Seq<u32>|
        #![trigger spec_padding_len(genuine.len(), to_add), noise.to_set()]
        1 <= to_add <= 199 && noise.len() == spec_padding_len(genuine.len(), to_add) && padded
            == genuine.union(noise.to_set())
}

/// `Mutex::lock` waits until the lock is free and takes it. It fails if a
/// thread panicked while holding the lock; then nothing is handed out.
#[verifier::external_body]
fn take_lock<'a, T>(m: &'a Mutex<T>) -> (guard: Option<MutexGuard<'a, T>>) {
    m.lock().ok()
}

/// `MutexGuard::deref_mut` gives access to what the held lock guards.
#[verifier::external_body]
fn guarded<'a, 'b, T>(guard: &'a mut MutexGuard<'b, T>) -> (value: &'a mut T) {
    &mut **guard
}

/// `Rng::sample` with `Uniform::new_inclusive(low, high)` draws a value
/// between `low` and `high`, both included. `Uniform::new_inclusive` panics
/// if `low` is above `high`.
#[verifier::external_body]
fn sample_inclusive<R: Rng>(rng: &mut R, low: u8, high: u8) -> (drawn: u8)
    requires
        low <= high,
    ensures
        low <= drawn <= high,
{
    rng.sample(Uniform::new_inclusive(low, high))
}

/// `Rng::gen_range` draws a value from `low` up to, but not including, `high`.
/// It panics unless `low` is below `high`.
#[verifier::external_body]
fn gen_range<R: Rng>(rng: &mut R, low: u8, high: u8) -> (drawn: u8)
    requires
        low < high,
    ensures
        low <= drawn < high,
{
    rng.gen_range(low, high)
}

/// `Rng::sample_iter` with `Uniform::new_inclusive(low, high)` draws values
/// between `low` and `high`, both included, without end; the first `count`
/// are taken. `Uniform::new_inclusive` panics if `low` is above `high`.
#[verifier::external_body]
fn sample_many<R: Rng>(rng: &mut R, low: u32, high: u32, count: usize) -> (drawn: Vec<u32>)
    requires
        low <= high,
    ensures
        drawn.len() == count,
        forall|i: int| 0 <= i < count ==> low <= #[trigger] drawn[i] <= high,
{
    rng.sample_iter(Uniform::new_inclusive(low, high)).take(count).collect()
}

/// The largest pad count for a tier roll.
pub fn max_pad_count(tier_roll: u8) -> (count: u8)
    ensures
        count == spec_max_pad_count(tier_roll),
{
    if tier_roll <= 1 {
        199
    } else if tier_roll <= 5 {
        29
    } else if tier_roll <= 50 {
        9
    } else {
        4
    }
}

/// Cuts a wished pad count down to the room that is left under `CAPACITY`.
/// Where there is room and something is wished for, something is left.
pub fn padding_len(current_len: usize, to_add: u8) -> (len: usize)
    ensures
        len == spec_padding_len(current_len as nat, to_add),
        current_len + len <= CAPACITY || len == 0,
        current_len < CAPACITY && to_add >= 1 ==> len >= 1,
{
    if current_len >= CAPACITY {
        0
    } else if CAPACITY - current_len < to_add as usize {
        CAPACITY - current_len
    } else {
        to_add as usize
    }
}

/// Puts the values of `noise` into a fingerprint set. A value that is there
/// already changes nothing.
pub fn add_padding(hashes: HashSet<u32>, noise: &Vec<u32>) -> (padded: HashSet<u32>)
    ensures
        padded@ == hashes@.union(noise@.to_set()),
{
    let mut padded = hashes;
    let mut k: usize = 0;
    while k < noise.len()
        invariant
            k <= noise.len(),
            padded@ == hashes@.union(noise@.take(k as int).to_set()),
        decreases noise.len() - k,
    {
        proof {
            assert(noise@.take(k + 1) =~= noise@.take(k as int).push(noise[k as int]));
            noise@.take(k as int).lemma_push_to_set_commute(noise[k as int]);
        }
        padded.insert(noise[k]);
        k += 1;
    }
    proof {
        assert(noise@.take(noise.len() as int) == noise@);
    }
    padded
}

/// Every set of fingerprints is finite.
pub proof fn lemma_fingerprint_sets_are_finite(hashes: Set<u32>)
    ensures
        hashes.finite(),
{
    lemma_set_subset_finite(Set::<u32>::full(), hashes);
}

/// A padded set holds every genuine fingerprint, is never empty, and stays
/// within `CAPACITY` if the genuine set did.
pub proof fn lemma_padding_bounds(genuine: Set<u32>, padded: Set<u32>)
    requires
        genuine.len() <= CAPACITY,
        is_padding_of(genuine, padded),
    ensures
        genuine.subset_of(padded),
        padded.finite(),
        1 <= padded.len() <= CAPACITY,
{
    let (to_add, noise) = choose|to_add: u8, noise: Seq<u32>|
        #![trigger spec_padding_len(genuine.len(), to_add), noise.to_set()]
        1 <= to_add <= 199 && noise.len() == spec_padding_len(genuine.len(), to_add) && padded
            == genuine.union(noise.to_set());
    lemma_fingerprint_sets_are_finite(genuine);
    noise.lemma_cardinality_of_set();
    lemma_len_union(genuine, noise.to_set());
    lemma_len_subset(genuine, padded);
    if genuine.len() == 0 {
        assert(padded.contains(noise[0]));
    }
}

/// Adds random entries to a fingerprint set: a tier is rolled, the tier gives
/// the range from which the pad count is drawn, the count is cut down to the
/// room left under `CAPACITY`, and that many values are drawn from all of
/// `u32`. Padding never fails.
pub fn pad_hashes<R: Rng + CryptoRng>(hashes: HashSet<u32>, rng: &mut R) -> (padded: HashSet<u32>)
    ensures
        is_padding_of(hashes@, padded@),
        hashes@.subset_of(padded@),
        padded@.finite(),
        hashes@.len() <= CAPACITY ==> 1 <= padded@.len() <= CAPACITY,
{
    let tier_roll = sample_inclusive(rng, 1, MAX_TIER_ROLL);
    let to_add = gen_range(rng, 1, max_pad_count(tier_roll) + 1);
    let count = padding_len(hashes.len(), to_add);
    let noise = sample_many(rng, 0, u32::MAX, count);
    let ghost genuine = hashes@;
    let padded = add_padding(hashes, &noise);
    proof {
        lemma_fingerprint_sets_are_finite(padded@);
        if genuine.len() <= CAPACITY {
            lemma_padding_bounds(genuine, padded@);
        }
    }
    padded
}

/// Adds random entries to a fingerprint set as `pad_hashes` does, from a
/// random source that is shared behind a lock. The lock is taken once and
/// held for all the draws. If it is poisoned, there is no padding and no set.
pub fn pad_hashes_shared<R: Rng + CryptoRng>(hashes: HashSet<u32>, rng: &Mutex<R>) -> (result:
    Result<HashSet<u32>, IndexError>)
    ensures
        (result matches Err(e) && e == IndexError::RandomSourcePoisoned) || (result matches Ok(
            padded,
        ) && is_padding_of(hashes@, padded@)),
        result matches Ok(padded) ==> (hashes@.subset_of(padded@) && padded@.finite()),
        result matches Ok(padded) ==> (hashes@.len() <= CAPACITY ==> 1 <= padded@.len()
            <= CAPACITY),
{
    match take_lock(rng) {
        None => Err(IndexError::RandomSourcePoisoned),
        Some(mut guard) => Ok(pad_hashes(hashes, guarded(&mut guard))),
    }
}

} // verus!
