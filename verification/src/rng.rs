//! The machine's one source of randomness.

use vstd::prelude::*;

verus! {

/// Relies on `rand::random`: draws a value from the thread-local generator
/// under the standard distribution.  Nothing is promised of the result; the
/// `Rand` instruction's semantics holds for every byte that comes back.
pub assume_specification<T>[ rand::random::<T> ]() -> (r: T)
    where
        rand::distributions::Standard: rand::distributions::Distribution<T>,
;

} // verus!
