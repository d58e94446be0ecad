//! The opaque uniform random source used for grid seeding.

use vstd::prelude::*;

verus! {

/// Relies on rand::random: one fresh draw from the thread-local generator,
/// uniform over the whole type. Nothing can be promised of the value, so the
/// specification promises nothing; callers state what holds of every outcome.
pub assume_specification<T>[ rand::random::<T> ]() -> (r: T)
    where
        rand::distributions::Standard: rand::distributions::Distribution<T>,
;

} // verus!
