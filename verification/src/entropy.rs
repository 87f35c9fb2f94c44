//! The source of random material for grant codes and tokens.
//!
//! Opaque strings carry 128 bits of fresh randomness each, drawn through
//! `rand`.  A random draw depends on nothing the caller controls, so its
//! contract promises nothing about the value; everything the stores need
//! (uniqueness) rests on their serials instead.

use vstd::prelude::*;

verus! {

/// Relies on rand's `random`: one draw from the thread-local
/// cryptographically secure generator.  Nothing holds of the value on
/// every draw, so nothing is promised.
pub assume_specification<T>[ rand::random::<T> ]() -> (r: T)
    where rand::distributions::Standard: rand::distributions::Distribution<T>,
;

} // verus!
