//! Random values, drawn by the `rand` crate.
use vstd::prelude::*;

verus! {

/// Calls `rand::random::<bool>()`: a boolean drawn at random. Nothing is promised of its value.
#[verifier::external_body]
pub fn random_bool() -> bool {
    rand::random::<bool>()
}

/// Calls `rand::random::<u64>()`: a `u64` drawn at random. Nothing is promised of its value.
#[verifier::external_body]
pub fn random_u64() -> u64 {
    rand::random::<u64>()
}

/// Calls `rand::random::<u8>()`: a `u8` drawn at random. Nothing is promised of its value.
#[verifier::external_body]
pub fn random_u8() -> u8 {
    rand::random::<u8>()
}

/// Calls `rand::random::<usize>()`: a `usize` drawn at random. Nothing is promised of its value.
#[verifier::external_body]
pub fn random_usize() -> usize {
    rand::random::<usize>()
}

} // verus!
