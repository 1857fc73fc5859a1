//! Reproducible test-data generation: a fixed-seed pseudo-random byte
//! sequence, supplied by the `rand` crate.

use rand::{RngExt, SeedableRng};
use vstd::prelude::*;

verus! {

/// The byte sequence the fixed-seed generator yields for a given size: a
/// pure function of the size alone, since the seed is a constant and the
/// generator's keystream depends on the seed alone.
pub uninterp spec fn seeded_bytes(size: nat) -> Seq<u8>;

/// Relies on rand's `StdRng::seed_from_u64` and `RngExt::fill`: filling a
/// buffer of `size` bytes from a generator seeded with a fixed seed. Seed
/// and generator are fixed, so the result is a function of `size` alone —
/// repeated calls with one size yield the one sequence named
/// `seeded_bytes`. Nothing further is claimed of the byte values.
#[verifier::external_body]
pub fn arrange_deterministic_random_sequence(size: usize) -> (bytes: Vec<u8>)
    ensures
        bytes@ == seeded_bytes(size as nat),
        bytes@.len() == size,
{
    let mut small_rng = rand::rngs::StdRng::seed_from_u64(0_u64);
    let mut bytes = vec![0_u8; size];
    small_rng.fill(&mut bytes[..]);
    bytes
}

} // verus!
