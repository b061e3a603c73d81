//! The per-token seeder.
//!
//! Each token's characters are hashed under a 256-bit key; the hash
//! seeds the generator in `rng`, and every random draw the token
//! receives follows from that seed.  Identical token and identical key
//! therefore always give identical draws, whatever surrounds the token.

use vstd::prelude::*;

verus! {

/// The four 64-bit words of the keyed-hash seed.
#[derive(Clone, Copy, PartialEq, Eq, Structural, Debug)]
pub struct HashKey {
    pub k0: u64,
    pub k1: u64,
    pub k2: u64,
    pub k3: u64,
}

/// The 64-bit keyed hash of a character sequence under the four key
/// words: a fixed function of its five arguments.
pub uninterp spec fn keyed_hash(k0: u64, k1: u64, k2: u64, k3: u64, s: Seq<char>) -> u64;

/// Relies on `ahash::RandomState::with_seeds` and `hash_one`: a state
/// built with explicit seeds is fixed (not per-process random), so the
/// hash depends only on the four seed words and the hashed text.
#[verifier::external_body]
pub(crate) fn hash_token(key: &HashKey, tok: &Vec<char>) -> (h: u64)
    ensures
        h == keyed_hash(key.k0, key.k1, key.k2, key.k3, tok@),
{
    let text: String = tok.iter().collect();
    ahash::RandomState::with_seeds(key.k0, key.k1, key.k2, key.k3).hash_one(text)
}

} // verus!
