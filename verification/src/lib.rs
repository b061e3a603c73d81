//! A text stylizer that rewrites plain text into a playful "uwu" dialect.
//!
//! The engine splits its input into lines and whitespace-delimited tokens,
//! derives a deterministic random stream for every token from a keyed hash,
//! and then decides, per token, whether to prepend a face, an action or a
//! stutter and whether to respell the token's letters.  Tokens that look
//! like URLs or email addresses keep their spelling.

use vstd::prelude::*;

pub mod catalog;
pub mod engine;
pub mod entropy;
pub mod laws;
pub mod links;
pub mod rng;
pub mod seeder;
pub mod substitute;
pub mod text;
pub mod tokenize;

verus! {

/// Fixed-point scale for the four rate dials: a rate of `RATE_ONE`
/// means "always", a rate of `0` means "never".
pub const RATE_ONE: u64 = 1000000;

/// The two ways the engine can fail: the entropy source could not be
/// read during a reseed, or an output sink refused a write.  Nothing
/// else is an error; any character sequence is acceptable input.
#[derive(Clone, Copy, PartialEq, Eq, Structural, Debug)]
pub enum UwuError {
    EntropyUnavailable,
    WriteFailure,
}

} // verus!
