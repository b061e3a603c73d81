//! Fresh key material for reseeding.
//!
//! Reseeding replaces the hash key with words drawn from the operating
//! system's entropy source.  Nothing can be promised about the values
//! drawn; the engine only relies on being told whether the source could
//! be read at all, and falls back to no silent default when it cannot.

use vstd::prelude::*;

verus! {

/// Relies on `getrandom::getrandom`: fills the buffer from the
/// operating system's entropy source and reports failure as an error
/// instead of returning weak bytes.
#[verifier::external_body]
pub(crate) fn entropy_u64() -> (r: Result<u64, ()>) {
    let mut buf = [0u8; 8];
    match getrandom::getrandom(&mut buf) {
        Ok(()) => Ok(u64::from_le_bytes(buf)),
        Err(_) => Err(()),
    }
}

} // verus!
