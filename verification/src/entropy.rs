//! The two sources of randomness that the library draws from. Nothing is
//! proved of either: each contract states what the called function's source
//! shows of every outcome.

use rand::Rng;
use vstd::prelude::*;

verus! {

/// A number below `bound`, drawn uniformly.
///
/// Calls `rand::Rng::gen_range` on the generator of the current thread
/// (`rand::thread_rng`) with the range `0..bound`. That function panics on
/// an empty range, which `bound > 0` leaves out, and returns a member of the
/// range; two calls may differ, so nothing else is claimed.
#[verifier::external_body]
pub(crate) fn draw_below(bound: u64) -> (r: u64)
    requires
        bound > 0,
    ensures
        r < bound,
{
    rand::thread_rng().gen_range(0..bound)
}

/// The bytes of a freshly drawn account identifier.
///
/// Calls `solana_sdk::pubkey::new_rand`, which fills the 32 bytes from the
/// thread's generator. Any value may come back, a repeated one included, so
/// the contract claims nothing.
#[verifier::external_body]
pub(crate) fn fresh_key_bytes() -> (bytes: [u8; 32]) {
    solana_sdk::pubkey::new_rand().to_bytes()
}

} // verus!
