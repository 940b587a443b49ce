//! The randomness collaborator: uniformly random field scalars from
//! the operating system's entropy source.
//!
//! Nothing can be promised of a random draw, so the verified callers
//! state what holds of every outcome and take the drawn scalars as
//! plain arguments.

use vstd::prelude::*;
use rand_core::OsRng;
use rand_core::RngCore;
use crate::field::Fp;

verus! {

/// Relies on `rand_core::OsRng::next_u64` for one machine word of OS
/// randomness.  Its result depends on the entropy source, so nothing
/// is stated of it; the call panics only if the operating system's
/// randomness source itself fails.
#[verifier::external_body]
fn os_next_u64() -> (r: u64) {
    OsRng.next_u64()
}

/// Draws one uniformly random field scalar.
pub fn sample_scalar() -> (r: Fp)
    ensures
        r.wf(),
{
    Fp::new(os_next_u64())
}

/// Draws a nonzero field scalar, resampling a bounded number of
/// times; `None` is the cryptographically negligible case that every
/// attempt drew zero.
pub fn sample_nonzero() -> (r: Option<Fp>)
    ensures
        r is Some ==> r->0.wf() && r->0.v != 0,
{
    let mut tries: usize = 0;
    while tries < 64
        invariant
            tries <= 64,
        decreases 64 - tries,
    {
        let x = sample_scalar();
        if x.v != 0 {
            return Option::Some(x);
        }
        tries = tries + 1;
    }
    Option::None
}

} // verus!
