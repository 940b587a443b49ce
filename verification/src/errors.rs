//! The error taxonomy of the protocol.
//!
//! Every failure is an explicit result value; none is used for
//! ordinary control flow.  A negative verification is a first-class
//! outcome of its own (`VerifyError::InvalidProof`), not a fault.

use vstd::prelude::*;

verus! {

/// Failures of setup and proving.
#[derive(Clone, Copy, PartialEq, Eq, Structural, Debug)]
pub enum Groth16Error {
    /// A malformed constraint system: mismatched matrix lengths, a
    /// variable index out of range, an unreduced coefficient, or more
    /// public inputs than witness variables.  A caller bug; not
    /// retryable.
    Shape,
    /// Catastrophic randomness degeneracy at setup: a scalar that had
    /// to be invertible was not, even after bounded resampling.
    /// Retrying with fresh randomness is the only recovery.  (For the
    /// prime modulus every nonzero residue is invertible, so after a
    /// successful nonzero draw this never arises at run time; that
    /// fact is not proved here, so the contracts also admit this
    /// error for a hypothetical nonzero non-invertible scalar.)
    Setup,
    /// A witness/key mismatch while proving: the witness length or the
    /// key's structure does not fit the shape.  A caller bug.
    Prover,
}

/// Failures of verification.
#[derive(Clone, Copy, PartialEq, Eq, Structural, Debug)]
pub enum VerifyError {
    /// The pairing product equation does not hold: the proof is
    /// rejected.  An expected negative outcome, not a fault.
    InvalidProof,
    /// The public-input count does not match the key, or an input is
    /// not a reduced field element.
    MalformedInput,
}

} // verus!
