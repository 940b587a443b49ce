//! The structured reference string: prover key, verifier key, proof,
//! and the transient toxic waste of setup.

use vstd::prelude::*;
use crate::field::Fp;
use crate::group::{G1, G2};

verus! {

/// The verifier's key: the minimal elements of the pairing equation,
/// and the per-public-input basis `ic`.
///
/// In the exponent model of the groups a key element numerically
/// equals the secret scalar it was derived from, so the secrecy of
/// the toxic waste is a modeling fiction here; over a real curve the
/// same elements hide their scalars behind the discrete logarithm.
pub struct VerifierKey {
    pub alpha_g1: G1,
    pub beta_g2: G2,
    pub gamma_g2: G2,
    pub delta_g2: G2,
    pub ic: Vec<G1>,
}

impl VerifierKey {
    pub open spec fn wf(self) -> bool {
        &&& self.alpha_g1.wf()
        &&& self.beta_g2.wf()
        &&& self.gamma_g2.wf()
        &&& self.delta_g2.wf()
        &&& forall|i: int| 0 <= i < self.ic@.len() ==> (#[trigger] self.ic@[i]).wf()
    }
}

/// The prover's key.
///
/// `h` is the quotient basis `(tau^i * t(tau)) / delta`; `l` the
/// auxiliary-variable basis `(beta*u_i + alpha*v_i + w_i) / delta`;
/// `a`, `b_g1`, `b_g2` the per-variable QAP bases `u_i(tau)` and
/// `v_i(tau)`, with structurally-zero columns pruned as the two
/// density trackers record.  The `beta`/`delta` elements in the first
/// group are the blinding bases the prover needs beside the
/// verifier's second-group copies.
///
/// The data model intends no key entry to be the group identity.
/// Setup reports a `tau` drawn inside the evaluation domain — which
/// would zero `t(tau)` and with it every `h` entry — as the `Setup`
/// randomness degeneracy instead of emitting such a key.  Beyond
/// that the invariant is not stated: proving the `h` entries nonzero
/// under a nonzero `t(tau)` needs the product-of-nonzeros fact of
/// the prime field, not formalized here, and an auxiliary variable
/// occurring in no matrix has an identity `l` entry for every toxic
/// waste.
pub struct ProverKey {
    pub vk: VerifierKey,
    pub beta_g1: G1,
    pub delta_g1: G1,
    pub h: Vec<G1>,
    pub l: Vec<G1>,
    pub a: Vec<G1>,
    pub b_g1: Vec<G1>,
    pub b_g2: Vec<G2>,
    pub a_density: Vec<bool>,
    pub b_density: Vec<bool>,
}

impl ProverKey {
    pub open spec fn wf(self) -> bool {
        &&& self.vk.wf()
        &&& self.beta_g1.wf()
        &&& self.delta_g1.wf()
        &&& forall|i: int| 0 <= i < self.h@.len() ==> (#[trigger] self.h@[i]).wf()
        &&& forall|i: int| 0 <= i < self.l@.len() ==> (#[trigger] self.l@[i]).wf()
        &&& forall|i: int| 0 <= i < self.a@.len() ==> (#[trigger] self.a@[i]).wf()
        &&& forall|i: int| 0 <= i < self.b_g1@.len() ==> (#[trigger] self.b_g1@[i]).wf()
        &&& forall|i: int| 0 <= i < self.b_g2@.len() ==> (#[trigger] self.b_g2@[i]).wf()
    }
}

/// A proof: exactly three group elements, carrying no witness data.
#[derive(Clone, Copy, PartialEq, Eq, Structural, Debug)]
pub struct Proof {
    pub a: G1,
    pub b: G2,
    pub c: G1,
}

impl Proof {
    pub open spec fn wf(self) -> bool {
        self.a.wf() && self.b.wf() && self.c.wf()
    }
}

/// The setup-only secret scalars.  They exist only inside one setup
/// call; `wipe` zeroes them on every exit path before the keys leave.
pub struct ToxicWaste {
    pub tau: Fp,
    pub alpha: Fp,
    pub beta: Fp,
    pub gamma: Fp,
    pub delta: Fp,
}

impl ToxicWaste {
    pub open spec fn wf(self) -> bool {
        &&& self.tau.wf()
        &&& self.alpha.wf()
        &&& self.beta.wf()
        &&& self.gamma.wf()
        &&& self.delta.wf()
    }

    /// Overwrites every secret scalar with zero.
    pub fn wipe(&mut self)
        ensures
            final(self).tau.v == 0,
            final(self).alpha.v == 0,
            final(self).beta.v == 0,
            final(self).gamma.v == 0,
            final(self).delta.v == 0,
    {
        self.tau = Fp::zero();
        self.alpha = Fp::zero();
        self.beta = Fp::zero();
        self.gamma = Fp::zero();
        self.delta = Fp::zero();
    }
}

} // verus!
