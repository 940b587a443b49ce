//! The verifier: one pairing product equation.
//!
//! `verify` accepts exactly when
//! `e(A, B) == e(alpha, beta) * e(IC, gamma) * e(C, delta)` with
//! `IC = sum_i public_inputs[i] * ic[i]`; a failing equation is the
//! expected negative outcome `InvalidProof`, and only an input vector
//! of the wrong length or with an unreduced entry is `MalformedInput`.

use vstd::prelude::*;
use crate::errors::VerifyError;
use crate::field::{fadd, fmul, lemma_pvals_index, pvals, Fp, MODULUS};
use crate::group::{g1_vals, lemma_g1_vals_index, pairing, G1};
use crate::keys::{Proof, VerifierKey};
use crate::msm::{msm, msm_g1};
use crate::shape::assignment_wf;

verus! {

broadcast use lemma_pvals_index, lemma_g1_vals_index;

/// The accumulated public-input element `IC`.
pub open spec fn ic_acc(vk: VerifierKey, pubs: Seq<Fp>) -> int {
    msm(g1_vals(vk.ic@), pvals(pubs))
}

/// The pairing product equation, over the exponents of the toy
/// groups: `e(A,B)` against `e(alpha,beta) * e(IC,gamma) * e(C,delta)`.
pub open spec fn pairing_eq(vk: VerifierKey, pubs: Seq<Fp>, prf: Proof) -> bool {
    fmul(prf.a.v.v as int, prf.b.v.v as int) == fadd(
        fadd(
            fmul(vk.alpha_g1.v.v as int, vk.beta_g2.v.v as int),
            fmul(ic_acc(vk, pubs), vk.gamma_g2.v.v as int),
        ),
        fmul(prf.c.v.v as int, vk.delta_g2.v.v as int),
    )
}

/// The public inputs fit the key: one reduced entry per `ic` element.
pub open spec fn inputs_ok(vk: VerifierKey, pubs: Seq<Fp>) -> bool {
    pubs.len() == vk.ic@.len() && assignment_wf(pubs)
}

/// Checks a proof against the verifier key and the public inputs.
///
/// Returns `Ok` exactly when every group element is valid and the
/// pairing equation holds, `InvalidProof` exactly when the inputs are
/// valid but the equation fails, and `MalformedInput` exactly when
/// the input vector does not fit the key or some group element of the
/// key or the proof fails the validity check.
pub fn verify(vk: &VerifierKey, public_inputs: &Vec<Fp>, proof: &Proof) -> (r: Result<
    (),
    VerifyError,
>)
    ensures
        r == Ok::<(), VerifyError>(()) <==> vk.wf() && proof.wf() && inputs_ok(
            *vk, public_inputs@) && pairing_eq(*vk, public_inputs@, *proof),
        r == Err::<(), VerifyError>(VerifyError::MalformedInput) <==> !(vk.wf()
            && proof.wf() && inputs_ok(*vk, public_inputs@)),
        r == Err::<(), VerifyError>(VerifyError::InvalidProof) <==> vk.wf() && proof.wf()
            && inputs_ok(*vk, public_inputs@) && !pairing_eq(*vk, public_inputs@, *proof),
{
    if vk.alpha_g1.v.v >= MODULUS || vk.beta_g2.v.v >= MODULUS || vk.gamma_g2.v.v
        >= MODULUS || vk.delta_g2.v.v >= MODULUS {
        return Result::Err(VerifyError::MalformedInput);
    }
    if proof.a.v.v >= MODULUS || proof.b.v.v >= MODULUS || proof.c.v.v >= MODULUS {
        return Result::Err(VerifyError::MalformedInput);
    }
    let mut j: usize = 0;
    while j < vk.ic.len()
        invariant
            j <= vk.ic@.len(),
            forall|jj: int| 0 <= jj < j ==> (#[trigger] vk.ic@[jj]).wf(),
        decreases vk.ic@.len() - j,
    {
        if vk.ic[j].v.v >= MODULUS {
            assert(!vk.ic@[j as int].wf());
            return Result::Err(VerifyError::MalformedInput);
        }
        j = j + 1;
    }
    if public_inputs.len() != vk.ic.len() {
        return Result::Err(VerifyError::MalformedInput);
    }
    let mut i: usize = 0;
    while i < public_inputs.len()
        invariant
            i <= public_inputs@.len(),
            forall|ii: int| 0 <= ii < i ==> (#[trigger] public_inputs@[ii]).wf(),
        decreases public_inputs@.len() - i,
    {
        if public_inputs[i].v >= MODULUS {
            assert(!public_inputs@[i as int].wf());
            return Result::Err(VerifyError::MalformedInput);
        }
        i = i + 1;
    }
    let ic = msm_g1(&vk.ic, public_inputs);
    let lhs = pairing(proof.a, proof.b);
    let rhs = pairing(vk.alpha_g1, vk.beta_g2).add(pairing(ic, vk.gamma_g2)).add(
        pairing(proof.c, vk.delta_g2),
    );
    if lhs == rhs {
        Result::Ok(())
    } else {
        Result::Err(VerifyError::InvalidProof)
    }
}

} // verus!
