//! The three public entry points of the protocol, with their
//! randomness drawn from the operating system: `setup` samples the
//! toxic waste and discards it, `prove` samples the two blinding
//! scalars fresh per proof.  (`verify` needs no randomness and lives
//! in the verifier module.)
//!
//! Each function's contract states what holds of every random
//! outcome; the deterministic cores `setup_with_toxic` and
//! `prove_with_blinding` carry the exact formula-level contracts.

use vstd::prelude::*;
use crate::errors::Groth16Error;
use crate::keys::{Proof, ProverKey, ToxicWaste, VerifierKey};
use crate::prover::{pk_fits, proof_matches, prove_with_blinding};
use crate::qap::lag_dens_invertible;
use crate::rng::{sample_nonzero, sample_scalar};
use crate::setup::{pk_match, setup_feasible, setup_with_toxic, vk_match};
use crate::shape::{adapt, assignment_wf, ConstraintShape};
use crate::field::Fp;

verus! {

/// One-time trusted setup: samples the toxic-waste scalars from the
/// field's nonzero elements, derives the key pair, and wipes the
/// scalars on every exit path.
///
/// On a malformed shape the result is exactly `Shape`; otherwise the
/// result is either a key pair that the setup formulas prescribe for
/// some well-formed nonzero toxic waste, or `Setup` for the
/// negligible randomness degeneracies (all resampling attempts drew
/// zero, a sampled scalar had no inverse, or the secret point fell
/// inside the evaluation domain).
pub fn setup(shape: &ConstraintShape) -> (r: Result<(ProverKey, VerifierKey), Groth16Error>)
    ensures
        r is Ok ==> shape.wf() && (exists|tw: ToxicWaste| tw.wf() && setup_feasible(
            *shape, tw) && pk_match(*shape, tw, r->Ok_0.0) && vk_match(*shape, tw,
            r->Ok_0.1)),
        r is Ok ==> r->Ok_0.0.wf() && r->Ok_0.1.wf(),
        r == Err::<(ProverKey, VerifierKey), Groth16Error>(Groth16Error::Shape)
            <==> !shape.wf(),
        r is Err ==> r == Err::<(ProverKey, VerifierKey), Groth16Error>(Groth16Error::Shape)
            || r == Err::<(ProverKey, VerifierKey), Groth16Error>(Groth16Error::Setup),
{
    match adapt(shape) {
        Result::Ok(cc) => {},
        Result::Err(e) => {
            return Result::Err(Groth16Error::Shape);
        },
    };
    let tau = match sample_nonzero() {
        Option::Some(x) => x,
        Option::None => {
            return Result::Err(Groth16Error::Setup);
        },
    };
    let alpha = match sample_nonzero() {
        Option::Some(x) => x,
        Option::None => {
            return Result::Err(Groth16Error::Setup);
        },
    };
    let beta = match sample_nonzero() {
        Option::Some(x) => x,
        Option::None => {
            return Result::Err(Groth16Error::Setup);
        },
    };
    let gamma = match sample_nonzero() {
        Option::Some(x) => x,
        Option::None => {
            return Result::Err(Groth16Error::Setup);
        },
    };
    let delta = match sample_nonzero() {
        Option::Some(x) => x,
        Option::None => {
            return Result::Err(Groth16Error::Setup);
        },
    };
    let mut tw = ToxicWaste { tau, alpha, beta, gamma, delta };
    let ghost tw0 = tw;
    let res = setup_with_toxic(shape, &tw);
    tw.wipe();
    match res {
        Result::Ok(keys) => {
            proof {
                assert(tw0.wf() && setup_feasible(*shape, tw0) && pk_match(*shape, tw0,
                    keys.0) && vk_match(*shape, tw0, keys.1));
            }
            Result::Ok(keys)
        },
        Result::Err(e) => Result::Err(e),
    }
}

/// Produces a proof, sampling the two zero-knowledge blinding
/// scalars fresh.  Succeeds exactly when the deterministic prover
/// does: the proof elements match the protocol's formulas for some
/// pair of well-formed blinding scalars.
pub fn prove(pk: &ProverKey, shape: &ConstraintShape, witness: &Vec<Fp>) -> (res: Result<
    Proof,
    Groth16Error,
>)
    requires
        pk.wf(),
        assignment_wf(witness@),
    ensures
        res is Ok <==> shape.wf() && witness@.len() == shape.num_vars && pk_fits(*pk, *shape)
            && lag_dens_invertible(shape.a@.len() as int),
        !shape.wf() ==> res == Err::<Proof, Groth16Error>(Groth16Error::Shape),
        shape.wf() && !(witness@.len() == shape.num_vars && pk_fits(*pk, *shape)
            && lag_dens_invertible(shape.a@.len() as int)) ==> res == Err::<
            Proof,
            Groth16Error,
        >(Groth16Error::Prover),
        res is Ok ==> res->Ok_0.wf() && (exists|r: Fp, s: Fp| r.wf() && s.wf()
            && proof_matches(*pk, *shape, witness@, r, s, res->Ok_0)),
{
    let r = sample_scalar();
    let s = sample_scalar();
    let res = prove_with_blinding(pk, shape, witness, r, s);
    match res {
        Result::Ok(prf) => {
            proof {
                assert(r.wf() && s.wf() && proof_matches(*pk, *shape, witness@, r, s, prf));
            }
            Result::Ok(prf)
        },
        Result::Err(e) => Result::Err(e),
    }
}

} // verus!
