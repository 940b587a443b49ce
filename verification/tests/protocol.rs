use groth16::errors::{Groth16Error, VerifyError};
use groth16::field::Fp;
use groth16::group::{G1, G2};
use groth16::keys::ToxicWaste;
use groth16::msm::{msm_g1, msm_g1_chunked};
use groth16::prover::prove_with_blinding;
use groth16::setup::setup_with_toxic;
use groth16::shape::{adapt, ConstraintShape, LinearTerm};
use groth16::snark::{prove, setup};
use groth16::verify::verify;

fn term(var: usize, c: u64) -> LinearTerm {
    LinearTerm { var, coeff: Fp::new(c) }
}

/// The single-constraint circuit `x * x = y`, with both `x` and `y`
/// public: `z = [x, y]`, `num_io = num_vars = 2`.
fn square_shape() -> ConstraintShape {
    ConstraintShape {
        num_vars: 2,
        num_io: 2,
        a: vec![vec![term(0, 1)]],
        b: vec![vec![term(0, 1)]],
        c: vec![vec![term(1, 1)]],
    }
}

/// A two-constraint circuit with one auxiliary variable:
/// `x * x = t` and `t * x = out`, with `z = [x, out, t]`.
fn cube_shape() -> ConstraintShape {
    ConstraintShape {
        num_vars: 3,
        num_io: 2,
        a: vec![vec![term(0, 1)], vec![term(2, 1)]],
        b: vec![vec![term(0, 1)], vec![term(0, 1)]],
        c: vec![vec![term(2, 1)], vec![term(1, 1)]],
    }
}

fn waste(tau: u64, alpha: u64, beta: u64, gamma: u64, delta: u64) -> ToxicWaste {
    ToxicWaste {
        tau: Fp::new(tau),
        alpha: Fp::new(alpha),
        beta: Fp::new(beta),
        gamma: Fp::new(gamma),
        delta: Fp::new(delta),
    }
}

fn fp_vec(vals: &[u64]) -> Vec<Fp> {
    vals.iter().map(|&v| Fp::new(v)).collect()
}

#[test]
fn square_scenario_accepts_and_rejects_tampering() {
    let shape = square_shape();
    let tw = waste(5, 7, 11, 13, 17);
    let (pk, vk) = setup_with_toxic(&shape, &tw).unwrap();
    let witness = fp_vec(&[3, 9]);
    let proof = prove_with_blinding(&pk, &shape, &witness, Fp::new(19), Fp::new(23)).unwrap();
    assert!(verify(&vk, &fp_vec(&[3, 9]), &proof).is_ok());
    assert_eq!(
        verify(&vk, &fp_vec(&[3, 10]), &proof),
        Err(VerifyError::InvalidProof)
    );
}

#[test]
fn square_scenario_with_os_randomness() {
    let shape = square_shape();
    let (pk, vk) = setup(&shape).unwrap();
    let witness = fp_vec(&[3, 9]);
    let proof = prove(&pk, &shape, &witness).unwrap();
    assert!(verify(&vk, &fp_vec(&[3, 9]), &proof).is_ok());
    assert_eq!(
        verify(&vk, &fp_vec(&[3, 10]), &proof),
        Err(VerifyError::InvalidProof)
    );
}

#[test]
fn completeness_holds_for_every_blinding_choice() {
    let shape = cube_shape();
    let tw = waste(101, 3, 9, 29, 31);
    let (pk, vk) = setup_with_toxic(&shape, &tw).unwrap();
    let witness = fp_vec(&[3, 27, 9]);
    let publics = fp_vec(&[3, 27]);
    for (r, s) in [(0u64, 0u64), (1, 65520), (12345, 54321), (40000, 1)] {
        let proof =
            prove_with_blinding(&pk, &shape, &witness, Fp::new(r), Fp::new(s)).unwrap();
        assert!(verify(&vk, &publics, &proof).is_ok());
    }
}

#[test]
fn mutated_witness_is_rejected() {
    let shape = cube_shape();
    let tw = waste(101, 3, 9, 29, 31);
    let (pk, vk) = setup_with_toxic(&shape, &tw).unwrap();
    // t = 10 violates exactly the first constraint (x*x = t).
    let bad_witness = fp_vec(&[3, 30, 10]);
    let proof =
        prove_with_blinding(&pk, &shape, &bad_witness, Fp::new(19), Fp::new(23)).unwrap();
    assert_eq!(
        verify(&vk, &fp_vec(&[3, 30]), &proof),
        Err(VerifyError::InvalidProof)
    );
}

#[test]
fn boundary_shape_without_auxiliary_variables() {
    let shape = square_shape();
    let tw = waste(2, 3, 5, 7, 11);
    let (pk, vk) = setup_with_toxic(&shape, &tw).unwrap();
    // num_constraints = 1 and num_vars = num_io: l is empty, h has
    // no entries, and the degenerate shape still proves and verifies.
    assert_eq!(pk.l.len(), 0);
    assert_eq!(pk.h.len(), 0);
    assert_eq!(vk.ic.len(), 2);
    let witness = fp_vec(&[4, 16]);
    let proof = prove_with_blinding(&pk, &shape, &witness, Fp::new(1), Fp::new(2)).unwrap();
    assert!(verify(&vk, &fp_vec(&[4, 16]), &proof).is_ok());
}

#[test]
fn key_determinism_same_structure_different_values() {
    let shape = cube_shape();
    let tw1 = waste(101, 3, 9, 29, 31);
    let tw2 = waste(4242, 77, 123, 991, 1009);
    let (pk1, vk1) = setup_with_toxic(&shape, &tw1).unwrap();
    let (pk2, vk2) = setup_with_toxic(&shape, &tw2).unwrap();
    assert_eq!(pk1.h.len(), pk2.h.len());
    assert_eq!(pk1.l.len(), pk2.l.len());
    assert_eq!(pk1.a.len(), pk2.a.len());
    assert_eq!(pk1.b_g1.len(), pk2.b_g1.len());
    assert_eq!(pk1.b_g2.len(), pk2.b_g2.len());
    assert_eq!(vk1.ic.len(), vk2.ic.len());
    assert_eq!(pk1.a_density, pk2.a_density);
    assert_eq!(pk1.b_density, pk2.b_density);
}

#[test]
fn proofs_do_not_verify_cross_key() {
    let shape = cube_shape();
    let tw1 = waste(101, 3, 9, 29, 31);
    let tw2 = waste(4242, 77, 123, 991, 1009);
    let (pk1, vk1) = setup_with_toxic(&shape, &tw1).unwrap();
    let (_pk2, vk2) = setup_with_toxic(&shape, &tw2).unwrap();
    let witness = fp_vec(&[3, 27, 9]);
    let publics = fp_vec(&[3, 27]);
    let proof =
        prove_with_blinding(&pk1, &shape, &witness, Fp::new(19), Fp::new(23)).unwrap();
    assert!(verify(&vk1, &publics, &proof).is_ok());
    assert_eq!(verify(&vk2, &publics, &proof), Err(VerifyError::InvalidProof));
}

#[test]
fn every_single_public_input_change_is_detected() {
    let shape = cube_shape();
    let tw = waste(101, 3, 9, 29, 31);
    let (pk, vk) = setup_with_toxic(&shape, &tw).unwrap();
    let witness = fp_vec(&[3, 27, 9]);
    let proof =
        prove_with_blinding(&pk, &shape, &witness, Fp::new(19), Fp::new(23)).unwrap();
    for i in 0..2 {
        let mut publics = fp_vec(&[3, 27]);
        publics[i] = Fp::new(publics[i].v + 1);
        assert_eq!(verify(&vk, &publics, &proof), Err(VerifyError::InvalidProof));
    }
}

#[test]
fn structurally_zero_columns_are_pruned() {
    // In the cube circuit, variable 1 (`out`) never occurs in `A` or
    // `B`: its columns are structurally zero, so the density trackers
    // drop it and the pruned bases hold one entry per live column.
    let shape = cube_shape();
    let tw = waste(101, 3, 9, 29, 31);
    let (pk, _vk) = setup_with_toxic(&shape, &tw).unwrap();
    assert_eq!(pk.a_density, vec![true, false, true]);
    assert_eq!(pk.b_density, vec![true, false, false]);
    assert_eq!(pk.a.len(), 2);
    assert_eq!(pk.b_g1.len(), 1);
    assert_eq!(pk.b_g2.len(), 1);
}

#[test]
fn mutation_is_rejected_under_fresh_blinding() {
    // The pairing check's outcome does not depend on the blinding
    // scalars, so a witness violating one constraint is rejected for
    // every fresh draw.
    let shape = cube_shape();
    let tw = waste(101, 3, 9, 29, 31);
    let (pk, vk) = setup_with_toxic(&shape, &tw).unwrap();
    let bad_witness = fp_vec(&[3, 30, 10]);
    for _ in 0..5 {
        let proof = prove(&pk, &shape, &bad_witness).unwrap();
        assert_eq!(
            verify(&vk, &fp_vec(&[3, 30]), &proof),
            Err(VerifyError::InvalidProof)
        );
    }
}

#[test]
fn adapter_rejects_malformed_shapes() {
    // Mismatched matrix lengths.
    let mut shape = square_shape();
    shape.b.push(vec![term(0, 1)]);
    assert_eq!(adapt(&shape), Err(Groth16Error::Shape));
    // Variable index out of range.
    let shape2 = ConstraintShape {
        num_vars: 2,
        num_io: 2,
        a: vec![vec![term(5, 1)]],
        b: vec![vec![term(0, 1)]],
        c: vec![vec![term(1, 1)]],
    };
    assert_eq!(adapt(&shape2), Err(Groth16Error::Shape));
    // More public inputs than variables.
    let shape3 = ConstraintShape {
        num_vars: 1,
        num_io: 2,
        a: vec![vec![term(0, 1)]],
        b: vec![vec![term(0, 1)]],
        c: vec![vec![term(0, 1)]],
    };
    assert_eq!(adapt(&shape3), Err(Groth16Error::Shape));
    // No constraints at all.
    let shape4 = ConstraintShape {
        num_vars: 1,
        num_io: 1,
        a: vec![],
        b: vec![],
        c: vec![],
    };
    assert_eq!(adapt(&shape4), Err(Groth16Error::Shape));
    // Setup propagates the shape error.
    let tw = waste(2, 3, 5, 7, 11);
    assert!(matches!(
        setup_with_toxic(&shape4, &tw),
        Err(Groth16Error::Shape)
    ));
}

#[test]
fn setup_rejects_noninvertible_scalars() {
    let shape = square_shape();
    let tw = waste(2, 3, 5, 0, 11);
    assert!(matches!(
        setup_with_toxic(&shape, &tw),
        Err(Groth16Error::Setup)
    ));
    let tw2 = waste(2, 3, 5, 7, 0);
    assert!(matches!(
        setup_with_toxic(&shape, &tw2),
        Err(Groth16Error::Setup)
    ));
}

#[test]
fn prover_rejects_wrong_witness_length() {
    let shape = square_shape();
    let tw = waste(2, 3, 5, 7, 11);
    let (pk, _vk) = setup_with_toxic(&shape, &tw).unwrap();
    let short = fp_vec(&[3]);
    assert_eq!(
        prove_with_blinding(&pk, &shape, &short, Fp::new(1), Fp::new(2)),
        Err(Groth16Error::Prover)
    );
}

#[test]
fn prover_rejects_key_shape_mismatch() {
    let square = square_shape();
    let cube = cube_shape();
    let tw = waste(2, 3, 5, 7, 11);
    let (pk_square, _) = setup_with_toxic(&square, &tw).unwrap();
    let witness = fp_vec(&[3, 27, 9]);
    assert_eq!(
        prove_with_blinding(&pk_square, &cube, &witness, Fp::new(1), Fp::new(2)),
        Err(Groth16Error::Prover)
    );
}

#[test]
fn verifier_rejects_malformed_inputs() {
    let shape = square_shape();
    let tw = waste(2, 3, 5, 7, 11);
    let (pk, vk) = setup_with_toxic(&shape, &tw).unwrap();
    let witness = fp_vec(&[3, 9]);
    let proof = prove_with_blinding(&pk, &shape, &witness, Fp::new(1), Fp::new(2)).unwrap();
    // Wrong input count.
    assert_eq!(
        verify(&vk, &fp_vec(&[3]), &proof),
        Err(VerifyError::MalformedInput)
    );
    // An unreduced entry.
    let bad = vec![Fp { v: 70000 }, Fp::new(9)];
    assert_eq!(verify(&vk, &bad, &proof), Err(VerifyError::MalformedInput));
}

#[test]
fn verifier_rejects_invalid_group_elements() {
    let shape = square_shape();
    let tw = waste(2, 3, 5, 7, 11);
    let (pk, vk) = setup_with_toxic(&shape, &tw).unwrap();
    let witness = fp_vec(&[3, 9]);
    let publics = fp_vec(&[3, 9]);
    let proof = prove_with_blinding(&pk, &shape, &witness, Fp::new(1), Fp::new(2)).unwrap();
    // A proof element outside the group fails the validity check.
    let mut bad_proof = proof;
    bad_proof.a = G1 { v: Fp { v: 70000 } };
    assert_eq!(
        verify(&vk, &publics, &bad_proof),
        Err(VerifyError::MalformedInput)
    );
    // A key element outside the group fails it too.
    let bad_vk = groth16::keys::VerifierKey {
        alpha_g1: vk.alpha_g1,
        beta_g2: G2 { v: Fp { v: 70000 } },
        gamma_g2: vk.gamma_g2,
        delta_g2: vk.delta_g2,
        ic: vec![vk.ic[0], vk.ic[1]],
    };
    assert_eq!(
        verify(&bad_vk, &publics, &proof),
        Err(VerifyError::MalformedInput)
    );
}

#[test]
fn msm_parallel_and_sequential_agree() {
    let bases: Vec<G1> = (0..23u64)
        .map(|i| G1 { v: Fp::new(i * 317 + 5) })
        .collect();
    let scalars: Vec<Fp> = (0..23u64).map(|i| Fp::new(i * 911 + 1)).collect();
    let sequential = msm_g1(&bases, &scalars);
    for chunk in [1usize, 2, 3, 7, 100] {
        assert_eq!(msm_g1_chunked(&bases, &scalars, chunk), sequential);
    }
}

#[test]
fn field_inverse_is_exact() {
    let two = Fp::new(2);
    let inv = two.inverse().unwrap();
    assert_eq!(inv.v, 32761);
    assert_eq!((2 * inv.v) % 65521, 1);
    assert!(Fp::new(0).inverse().is_none());
}

#[test]
fn toxic_waste_is_wiped() {
    let mut tw = waste(2, 3, 5, 7, 11);
    tw.wipe();
    assert_eq!(tw.tau.v, 0);
    assert_eq!(tw.alpha.v, 0);
    assert_eq!(tw.beta.v, 0);
    assert_eq!(tw.gamma.v, 0);
    assert_eq!(tw.delta.v, 0);
}

#[test]
fn pairing_is_bilinear_on_generator_multiples() {
    let a = G1::from_scalar(Fp::new(6));
    let b = G2::from_scalar(Fp::new(7));
    let e = groth16::group::pairing(a, b);
    assert_eq!(e.v.v, 42);
}
