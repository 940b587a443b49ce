use groth16::codec::{
    decode_pk, decode_proof, decode_vk, encode_pk, encode_proof, encode_vk,
};
use groth16::field::Fp;
use groth16::keys::ToxicWaste;
use groth16::prover::prove_with_blinding;
use groth16::setup::setup_with_toxic;
use groth16::shape::{ConstraintShape, LinearTerm};

fn term(var: usize, c: u64) -> LinearTerm {
    LinearTerm { var, coeff: Fp::new(c) }
}

fn sample_keys() -> (groth16::keys::ProverKey, groth16::keys::VerifierKey) {
    let shape = ConstraintShape {
        num_vars: 3,
        num_io: 2,
        a: vec![vec![term(0, 1)], vec![term(2, 1)]],
        b: vec![vec![term(0, 1)], vec![term(0, 1)]],
        c: vec![vec![term(2, 1)], vec![term(1, 1)]],
    };
    let tw = ToxicWaste {
        tau: Fp::new(101),
        alpha: Fp::new(3),
        beta: Fp::new(9),
        gamma: Fp::new(29),
        delta: Fp::new(31),
    };
    setup_with_toxic(&shape, &tw).unwrap()
}

#[test]
fn proof_round_trip_is_bit_identical() {
    let (pk, _vk) = sample_keys();
    let shape = ConstraintShape {
        num_vars: 3,
        num_io: 2,
        a: vec![vec![term(0, 1)], vec![term(2, 1)]],
        b: vec![vec![term(0, 1)], vec![term(0, 1)]],
        c: vec![vec![term(2, 1)], vec![term(1, 1)]],
    };
    let witness: Vec<Fp> = [3u64, 27, 9].iter().map(|&v| Fp::new(v)).collect();
    let proof =
        prove_with_blinding(&pk, &shape, &witness, Fp::new(19), Fp::new(23)).unwrap();
    let bytes = encode_proof(&proof);
    assert_eq!(bytes.len(), 9);
    let back = decode_proof(&bytes).unwrap();
    assert_eq!(back, proof);
    assert_eq!(encode_proof(&back), bytes);
}

#[test]
fn verifier_key_round_trip_is_bit_identical() {
    let (_pk, vk) = sample_keys();
    let bytes = encode_vk(&vk);
    let back = decode_vk(&bytes).unwrap();
    assert_eq!(back.alpha_g1, vk.alpha_g1);
    assert_eq!(back.beta_g2, vk.beta_g2);
    assert_eq!(back.gamma_g2, vk.gamma_g2);
    assert_eq!(back.delta_g2, vk.delta_g2);
    assert_eq!(back.ic, vk.ic);
    assert_eq!(encode_vk(&back), bytes);
}

#[test]
fn prover_key_round_trip_is_bit_identical() {
    let (pk, _vk) = sample_keys();
    let bytes = encode_pk(&pk);
    let back = decode_pk(&bytes).unwrap();
    assert_eq!(back.vk.alpha_g1, pk.vk.alpha_g1);
    assert_eq!(back.vk.beta_g2, pk.vk.beta_g2);
    assert_eq!(back.vk.gamma_g2, pk.vk.gamma_g2);
    assert_eq!(back.vk.delta_g2, pk.vk.delta_g2);
    assert_eq!(back.vk.ic, pk.vk.ic);
    assert_eq!(back.beta_g1, pk.beta_g1);
    assert_eq!(back.delta_g1, pk.delta_g1);
    assert_eq!(back.h, pk.h);
    assert_eq!(back.l, pk.l);
    assert_eq!(back.a, pk.a);
    assert_eq!(back.b_g1, pk.b_g1);
    assert_eq!(back.b_g2, pk.b_g2);
    assert_eq!(back.a_density, pk.a_density);
    assert_eq!(back.b_density, pk.b_density);
    assert_eq!(encode_pk(&back), bytes);
}

#[test]
fn decoder_rejects_malformed_bytes() {
    // Wrong length.
    assert!(decode_proof(&vec![0u8; 8]).is_none());
    // A tag that is neither identity nor point.
    let mut bytes = vec![0u8; 9];
    bytes[0] = 2;
    assert!(decode_proof(&bytes).is_none());
    // An identity marker with nonzero value bytes.
    let mut bytes2 = vec![0u8; 9];
    bytes2[1] = 5;
    assert!(decode_proof(&bytes2).is_none());
    // A tagged point whose value is out of the field.
    let mut bytes3 = vec![0u8; 9];
    bytes3[0] = 1;
    bytes3[1] = 0xf1;
    bytes3[2] = 0xff;
    assert!(decode_proof(&bytes3).is_none());
    // A proof decoded from an identity-free encoding keeps every bit.
    let good = vec![1u8, 7, 0, 1, 8, 0, 1, 9, 0];
    let p = decode_proof(&good).unwrap();
    assert_eq!(encode_proof(&p), good);
}
