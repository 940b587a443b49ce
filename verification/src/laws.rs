//! Protocol-level laws, proved from the contracts of setup, prover
//! and verifier.

use vstd::prelude::*;
use crate::field::{
    fadd, fmul, fsub, lemma_fadd_assoc, lemma_fadd_cancel, lemma_fmul_bound,
    lemma_fmul_distrib, lemma_pvals_index, pvals, Fp,
};
use crate::group::{g1_vals, lemma_g1_vals_index};
use crate::keys::{Proof, ProverKey, ToxicWaste, VerifierKey};
use crate::msm::{lemma_msm_update, msm};
use crate::setup::{filtered_upto, pk_match, vk_match};
use crate::shape::ConstraintShape;
use crate::verify::{ic_acc, inputs_ok, pairing_eq};

verus! {

broadcast use lemma_pvals_index, lemma_g1_vals_index;

/// The kept subsequence's length depends on the bits alone, not on
/// the values.
proof fn lemma_filtered_len(vals1: Seq<int>, vals2: Seq<int>, bits: Seq<bool>, i: int)
    ensures
        filtered_upto(vals1, bits, i).len() == filtered_upto(vals2, bits, i).len(),
    decreases i,
{
    if i > 0 {
        lemma_filtered_len(vals1, vals2, bits, i - 1);
    }
}

/// Key determinism: two setup runs over the same shape, with any two
/// choices of toxic waste, produce structurally identical keys — the
/// same basis lengths and the very same pruning pattern — however
/// different the secret values inside are.
pub proof fn lemma_key_determinism(
    shape: ConstraintShape,
    tw1: ToxicWaste,
    tw2: ToxicWaste,
    pk1: ProverKey,
    vk1: VerifierKey,
    pk2: ProverKey,
    vk2: VerifierKey,
)
    requires
        pk_match(shape, tw1, pk1),
        vk_match(shape, tw1, vk1),
        pk_match(shape, tw2, pk2),
        vk_match(shape, tw2, vk2),
    ensures
        pk1.h@.len() == pk2.h@.len(),
        pk1.l@.len() == pk2.l@.len(),
        pk1.a@.len() == pk2.a@.len(),
        pk1.b_g1@.len() == pk2.b_g1@.len(),
        pk1.b_g2@.len() == pk2.b_g2@.len(),
        vk1.ic@.len() == vk2.ic@.len(),
        pk1.a_density@ == pk2.a_density@,
        pk1.b_density@ == pk2.b_density@,
{
    let abits = crate::setup::a_bits_of(shape);
    let bbits = crate::setup::b_bits_of(shape);
    lemma_filtered_len(
        crate::setup::u_all(shape, tw1),
        crate::setup::u_all(shape, tw2),
        abits,
        abits.len() as int,
    );
    lemma_filtered_len(
        crate::setup::v_all(shape, tw1),
        crate::setup::v_all(shape, tw2),
        bbits,
        bbits.len() as int,
    );
    assert(g1_vals(pk1.a@).len() == pk1.a@.len());
    assert(g1_vals(pk2.a@).len() == pk2.a@.len());
    assert(g1_vals(pk1.b_g1@).len() == pk1.b_g1@.len());
    assert(g1_vals(pk2.b_g1@).len() == pk2.b_g1@.len());
    assert(crate::group::g2_vals(pk1.b_g2@).len() == pk1.b_g2@.len());
    assert(crate::group::g2_vals(pk2.b_g2@).len() == pk2.b_g2@.len());
}

/// The kept prefix and the live remainder together count every live
/// bit.
proof fn lemma_filtered_prefix_count(vals: Seq<int>, bits: Seq<bool>, i: int)
    requires
        0 <= i <= bits.len(),
    ensures
        filtered_upto(vals, bits, i).len() + crate::msm::live_count(bits, i)
            == crate::msm::live_count(bits, 0),
    decreases i,
{
    if i > 0 {
        lemma_filtered_prefix_count(vals, bits, i - 1);
    }
}

/// Keys from setup fit the prover: whatever toxic waste produced
/// them, the density trackers cover every variable and every pruned
/// basis holds exactly one entry per live bit, so the prover accepts
/// the key for its shape.
pub proof fn lemma_setup_keys_fit(shape: ConstraintShape, tw: ToxicWaste, pk: ProverKey)
    requires
        pk_match(shape, tw, pk),
    ensures
        crate::prover::pk_fits(pk, shape),
{
    let abits = crate::setup::a_bits_of(shape);
    let bbits = crate::setup::b_bits_of(shape);
    lemma_filtered_prefix_count(
        crate::setup::u_all(shape, tw),
        abits,
        abits.len() as int,
    );
    lemma_filtered_prefix_count(
        crate::setup::v_all(shape, tw),
        bbits,
        bbits.len() as int,
    );
    assert(g1_vals(pk.a@).len() == pk.a@.len());
    assert(g1_vals(pk.b_g1@).len() == pk.b_g1@.len());
    assert(crate::group::g2_vals(pk.b_g2@).len() == pk.b_g2@.len());
}

/// A live index's value sits in the kept subsequence at the position
/// given by the live prefix before it.
proof fn lemma_filtered_lookup(vals: Seq<int>, bits: Seq<bool>, i: int, m: int)
    requires
        0 <= i < m <= bits.len(),
        bits[i],
    ensures
        filtered_upto(vals, bits, m).len() > filtered_upto(vals, bits, i).len(),
        filtered_upto(vals, bits, m)[filtered_upto(vals, bits, i).len() as int] == vals[i],
    decreases m,
{
    if m == i + 1 {
    } else {
        lemma_filtered_lookup(vals, bits, i, m - 1);
    }
}

/// The pruned sum over the kept subsequence equals the full sum over
/// every index, whenever the skipped indices carry the value zero.
proof fn lemma_pruned_equals_full(vals: Seq<int>, bits: Seq<bool>, zs: Seq<int>, i: int)
    requires
        bits.len() == vals.len(),
        bits.len() == zs.len(),
        0 <= i <= bits.len(),
        forall|k: int| 0 <= k < bits.len() && !bits[k] ==> #[trigger] vals[k] == 0,
    ensures
        crate::msm::msm_pruned_from(
            bits,
            crate::setup::filtered(vals, bits),
            zs,
            i,
            filtered_upto(vals, bits, i).len() as int,
        ) == crate::msm::msm_seg(vals, zs, i, vals.len() as int),
    decreases bits.len() - i,
{
    if i == bits.len() {
    } else {
        lemma_pruned_equals_full(vals, bits, zs, i + 1);
        if bits[i] {
            lemma_filtered_lookup(vals, bits, i, bits.len() as int);
        } else {
            let rest = crate::msm::msm_seg(vals, zs, i + 1, vals.len() as int);
            crate::msm::lemma_msm_seg_range(vals, zs, i + 1, vals.len() as int);
            assert(fmul(zs[i], vals[i]) == 0) by {
                vstd::arithmetic::div_mod::lemma_small_mod(0, crate::field::MODULUS as nat);
            }
            crate::field::lemma_fadd_basics(rest, 0);
        }
    }
}

/// The density tracker is an optimization, not a correctness
/// requirement: over keys that setup prescribes, the density-pruned
/// multi-scalar multiplications of the prover compute exactly the
/// full sums over every variable — the pruned entries are the
/// structurally zero QAP columns, which contribute nothing.
pub proof fn lemma_pruning_preserves_msm(
    shape: ConstraintShape,
    tw: ToxicWaste,
    pk: ProverKey,
    z: Seq<Fp>,
)
    requires
        pk_match(shape, tw, pk),
        z.len() == shape.num_vars,
    ensures
        crate::msm::msm_pruned(pk.a_density@, g1_vals(pk.a@), pvals(z)) == crate::msm::msm(
            crate::setup::u_all(shape, tw), pvals(z)),
        crate::msm::msm_pruned(pk.b_density@, g1_vals(pk.b_g1@), pvals(z))
            == crate::msm::msm(crate::setup::v_all(shape, tw), pvals(z)),
        crate::msm::msm_pruned(pk.b_density@, crate::group::g2_vals(pk.b_g2@), pvals(z))
            == crate::msm::msm(crate::setup::v_all(shape, tw), pvals(z)),
{
    let abits = crate::setup::a_bits_of(shape);
    let bbits = crate::setup::b_bits_of(shape);
    let uvals = crate::setup::u_all(shape, tw);
    let vvals = crate::setup::v_all(shape, tw);
    assert forall|k: int| 0 <= k < abits.len() && !abits[k] implies #[trigger] uvals[k]
        == 0 by {
        crate::qap::lemma_zero_column_evaluates_zero(
            crate::shape::mat_view(shape.a@), k, crate::setup::setup_lags(shape, tw), 0, 0);
    }
    assert forall|k: int| 0 <= k < bbits.len() && !bbits[k] implies #[trigger] vvals[k]
        == 0 by {
        crate::qap::lemma_zero_column_evaluates_zero(
            crate::shape::mat_view(shape.b@), k, crate::setup::setup_lags(shape, tw), 0, 0);
    }
    lemma_pruned_equals_full(uvals, abits, pvals(z), 0);
    lemma_pruned_equals_full(vvals, bbits, pvals(z), 0);
    assert(crate::msm::msm(uvals, pvals(z)) == crate::msm::msm_seg(
        uvals, pvals(z), 0, uvals.len() as int));
}

/// Over keys from setup, the first two proof elements are the
/// textbook Groth16 values: `A = alpha + u(tau) + r*delta` and
/// `B = beta + v(tau) + s*delta`, where `u(tau)` and `v(tau)` are the
/// full witness-weighted sums of the QAP column evaluations — pruning
/// and all, nothing of the witness's contribution is lost.
pub proof fn lemma_proof_elements_in_toxic_terms(
    shape: ConstraintShape,
    tw: ToxicWaste,
    pk: ProverKey,
    z: Seq<Fp>,
    r: Fp,
    s: Fp,
    prf: Proof,
)
    requires
        pk_match(shape, tw, pk),
        crate::prover::proof_matches(pk, shape, z, r, s, prf),
        z.len() == shape.num_vars,
    ensures
        prf.a.v.v == fadd(
            fadd(tw.alpha.v as int, crate::msm::msm(crate::setup::u_all(shape, tw),
                pvals(z))),
            fmul(r.v as int, tw.delta.v as int),
        ),
        prf.b.v.v == fadd(
            fadd(tw.beta.v as int, crate::msm::msm(crate::setup::v_all(shape, tw),
                pvals(z))),
            fmul(s.v as int, tw.delta.v as int),
        ),
{
    lemma_pruning_preserves_msm(shape, tw, pk, z);
}

/// Public-input sensitivity: a proof that verifies against one input
/// vector fails against a vector that differs in a single entry,
/// whenever the change actually moves the accumulated input element —
/// that is, when the product of the entry difference, the entry's
/// `ic` basis exponent and the `gamma` exponent is nonzero.  (For the
/// prime modulus that product is nonzero exactly when all three
/// factors are; the hypothesis is stated as the product because the
/// development nowhere assumes primality.)
pub proof fn lemma_public_input_sensitivity(
    vk: VerifierKey,
    pubs1: Seq<Fp>,
    pubs2: Seq<Fp>,
    prf: Proof,
    i: int,
)
    requires
        inputs_ok(vk, pubs1),
        inputs_ok(vk, pubs2),
        pairing_eq(vk, pubs1, prf),
        0 <= i < pubs1.len(),
        pubs2 == pubs1.update(i, pubs2[i]),
        fmul(
            fmul(fsub(pubs2[i].v as int, pubs1[i].v as int), vk.ic@[i].v.v as int),
            vk.gamma_g2.v.v as int,
        ) != 0,
    ensures
        !pairing_eq(vk, pubs2, prf),
{
    let bs = g1_vals(vk.ic@);
    let zs1 = pvals(pubs1);
    let zs2 = pvals(pubs2);
    let d = fmul(fsub(pubs2[i].v as int, pubs1[i].v as int), vk.ic@[i].v.v as int);
    let e = fmul(d, vk.gamma_g2.v.v as int);
    assert(zs2 =~= zs1.update(i, pubs2[i].v as int));
    lemma_msm_update(bs, zs1, zs2, i, 0, bs.len() as int);
    assert(ic_acc(vk, pubs2) == fadd(ic_acc(vk, pubs1), d));

    let ab = fmul(vk.alpha_g1.v.v as int, vk.beta_g2.v.v as int);
    let cd = fmul(prf.c.v.v as int, vk.delta_g2.v.v as int);
    let ic1g = fmul(ic_acc(vk, pubs1), vk.gamma_g2.v.v as int);
    let rhs1 = fadd(fadd(ab, ic1g), cd);
    lemma_fmul_distrib(ic_acc(vk, pubs1), d, vk.gamma_g2.v.v as int);
    assert(fmul(ic_acc(vk, pubs2), vk.gamma_g2.v.v as int) == fadd(ic1g, e));

    // rhs2 == fadd(rhs1, e), by reassociating the three summands.
    lemma_fadd_assoc(ab, ic1g, e);
    lemma_fadd_assoc(fadd(ab, ic1g), e, cd);
    lemma_fadd_assoc(fadd(ab, ic1g), cd, e);
    assert(fadd(e, cd) == fadd(cd, e));
    let rhs2 = fadd(fadd(ab, fadd(ic1g, e)), cd);
    assert(rhs2 == fadd(rhs1, e));

    if pairing_eq(vk, pubs2, prf) {
        assert(fadd(rhs1, e) == rhs1);
        lemma_fmul_bound(fadd(fadd(ab, ic1g), 0), cd);
        assert(0 <= rhs1 < crate::field::MODULUS);
        lemma_fmul_bound(d, vk.gamma_g2.v.v as int);
        lemma_fadd_cancel(rhs1, e);
        assert(false);
    }
}

} // verus!
