//! The prover: assembles the three proof elements from the proving
//! key, the witness assignment and two fresh blinding scalars.
//!
//! `prove_with_blinding` is deterministic in its inputs and its
//! contract pins each proof element to the protocol's formula:
//! `A = alpha + u(tau) + r*delta`, `B = beta + v(tau) + s*delta` and
//! `C = (l-basis sum) + h(tau)t(tau)/delta + s*A + r*B - r*s*delta`,
//! where the `u`/`v` sums run over the density-pruned key bases and
//! the quotient scalars are the coefficients of
//! `(u(X)v(X) - w(X)) / t(X)`, computed by monic polynomial division
//! of the interpolated witness polynomials.

use vstd::prelude::*;
use crate::errors::Groth16Error;
use crate::field::{
    fadd, fmul, fsub, lemma_pvals_index, pvals, Fp,
};
use crate::group::{g1_vals, g2_vals, lemma_g1_vals_index, lemma_g2_vals_index, G1, G2};
use crate::keys::{Proof, ProverKey};
use crate::msm::{count_live, live_count, msm, msm_g1, msm_g1_pruned, msm_g2_pruned, msm_pruned};
use crate::poly::{
    divmod_monic, divmod_poly_monic, mul_polys, pat, poly_mul, poly_sub, sub_polys,
};
use crate::qap::{
    interp, lag_basis_seq, lag_dens_invertible, lagrange_basis, lemma_interp_len, mat_pvals,
    vanishing, interpolate, build_vanishing,
};
use crate::shape::{adapt, assignment_wf, eval_rows, mat_view, row_eval, ConstraintShape};

verus! {

broadcast use lemma_pvals_index, lemma_g1_vals_index, lemma_g2_vals_index;

/// The values `M . z` of a matrix at the witness, row by row.
pub open spec fn rows_at(mat: Seq<Seq<crate::shape::LinearTerm>>, z: Seq<Fp>) -> Seq<int> {
    Seq::new(mat.len(), |j: int| row_eval(mat[j], z))
}

/// The interpolated witness polynomial of the `A` matrix,
/// `u(X) = sum_j (A.z)_j L_j(X)`; likewise `v` for `B`, `w` for `C`.
pub open spec fn u_poly(shape: ConstraintShape, z: Seq<Fp>) -> Seq<int> {
    interp(lag_basis_seq(shape.a@.len() as int), rows_at(mat_view(shape.a@), z))
}

pub open spec fn v_poly(shape: ConstraintShape, z: Seq<Fp>) -> Seq<int> {
    interp(lag_basis_seq(shape.a@.len() as int), rows_at(mat_view(shape.b@), z))
}

pub open spec fn w_poly(shape: ConstraintShape, z: Seq<Fp>) -> Seq<int> {
    interp(lag_basis_seq(shape.a@.len() as int), rows_at(mat_view(shape.c@), z))
}

/// The quotient polynomial `(u v - w) / t` of the witness, by monic
/// division; its remainder is zero exactly when the witness satisfies
/// every constraint.
pub open spec fn quotient_poly(shape: ConstraintShape, z: Seq<Fp>) -> Seq<int> {
    divmod_monic(
        poly_sub(poly_mul(u_poly(shape, z), v_poly(shape, z)), w_poly(shape, z)),
        vanishing(shape.a@.len() as int),
    ).0
}

/// The quotient coefficients, zero-padded to the `h` basis length.
pub open spec fn h_scalars(shape: ConstraintShape, z: Seq<Fp>, hlen: int) -> Seq<int> {
    Seq::new(hlen as nat, |i: int| pat(quotient_poly(shape, z), i))
}

/// The exponent of proof element `A`.
pub open spec fn a_val(pk: ProverKey, z: Seq<Fp>, r: Fp) -> int {
    fadd(
        fadd(
            pk.vk.alpha_g1.v.v as int,
            msm_pruned(pk.a_density@, g1_vals(pk.a@), pvals(z)),
        ),
        fmul(r.v as int, pk.delta_g1.v.v as int),
    )
}

/// The exponent of proof element `B` (second group).
pub open spec fn b2_val(pk: ProverKey, z: Seq<Fp>, s: Fp) -> int {
    fadd(
        fadd(
            pk.vk.beta_g2.v.v as int,
            msm_pruned(pk.b_density@, g2_vals(pk.b_g2@), pvals(z)),
        ),
        fmul(s.v as int, pk.vk.delta_g2.v.v as int),
    )
}

/// The first-group copy of `B` used inside `C`.
pub open spec fn b1_val(pk: ProverKey, z: Seq<Fp>, s: Fp) -> int {
    fadd(
        fadd(
            pk.beta_g1.v.v as int,
            msm_pruned(pk.b_density@, g1_vals(pk.b_g1@), pvals(z)),
        ),
        fmul(s.v as int, pk.delta_g1.v.v as int),
    )
}

/// The exponent of proof element `C`.
pub open spec fn c_val(
    pk: ProverKey,
    shape: ConstraintShape,
    z: Seq<Fp>,
    r: Fp,
    s: Fp,
) -> int {
    fsub(
        fadd(
            fadd(
                fadd(
                    msm(
                        g1_vals(pk.l@),
                        pvals(z.subrange(shape.num_io as int, shape.num_vars as int)),
                    ),
                    msm(g1_vals(pk.h@), h_scalars(shape, z, pk.h@.len() as int)),
                ),
                fmul(s.v as int, a_val(pk, z, r)),
            ),
            fmul(r.v as int, b1_val(pk, z, s)),
        ),
        fmul(fmul(r.v as int, s.v as int), pk.delta_g1.v.v as int),
    )
}

/// The whole proof matches the protocol's formulas.
pub open spec fn proof_matches(
    pk: ProverKey,
    shape: ConstraintShape,
    z: Seq<Fp>,
    r: Fp,
    s: Fp,
    prf: Proof,
) -> bool {
    &&& prf.a.v.v == a_val(pk, z, r)
    &&& prf.b.v.v == b2_val(pk, z, s)
    &&& prf.c.v.v == c_val(pk, shape, z, r, s)
}

/// The key's structure fits the shape: the density trackers cover
/// every variable, the pruned bases hold exactly one entry per live
/// bit, and the `l` and `h` bases have the prescribed lengths.
pub open spec fn pk_fits(pk: ProverKey, shape: ConstraintShape) -> bool {
    &&& pk.a_density@.len() == shape.num_vars
    &&& pk.b_density@.len() == shape.num_vars
    &&& live_count(pk.a_density@, 0) == pk.a@.len()
    &&& live_count(pk.b_density@, 0) == pk.b_g1@.len()
    &&& pk.b_g2@.len() == pk.b_g1@.len()
    &&& pk.l@.len() == shape.num_vars - shape.num_io
    &&& pk.h@.len() == shape.a@.len() - 1
}

/// Produces a proof from the proving key, the shape, the witness and
/// the two blinding scalars.
///
/// Succeeds exactly when the shape is well formed, the witness has
/// `num_vars` entries, the key's structure fits the shape, and the
/// domain's Lagrange denominators are invertible (always, for a prime
/// modulus); a malformed shape reports `Shape`, everything else
/// `Prover`.  An unsatisfying witness is not an error: it yields a
/// proof that the verifier will reject.
pub fn prove_with_blinding(
    pk: &ProverKey,
    shape: &ConstraintShape,
    witness: &Vec<Fp>,
    r: Fp,
    s: Fp,
) -> (res: Result<Proof, Groth16Error>)
    requires
        pk.wf(),
        r.wf(),
        s.wf(),
        assignment_wf(witness@),
    ensures
        res is Ok <==> shape.wf() && witness@.len() == shape.num_vars && pk_fits(*pk, *shape)
            && lag_dens_invertible(shape.a@.len() as int),
        !shape.wf() ==> res == Err::<Proof, Groth16Error>(Groth16Error::Shape),
        shape.wf() && !(witness@.len() == shape.num_vars && pk_fits(*pk, *shape)
            && lag_dens_invertible(shape.a@.len() as int)) ==> res == Err::<
            Proof,
            Groth16Error,
        >(Groth16Error::Prover),
        res is Ok ==> proof_matches(*pk, *shape, witness@, r, s, res->Ok_0)
            && res->Ok_0.wf(),
{
    let cc = match adapt(shape) {
        Result::Ok(cc) => cc,
        Result::Err(e) => {
            return Result::Err(Groth16Error::Shape);
        },
    };
    let m = cc.num_constraints;
    let nv = cc.num_vars;
    let nio = cc.num_io;
    if witness.len() != nv {
        return Result::Err(Groth16Error::Prover);
    }
    let a_live = count_live(&pk.a_density);
    let b_live = count_live(&pk.b_density);
    if pk.a_density.len() != nv || pk.b_density.len() != nv || a_live != pk.a.len()
        || b_live != pk.b_g1.len() || pk.b_g2.len() != pk.b_g1.len()
        || pk.l.len() != nv - nio || pk.h.len() != m - 1 {
        return Result::Err(Groth16Error::Prover);
    }
    let basis = match lagrange_basis(m) {
        Option::Some(b) => b,
        Option::None => {
            return Result::Err(Groth16Error::Prover);
        },
    };

    // Interpolate the witness polynomials u, v, w.
    let az = eval_rows(&shape.a, witness);
    let bz = eval_rows(&shape.b, witness);
    let cz = eval_rows(&shape.c, witness);
    proof {
        assert(mat_pvals(basis@) =~= lag_basis_seq(m as int)) by {
            assert forall|j: int| 0 <= j < m implies mat_pvals(basis@)[j]
                == lag_basis_seq(m as int)[j] by {
                assert(mat_pvals(basis@)[j] == pvals(basis@[j]@));
            }
        }
        assert(pvals(az@) =~= rows_at(mat_view(shape.a@), witness@));
        assert(pvals(bz@) =~= rows_at(mat_view(shape.b@), witness@));
        assert(pvals(cz@) =~= rows_at(mat_view(shape.c@), witness@));
    }
    let u_p = interpolate(&basis, &az);
    let v_p = interpolate(&basis, &bz);
    let w_p = interpolate(&basis, &cz);
    proof {
        assert(pvals(u_p@) == u_poly(*shape, witness@));
        assert(pvals(v_p@) == v_poly(*shape, witness@));
        assert(pvals(w_p@) == w_poly(*shape, witness@));
        lemma_interp_len(lag_basis_seq(m as int), rows_at(mat_view(shape.a@), witness@), 0,
            m as nat);
        lemma_interp_len(lag_basis_seq(m as int), rows_at(mat_view(shape.b@), witness@), 0,
            m as nat);
        lemma_interp_len(lag_basis_seq(m as int), rows_at(mat_view(shape.c@), witness@), 0,
            m as nat);
        assert(u_p@.len() == m);
        assert(v_p@.len() == m);
        assert(w_p@.len() == m);
    }
    let uv = mul_polys(&u_p, &v_p);
    let numer = sub_polys(&uv, &w_p);
    let tpoly = build_vanishing(m);
    let qr = divmod_poly_monic(numer, &tpoly);
    let q = qr.0;
    proof {
        assert(pvals(q@) == quotient_poly(*shape, witness@));
    }

    // Pad the quotient coefficients to the h basis length.
    let mut hs: Vec<Fp> = Vec::new();
    let mut i: usize = 0;
    while i < pk.h.len()
        invariant
            i <= pk.h@.len(),
            pvals(q@) == quotient_poly(*shape, witness@),
            crate::poly::poly_wf(pvals(q@)),
            hs@.len() == i,
            forall|ii: int| 0 <= ii < i ==> (#[trigger] hs@[ii]).wf() && hs@[ii].v == pat(
                quotient_poly(*shape, witness@), ii),
        decreases pk.h@.len() - i,
    {
        if i < q.len() {
            hs.push(q[i]);
        } else {
            hs.push(Fp::zero());
        }
        i = i + 1;
    }
    proof {
        assert(pvals(hs@) =~= h_scalars(*shape, witness@, pk.h@.len() as int));
    }

    // The auxiliary slice of the witness.
    let mut aux: Vec<Fp> = Vec::new();
    let mut i6: usize = nio;
    while i6 < nv
        invariant
            nio <= i6 <= nv,
            witness@.len() == nv,
            assignment_wf(witness@),
            aux@.len() == i6 - nio,
            forall|ii: int| 0 <= ii < i6 - nio ==> (#[trigger] aux@[ii]) == witness@[
                nio + ii],
        decreases nv - i6,
    {
        aux.push(witness[i6]);
        i6 = i6 + 1;
    }
    proof {
        assert(pvals(aux@) =~= pvals(witness@.subrange(nio as int, nv as int)));
        assert(forall|ii: int| 0 <= ii < aux@.len() ==> (#[trigger] aux@[ii]).wf());
    }

    let a_el = pk.vk.alpha_g1.add(msm_g1_pruned(&pk.a, &pk.a_density, witness)).add(
        pk.delta_g1.scalar_mul(r),
    );
    let b2_el = pk.vk.beta_g2.add(msm_g2_pruned(&pk.b_g2, &pk.b_density, witness)).add(
        pk.vk.delta_g2.scalar_mul(s),
    );
    let b1_el = pk.beta_g1.add(msm_g1_pruned(&pk.b_g1, &pk.b_density, witness)).add(
        pk.delta_g1.scalar_mul(s),
    );
    let l_el = msm_g1(&pk.l, &aux);
    let h_el = msm_g1(&pk.h, &hs);
    let c_el = l_el.add(h_el).add(a_el.scalar_mul(s)).add(b1_el.scalar_mul(r)).sub(
        pk.delta_g1.scalar_mul(r.mul(s)),
    );
    Result::Ok(Proof { a: a_el, b: b2_el, c: c_el })
}

} // verus!
