//! The trusted setup: compiles a constraint shape into QAP bases
//! evaluated at the secret point and assembles the key pair.
//!
//! `setup_with_toxic` is the deterministic core: given the five
//! toxic-waste scalars it either returns the exact key pair that the
//! formulas of the protocol prescribe, or reports a malformed shape,
//! or reports a randomness degeneracy: a required inverse that does
//! not exist (for the prime modulus, never at run time, but checked),
//! or a secret point drawn inside the evaluation domain.

use vstd::prelude::*;
use crate::errors::Groth16Error;
use crate::field::{
    fadd, finv, fmul, fpow, invertible, lemma_pvals_index, pvals, Fp,
};
use crate::group::{g1_vals, g2_vals, lemma_g1_vals_index, lemma_g2_vals_index, G1, G2};
use crate::keys::{ProverKey, ToxicWaste, VerifierKey};
use crate::poly::poly_eval;
use crate::qap::{
    build_vanishing, col_eval, eval_columns, lag_dens_invertible, lag_poly, lag_vals_at,
    lagrange_basis, vanishing,
};
use crate::shape::{adapt, col_nonzero, build_density, mat_view, ConstraintShape};

verus! {

broadcast use lemma_pvals_index, lemma_g1_vals_index, lemma_g2_vals_index;

/// The subsequence of `vals` kept by the density bits, among the
/// first `i` indices.
pub open spec fn filtered_upto(vals: Seq<int>, bits: Seq<bool>, i: int) -> Seq<int>
    decreases i,
{
    if i <= 0 {
        Seq::<int>::empty()
    } else {
        let rest = filtered_upto(vals, bits, i - 1);
        if 0 <= i - 1 < bits.len() && bits[i - 1] {
            rest.push(vals[i - 1])
        } else {
            rest
        }
    }
}

/// The pruned basis: the values whose density bit is set, in order.
pub open spec fn filtered(vals: Seq<int>, bits: Seq<bool>) -> Seq<int> {
    filtered_upto(vals, bits, bits.len() as int)
}

/// The Lagrange-basis values at the secret point.
pub open spec fn setup_lags(shape: ConstraintShape, tw: ToxicWaste) -> Seq<int> {
    lag_vals_at(shape.a@.len() as int, tw.tau.v as int)
}

/// `u_i(tau)`: the QAP polynomial of column `i` of `A` at the secret
/// point; likewise `v` for `B` and `w` for `C`.
pub open spec fn u_at(shape: ConstraintShape, tw: ToxicWaste, i: int) -> int {
    col_eval(mat_view(shape.a@), i, setup_lags(shape, tw))
}

pub open spec fn v_at(shape: ConstraintShape, tw: ToxicWaste, i: int) -> int {
    col_eval(mat_view(shape.b@), i, setup_lags(shape, tw))
}

pub open spec fn w_at(shape: ConstraintShape, tw: ToxicWaste, i: int) -> int {
    col_eval(mat_view(shape.c@), i, setup_lags(shape, tw))
}

/// The vanishing polynomial's value `t(tau)`.
pub open spec fn t_at(shape: ConstraintShape, tw: ToxicWaste) -> int {
    poly_eval(vanishing(shape.a@.len() as int), tw.tau.v as int)
}

/// `beta*u_i + alpha*v_i + w_i`, the shared numerator of the `l` and
/// `ic` bases.
pub open spec fn kvl_at(shape: ConstraintShape, tw: ToxicWaste, i: int) -> int {
    fadd(
        fadd(
            fmul(tw.beta.v as int, u_at(shape, tw, i)),
            fmul(tw.alpha.v as int, v_at(shape, tw, i)),
        ),
        w_at(shape, tw, i),
    )
}

/// The `i`-th entry of the quotient basis `h`.
pub open spec fn h_at(shape: ConstraintShape, tw: ToxicWaste, i: int) -> int {
    fmul(
        fmul(fpow(tw.tau.v as int, i as nat), t_at(shape, tw)),
        finv(tw.delta.v as int),
    )
}

/// The structural density bits of the `A` (respectively `B`) matrix.
pub open spec fn a_bits_of(shape: ConstraintShape) -> Seq<bool> {
    Seq::new(shape.num_vars as nat, |i: int| col_nonzero(mat_view(shape.a@), i))
}

pub open spec fn b_bits_of(shape: ConstraintShape) -> Seq<bool> {
    Seq::new(shape.num_vars as nat, |i: int| col_nonzero(mat_view(shape.b@), i))
}

/// All per-variable `u` (respectively `v`) values at the secret point.
pub open spec fn u_all(shape: ConstraintShape, tw: ToxicWaste) -> Seq<int> {
    Seq::new(shape.num_vars as nat, |i: int| u_at(shape, tw, i))
}

pub open spec fn v_all(shape: ConstraintShape, tw: ToxicWaste) -> Seq<int> {
    Seq::new(shape.num_vars as nat, |i: int| v_at(shape, tw, i))
}

/// Whether setup can succeed on a well-formed shape: every Lagrange
/// denominator of the domain, and the `gamma` and `delta` scalars,
/// must be invertible, and the secret point must lie outside the
/// evaluation domain, so that `t(tau)` and with it the quotient
/// basis is not degenerately zero.
pub open spec fn setup_feasible(shape: ConstraintShape, tw: ToxicWaste) -> bool {
    &&& lag_dens_invertible(shape.a@.len() as int)
    &&& invertible(tw.gamma.v as int)
    &&& invertible(tw.delta.v as int)
    &&& t_at(shape, tw) != 0
}

/// The verifier key that the formulas prescribe.
pub open spec fn vk_match(shape: ConstraintShape, tw: ToxicWaste, vk: VerifierKey) -> bool {
    &&& vk.alpha_g1.v.v == tw.alpha.v
    &&& vk.beta_g2.v.v == tw.beta.v
    &&& vk.gamma_g2.v.v == tw.gamma.v
    &&& vk.delta_g2.v.v == tw.delta.v
    &&& vk.ic@.len() == shape.num_io
    &&& forall|i: int| 0 <= i < shape.num_io ==> (#[trigger] vk.ic@[i]).v.v == fmul(
        kvl_at(shape, tw, i),
        finv(tw.gamma.v as int),
    )
}

/// The prover key that the formulas prescribe.
pub open spec fn pk_match(shape: ConstraintShape, tw: ToxicWaste, pk: ProverKey) -> bool {
    &&& vk_match(shape, tw, pk.vk)
    &&& pk.beta_g1.v.v == tw.beta.v
    &&& pk.delta_g1.v.v == tw.delta.v
    &&& pk.h@.len() == shape.a@.len() - 1
    &&& forall|i: int| 0 <= i < pk.h@.len() ==> (#[trigger] pk.h@[i]).v.v == h_at(
        shape, tw, i)
    &&& pk.l@.len() == shape.num_vars - shape.num_io
    &&& forall|i: int| 0 <= i < pk.l@.len() ==> (#[trigger] pk.l@[i]).v.v == fmul(
        kvl_at(shape, tw, shape.num_io + i),
        finv(tw.delta.v as int),
    )
    &&& pk.a_density@ == a_bits_of(shape)
    &&& pk.b_density@ == b_bits_of(shape)
    &&& g1_vals(pk.a@) == filtered(u_all(shape, tw), a_bits_of(shape))
    &&& g1_vals(pk.b_g1@) == filtered(v_all(shape, tw), b_bits_of(shape))
    &&& g2_vals(pk.b_g2@) == filtered(v_all(shape, tw), b_bits_of(shape))
}

/// Copies a vector of first-group elements.
fn copy_g1_vec(v: &Vec<G1>) -> (r: Vec<G1>)
    ensures
        r@ == v@,
{
    let mut out: Vec<G1> = Vec::new();
    let mut i: usize = 0;
    while i < v.len()
        invariant
            i <= v@.len(),
            out@ == v@.take(i as int),
        decreases v@.len() - i,
    {
        out.push(v[i]);
        proof {
            assert(out@ =~= v@.take(i + 1));
        }
        i = i + 1;
    }
    proof {
        assert(out@ =~= v@);
    }
    out
}

/// The deterministic heart of setup: from a shape and the five
/// toxic-waste scalars, build the exact key pair of the protocol.
///
/// Returns `Shape` exactly on a malformed shape, `Setup` exactly when
/// a required inverse is missing or the secret point lies inside the
/// evaluation domain, and otherwise the keys that `pk_match` /
/// `vk_match` prescribe.
///
/// Because the modulus is prime, every nonzero scalar and every
/// Lagrange denominator of the domain in fact has an inverse, so with
/// nonzero `gamma` and `delta` the `Setup` case never arises at run
/// time.  That number-theoretic fact (nonzero implies invertible)
/// is not proved in this development — it needs Bezout's identity
/// and the primality of the modulus — so the contract keeps the
/// honest, weaker condition `setup_feasible`, and the inversions are
/// checked rather than assumed.
pub fn setup_with_toxic(shape: &ConstraintShape, tw: &ToxicWaste) -> (r: Result<
    (ProverKey, VerifierKey),
    Groth16Error,
>)
    requires
        tw.wf(),
    ensures
        r is Ok <==> shape.wf() && setup_feasible(*shape, *tw),
        !shape.wf() ==> r == Err::<(ProverKey, VerifierKey), Groth16Error>(
            Groth16Error::Shape),
        shape.wf() && !setup_feasible(*shape, *tw) ==> r == Err::<
            (ProverKey, VerifierKey),
            Groth16Error,
        >(Groth16Error::Setup),
        r is Ok ==> pk_match(*shape, *tw, r->Ok_0.0) && vk_match(*shape, *tw, r->Ok_0.1)
            && r->Ok_0.0.wf() && r->Ok_0.1.wf(),
{
    let cc = match adapt(shape) {
        Result::Ok(cc) => cc,
        Result::Err(e) => {
            return Result::Err(Groth16Error::Shape);
        },
    };
    let m = cc.num_constraints;
    let nv = cc.num_vars;
    let nio = cc.num_io;
    let basis = match lagrange_basis(m) {
        Option::Some(b) => b,
        Option::None => {
            return Result::Err(Groth16Error::Setup);
        },
    };
    let gamma_inv = match tw.gamma.inverse() {
        Option::Some(x) => x,
        Option::None => {
            return Result::Err(Groth16Error::Setup);
        },
    };
    let delta_inv = match tw.delta.inverse() {
        Option::Some(x) => x,
        Option::None => {
            return Result::Err(Groth16Error::Setup);
        },
    };

    // Lagrange-basis values at the secret point.
    let mut lags: Vec<Fp> = Vec::new();
    let mut j: usize = 0;
    while j < m
        invariant
            j <= m,
            m == shape.a@.len(),
            tw.wf(),
            basis@.len() == m,
            forall|jj: int| 0 <= jj < m ==> pvals((#[trigger] basis@[jj])@)
                == lag_poly(m as int, jj) && crate::poly::poly_wf(pvals(basis@[jj]@)),
            lags@.len() == j,
            forall|jj: int| 0 <= jj < j ==> (#[trigger] lags@[jj]).wf()
                && lags@[jj].v == setup_lags(*shape, *tw)[jj],
        decreases m - j,
    {
        let val = crate::poly::eval_poly(&basis[j], tw.tau);
        lags.push(val);
        j = j + 1;
    }

    let u_vals = eval_columns(&shape.a, &lags, nv);
    let v_vals = eval_columns(&shape.b, &lags, nv);
    let w_vals = eval_columns(&shape.c, &lags, nv);
    proof {
        assert(pvals(lags@) =~= setup_lags(*shape, *tw));
    }

    let tpoly = build_vanishing(m);
    let t_tau = crate::poly::eval_poly(&tpoly, tw.tau);
    if t_tau.v == 0 {
        return Result::Err(Groth16Error::Setup);
    }

    // Quotient basis h.
    let mut h: Vec<G1> = Vec::new();
    let mut tpow = Fp::one();
    let mut i: usize = 0;
    while i < m - 1
        invariant
            i <= m - 1,
            m == shape.a@.len(),
            m >= 1,
            tw.wf(),
            t_tau.wf(),
            t_tau.v == t_at(*shape, *tw),
            delta_inv.wf(),
            delta_inv.v == finv(tw.delta.v as int),
            tpow.wf(),
            tpow.v == fpow(tw.tau.v as int, i as nat),
            h@.len() == i,
            forall|ii: int| 0 <= ii < i ==> (#[trigger] h@[ii]).wf() && h@[ii].v.v == h_at(
                *shape, *tw, ii),
        decreases m - 1 - i,
    {
        h.push(G1::from_scalar(tpow.mul(t_tau).mul(delta_inv)));
        tpow = tpow.mul(tw.tau);
        i = i + 1;
    }

    // Auxiliary basis l.
    let mut l: Vec<G1> = Vec::new();
    let mut i2: usize = nio;
    while i2 < nv
        invariant
            nio <= i2 <= nv,
            nv == shape.num_vars,
            nio == shape.num_io,
            tw.wf(),
            delta_inv.wf(),
            delta_inv.v == finv(tw.delta.v as int),
            u_vals@.len() == nv,
            v_vals@.len() == nv,
            w_vals@.len() == nv,
            forall|ii: int| 0 <= ii < nv ==> (#[trigger] u_vals@[ii]).wf() && u_vals@[ii].v
                == u_at(*shape, *tw, ii),
            forall|ii: int| 0 <= ii < nv ==> (#[trigger] v_vals@[ii]).wf() && v_vals@[ii].v
                == v_at(*shape, *tw, ii),
            forall|ii: int| 0 <= ii < nv ==> (#[trigger] w_vals@[ii]).wf() && w_vals@[ii].v
                == w_at(*shape, *tw, ii),
            l@.len() == i2 - nio,
            forall|ii: int| 0 <= ii < i2 - nio ==> (#[trigger] l@[ii]).wf() && l@[ii].v.v
                == fmul(kvl_at(*shape, *tw, nio + ii), finv(tw.delta.v as int)),
        decreases nv - i2,
    {
        let num = tw.beta.mul(u_vals[i2]).add(tw.alpha.mul(v_vals[i2])).add(w_vals[i2]);
        l.push(G1::from_scalar(num.mul(delta_inv)));
        i2 = i2 + 1;
    }

    // Public-input basis ic.
    let mut ic: Vec<G1> = Vec::new();
    let mut i3: usize = 0;
    while i3 < nio
        invariant
            i3 <= nio,
            nio <= nv,
            nv == shape.num_vars,
            nio == shape.num_io,
            tw.wf(),
            gamma_inv.wf(),
            gamma_inv.v == finv(tw.gamma.v as int),
            u_vals@.len() == nv,
            v_vals@.len() == nv,
            w_vals@.len() == nv,
            forall|ii: int| 0 <= ii < nv ==> (#[trigger] u_vals@[ii]).wf() && u_vals@[ii].v
                == u_at(*shape, *tw, ii),
            forall|ii: int| 0 <= ii < nv ==> (#[trigger] v_vals@[ii]).wf() && v_vals@[ii].v
                == v_at(*shape, *tw, ii),
            forall|ii: int| 0 <= ii < nv ==> (#[trigger] w_vals@[ii]).wf() && w_vals@[ii].v
                == w_at(*shape, *tw, ii),
            ic@.len() == i3,
            forall|ii: int| 0 <= ii < i3 ==> (#[trigger] ic@[ii]).wf() && ic@[ii].v.v
                == fmul(kvl_at(*shape, *tw, ii), finv(tw.gamma.v as int)),
        decreases nio - i3,
    {
        let num = tw.beta.mul(u_vals[i3]).add(tw.alpha.mul(v_vals[i3])).add(w_vals[i3]);
        ic.push(G1::from_scalar(num.mul(gamma_inv)));
        i3 = i3 + 1;
    }

    // Density trackers and the pruned per-variable bases.
    let a_bits = build_density(&shape.a, nv);
    let b_bits = build_density(&shape.b, nv);

    let mut a_key: Vec<G1> = Vec::new();
    let mut i4: usize = 0;
    while i4 < nv
        invariant
            i4 <= nv,
            nv == shape.num_vars,
            tw.wf(),
            a_bits@.len() == nv,
            forall|ii: int| 0 <= ii < nv ==> a_bits@[ii] == col_nonzero(
                mat_view(shape.a@), ii),
            u_vals@.len() == nv,
            forall|ii: int| 0 <= ii < nv ==> (#[trigger] u_vals@[ii]).wf() && u_vals@[ii].v
                == u_at(*shape, *tw, ii),
            forall|ii: int| 0 <= ii < a_key@.len() ==> (#[trigger] a_key@[ii]).wf(),
            g1_vals(a_key@) == filtered_upto(u_all(*shape, *tw), a_bits_of(*shape),
                i4 as int),
        decreases nv - i4,
    {
        if a_bits[i4] {
            a_key.push(G1::from_scalar(u_vals[i4]));
        }
        proof {
            assert(g1_vals(a_key@) =~= filtered_upto(u_all(*shape, *tw),
                a_bits_of(*shape), i4 + 1));
        }
        i4 = i4 + 1;
    }

    let mut b1_key: Vec<G1> = Vec::new();
    let mut b2_key: Vec<G2> = Vec::new();
    let mut i5: usize = 0;
    while i5 < nv
        invariant
            i5 <= nv,
            nv == shape.num_vars,
            tw.wf(),
            b_bits@.len() == nv,
            forall|ii: int| 0 <= ii < nv ==> b_bits@[ii] == col_nonzero(
                mat_view(shape.b@), ii),
            v_vals@.len() == nv,
            forall|ii: int| 0 <= ii < nv ==> (#[trigger] v_vals@[ii]).wf() && v_vals@[ii].v
                == v_at(*shape, *tw, ii),
            forall|ii: int| 0 <= ii < b1_key@.len() ==> (#[trigger] b1_key@[ii]).wf(),
            forall|ii: int| 0 <= ii < b2_key@.len() ==> (#[trigger] b2_key@[ii]).wf(),
            g1_vals(b1_key@) == filtered_upto(v_all(*shape, *tw), b_bits_of(*shape),
                i5 as int),
            g2_vals(b2_key@) == filtered_upto(v_all(*shape, *tw), b_bits_of(*shape),
                i5 as int),
        decreases nv - i5,
    {
        if b_bits[i5] {
            b1_key.push(G1::from_scalar(v_vals[i5]));
            b2_key.push(G2::from_scalar(v_vals[i5]));
        }
        proof {
            assert(g1_vals(b1_key@) =~= filtered_upto(v_all(*shape, *tw),
                b_bits_of(*shape), i5 + 1));
            assert(g2_vals(b2_key@) =~= filtered_upto(v_all(*shape, *tw),
                b_bits_of(*shape), i5 + 1));
        }
        i5 = i5 + 1;
    }

    let ic2 = copy_g1_vec(&ic);
    let vk = VerifierKey {
        alpha_g1: G1::from_scalar(tw.alpha),
        beta_g2: G2::from_scalar(tw.beta),
        gamma_g2: G2::from_scalar(tw.gamma),
        delta_g2: G2::from_scalar(tw.delta),
        ic,
    };
    let vk_inner = VerifierKey {
        alpha_g1: G1::from_scalar(tw.alpha),
        beta_g2: G2::from_scalar(tw.beta),
        gamma_g2: G2::from_scalar(tw.gamma),
        delta_g2: G2::from_scalar(tw.delta),
        ic: ic2,
    };
    let pk = ProverKey {
        vk: vk_inner,
        beta_g1: G1::from_scalar(tw.beta),
        delta_g1: G1::from_scalar(tw.delta),
        h,
        l,
        a: a_key,
        b_g1: b1_key,
        b_g2: b2_key,
        a_density: a_bits,
        b_density: b_bits,
    };
    proof {
        assert(pk.a_density@ =~= a_bits_of(*shape));
        assert(pk.b_density@ =~= b_bits_of(*shape));
    }
    Result::Ok((pk, vk))
}

} // verus!
