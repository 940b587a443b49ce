//! Quadratic Arithmetic Program construction.
//!
//! The evaluation domain is the first `m` field elements `0, 1, ...,
//! m-1` (distinct because a shape never has more constraints than
//! field elements).  For each domain index `j`, `lag_poly(m, j)` is
//! the Lagrange basis polynomial that is one at `j` and zero at every
//! other domain point; `vanishing(m)` is the monic polynomial with the
//! whole domain as roots.  A matrix column `i` then turns into the
//! interpolated polynomial `sum_j M[j][i] * lag_poly(m, j)`, and setup
//! needs only its value at the secret point, `col_eval` with the basis
//! values at that point.

use vstd::prelude::*;
use crate::field::{fadd, finv, fmul, invertible, lemma_pvals_index, pvals, Fp, MODULUS};
use crate::poly::{
    add_polys, eval_poly, mul_linear, poly_add, poly_eval, poly_mul_linear, poly_scale,
    poly_wf, scale_poly,
};
use crate::shape::{matrix_wf, term_wf, LinearTerm};

verus! {

broadcast use lemma_pvals_index;

/// The view of a vector of coefficient vectors.
pub open spec fn mat_pvals(s: Seq<Vec<Fp>>) -> Seq<Seq<int>> {
    s.map_values(|v: Vec<Fp>| pvals(v@))
}

/// Indexing the view of a vector of polynomials.
pub broadcast proof fn lemma_mat_pvals_index(s: Seq<Vec<Fp>>, i: int)
    requires
        0 <= i < s.len(),
    ensures
        mat_pvals(s)[i] == pvals((#[trigger] s[i])@),
{
}

/// The numerator of the `j`-th Lagrange basis polynomial, with the
/// linear factors of the first `upto` domain points multiplied in.
pub open spec fn lag_numer_upto(j: int, upto: int) -> Seq<int>
    decreases upto,
{
    if upto <= 0 {
        seq![1int]
    } else if upto - 1 == j {
        lag_numer_upto(j, upto - 1)
    } else {
        poly_mul_linear(lag_numer_upto(j, upto - 1), upto - 1)
    }
}

/// `prod_{k != j, k < m} (X - k)`, the Lagrange numerator.
pub open spec fn lag_numer(m: int, j: int) -> Seq<int> {
    lag_numer_upto(j, m)
}

/// The Lagrange denominator `prod_{k != j} (j - k)`, as the
/// numerator's value at the point `j` itself.
pub open spec fn lag_den(m: int, j: int) -> int {
    poly_eval(lag_numer(m, j), j)
}

/// The `j`-th Lagrange basis polynomial over the domain `0 .. m`.
pub open spec fn lag_poly(m: int, j: int) -> Seq<int> {
    poly_scale(finv(lag_den(m, j)), lag_numer(m, j))
}

/// Every Lagrange denominator of the domain has an inverse.  (For a
/// prime modulus this always holds; the executable basis builder
/// checks it rather than assuming it.)
pub open spec fn lag_dens_invertible(m: int) -> bool {
    forall|j: int| 0 <= j < m ==> invertible(lag_den(m, j))
}

/// The vanishing polynomial of the first `upto` domain points.
pub open spec fn vanishing_upto(upto: int) -> Seq<int>
    decreases upto,
{
    if upto <= 0 {
        seq![1int]
    } else {
        poly_mul_linear(vanishing_upto(upto - 1), upto - 1)
    }
}

/// `t(X) = prod_{k < m} (X - k)`, the monic vanishing polynomial.
pub open spec fn vanishing(m: int) -> Seq<int> {
    vanishing_upto(m)
}

/// The values of all Lagrange basis polynomials at one point.
pub open spec fn lag_vals_at(m: int, x: int) -> Seq<int> {
    Seq::new(m as nat, |j: int| poly_eval(lag_poly(m, j), x))
}

/// The interpolation `sum_{jj >= j} vs[jj] * bs[jj]` of values against
/// basis polynomials, from index `j` on.
pub open spec fn interp_from(bs: Seq<Seq<int>>, vs: Seq<int>, j: int) -> Seq<int>
    decreases vs.len() - j,
{
    if j < 0 || j >= vs.len() {
        Seq::<int>::empty()
    } else {
        poly_add(poly_scale(vs[j], bs[j]), interp_from(bs, vs, j + 1))
    }
}

/// The polynomial through the points `(j, vs[j])`, as the sum of
/// scaled Lagrange basis polynomials.
pub open spec fn interp(bs: Seq<Seq<int>>, vs: Seq<int>) -> Seq<int> {
    interp_from(bs, vs, 0)
}

/// The value at a point of the interpolation of matrix column `i`,
/// given the basis polynomials' values `lags` at that point: the sum
/// of `coeff * lags[row]` over the column's entries, in row-major
/// order from entry `(j, k)` on.
pub open spec fn col_eval_from(
    mat: Seq<Seq<LinearTerm>>,
    i: int,
    lags: Seq<int>,
    j: int,
    k: int,
) -> int
    decreases mat.len() - j, (if 0 <= j < mat.len() { mat[j].len() - k + 1 } else { 0 }),
{
    if j < 0 || j >= mat.len() {
        0
    } else if k < 0 || k >= mat[j].len() {
        col_eval_from(mat, i, lags, j + 1, 0)
    } else {
        let rest = col_eval_from(mat, i, lags, j, k + 1);
        if mat[j][k].var == i {
            fadd(fmul(mat[j][k].coeff.v as int, lags[j]), rest)
        } else {
            rest
        }
    }
}

/// The QAP polynomial of matrix column `i`, evaluated through the
/// basis values `lags`.
pub open spec fn col_eval(mat: Seq<Seq<LinearTerm>>, i: int, lags: Seq<int>) -> int {
    col_eval_from(mat, i, lags, 0, 0)
}

/// A column evaluation is a reduced residue.
pub proof fn lemma_col_eval_range(mat: Seq<Seq<LinearTerm>>, i: int, lags: Seq<int>, j: int, k: int)
    ensures
        0 <= col_eval_from(mat, i, lags, j, k) < MODULUS,
    decreases mat.len() - j, (if 0 <= j < mat.len() { mat[j].len() - k + 1 } else { 0 }),
{
    if j < 0 || j >= mat.len() {
    } else if k < 0 || k >= mat[j].len() {
        lemma_col_eval_range(mat, i, lags, j + 1, 0);
    } else {
        lemma_col_eval_range(mat, i, lags, j, k + 1);
        if mat[j][k].var == i {
            crate::field::lemma_fmul_bound(
                fmul(mat[j][k].coeff.v as int, lags[j]),
                col_eval_from(mat, i, lags, j, k + 1),
            );
        }
    }
}

/// A structurally zero column evaluates to zero through any basis
/// values: every one of its coefficients is zero.
pub proof fn lemma_zero_column_evaluates_zero(
    mat: Seq<Seq<LinearTerm>>,
    i: int,
    lags: Seq<int>,
    j: int,
    k: int,
)
    requires
        !crate::shape::col_nonzero_from(mat, i, j, k),
    ensures
        col_eval_from(mat, i, lags, j, k) == 0,
    decreases mat.len() - j, (if 0 <= j < mat.len() { mat[j].len() - k + 1 } else { 0 }),
{
    if j < 0 || j >= mat.len() {
    } else if k < 0 || k >= mat[j].len() {
        lemma_zero_column_evaluates_zero(mat, i, lags, j + 1, 0);
    } else {
        lemma_zero_column_evaluates_zero(mat, i, lags, j, k + 1);
        if mat[j][k].var == i {
            assert(mat[j][k].coeff.v == 0);
            assert(fmul(0, lags[j]) == 0) by {
                vstd::arithmetic::div_mod::lemma_small_mod(0, MODULUS as nat);
            }
            assert(fadd(0, 0) == 0) by {
                vstd::arithmetic::div_mod::lemma_small_mod(0, MODULUS as nat);
            }
        }
    }
}

/// The Lagrange basis polynomials of the domain, as one sequence.
pub open spec fn lag_basis_seq(m: int) -> Seq<Seq<int>> {
    Seq::new(m as nat, |j: int| lag_poly(m, j))
}

/// An interpolation against basis polynomials of one common length
/// has that length.
pub proof fn lemma_interp_len(bs: Seq<Seq<int>>, vs: Seq<int>, j: int, ll: nat)
    requires
        forall|k: int| 0 <= k < bs.len() ==> (#[trigger] bs[k]).len() == ll,
        vs.len() <= bs.len(),
    ensures
        interp_from(bs, vs, j).len() == if 0 <= j < vs.len() {
            ll as int
        } else {
            0
        },
    decreases vs.len() - j,
{
    if 0 <= j < vs.len() {
        lemma_interp_len(bs, vs, j + 1, ll);
    }
}

/// Builds the numerator polynomial of one Lagrange basis element.
fn build_lag_numer(m: usize, j: usize) -> (r: Vec<Fp>)
    requires
        j < m,
        m <= MODULUS,
    ensures
        pvals(r@) == lag_numer(m as int, j as int),
        poly_wf(pvals(r@)),
        r@.len() == m,
{
    let mut p: Vec<Fp> = Vec::new();
    p.push(Fp::one());
    assert(pvals(p@) =~= seq![1int]);
    let mut k: usize = 0;
    while k < m
        invariant
            k <= m,
            j < m,
            m <= MODULUS,
            pvals(p@) == lag_numer_upto(j as int, k as int),
            poly_wf(pvals(p@)),
            p@.len() == if j < k {
                k as int
            } else {
                k + 1
            },
        decreases m - k,
    {
        if k != j {
            let c = Fp::new(k as u64);
            assert(c.v == k) by {
                vstd::arithmetic::div_mod::lemma_small_mod(k as nat, MODULUS as nat);
            }
            p = mul_linear(&p, c);
            proof {
                assert(pvals(p@).len() == p@.len());
            }
        }
        k = k + 1;
    }
    p
}

/// Builds the monic vanishing polynomial of the domain.
pub fn build_vanishing(m: usize) -> (r: Vec<Fp>)
    requires
        m <= MODULUS,
    ensures
        pvals(r@) == vanishing(m as int),
        poly_wf(pvals(r@)),
        r@.len() == m + 1,
{
    let mut p: Vec<Fp> = Vec::new();
    p.push(Fp::one());
    assert(pvals(p@) =~= seq![1int]);
    let mut k: usize = 0;
    while k < m
        invariant
            k <= m,
            m <= MODULUS,
            pvals(p@) == vanishing_upto(k as int),
            poly_wf(pvals(p@)),
            p@.len() == k + 1,
        decreases m - k,
    {
        let c = Fp::new(k as u64);
        assert(c.v == k) by {
            vstd::arithmetic::div_mod::lemma_small_mod(k as nat, MODULUS as nat);
        }
        p = mul_linear(&p, c);
        proof {
            assert(pvals(p@).len() == p@.len());
        }
        k = k + 1;
    }
    p
}

/// Builds every Lagrange basis polynomial of the domain, or reports
/// that some denominator has no inverse.
pub fn lagrange_basis(m: usize) -> (r: Option<Vec<Vec<Fp>>>)
    requires
        1 <= m,
        m <= MODULUS,
    ensures
        r is Some <==> lag_dens_invertible(m as int),
        r is Some ==> r->0@.len() == m && forall|j: int| 0 <= j < m
            ==> pvals((#[trigger] r->0@[j])@) == lag_poly(m as int, j)
                && poly_wf(pvals(r->0@[j]@)) && r->0@[j]@.len() == m,
{
    let mut out: Vec<Vec<Fp>> = Vec::new();
    let mut j: usize = 0;
    while j < m
        invariant
            j <= m,
            1 <= m,
            m <= MODULUS,
            out@.len() == j,
            forall|jj: int| 0 <= jj < j ==> invertible(lag_den(m as int, jj)),
            forall|jj: int| 0 <= jj < j ==> pvals((#[trigger] out@[jj])@)
                == lag_poly(m as int, jj) && poly_wf(pvals(out@[jj]@))
                && out@[jj]@.len() == m,
        decreases m - j,
    {
        let numer = build_lag_numer(m, j);
        let x = Fp::new(j as u64);
        assert(x.v == j) by {
            vstd::arithmetic::div_mod::lemma_small_mod(j as nat, MODULUS as nat);
        }
        let den = eval_poly(&numer, x);
        let inv = den.inverse();
        match inv {
            Option::None => {
                assert(!invertible(lag_den(m as int, j as int)));
                return Option::None;
            },
            Option::Some(d) => {
                let scaled = scale_poly(d, &numer);
                proof {
                    assert(pvals(scaled@) == lag_poly(m as int, j as int));
                    assert(pvals(scaled@).len() == scaled@.len());
                    assert(pvals(numer@).len() == numer@.len());
                }
                out.push(scaled);
            },
        }
        j = j + 1;
    }
    Option::Some(out)
}

/// Interpolates the polynomial through the values `vals` against a
/// Lagrange basis.
pub fn interpolate(basis: &Vec<Vec<Fp>>, vals: &Vec<Fp>) -> (r: Vec<Fp>)
    requires
        basis@.len() == vals@.len(),
        forall|j: int| 0 <= j < basis@.len() ==> poly_wf(pvals((#[trigger] basis@[j])@)),
        forall|j: int| 0 <= j < vals@.len() ==> (#[trigger] vals@[j]).wf(),
    ensures
        pvals(r@) == interp(mat_pvals(basis@), pvals(vals@)),
        poly_wf(pvals(r@)),
{
    broadcast use lemma_mat_pvals_index;

    let mut acc: Vec<Fp> = Vec::new();
    let mut j: usize = vals.len();
    assert(pvals(acc@) =~= interp_from(mat_pvals(basis@), pvals(vals@), j as int));
    while j > 0
        invariant
            j <= vals@.len(),
            basis@.len() == vals@.len(),
            forall|jj: int| 0 <= jj < basis@.len() ==> poly_wf(pvals(
                (#[trigger] basis@[jj])@,
            )),
            forall|jj: int| 0 <= jj < vals@.len() ==> (#[trigger] vals@[jj]).wf(),
            pvals(acc@) == interp_from(mat_pvals(basis@), pvals(vals@), j as int),
            poly_wf(pvals(acc@)),
        decreases j,
    {
        broadcast use lemma_mat_pvals_index;

        j = j - 1;
        let scaled = scale_poly(vals[j], &basis[j]);
        acc = add_polys(&scaled, &acc);
    }
    acc
}

/// Evaluates every matrix column's QAP polynomial through the basis
/// values `lags`: entry `i` of the result is column `i`'s value.
pub fn eval_columns(mat: &Vec<Vec<LinearTerm>>, lags: &Vec<Fp>, nv: usize) -> (out: Vec<Fp>)
    requires
        matrix_wf(crate::shape::mat_view(mat@), nv as int),
        lags@.len() == mat@.len(),
        forall|j: int| 0 <= j < lags@.len() ==> (#[trigger] lags@[j]).wf(),
    ensures
        out@.len() == nv,
        forall|i: int| 0 <= i < nv ==> (#[trigger] out@[i]).wf()
            && out@[i].v == col_eval(crate::shape::mat_view(mat@), i, pvals(lags@)),
{
    let ghost mv = crate::shape::mat_view(mat@);
    let mut out: Vec<Fp> = Vec::new();
    let mut i: usize = 0;
    while i < nv
        invariant
            i <= nv,
            out@.len() == i,
            forall|ii: int| 0 <= ii < i ==> (#[trigger] out@[ii]).wf() && out@[ii].v == 0,
        decreases nv - i,
    {
        out.push(Fp::zero());
        i = i + 1;
    }
    let mut j: usize = mat.len();
    assert(forall|ii: int| 0 <= ii < nv ==> col_eval_from(mv, ii, pvals(lags@), j as int, 0) == 0);
    while j > 0
        invariant
            j <= mat@.len(),
            mv == crate::shape::mat_view(mat@),
            matrix_wf(mv, nv as int),
            lags@.len() == mat@.len(),
            forall|jj: int| 0 <= jj < lags@.len() ==> (#[trigger] lags@[jj]).wf(),
            out@.len() == nv,
            forall|ii: int| 0 <= ii < nv ==> (#[trigger] out@[ii]).wf() && out@[ii].v
                == col_eval_from(mv, ii, pvals(lags@), j as int, 0),
        decreases j,
    {
        j = j - 1;
        let row = &mat[j];
        let mut k: usize = row.len();
        assert(row@ == mv[j as int]);
        assert(forall|ii: int| 0 <= ii < nv ==> col_eval_from(mv, ii, pvals(lags@), j as int,
            k as int) == col_eval_from(mv, ii, pvals(lags@), j as int + 1, 0));
        while k > 0
            invariant
                k <= row@.len(),
                j < mat@.len(),
                mv == crate::shape::mat_view(mat@),
                row@ == mv[j as int],
                matrix_wf(mv, nv as int),
                lags@.len() == mat@.len(),
                forall|jj: int| 0 <= jj < lags@.len() ==> (#[trigger] lags@[jj]).wf(),
                out@.len() == nv,
                forall|ii: int| 0 <= ii < nv ==> (#[trigger] out@[ii]).wf() && out@[ii].v
                    == col_eval_from(mv, ii, pvals(lags@), j as int, k as int),
            decreases k,
        {
            k = k - 1;
            let t = row[k];
            assert(term_wf(mv[j as int][k as int], nv as int));
            let cur = out[t.var];
            let upd = t.coeff.mul(lags[j]).add(cur);
            out.set(t.var, upd);
        }
    }
    out
}

} // verus!
