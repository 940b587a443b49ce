//! Dense polynomials over the scalar field, as coefficient vectors in
//! increasing degree order.
//!
//! The specification functions work on `Seq<int>` of reduced residues;
//! `pvals` is the view of an executable coefficient vector.  Division
//! is only ever needed by a monic divisor (the vanishing polynomial of
//! the evaluation domain), so `divmod_monic` eliminates the leading
//! coefficient directly, with no inversion.

use vstd::prelude::*;
use crate::field::{fadd, fmul, fsub, lemma_pvals_index, pvals, Fp, MODULUS};

verus! {

broadcast use lemma_pvals_index;

/// Coefficient of degree `i`, zero beyond the stored length.
pub open spec fn pat(p: Seq<int>, i: int) -> int {
    if 0 <= i < p.len() {
        p[i]
    } else {
        0
    }
}

/// All stored coefficients are reduced residues.
pub open spec fn poly_wf(p: Seq<int>) -> bool {
    forall|i: int| 0 <= i < p.len() ==> 0 <= #[trigger] p[i] < MODULUS
}

/// Coefficient-wise sum.
pub open spec fn poly_add(p: Seq<int>, q: Seq<int>) -> Seq<int> {
    Seq::new(
        if p.len() >= q.len() {
            p.len()
        } else {
            q.len()
        },
        |i: int| fadd(pat(p, i), pat(q, i)),
    )
}

/// Coefficient-wise difference.
pub open spec fn poly_sub(p: Seq<int>, q: Seq<int>) -> Seq<int> {
    Seq::new(
        if p.len() >= q.len() {
            p.len()
        } else {
            q.len()
        },
        |i: int| fsub(pat(p, i), pat(q, i)),
    )
}

/// The scalar multiple `c * p`.
pub open spec fn poly_scale(c: int, p: Seq<int>) -> Seq<int> {
    Seq::new(p.len(), |i: int| fmul(c, p[i]))
}

/// The product `p * (X - c)`.
pub open spec fn poly_mul_linear(p: Seq<int>, c: int) -> Seq<int> {
    Seq::new(p.len() + 1, |i: int| fsub(pat(p, i - 1), fmul(c, pat(p, i))))
}

/// Partial convolution sum for degree `k`, from index `i` on.
pub open spec fn conv_from(p: Seq<int>, q: Seq<int>, k: int, i: int) -> int
    decreases k - i + 1,
{
    if i < 0 || i > k {
        0
    } else {
        fadd(fmul(pat(p, i), pat(q, k - i)), conv_from(p, q, k, i + 1))
    }
}

/// Degree-`k` coefficient of the product `p * q`.
pub open spec fn conv_at(p: Seq<int>, q: Seq<int>, k: int) -> int {
    conv_from(p, q, k, 0)
}

/// Polynomial product, by convolution.
pub open spec fn poly_mul(p: Seq<int>, q: Seq<int>) -> Seq<int> {
    if p.len() == 0 || q.len() == 0 {
        Seq::empty()
    } else {
        Seq::new((p.len() + q.len() - 1) as nat, |k: int| conv_at(p, q, k))
    }
}

/// Horner evaluation from coefficient `i` on.
pub open spec fn poly_eval_from(p: Seq<int>, x: int, i: int) -> int
    decreases p.len() - i,
{
    if i < 0 || i >= p.len() {
        0
    } else {
        fadd(p[i], fmul(x, poly_eval_from(p, x, i + 1)))
    }
}

/// The value of the polynomial at `x`.
pub open spec fn poly_eval(p: Seq<int>, x: int) -> int {
    poly_eval_from(p, x, 0)
}

/// Quotient and remainder of division by a monic divisor `d`: each
/// step eliminates the current leading coefficient `c` of the dividend
/// by subtracting `c * X^k * d`.
pub open spec fn divmod_monic(n: Seq<int>, d: Seq<int>) -> (Seq<int>, Seq<int>)
    decreases n.len(),
{
    if d.len() == 0 || n.len() < d.len() {
        (Seq::<int>::empty(), n)
    } else {
        let c = n.last();
        let k = n.len() - d.len();
        let red = Seq::new(
            (n.len() - 1) as nat,
            |i: int|
                if k <= i {
                    fsub(n[i], fmul(c, d[i - k]))
                } else {
                    n[i]
                },
        );
        let qr = divmod_monic(red, d);
        (qr.0.push(c), qr.1)
    }
}

/// Evaluates a polynomial at a point.
pub fn eval_poly(p: &Vec<Fp>, x: Fp) -> (r: Fp)
    requires
        poly_wf(pvals(p@)),
        x.wf(),
    ensures
        r.wf(),
        r.v == poly_eval(pvals(p@), x.v as int),
{
    let mut acc = Fp::zero();
    let mut k: usize = p.len();
    while k > 0
        invariant
            k <= p@.len(),
            poly_wf(pvals(p@)),
            x.wf(),
            acc.wf(),
            acc.v == poly_eval_from(pvals(p@), x.v as int, k as int),
        decreases k,
    {
        k = k - 1;
        acc = p[k].add(x.mul(acc));
    }
    acc
}

/// Adds two polynomials.
pub fn add_polys(p: &Vec<Fp>, q: &Vec<Fp>) -> (r: Vec<Fp>)
    requires
        poly_wf(pvals(p@)),
        poly_wf(pvals(q@)),
    ensures
        pvals(r@) == poly_add(pvals(p@), pvals(q@)),
        poly_wf(pvals(r@)),
{
    let len = if p.len() >= q.len() {
        p.len()
    } else {
        q.len()
    };
    let mut out: Vec<Fp> = Vec::new();
    let mut i: usize = 0;
    while i < len
        invariant
            i <= len,
            len == if p@.len() >= q@.len() {
                p@.len()
            } else {
                q@.len()
            },
            poly_wf(pvals(p@)),
            poly_wf(pvals(q@)),
            out@.len() == i,
            forall|ii: int| 0 <= ii < i ==> (#[trigger] out@[ii]).wf()
                && out@[ii].v == poly_add(pvals(p@), pvals(q@))[ii],
        decreases len - i,
    {
        let a = if i < p.len() {
            p[i]
        } else {
            Fp::zero()
        };
        let b = if i < q.len() {
            q[i]
        } else {
            Fp::zero()
        };
        out.push(a.add(b));
        i = i + 1;
    }
    assert(pvals(out@) =~= poly_add(pvals(p@), pvals(q@)));
    out
}

/// Subtracts two polynomials.
pub fn sub_polys(p: &Vec<Fp>, q: &Vec<Fp>) -> (r: Vec<Fp>)
    requires
        poly_wf(pvals(p@)),
        poly_wf(pvals(q@)),
    ensures
        pvals(r@) == poly_sub(pvals(p@), pvals(q@)),
        poly_wf(pvals(r@)),
{
    let len = if p.len() >= q.len() {
        p.len()
    } else {
        q.len()
    };
    let mut out: Vec<Fp> = Vec::new();
    let mut i: usize = 0;
    while i < len
        invariant
            i <= len,
            len == if p@.len() >= q@.len() {
                p@.len()
            } else {
                q@.len()
            },
            poly_wf(pvals(p@)),
            poly_wf(pvals(q@)),
            out@.len() == i,
            forall|ii: int| 0 <= ii < i ==> (#[trigger] out@[ii]).wf()
                && out@[ii].v == poly_sub(pvals(p@), pvals(q@))[ii],
        decreases len - i,
    {
        let a = if i < p.len() {
            p[i]
        } else {
            Fp::zero()
        };
        let b = if i < q.len() {
            q[i]
        } else {
            Fp::zero()
        };
        out.push(a.sub(b));
        i = i + 1;
    }
    assert(pvals(out@) =~= poly_sub(pvals(p@), pvals(q@)));
    out
}

/// Scales a polynomial by a constant.
pub fn scale_poly(c: Fp, p: &Vec<Fp>) -> (r: Vec<Fp>)
    requires
        c.wf(),
        poly_wf(pvals(p@)),
    ensures
        pvals(r@) == poly_scale(c.v as int, pvals(p@)),
        poly_wf(pvals(r@)),
{
    let mut out: Vec<Fp> = Vec::new();
    let mut i: usize = 0;
    while i < p.len()
        invariant
            i <= p@.len(),
            c.wf(),
            poly_wf(pvals(p@)),
            out@.len() == i,
            forall|ii: int| 0 <= ii < i ==> (#[trigger] out@[ii]).wf()
                && out@[ii].v == poly_scale(c.v as int, pvals(p@))[ii],
        decreases p@.len() - i,
    {
        out.push(c.mul(p[i]));
        i = i + 1;
    }
    assert(pvals(out@) =~= poly_scale(c.v as int, pvals(p@)));
    out
}

/// Multiplies a polynomial by the linear factor `X - c`.
pub fn mul_linear(p: &Vec<Fp>, c: Fp) -> (r: Vec<Fp>)
    requires
        poly_wf(pvals(p@)),
        c.wf(),
        p@.len() < usize::MAX,
    ensures
        pvals(r@) == poly_mul_linear(pvals(p@), c.v as int),
        poly_wf(pvals(r@)),
{
    let mut out: Vec<Fp> = Vec::new();
    let mut i: usize = 0;
    while i < p.len() + 1
        invariant
            i <= p@.len() + 1,
            p@.len() < usize::MAX,
            poly_wf(pvals(p@)),
            c.wf(),
            out@.len() == i,
            forall|ii: int| 0 <= ii < i ==> (#[trigger] out@[ii]).wf()
                && out@[ii].v == poly_mul_linear(pvals(p@), c.v as int)[ii],
        decreases p@.len() + 1 - i,
    {
        let lo = if i >= 1 && i - 1 < p.len() {
            p[i - 1]
        } else {
            Fp::zero()
        };
        let hi = if i < p.len() {
            p[i]
        } else {
            Fp::zero()
        };
        out.push(lo.sub(c.mul(hi)));
        i = i + 1;
    }
    assert(pvals(out@) =~= poly_mul_linear(pvals(p@), c.v as int));
    out
}

/// Convolution coefficient of degree `k` of `p * q`.
fn conv_coeff(p: &Vec<Fp>, q: &Vec<Fp>, k: usize) -> (r: Fp)
    requires
        poly_wf(pvals(p@)),
        poly_wf(pvals(q@)),
        k + 1 <= usize::MAX,
    ensures
        r.wf(),
        r.v == conv_at(pvals(p@), pvals(q@), k as int),
{
    let mut acc = Fp::zero();
    let mut i: usize = k + 1;
    while i > 0
        invariant
            i <= k + 1,
            poly_wf(pvals(p@)),
            poly_wf(pvals(q@)),
            acc.wf(),
            acc.v == conv_from(pvals(p@), pvals(q@), k as int, i as int),
        decreases i,
    {
        i = i - 1;
        let a = if i < p.len() {
            p[i]
        } else {
            Fp::zero()
        };
        let b = if k - i < q.len() {
            q[k - i]
        } else {
            Fp::zero()
        };
        acc = a.mul(b).add(acc);
    }
    acc
}

/// Multiplies two nonempty polynomials.
pub fn mul_polys(p: &Vec<Fp>, q: &Vec<Fp>) -> (r: Vec<Fp>)
    requires
        poly_wf(pvals(p@)),
        poly_wf(pvals(q@)),
        p@.len() >= 1,
        q@.len() >= 1,
        p@.len() + q@.len() <= usize::MAX,
    ensures
        pvals(r@) == poly_mul(pvals(p@), pvals(q@)),
        poly_wf(pvals(r@)),
{
    let len = p.len() + q.len() - 1;
    let mut out: Vec<Fp> = Vec::new();
    let mut k: usize = 0;
    while k < len
        invariant
            k <= len,
            len == p@.len() + q@.len() - 1,
            p@.len() >= 1,
            q@.len() >= 1,
            poly_wf(pvals(p@)),
            poly_wf(pvals(q@)),
            out@.len() == k,
            forall|kk: int| 0 <= kk < k ==> (#[trigger] out@[kk]).wf()
                && out@[kk].v == poly_mul(pvals(p@), pvals(q@))[kk],
        decreases len - k,
    {
        let v = conv_coeff(p, q, k);
        out.push(v);
        k = k + 1;
    }
    assert(pvals(out@) =~= poly_mul(pvals(p@), pvals(q@)));
    out
}

/// Divides by a monic divisor, returning quotient and remainder.
pub fn divmod_poly_monic(n: Vec<Fp>, d: &Vec<Fp>) -> (r: (Vec<Fp>, Vec<Fp>))
    requires
        poly_wf(pvals(n@)),
        poly_wf(pvals(d@)),
        d@.len() >= 1,
    ensures
        pvals(r.0@) == divmod_monic(pvals(n@), pvals(d@)).0,
        pvals(r.1@) == divmod_monic(pvals(n@), pvals(d@)).1,
        poly_wf(pvals(r.0@)),
        poly_wf(pvals(r.1@)),
    decreases n@.len(),
{
    if n.len() < d.len() {
        (Vec::new(), n)
    } else {
        let c = n[n.len() - 1];
        proof {
            assert(c.v == pvals(n@)[n@.len() - 1]);
        }
        let k = n.len() - d.len();
        let ghost spec_red = Seq::new(
            (n@.len() - 1) as nat,
            |i: int|
                if k <= i {
                    fsub(pvals(n@)[i], fmul(c.v as int, pvals(d@)[i - k]))
                } else {
                    pvals(n@)[i]
                },
        );
        let mut red: Vec<Fp> = Vec::new();
        let mut i: usize = 0;
        while i < n.len() - 1
            invariant
                i <= n@.len() - 1,
                n@.len() >= d@.len(),
                d@.len() >= 1,
                k == n@.len() - d@.len(),
                c == n@[n@.len() - 1],
                c.wf(),
                poly_wf(pvals(n@)),
                poly_wf(pvals(d@)),
                spec_red == Seq::new(
                    (n@.len() - 1) as nat,
                    |ii: int|
                        if k <= ii {
                            fsub(pvals(n@)[ii], fmul(c.v as int, pvals(d@)[ii - k]))
                        } else {
                            pvals(n@)[ii]
                        },
                ),
                red@.len() == i,
                forall|ii: int| 0 <= ii < i ==> (#[trigger] red@[ii]).wf() && red@[ii].v == spec_red[ii],
            decreases n@.len() - 1 - i,
        {
            proof {
                assert(n@[i as int].v == pvals(n@)[i as int]);
            }
            if i >= k {
                proof {
                    assert(d@[i as int - k as int].v == pvals(d@)[i as int - k as int]);
                }
                red.push(n[i].sub(c.mul(d[i - k])));
            } else {
                red.push(n[i]);
            }
            i = i + 1;
        }
        assert(pvals(red@) =~= spec_red);
        let qr = divmod_poly_monic(red, d);
        let mut q = qr.0;
        q.push(c);
        assert(pvals(q@) =~= divmod_monic(pvals(n@), pvals(d@)).0);
        (q, qr.1)
    }
}

} // verus!
