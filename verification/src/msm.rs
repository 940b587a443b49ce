//! Multi-scalar multiplication: the weighted sum
//! `sum_k scalars[k] * bases[k]` of group elements, the dominant cost
//! of setup and proving.
//!
//! `msm_seg` is the mathematical sum over an index segment.  Next to
//! the plain sequential accumulation there is a chunked variant that
//! partitions the index range and combines partial sums, the way a
//! parallel map would; `lemma_msm_split` is the associativity fact
//! that makes the reduction order irrelevant, and both variants are
//! proved to compute the very same sum.
//!
//! The pruned variants skip the indices that the density tracker
//! marked structurally zero, consuming basis entries only for the
//! surviving indices — the exact correspondence between a pruned key
//! and the full witness vector.

use vstd::prelude::*;
use crate::field::{
    fadd, fmul, lemma_fadd_assoc, lemma_fadd_basics, lemma_fmul_bound, lemma_pvals_index,
    pvals, Fp, MODULUS,
};
use crate::group::{g1_vals, g2_vals, lemma_g1_vals_index, lemma_g2_vals_index, G1, G2};

verus! {

broadcast use lemma_pvals_index, lemma_g1_vals_index, lemma_g2_vals_index;

/// The sum `sum_{lo <= k < hi} zs[k] * bs[k]`, zero outside the
/// stored lengths.
pub open spec fn msm_seg(bs: Seq<int>, zs: Seq<int>, lo: int, hi: int) -> int
    decreases hi - lo,
{
    if lo < 0 || lo >= hi || lo >= bs.len() || lo >= zs.len() {
        0
    } else {
        fadd(fmul(zs[lo], bs[lo]), msm_seg(bs, zs, lo + 1, hi))
    }
}

/// The full multi-scalar multiplication of equal-length vectors.
pub open spec fn msm(bs: Seq<int>, zs: Seq<int>) -> int {
    msm_seg(bs, zs, 0, bs.len() as int)
}

/// How many indices the density bits keep, from index `i` on.
pub open spec fn live_count(bits: Seq<bool>, i: int) -> int
    decreases bits.len() - i,
{
    if i < 0 || i >= bits.len() {
        0
    } else if bits[i] {
        1 + live_count(bits, i + 1)
    } else {
        live_count(bits, i + 1)
    }
}

/// The pruned sum from variable `i` on, with `p` basis entries of
/// `bs` already consumed by earlier live indices.
pub open spec fn msm_pruned_from(
    bits: Seq<bool>,
    bs: Seq<int>,
    zs: Seq<int>,
    i: int,
    p: int,
) -> int
    decreases zs.len() - i,
{
    if i < 0 || i >= bits.len() || i >= zs.len() {
        0
    } else if bits[i] {
        fadd(
            fmul(zs[i], if 0 <= p < bs.len() { bs[p] } else { 0 }),
            msm_pruned_from(bits, bs, zs, i + 1, p + 1),
        )
    } else {
        msm_pruned_from(bits, bs, zs, i + 1, p)
    }
}

/// The density-pruned multi-scalar multiplication: scalar `i` meets
/// the next basis entry exactly when its density bit is set.
pub open spec fn msm_pruned(bits: Seq<bool>, bs: Seq<int>, zs: Seq<int>) -> int {
    msm_pruned_from(bits, bs, zs, 0, 0)
}

/// Every segment sum is a reduced residue.
pub proof fn lemma_msm_seg_range(bs: Seq<int>, zs: Seq<int>, lo: int, hi: int)
    ensures
        0 <= msm_seg(bs, zs, lo, hi) < MODULUS,
    decreases hi - lo,
{
    if lo < 0 || lo >= hi || lo >= bs.len() || lo >= zs.len() {
    } else {
        lemma_msm_seg_range(bs, zs, lo + 1, hi);
        lemma_fmul_bound(fmul(zs[lo], bs[lo]), msm_seg(bs, zs, lo + 1, hi));
    }
}

/// Splitting the index range splits the sum: the reduction over a
/// partition combines to the sequential result, whatever the cut.
pub proof fn lemma_msm_split(bs: Seq<int>, zs: Seq<int>, lo: int, mid: int, hi: int)
    requires
        0 <= lo <= mid <= hi,
    ensures
        msm_seg(bs, zs, lo, hi) == fadd(msm_seg(bs, zs, lo, mid), msm_seg(bs, zs, mid, hi)),
    decreases mid - lo,
{
    if lo == mid {
        lemma_msm_seg_range(bs, zs, mid, hi);
        lemma_fadd_basics(msm_seg(bs, zs, mid, hi), 0);
    } else if lo >= bs.len() || lo >= zs.len() {
        lemma_msm_seg_range(bs, zs, lo, hi);
        lemma_msm_seg_range(bs, zs, lo, mid);
        lemma_msm_seg_range(bs, zs, mid, hi);
        assert(msm_seg(bs, zs, lo, hi) == 0);
        assert(msm_seg(bs, zs, lo, mid) == 0);
        assert(msm_seg(bs, zs, mid, hi) == 0);
        lemma_fadd_basics(0, 0);
    } else {
        lemma_msm_split(bs, zs, lo + 1, mid, hi);
        let t = fmul(zs[lo], bs[lo]);
        let a = msm_seg(bs, zs, lo + 1, mid);
        let b = msm_seg(bs, zs, mid, hi);
        lemma_fadd_assoc(t, a, b);
    }
}

/// Sequential accumulation over an index segment, first group.
pub fn msm_g1_range(bases: &Vec<G1>, scalars: &Vec<Fp>, lo: usize, hi: usize) -> (r: G1)
    requires
        lo <= hi,
        hi <= bases@.len(),
        hi <= scalars@.len(),
        forall|k: int| 0 <= k < bases@.len() ==> (#[trigger] bases@[k]).wf(),
        forall|k: int| 0 <= k < scalars@.len() ==> (#[trigger] scalars@[k]).wf(),
    ensures
        r.wf(),
        r.v.v == msm_seg(g1_vals(bases@), pvals(scalars@), lo as int, hi as int),
{
    let mut acc = G1::identity();
    let mut k: usize = hi;
    while k > lo
        invariant
            lo <= k <= hi,
            hi <= bases@.len(),
            hi <= scalars@.len(),
            forall|kk: int| 0 <= kk < bases@.len() ==> (#[trigger] bases@[kk]).wf(),
            forall|kk: int| 0 <= kk < scalars@.len() ==> (#[trigger] scalars@[kk]).wf(),
            acc.wf(),
            acc.v.v == msm_seg(g1_vals(bases@), pvals(scalars@), k as int, hi as int),
        decreases k,
    {
        k = k - 1;
        acc = bases[k].scalar_mul(scalars[k]).add(acc);
    }
    acc
}

/// The sequential multi-scalar multiplication, first group.
pub fn msm_g1(bases: &Vec<G1>, scalars: &Vec<Fp>) -> (r: G1)
    requires
        bases@.len() == scalars@.len(),
        forall|k: int| 0 <= k < bases@.len() ==> (#[trigger] bases@[k]).wf(),
        forall|k: int| 0 <= k < scalars@.len() ==> (#[trigger] scalars@[k]).wf(),
    ensures
        r.wf(),
        r.v.v == msm(g1_vals(bases@), pvals(scalars@)),
{
    let r = msm_g1_range(bases, scalars, 0, bases.len());
    r
}

/// Chunked accumulation, first group: the index range is cut into
/// chunks, each chunk is summed on its own, and the partial sums are
/// combined — the shape of a parallel reduction.  The result is the
/// same group element as the sequential sum.
pub fn msm_g1_chunked(bases: &Vec<G1>, scalars: &Vec<Fp>, chunk: usize) -> (r: G1)
    requires
        chunk >= 1,
        bases@.len() == scalars@.len(),
        forall|k: int| 0 <= k < bases@.len() ==> (#[trigger] bases@[k]).wf(),
        forall|k: int| 0 <= k < scalars@.len() ==> (#[trigger] scalars@[k]).wf(),
    ensures
        r.wf(),
        r.v.v == msm(g1_vals(bases@), pvals(scalars@)),
{
    let mut acc = G1::identity();
    let mut pos: usize = 0;
    while pos < bases.len()
        invariant
            pos <= bases@.len(),
            chunk >= 1,
            bases@.len() == scalars@.len(),
            forall|kk: int| 0 <= kk < bases@.len() ==> (#[trigger] bases@[kk]).wf(),
            forall|kk: int| 0 <= kk < scalars@.len() ==> (#[trigger] scalars@[kk]).wf(),
            acc.wf(),
            acc.v.v == msm_seg(g1_vals(bases@), pvals(scalars@), 0, pos as int),
        decreases bases@.len() - pos,
    {
        let hi = if bases.len() - pos > chunk {
            pos + chunk
        } else {
            bases.len()
        };
        let part = msm_g1_range(bases, scalars, pos, hi);
        proof {
            lemma_msm_split(g1_vals(bases@), pvals(scalars@), 0, pos as int, hi as int);
        }
        acc = acc.add(part);
        pos = hi;
    }
    acc
}

/// The density-pruned sum, first group.
pub fn msm_g1_pruned(bases: &Vec<G1>, bits: &Vec<bool>, scalars: &Vec<Fp>) -> (r: G1)
    requires
        bits@.len() == scalars@.len(),
        live_count(bits@, 0) == bases@.len(),
        forall|k: int| 0 <= k < bases@.len() ==> (#[trigger] bases@[k]).wf(),
        forall|k: int| 0 <= k < scalars@.len() ==> (#[trigger] scalars@[k]).wf(),
    ensures
        r.wf(),
        r.v.v == msm_pruned(bits@, g1_vals(bases@), pvals(scalars@)),
{
    let mut acc = G1::identity();
    let mut i: usize = bits.len();
    let mut p: usize = bases.len();
    while i > 0
        invariant
            i <= bits@.len(),
            bits@.len() == scalars@.len(),
            live_count(bits@, 0) == bases@.len(),
            p <= bases@.len(),
            p == bases@.len() - live_count(bits@, i as int),
            forall|kk: int| 0 <= kk < bases@.len() ==> (#[trigger] bases@[kk]).wf(),
            forall|kk: int| 0 <= kk < scalars@.len() ==> (#[trigger] scalars@[kk]).wf(),
            acc.wf(),
            acc.v.v == msm_pruned_from(bits@, g1_vals(bases@), pvals(scalars@), i as int,
                p as int),
        decreases i,
    {
        i = i - 1;
        if bits[i] {
            proof {
                lemma_live_count_mono(bits@, 0, i as int);
                assert(p >= 1);
            }
            p = p - 1;
            acc = bases[p].scalar_mul(scalars[i]).add(acc);
        }
    }
    acc
}

/// The density-pruned sum, second group.
pub fn msm_g2_pruned(bases: &Vec<G2>, bits: &Vec<bool>, scalars: &Vec<Fp>) -> (r: G2)
    requires
        bits@.len() == scalars@.len(),
        live_count(bits@, 0) == bases@.len(),
        forall|k: int| 0 <= k < bases@.len() ==> (#[trigger] bases@[k]).wf(),
        forall|k: int| 0 <= k < scalars@.len() ==> (#[trigger] scalars@[k]).wf(),
    ensures
        r.wf(),
        r.v.v == msm_pruned(bits@, g2_vals(bases@), pvals(scalars@)),
{
    let mut acc = G2::identity();
    let mut i: usize = bits.len();
    let mut p: usize = bases.len();
    while i > 0
        invariant
            i <= bits@.len(),
            bits@.len() == scalars@.len(),
            live_count(bits@, 0) == bases@.len(),
            p <= bases@.len(),
            p == bases@.len() - live_count(bits@, i as int),
            forall|kk: int| 0 <= kk < bases@.len() ==> (#[trigger] bases@[kk]).wf(),
            forall|kk: int| 0 <= kk < scalars@.len() ==> (#[trigger] scalars@[kk]).wf(),
            acc.wf(),
            acc.v.v == msm_pruned_from(bits@, g2_vals(bases@), pvals(scalars@), i as int,
                p as int),
        decreases i,
    {
        i = i - 1;
        if bits[i] {
            proof {
                lemma_live_count_mono(bits@, 0, i as int);
                assert(p >= 1);
            }
            p = p - 1;
            acc = bases[p].scalar_mul(scalars[i]).add(acc);
        }
    }
    acc
}

/// Changing one scalar changes the sum by the scaled basis entry:
/// over a segment containing the index, the new sum is the old sum
/// plus `(new - old) * base`; over a segment missing it, nothing
/// changes.
pub proof fn lemma_msm_update(
    bs: Seq<int>,
    zs: Seq<int>,
    zs2: Seq<int>,
    i: int,
    lo: int,
    hi: int,
)
    requires
        0 <= lo,
        0 <= i < zs.len(),
        i < bs.len(),
        zs2 == zs.update(i, zs2[i]),
    ensures
        lo <= i < hi ==> msm_seg(bs, zs2, lo, hi) == fadd(
            msm_seg(bs, zs, lo, hi),
            fmul(crate::field::fsub(zs2[i], zs[i]), bs[i]),
        ),
        !(lo <= i < hi) ==> msm_seg(bs, zs2, lo, hi) == msm_seg(bs, zs, lo, hi),
    decreases hi - lo,
{
    if lo < 0 || lo >= hi || lo >= bs.len() || lo >= zs.len() {
    } else if lo == i {
        lemma_msm_update(bs, zs, zs2, i, lo + 1, hi);
        let rest = msm_seg(bs, zs, lo + 1, hi);
        let u = fmul(zs[i], bs[i]);
        let u2 = fmul(zs2[i], bs[i]);
        let d = fmul(crate::field::fsub(zs2[i], zs[i]), bs[i]);
        crate::field::lemma_fmul_distrib_sub(zs2[i], zs[i], bs[i]);
        assert(d == crate::field::fsub(u2, u));
        lemma_add_mod_noop_right_pair(u, rest, u2 - u);
    } else {
        lemma_msm_update(bs, zs, zs2, i, lo + 1, hi);
        if lo <= i < hi {
            let t = fmul(zs[lo], bs[lo]);
            let rest = msm_seg(bs, zs, lo + 1, hi);
            let d = fmul(crate::field::fsub(zs2[i], zs[i]), bs[i]);
            vstd::arithmetic::div_mod::lemma_mod_twice(
                crate::field::fsub(zs2[i], zs[i]) * bs[i],
                MODULUS as int,
            );
            lemma_add_mod_noop_right_pair(t, rest, d);
        }
    }
}

/// `fadd(fadd(a, b), c) == fadd(a, b + c)` in combined form: adding
/// `c` after reducing equals adding it before.
proof fn lemma_add_mod_noop_right_pair(a: int, b: int, c: int)
    ensures
        fadd(fadd(a, b), c % (MODULUS as int)) == fadd(a, fadd(b, c)),
        fadd(fadd(a, b), c % (MODULUS as int)) == (a + b + c) % (MODULUS as int),
{
    vstd::arithmetic::div_mod::lemma_add_mod_noop(a + b, c, MODULUS as int);
    vstd::arithmetic::div_mod::lemma_mod_twice(a + b, MODULUS as int);
    vstd::arithmetic::div_mod::lemma_add_mod_noop_right(a, b + c, MODULUS as int);
}

/// Counts the set density bits.
pub fn count_live(bits: &Vec<bool>) -> (n: usize)
    ensures
        n == live_count(bits@, 0),
{
    let mut n: usize = 0;
    let mut i: usize = bits.len();
    while i > 0
        invariant
            i <= bits@.len(),
            bits@.len() <= usize::MAX,
            n == live_count(bits@, i as int),
            n <= bits@.len() - i,
        decreases i,
    {
        i = i - 1;
        if bits[i] {
            n = n + 1;
        }
    }
    n
}

/// The live count over a longer suffix is at least the count over a
/// shorter one, by at least the live bits in between.
pub proof fn lemma_live_count_mono(bits: Seq<bool>, a: int, b: int)
    requires
        0 <= a <= b,
    ensures
        live_count(bits, a) >= live_count(bits, b),
        0 <= b < bits.len() && bits[b] ==> live_count(bits, a) >= 1 + live_count(bits, b + 1),
    decreases b - a,
{
    if a < b {
        lemma_live_count_mono(bits, a + 1, b);
    }
}

} // verus!
