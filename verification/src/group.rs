//! The three pairing groups, modelled by their scalar exponents.
//!
//! A real deployment instantiates Groth16 over two elliptic-curve
//! groups and a pairing into a third group.  The protocol itself only
//! uses the groups through scalar multiplication, addition and the
//! bilinear map, so this crate models each group element by its
//! discrete logarithm with respect to a fixed generator: `G1`, `G2`
//! and `Gt` each carry one scalar, scalar multiplication is field
//! multiplication of exponents, group addition is field addition, and
//! the pairing multiplies exponents — exactly the bilinearity
//! `e(a·P, b·Q) = (a·b)·R` that the verification equation relies on.
//! The three are distinct types so that an element can never be used
//! on the wrong side of the pairing.

use vstd::prelude::*;
use crate::field::{fadd, fmul, fsub, Fp};

verus! {

/// An element of the first pairing group, as its exponent.
#[derive(Clone, Copy, PartialEq, Eq, Structural, Debug)]
pub struct G1 {
    pub v: Fp,
}

/// An element of the second pairing group, as its exponent.
#[derive(Clone, Copy, PartialEq, Eq, Structural, Debug)]
pub struct G2 {
    pub v: Fp,
}

/// An element of the pairing target group, as its exponent.
#[derive(Clone, Copy, PartialEq, Eq, Structural, Debug)]
pub struct Gt {
    pub v: Fp,
}

impl G1 {
    pub open spec fn wf(self) -> bool {
        self.v.wf()
    }

    /// The group identity (the point at infinity of a curve model).
    pub fn identity() -> (r: G1)
        ensures
            r.wf(),
            r.v.v == 0,
    {
        G1 { v: Fp::zero() }
    }

    /// The scalar's multiple of the fixed generator.
    pub fn from_scalar(s: Fp) -> (r: G1)
        requires
            s.wf(),
        ensures
            r.wf(),
            r.v == s,
    {
        G1 { v: s }
    }

    /// Group addition.
    pub fn add(self, other: G1) -> (r: G1)
        requires
            self.wf(),
            other.wf(),
        ensures
            r.wf(),
            r.v.v == fadd(self.v.v as int, other.v.v as int),
    {
        G1 { v: self.v.add(other.v) }
    }

    /// Group subtraction.
    pub fn sub(self, other: G1) -> (r: G1)
        requires
            self.wf(),
            other.wf(),
        ensures
            r.wf(),
            r.v.v == fsub(self.v.v as int, other.v.v as int),
    {
        G1 { v: self.v.sub(other.v) }
    }

    /// Scalar multiplication.
    pub fn scalar_mul(self, s: Fp) -> (r: G1)
        requires
            self.wf(),
            s.wf(),
        ensures
            r.wf(),
            r.v.v == fmul(s.v as int, self.v.v as int),
    {
        G1 { v: s.mul(self.v) }
    }
}

impl G2 {
    pub open spec fn wf(self) -> bool {
        self.v.wf()
    }

    /// The group identity.
    pub fn identity() -> (r: G2)
        ensures
            r.wf(),
            r.v.v == 0,
    {
        G2 { v: Fp::zero() }
    }

    /// The scalar's multiple of the fixed generator.
    pub fn from_scalar(s: Fp) -> (r: G2)
        requires
            s.wf(),
        ensures
            r.wf(),
            r.v == s,
    {
        G2 { v: s }
    }

    /// Group addition.
    pub fn add(self, other: G2) -> (r: G2)
        requires
            self.wf(),
            other.wf(),
        ensures
            r.wf(),
            r.v.v == fadd(self.v.v as int, other.v.v as int),
    {
        G2 { v: self.v.add(other.v) }
    }

    /// Scalar multiplication.
    pub fn scalar_mul(self, s: Fp) -> (r: G2)
        requires
            self.wf(),
            s.wf(),
        ensures
            r.wf(),
            r.v.v == fmul(s.v as int, self.v.v as int),
    {
        G2 { v: s.mul(self.v) }
    }
}

impl Gt {
    pub open spec fn wf(self) -> bool {
        self.v.wf()
    }

    /// Combination in the target group.
    pub fn add(self, other: Gt) -> (r: Gt)
        requires
            self.wf(),
            other.wf(),
        ensures
            r.wf(),
            r.v.v == fadd(self.v.v as int, other.v.v as int),
    {
        Gt { v: self.v.add(other.v) }
    }
}

/// The view of a vector of first-group elements as their exponents.
pub open spec fn g1_vals(s: Seq<G1>) -> Seq<int> {
    s.map_values(|g: G1| g.v.v as int)
}

/// The view of a vector of second-group elements as their exponents.
pub open spec fn g2_vals(s: Seq<G2>) -> Seq<int> {
    s.map_values(|g: G2| g.v.v as int)
}

/// Indexing the first-group view reads the element's exponent.
pub broadcast proof fn lemma_g1_vals_index(s: Seq<G1>, i: int)
    requires
        0 <= i < s.len(),
    ensures
        g1_vals(s)[i] == (#[trigger] s[i]).v.v,
{
}

/// Indexing the second-group view reads the element's exponent.
pub broadcast proof fn lemma_g2_vals_index(s: Seq<G2>, i: int)
    requires
        0 <= i < s.len(),
    ensures
        g2_vals(s)[i] == (#[trigger] s[i]).v.v,
{
}

/// The bilinear pairing: exponents multiply.
pub fn pairing(a: G1, b: G2) -> (r: Gt)
    requires
        a.wf(),
        b.wf(),
    ensures
        r.wf(),
        r.v.v == fmul(a.v.v as int, b.v.v as int),
{
    Gt { v: a.v.mul(b.v) }
}

} // verus!
