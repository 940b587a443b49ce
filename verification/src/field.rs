//! The prime scalar field that every scalar of the protocol lives in.
//!
//! Elements are residues modulo `MODULUS`, a prime small enough that a
//! product of two reduced elements fits comfortably in a `u64`.  The
//! specification-level operations `fadd`, `fsub`, `fmul`,
//! `fpow` and `finv` are the mathematical mod-`MODULUS` operations on
//! `int`; the executable methods on [`Fp`] are proved to compute them.

use vstd::prelude::*;
use vstd::arithmetic::div_mod::{
    lemma_add_mod_noop, lemma_mod_add_multiples_vanish, lemma_mod_bound,
    lemma_mul_mod_noop_left, lemma_mul_mod_noop_right, lemma_small_mod,
};
use vstd::arithmetic::mul::{lemma_mul_is_associative, lemma_mul_is_commutative};

verus! {

/// The field modulus: a prime, so that every nonzero residue is invertible.
pub const MODULUS: u64 = 65521;

/// Mathematical addition in the field.
pub open spec fn fadd(a: int, b: int) -> int {
    (a + b) % (MODULUS as int)
}

/// Mathematical subtraction in the field.
pub open spec fn fsub(a: int, b: int) -> int {
    (a - b) % (MODULUS as int)
}

/// Mathematical multiplication in the field.
pub open spec fn fmul(a: int, b: int) -> int {
    (a * b) % (MODULUS as int)
}

/// Mathematical exponentiation in the field, by repeated multiplication.
pub open spec fn fpow(a: int, e: nat) -> int
    decreases e,
{
    if e == 0 {
        1
    } else {
        fmul(fpow(a, (e - 1) as nat), a)
    }
}

/// Whether a residue has a multiplicative inverse.
pub open spec fn invertible(a: int) -> bool {
    exists|b: int| 0 <= b < MODULUS && fmul(a, b) == 1
}

/// The multiplicative inverse of a residue, where one exists.
pub open spec fn finv(a: int) -> int {
    choose|b: int| 0 <= b < MODULUS && fmul(a, b) == 1
}

/// A reduced element of the scalar field.
#[derive(Clone, Copy, PartialEq, Eq, Structural, Debug)]
pub struct Fp {
    pub v: u64,
}

impl Fp {
    /// Well-formedness: the representative is reduced.
    pub open spec fn wf(self) -> bool {
        self.v < MODULUS
    }

    /// Builds a field element from an arbitrary integer by reduction.
    pub fn new(x: u64) -> (r: Fp)
        ensures
            r.wf(),
            r.v == x as int % (MODULUS as int),
    {
        Fp { v: x % MODULUS }
    }

    /// The additive identity.
    pub fn zero() -> (r: Fp)
        ensures
            r.wf(),
            r.v == 0,
    {
        Fp { v: 0 }
    }

    /// The multiplicative identity.
    pub fn one() -> (r: Fp)
        ensures
            r.wf(),
            r.v == 1,
    {
        Fp { v: 1 }
    }

    /// Field addition.
    pub fn add(self, other: Fp) -> (r: Fp)
        requires
            self.wf(),
            other.wf(),
        ensures
            r.wf(),
            r.v == fadd(self.v as int, other.v as int),
    {
        Fp { v: (self.v + other.v) % MODULUS }
    }

    /// Field subtraction.
    pub fn sub(self, other: Fp) -> (r: Fp)
        requires
            self.wf(),
            other.wf(),
        ensures
            r.wf(),
            r.v == fsub(self.v as int, other.v as int),
    {
        let r = (self.v + MODULUS - other.v) % MODULUS;
        proof {
            lemma_mod_add_multiples_vanish(self.v as int - other.v as int, MODULUS as int);
        }
        Fp { v: r }
    }

    /// Field multiplication.
    pub fn mul(self, other: Fp) -> (r: Fp)
        requires
            self.wf(),
            other.wf(),
        ensures
            r.wf(),
            r.v == fmul(self.v as int, other.v as int),
    {
        proof {
            assert(self.v * other.v <= 65520 * 65520) by (nonlinear_arith)
                requires
                    self.v <= 65520,
                    other.v <= 65520,
            ;
        }
        Fp { v: (self.v * other.v) % MODULUS }
    }

    /// Multiplicative inverse, by exhaustive search over the residues.
    ///
    /// Returns `Some` exactly when an inverse exists; for the prime
    /// `MODULUS` that is every nonzero element, though nothing here
    /// depends on primality: the contract promises only the search's
    /// outcome, exactly.
    pub fn inverse(self) -> (r: Option<Fp>)
        requires
            self.wf(),
        ensures
            r is Some <==> invertible(self.v as int),
            r is Some ==> r->0.wf() && fmul(self.v as int, r->0.v as int) == 1
                && r->0.v == finv(self.v as int),
    {
        let mut y: u64 = 0;
        while y < MODULUS
            invariant
                self.wf(),
                y <= MODULUS,
                forall|b: int| 0 <= b < y ==> fmul(self.v as int, b) != 1,
            decreases MODULUS - y,
        {
            proof {
                assert(self.v * y <= 65520 * 65520) by (nonlinear_arith)
                    requires
                        self.v <= 65520,
                        y <= 65520,
                ;
            }
            if (self.v * y) % MODULUS == 1 {
                proof {
                    assert(fmul(self.v as int, y as int) == 1);
                    assert(invertible(self.v as int)) by {
                        let b = y as int;
                        assert(0 <= b < MODULUS);
                        assert(fmul(self.v as int, b) == 1);
                    }
                    lemma_inverse_unique(self.v as int, y as int, finv(self.v as int));
                }
                return Some(Fp { v: y });
            }
            y = y + 1;
        }
        proof {
            assert(!invertible(self.v as int));
        }
        None
    }
}

/// Results of the field operations are always reduced.
pub proof fn lemma_fmul_bound(a: int, b: int)
    ensures
        0 <= fmul(a, b) < MODULUS,
        0 <= fadd(a, b) < MODULUS,
        0 <= fsub(a, b) < MODULUS,
{
    lemma_mod_bound(a * b, MODULUS as int);
    lemma_mod_bound(a + b, MODULUS as int);
    lemma_mod_bound(a - b, MODULUS as int);
}

/// Multiplication commutes.
pub proof fn lemma_fmul_comm(a: int, b: int)
    ensures
        fmul(a, b) == fmul(b, a),
{
    lemma_mul_is_commutative(a, b);
}

/// Multiplication associates.
pub proof fn lemma_fmul_assoc(a: int, b: int, c: int)
    ensures
        fmul(fmul(a, b), c) == fmul(a, fmul(b, c)),
{
    lemma_mul_mod_noop_left(a * b, c, MODULUS as int);
    lemma_mul_mod_noop_right(a, b * c, MODULUS as int);
    lemma_mul_is_associative(a, b, c);
}

/// A reduced element is its own product with one.
pub proof fn lemma_fmul_one(a: int)
    requires
        0 <= a < MODULUS,
    ensures
        fmul(a, 1) == a,
        fmul(1, a) == a,
{
    lemma_small_mod(a as nat, MODULUS as nat);
}

/// An element has at most one inverse among the reduced residues.
pub proof fn lemma_inverse_unique(a: int, b1: int, b2: int)
    requires
        0 <= b1 < MODULUS,
        0 <= b2 < MODULUS,
        fmul(a, b1) == 1,
        fmul(a, b2) == 1,
    ensures
        b1 == b2,
{
    lemma_fmul_one(b1);
    lemma_fmul_comm(a, b2);
    lemma_fmul_assoc(b1, a, b2);
    lemma_fmul_comm(b1, a);
    lemma_fmul_one(b2);
    lemma_fmul_comm(1, b2);
    assert(b1 == fmul(b1, 1));
    assert(fmul(b1, 1) == fmul(b1, fmul(a, b2)));
    assert(fmul(b1, fmul(a, b2)) == fmul(fmul(b1, a), b2));
    assert(fmul(fmul(b1, a), b2) == fmul(1, b2));
}

/// Addition of reduced elements commutes and respects its identity.
pub proof fn lemma_fadd_basics(a: int, b: int)
    requires
        0 <= a < MODULUS,
    ensures
        fadd(a, b) == fadd(b, a),
        fadd(a, 0) == a,
        fadd(0, a) == a,
{
    lemma_small_mod(a as nat, MODULUS as nat);
}

/// Addition associates.
pub proof fn lemma_fadd_assoc(a: int, b: int, c: int)
    ensures
        fadd(fadd(a, b), c) == fadd(a, fadd(b, c)),
{
    lemma_add_mod_noop(a + b, c, MODULUS as int);
    lemma_mod_bound(c, MODULUS as int);
    lemma_mod_bound(a + b, MODULUS as int);
    lemma_add_mod_noop(a, b + c, MODULUS as int);
    lemma_mod_bound(a, MODULUS as int);
    lemma_mod_bound(b + c, MODULUS as int);
    assert(fadd(fadd(a, b), c) == ((a + b) % (MODULUS as int) + c % (MODULUS as int))
        % (MODULUS as int));
    assert(fadd(a, fadd(b, c)) == (a % (MODULUS as int) + (b + c) % (MODULUS as int))
        % (MODULUS as int));
}


/// Multiplication distributes over addition.
pub proof fn lemma_fmul_distrib(a: int, b: int, c: int)
    ensures
        fmul(fadd(a, b), c) == fadd(fmul(a, c), fmul(b, c)),
{
    lemma_mul_mod_noop_left(a + b, c, MODULUS as int);
    vstd::arithmetic::mul::lemma_mul_is_distributive_add_other_way(c, a, b);
    lemma_add_mod_noop(a * c, b * c, MODULUS as int);
}

/// Multiplication distributes over subtraction.
pub proof fn lemma_fmul_distrib_sub(a: int, b: int, c: int)
    ensures
        fmul(fsub(a, b), c) == fsub(fmul(a, c), fmul(b, c)),
{
    lemma_mul_mod_noop_left(a - b, c, MODULUS as int);
    vstd::arithmetic::mul::lemma_mul_is_distributive_sub_other_way(c, a, b);
    vstd::arithmetic::div_mod::lemma_sub_mod_noop(a * c, b * c, MODULUS as int);
}

/// Adding a reduced nonzero element changes a reduced element.
pub proof fn lemma_fadd_cancel(x: int, y: int)
    requires
        0 <= x < MODULUS,
        0 <= y < MODULUS,
        fadd(x, y) == x,
    ensures
        y == 0,
{
    if y != 0 {
        if x + y < MODULUS {
            lemma_small_mod((x + y) as nat, MODULUS as nat);
        } else {
            lemma_mod_add_multiples_vanish(x + y - MODULUS, MODULUS as int);
            lemma_small_mod((x + y - MODULUS) as nat, MODULUS as nat);
        }
    }
}

/// The view of a vector of field elements as the sequence of their
/// representatives.
pub open spec fn pvals(p: Seq<Fp>) -> Seq<int> {
    p.map_values(|c: Fp| c.v as int)
}

/// Indexing the view reads the element's representative.
pub broadcast proof fn lemma_pvals_index(p: Seq<Fp>, i: int)
    requires
        0 <= i < p.len(),
    ensures
        pvals(p)[i] == (#[trigger] p[i]).v,
{
}

} // verus!

