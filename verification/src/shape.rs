//! The R1CS data model: constraint shapes, witness assignments,
//! density tracking, and the constraint adapter.
//!
//! A shape is three sparse matrices `A`, `B`, `C` over the scalar
//! field.  Row `j` of the three matrices forms one enforce gate,
//! `(A_j · z) * (B_j · z) = (C_j · z)`, over a witness vector `z` of
//! length `num_vars`, whose first `num_io` entries are the public
//! inputs.  Variable index 0 is by convention the constant one; the
//! core treats it like any other variable, and constraint rows are
//! 0-indexed with no row skipped.

use vstd::prelude::*;
use crate::field::{fadd, fmul, Fp, MODULUS};
use crate::errors::Groth16Error;

verus! {

/// One `coefficient * variable` term of a sparse matrix row.
#[derive(Clone, Copy, PartialEq, Eq, Structural, Debug)]
pub struct LinearTerm {
    pub var: usize,
    pub coeff: Fp,
}

/// The view of a sparse matrix as a sequence of rows of terms.
pub open spec fn mat_view(m: Seq<Vec<LinearTerm>>) -> Seq<Seq<LinearTerm>> {
    m.map_values(|r: Vec<LinearTerm>| r@)
}

/// A term is well formed when its variable index is in range and its
/// coefficient is reduced.
pub open spec fn term_wf(t: LinearTerm, nv: int) -> bool {
    t.var < nv && t.coeff.wf()
}

pub open spec fn row_wf(r: Seq<LinearTerm>, nv: int) -> bool {
    forall|k: int| 0 <= k < r.len() ==> term_wf(r[k], nv)
}

pub open spec fn matrix_wf(m: Seq<Seq<LinearTerm>>, nv: int) -> bool {
    forall|j: int| 0 <= j < m.len() ==> row_wf(m[j], nv)
}

/// A vector of reduced field elements.
pub open spec fn assignment_wf(z: Seq<Fp>) -> bool {
    forall|i: int| 0 <= i < z.len() ==> z[i].wf()
}

/// The value of one sparse row's linear combination at an assignment,
/// summed from term `k` on.
pub open spec fn row_eval_from(r: Seq<LinearTerm>, z: Seq<Fp>, k: int) -> int
    decreases r.len() - k,
{
    if k < 0 || k >= r.len() {
        0
    } else {
        fadd(
            fmul(r[k].coeff.v as int, z[r[k].var as int].v as int),
            row_eval_from(r, z, k + 1),
        )
    }
}

/// The value `R · z` of a sparse row at an assignment.
pub open spec fn row_eval(r: Seq<LinearTerm>, z: Seq<Fp>) -> int {
    row_eval_from(r, z, 0)
}

/// Whether column `i` of a matrix is structurally nonzero anywhere in
/// the entries from position `(j, k)` on, in row-major order.
pub open spec fn col_nonzero_from(m: Seq<Seq<LinearTerm>>, i: int, j: int, k: int) -> bool
    decreases m.len() - j, (if 0 <= j < m.len() { m[j].len() - k + 1 } else { 0 }),
{
    if j < 0 || j >= m.len() {
        false
    } else if k < 0 || k >= m[j].len() {
        col_nonzero_from(m, i, j + 1, 0)
    } else {
        (m[j][k].var == i && m[j][k].coeff.v != 0) || col_nonzero_from(m, i, j, k + 1)
    }
}

/// Whether variable `i`'s column of a matrix holds any structurally
/// nonzero coefficient: the pruning decision of the density tracker.
pub open spec fn col_nonzero(m: Seq<Seq<LinearTerm>>, i: int) -> bool {
    col_nonzero_from(m, i, 0, 0)
}

/// A constraint shape: the three sparse matrices and the dimensions.
pub struct ConstraintShape {
    pub num_vars: usize,
    pub num_io: usize,
    pub a: Vec<Vec<LinearTerm>>,
    pub b: Vec<Vec<LinearTerm>>,
    pub c: Vec<Vec<LinearTerm>>,
}

impl ConstraintShape {
    pub open spec fn num_constraints(self) -> int {
        self.a@.len() as int
    }

    /// The invariants of a shape: equal matrix lengths, at least one
    /// constraint, no more constraints than field elements (so the
    /// evaluation domain points are distinct), public inputs a prefix
    /// of the witness, and every term in range and reduced.
    pub open spec fn wf(self) -> bool {
        &&& self.a@.len() == self.b@.len()
        &&& self.b@.len() == self.c@.len()
        &&& self.a@.len() >= 1
        &&& self.a@.len() <= MODULUS
        &&& self.num_io <= self.num_vars
        &&& matrix_wf(mat_view(self.a@), self.num_vars as int)
        &&& matrix_wf(mat_view(self.b@), self.num_vars as int)
        &&& matrix_wf(mat_view(self.c@), self.num_vars as int)
    }

    /// The R1CS relation: the assignment satisfies every gate
    /// `(A_j · z) * (B_j · z) = (C_j · z)`.
    pub open spec fn satisfied_by(self, z: Seq<Fp>) -> bool {
        forall|j: int|
            0 <= j < self.a@.len() ==> fmul(
                row_eval(self.a@[j]@, z),
                row_eval(self.b@[j]@, z),
            ) == row_eval(self.c@[j]@, z)
    }
}

/// The adapter's output: the enforce-one-gate-at-a-time view of a
/// validated shape.  The gates themselves are the shape's row triples,
/// borrowed read-only by setup and prover; this carries the checked
/// dimensions.
#[derive(Clone, Copy, PartialEq, Eq, Structural, Debug)]
pub struct CompiledConstraints {
    pub num_constraints: usize,
    pub num_vars: usize,
    pub num_io: usize,
}

/// Checks that every term of a matrix is in range and reduced.
fn check_matrix(m: &Vec<Vec<LinearTerm>>, nv: usize) -> (ok: bool)
    ensures
        ok == matrix_wf(mat_view(m@), nv as int),
{
    let mut j: usize = 0;
    while j < m.len()
        invariant
            j <= m@.len(),
            forall|jj: int| 0 <= jj < j ==> row_wf(mat_view(m@)[jj], nv as int),
        decreases m@.len() - j,
    {
        let row = &m[j];
        let mut k: usize = 0;
        while k < row.len()
            invariant
                k <= row@.len(),
                row@ == mat_view(m@)[j as int],
                j < m@.len(),
                forall|kk: int| 0 <= kk < k ==> term_wf(row@[kk], nv as int),
            decreases row@.len() - k,
        {
            let t = row[k];
            if t.var >= nv || t.coeff.v >= MODULUS {
                assert(!term_wf(row@[k as int], nv as int));
                assert(!row_wf(mat_view(m@)[j as int], nv as int));
                return false;
            }
            k = k + 1;
        }
        assert(row_wf(mat_view(m@)[j as int], nv as int));
        j = j + 1;
    }
    true
}

/// The constraint adapter: validates an R1CS shape and emits the
/// enforce-gate representation consumed by setup.
///
/// Returns `Err(Groth16Error::Shape)` exactly when the shape breaks
/// one of its invariants.
pub fn adapt(shape: &ConstraintShape) -> (r: Result<CompiledConstraints, Groth16Error>)
    ensures
        r is Ok <==> shape.wf(),
        r is Err ==> r == Err::<CompiledConstraints, Groth16Error>(Groth16Error::Shape),
        r is Ok ==> r->Ok_0.num_constraints == shape.num_constraints()
            && r->Ok_0.num_vars == shape.num_vars && r->Ok_0.num_io == shape.num_io,
{
    let m = shape.a.len();
    if shape.b.len() != m || shape.c.len() != m {
        return Err(Groth16Error::Shape);
    }
    if m < 1 || (m as u64) > MODULUS {
        return Err(Groth16Error::Shape);
    }
    if shape.num_io > shape.num_vars {
        return Err(Groth16Error::Shape);
    }
    if !check_matrix(&shape.a, shape.num_vars) {
        return Err(Groth16Error::Shape);
    }
    if !check_matrix(&shape.b, shape.num_vars) {
        return Err(Groth16Error::Shape);
    }
    if !check_matrix(&shape.c, shape.num_vars) {
        return Err(Groth16Error::Shape);
    }
    Ok(CompiledConstraints {
        num_constraints: m,
        num_vars: shape.num_vars,
        num_io: shape.num_io,
    })
}

/// Evaluates one sparse row at an assignment.
pub fn eval_row(r: &Vec<LinearTerm>, z: &Vec<Fp>) -> (out: Fp)
    requires
        row_wf(r@, z@.len() as int),
        assignment_wf(z@),
    ensures
        out.wf(),
        out.v == row_eval(r@, z@),
{
    let mut acc = Fp::zero();
    let mut k: usize = r.len();
    while k > 0
        invariant
            k <= r@.len(),
            row_wf(r@, z@.len() as int),
            assignment_wf(z@),
            acc.wf(),
            acc.v == row_eval_from(r@, z@, k as int),
        decreases k,
    {
        k = k - 1;
        let t = r[k];
        acc = t.coeff.mul(z[t.var]).add(acc);
    }
    acc
}

/// Evaluates every row of a matrix at an assignment: the vector
/// `M · z`.
pub fn eval_rows(m: &Vec<Vec<LinearTerm>>, z: &Vec<Fp>) -> (out: Vec<Fp>)
    requires
        matrix_wf(mat_view(m@), z@.len() as int),
        assignment_wf(z@),
    ensures
        out@.len() == m@.len(),
        forall|j: int| 0 <= j < m@.len() ==> out@[j].wf()
            && out@[j].v == row_eval(mat_view(m@)[j], z@),
{
    let mut out: Vec<Fp> = Vec::new();
    let mut j: usize = 0;
    while j < m.len()
        invariant
            j <= m@.len(),
            matrix_wf(mat_view(m@), z@.len() as int),
            assignment_wf(z@),
            out@.len() == j,
            forall|jj: int| 0 <= jj < j ==> out@[jj].wf()
                && out@[jj].v == row_eval(mat_view(m@)[jj], z@),
        decreases m@.len() - j,
    {
        assert(m@[j as int]@ == mat_view(m@)[j as int]);
        let val = eval_row(&m[j], z);
        out.push(val);
        j = j + 1;
    }
    out
}

/// The density tracker: one bit per variable, recording whether the
/// variable's column of a matrix is structurally nonzero.  Computed
/// once at setup and threaded unchanged into proving, so that key and
/// proof always agree on which basis entries were pruned.
pub fn build_density(m: &Vec<Vec<LinearTerm>>, nv: usize) -> (bits: Vec<bool>)
    requires
        matrix_wf(mat_view(m@), nv as int),
    ensures
        bits@.len() == nv,
        forall|i: int| 0 <= i < nv ==> bits@[i] == col_nonzero(mat_view(m@), i),
{
    let mut bits: Vec<bool> = Vec::new();
    let mut i: usize = 0;
    while i < nv
        invariant
            i <= nv,
            bits@.len() == i,
            forall|ii: int| 0 <= ii < i ==> bits@[ii] == false,
        decreases nv - i,
    {
        bits.push(false);
        i = i + 1;
    }
    let mut j: usize = m.len();
    assert(forall|ii: int|
        0 <= ii < nv ==> !col_nonzero_from(mat_view(m@), ii, m@.len() as int, 0));
    while j > 0
        invariant
            j <= m@.len(),
            matrix_wf(mat_view(m@), nv as int),
            bits@.len() == nv,
            forall|ii: int| 0 <= ii < nv ==> bits@[ii] == col_nonzero_from(
                mat_view(m@), ii, j as int, 0),
        decreases j,
    {
        j = j - 1;
        let row = &m[j];
        let mut k: usize = row.len();
        assert(forall|ii: int|
            0 <= ii < nv ==> col_nonzero_from(mat_view(m@), ii, j as int, row@.len() as int)
                == col_nonzero_from(mat_view(m@), ii, j as int + 1, 0));
        while k > 0
            invariant
                k <= row@.len(),
                j < m@.len(),
                row@ == mat_view(m@)[j as int],
                matrix_wf(mat_view(m@), nv as int),
                bits@.len() == nv,
                forall|ii: int| 0 <= ii < nv ==> bits@[ii] == col_nonzero_from(
                    mat_view(m@), ii, j as int, k as int),
            decreases k,
        {
            k = k - 1;
            let t = row[k];
            if t.coeff.v != 0 {
                assert(term_wf(row@[k as int], nv as int));
                bits.set(t.var, true);
            }
        }
    }
    bits
}

} // verus!
