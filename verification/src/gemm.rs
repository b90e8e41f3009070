//! The dense linear-algebra kernel: a generalized matrix multiply.
//!
//! [`gemm`] computes `C <- alpha * op(A) * op(B) + beta * C`, where each
//! `op` is the identity or the transpose. This is the one product primitive
//! every solver update is built from. Its contract pins each output cell to
//! [`gemm_cell`], an exact fixed-point expression over the inputs, so every
//! quantity derived from GEMM calls is fully determined.

use vstd::prelude::*;

use crate::fixed::{fx_add, fx_mul, Fixed};
use crate::matrix::Matrix2D;

verus! {

/// Whether a GEMM operand is read as stored or transposed.
#[derive(Clone, Copy, PartialEq, Eq, Structural, Debug)]
pub enum Transpose {
    NoTrans,
    Trans,
}

/// Row `i` of `m`, as a sequence of raw entry values.
pub open spec fn row_s(m: Matrix2D, i: int) -> Seq<int> {
    Seq::new(m.spec_ncols(), |j: int| m.at(i, j))
}

/// Column `j` of `m`, as a sequence of raw entry values.
pub open spec fn col_s(m: Matrix2D, j: int) -> Seq<int> {
    Seq::new(m.spec_nrows(), |i: int| m.at(i, j))
}

/// The fixed-point dot product of the first `n` entries of `u` and `v`,
/// accumulated left to right with saturation at every step.
pub open spec fn dot_prefix(u: Seq<int>, v: Seq<int>, n: int) -> int
    decreases n,
{
    if n <= 0 {
        0
    } else {
        fx_add(dot_prefix(u, v, n - 1), fx_mul(u[n - 1], v[n - 1]))
    }
}

/// The fixed-point dot product of two equal-length sequences.
pub open spec fn dot_s(u: Seq<int>, v: Seq<int>) -> int {
    dot_prefix(u, v, u.len() as int)
}

/// The row count of `op(m)`.
pub open spec fn op_nrows(t: Transpose, m: Matrix2D) -> nat {
    if t is Trans {
        m.spec_ncols()
    } else {
        m.spec_nrows()
    }
}

/// The column count of `op(m)`.
pub open spec fn op_ncols(t: Transpose, m: Matrix2D) -> nat {
    if t is Trans {
        m.spec_nrows()
    } else {
        m.spec_ncols()
    }
}

/// Row `i` of `op(m)`.
pub open spec fn op_row(t: Transpose, m: Matrix2D, i: int) -> Seq<int> {
    if t is Trans {
        col_s(m, i)
    } else {
        row_s(m, i)
    }
}

/// Column `j` of `op(m)`.
pub open spec fn op_col(t: Transpose, m: Matrix2D, j: int) -> Seq<int> {
    if t is Trans {
        row_s(m, j)
    } else {
        col_s(m, j)
    }
}

/// Cell `(i, j)` of `alpha * op(a) * op(b) + beta * c`, where `c0` is the
/// previous value of that cell.
pub open spec fn gemm_cell(
    alpha: int,
    trans_a: Transpose,
    a: Matrix2D,
    trans_b: Transpose,
    b: Matrix2D,
    beta: int,
    c0: int,
    i: int,
    j: int,
) -> int {
    fx_add(fx_mul(alpha, dot_s(op_row(trans_a, a, i), op_col(trans_b, b, j))), fx_mul(beta, c0))
}

/// A dot product of sequences of non-negative values is a representable
/// non-negative value.
pub proof fn lemma_dot_prefix_bounds(u: Seq<int>, v: Seq<int>, n: int)
    requires
        forall|k: int| 0 <= k < n ==> 0 <= #[trigger] u[k],
        forall|k: int| 0 <= k < n ==> 0 <= #[trigger] v[k],
    ensures
        0 <= dot_prefix(u, v, n) <= u64::MAX,
    decreases n,
{
    if n > 0 {
        lemma_dot_prefix_bounds(u, v, n - 1);
        crate::fixed::lemma_fx_mul_bounds(u[n - 1], v[n - 1]);
    }
}

/// The dot product feeding cell `(i, j)` of a GEMM call is a representable
/// non-negative value.
pub proof fn lemma_op_dot_bounds(
    trans_a: Transpose,
    a: Matrix2D,
    trans_b: Transpose,
    b: Matrix2D,
    i: int,
    j: int,
)
    requires
        a.wf(),
        b.wf(),
        0 <= i < op_nrows(trans_a, a),
        0 <= j < op_ncols(trans_b, b),
        op_ncols(trans_a, a) == op_nrows(trans_b, b),
    ensures
        0 <= dot_s(op_row(trans_a, a, i), op_col(trans_b, b, j)) <= u64::MAX,
{
    let u = op_row(trans_a, a, i);
    let v = op_col(trans_b, b, j);
    assert forall|k: int| 0 <= k < u.len() implies 0 <= #[trigger] u[k] by {
        if trans_a is Trans {
            crate::matrix::lemma_entry_bounds(a, k, i);
        } else {
            crate::matrix::lemma_entry_bounds(a, i, k);
        }
    }
    assert forall|k: int| 0 <= k < u.len() implies 0 <= #[trigger] v[k] by {
        if trans_b is Trans {
            crate::matrix::lemma_entry_bounds(b, j, k);
        } else {
            crate::matrix::lemma_entry_bounds(b, k, j);
        }
    }
    lemma_dot_prefix_bounds(u, v, u.len() as int);
}

/// With `alpha == 1` and `beta == 0`, a GEMM cell is exactly the dot product.
pub proof fn lemma_gemm_cell_unit(
    trans_a: Transpose,
    a: Matrix2D,
    trans_b: Transpose,
    b: Matrix2D,
    c0: int,
    i: int,
    j: int,
)
    requires
        a.wf(),
        b.wf(),
        0 <= i < op_nrows(trans_a, a),
        0 <= j < op_ncols(trans_b, b),
        op_ncols(trans_a, a) == op_nrows(trans_b, b),
        0 <= c0,
    ensures
        gemm_cell(crate::fixed::SCALE as int, trans_a, a, trans_b, b, 0, c0, i, j) == dot_s(
            op_row(trans_a, a, i),
            op_col(trans_b, b, j),
        ),
{
    let d = dot_s(op_row(trans_a, a, i), op_col(trans_b, b, j));
    lemma_op_dot_bounds(trans_a, a, trans_b, b, i, j);
    crate::fixed::lemma_fx_mul_one(d);
    crate::fixed::lemma_fx_mul_zero(c0);
}

/// With `beta == 0`, a GEMM cell is the dot product scaled by `alpha`.
pub proof fn lemma_gemm_cell_scaled(
    alpha: int,
    trans_a: Transpose,
    a: Matrix2D,
    trans_b: Transpose,
    b: Matrix2D,
    c0: int,
    i: int,
    j: int,
)
    requires
        a.wf(),
        b.wf(),
        0 <= alpha,
        0 <= i < op_nrows(trans_a, a),
        0 <= j < op_ncols(trans_b, b),
        op_ncols(trans_a, a) == op_nrows(trans_b, b),
        0 <= c0,
    ensures
        gemm_cell(alpha, trans_a, a, trans_b, b, 0, c0, i, j) == fx_mul(
            alpha,
            dot_s(op_row(trans_a, a, i), op_col(trans_b, b, j)),
        ),
{
    let d = dot_s(op_row(trans_a, a, i), op_col(trans_b, b, j));
    lemma_op_dot_bounds(trans_a, a, trans_b, b, i, j);
    crate::fixed::lemma_fx_mul_bounds(alpha, d);
    crate::fixed::lemma_fx_mul_zero(c0);
}

/// With `beta == 1`, a GEMM cell accumulates the scaled dot product onto the
/// previous cell value.
pub proof fn lemma_gemm_cell_accumulate(
    alpha: int,
    trans_a: Transpose,
    a: Matrix2D,
    trans_b: Transpose,
    b: Matrix2D,
    c0: int,
    i: int,
    j: int,
)
    requires
        a.wf(),
        b.wf(),
        0 <= alpha,
        0 <= i < op_nrows(trans_a, a),
        0 <= j < op_ncols(trans_b, b),
        op_ncols(trans_a, a) == op_nrows(trans_b, b),
        0 <= c0 <= u64::MAX,
    ensures
        gemm_cell(alpha, trans_a, a, trans_b, b, crate::fixed::SCALE as int, c0, i, j) == fx_add(
            fx_mul(alpha, dot_s(op_row(trans_a, a, i), op_col(trans_b, b, j))),
            c0,
        ),
{
    crate::fixed::lemma_fx_mul_one(c0);
}

/// The fixed-point dot product is commutative: each step multiplies the
/// same pair of entries.
pub proof fn lemma_dot_prefix_comm(u: Seq<int>, v: Seq<int>, n: int)
    ensures
        dot_prefix(u, v, n) == dot_prefix(v, u, n),
    decreases n,
{
    if n > 0 {
        lemma_dot_prefix_comm(u, v, n - 1);
        assert(u[n - 1] * v[n - 1] == v[n - 1] * u[n - 1]) by (nonlinear_arith);
    }
}

/// A matrix times its own transpose is symmetric: the product's cell at
/// `(i, j)` is the dot product of rows `i` and `j`, which is the same in
/// either order. The analogous fact holds for the transpose times the
/// matrix, with columns in place of rows.
pub proof fn lemma_product_with_own_transpose_symmetric(a: Matrix2D, i: int, j: int)
    requires
        a.wf(),
        0 <= i < a.spec_nrows(),
        0 <= j < a.spec_nrows(),
    ensures
        dot_s(row_s(a, i), row_s(a, j)) == dot_s(row_s(a, j), row_s(a, i)),
{
    lemma_dot_prefix_comm(row_s(a, i), row_s(a, j), row_s(a, i).len() as int);
}

/// Generalized matrix multiply: `c <- alpha * op(a) * op(b) + beta * c`.
///
/// The shapes of `op(a)`, `op(b)` and `c` must agree; every output cell is
/// exactly [`gemm_cell`] of the inputs. Unlike an in-place BLAS backend,
/// this kernel never aliases its output with an operand, so callers need no
/// defensive copies.
pub fn gemm(
    alpha: Fixed,
    trans_a: Transpose,
    a: &Matrix2D,
    trans_b: Transpose,
    b: &Matrix2D,
    beta: Fixed,
    c: &mut Matrix2D,
)
    requires
        a.wf(),
        b.wf(),
        old(c).wf(),
        op_nrows(trans_a, *a) == old(c).spec_nrows(),
        op_ncols(trans_a, *a) == op_nrows(trans_b, *b),
        op_ncols(trans_b, *b) == old(c).spec_ncols(),
    ensures
        final(c).wf(),
        final(c).spec_nrows() == old(c).spec_nrows(),
        final(c).spec_ncols() == old(c).spec_ncols(),
        forall|i: int, j: int|
            0 <= i < old(c).spec_nrows() && 0 <= j < old(c).spec_ncols() ==> final(c).at(i, j)
                == gemm_cell(alpha@, trans_a, *a, trans_b, *b, beta@, old(c).at(i, j), i, j),
{
    let m: usize = c.nrows();
    let n: usize = c.ncols();
    let a_transposed: bool = match trans_a {
        Transpose::Trans => true,
        Transpose::NoTrans => false,
    };
    let b_transposed: bool = match trans_b {
        Transpose::Trans => true,
        Transpose::NoTrans => false,
    };
    let kk: usize = if a_transposed {
        a.nrows()
    } else {
        a.ncols()
    };
    let mut i: usize = 0;
    while i < m
        invariant
            a.wf(),
            b.wf(),
            c.wf(),
            i <= m,
            m == old(c).spec_nrows(),
            n == old(c).spec_ncols(),
            c.spec_nrows() == m,
            c.spec_ncols() == n,
            a_transposed == (trans_a is Trans),
            b_transposed == (trans_b is Trans),
            kk == op_ncols(trans_a, *a),
            op_nrows(trans_a, *a) == m,
            op_nrows(trans_b, *b) == kk,
            op_ncols(trans_b, *b) == n,
            forall|r: int, j: int|
                0 <= r < i && 0 <= j < n ==> c.at(r, j) == gemm_cell(
                    alpha@,
                    trans_a,
                    *a,
                    trans_b,
                    *b,
                    beta@,
                    old(c).at(r, j),
                    r,
                    j,
                ),
            forall|r: int, j: int|
                i <= r < m && 0 <= j < n ==> c.at(r, j) == old(c).at(r, j),
        decreases m - i,
    {
        let mut row: Vec<Fixed> = Vec::new();
        let mut j: usize = 0;
        while j < n
            invariant
                a.wf(),
                b.wf(),
                c.wf(),
                i < m,
                j <= n,
                m == old(c).spec_nrows(),
                n == old(c).spec_ncols(),
                c.spec_nrows() == m,
                c.spec_ncols() == n,
                a_transposed == (trans_a is Trans),
                b_transposed == (trans_b is Trans),
                kk == op_ncols(trans_a, *a),
                op_nrows(trans_a, *a) == m,
                op_nrows(trans_b, *b) == kk,
                op_ncols(trans_b, *b) == n,
                forall|r: int, jj: int|
                    i <= r < m && 0 <= jj < n ==> c.at(r, jj) == old(c).at(r, jj),
                row@.len() == j,
                forall|jj: int|
                    0 <= jj < j ==> (#[trigger] row@[jj])@ == gemm_cell(
                        alpha@,
                        trans_a,
                        *a,
                        trans_b,
                        *b,
                        beta@,
                        old(c).at(i as int, jj),
                        i as int,
                        jj,
                    ),
            decreases n - j,
        {
            let ghost u: Seq<int> = op_row(trans_a, *a, i as int);
            let ghost v: Seq<int> = op_col(trans_b, *b, j as int);
            let mut acc: Fixed = Fixed::zero();
            let mut k: usize = 0;
            while k < kk
                invariant
                    a.wf(),
                    b.wf(),
                    i < m,
                    j < n,
                    k <= kk,
                    a_transposed == (trans_a is Trans),
                    b_transposed == (trans_b is Trans),
                    kk == op_ncols(trans_a, *a),
                    op_nrows(trans_a, *a) == m,
                    op_nrows(trans_b, *b) == kk,
                    op_ncols(trans_b, *b) == n,
                    u == op_row(trans_a, *a, i as int),
                    v == op_col(trans_b, *b, j as int),
                    acc@ == dot_prefix(u, v, k as int),
                decreases kk - k,
            {
                let x: Fixed = if a_transposed {
                    a.get(k, i)
                } else {
                    a.get(i, k)
                };
                let y: Fixed = if b_transposed {
                    b.get(j, k)
                } else {
                    b.get(k, j)
                };
                proof {
                    assert(u[k as int] == x@);
                    assert(v[k as int] == y@);
                }
                acc = acc.add(x.mul(y));
                k += 1;
            }
            proof {
                assert(u.len() == kk);
                assert(acc@ == dot_s(u, v));
            }
            let previous: Fixed = c.get(i, j);
            let cell: Fixed = alpha.mul(acc).add(beta.mul(previous));
            row.push(cell);
            j += 1;
        }
        c.set_row(i, row);
        i += 1;
    }
}

} // verus!
