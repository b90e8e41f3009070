//! Rescaling a matrix by its largest entry.

use vstd::prelude::*;

use crate::fixed::{fx_div, Fixed, SCALE};
use crate::gemm::row_s;
use crate::helpers::partial_max::{lemma_seq_max_ge, seq_max_vals, PartialMaxIteratorExt};
use crate::matrix::{lemma_entry_bounds, Matrix2D};

verus! {

/// The maxima of the rows of `m`, one entry per row.
pub open spec fn row_maxes_s(m: Matrix2D) -> Seq<int> {
    Seq::new(m.spec_nrows(), |i: int| seq_max_vals(row_s(m, i)))
}

/// The largest entry of a non-empty matrix.
pub open spec fn matrix_max_s(m: Matrix2D) -> int {
    seq_max_vals(row_maxes_s(m))
}

/// No entry of a non-empty well-formed matrix exceeds its maximum.
pub proof fn lemma_matrix_max_ge(m: Matrix2D, i: int, j: int)
    requires
        m.wf(),
        0 <= i < m.spec_nrows(),
        0 <= j < m.spec_ncols(),
    ensures
        m.at(i, j) <= matrix_max_s(m),
{
    lemma_seq_max_ge(row_s(m, i), j);
    lemma_seq_max_ge(row_maxes_s(m), i);
}

/// Values that can be rescaled by their own maximum; the contract of
/// `normalize` is chosen by each implementation.
pub trait Normalize: Sized {
    /// The inputs `normalize` accepts.
    spec fn normalize_req(&self) -> bool;

    /// What `normalize` promises of its result.
    spec fn normalize_post(&self, r: &Self) -> bool;

    /// divide all values in `self` by max value in `self`
    fn normalize(self) -> (r: Self)
        requires
            self.normalize_req(),
        ensures
            self.normalize_post(&r),
    ;
}

impl Normalize for Matrix2D {
    /// A matrix can be normalized when it is well-formed and non-empty.
    open spec fn normalize_req(&self) -> bool {
        &&& self.wf()
        &&& self.spec_nrows() > 0
        &&& self.spec_ncols() > 0
    }

    /// A matrix whose largest entry is zero is returned unchanged; any
    /// other matrix has every entry divided by that maximum, which leaves
    /// all entries at or below one.
    open spec fn normalize_post(&self, r: &Matrix2D) -> bool {
        &&& r.wf()
        &&& r.spec_nrows() == self.spec_nrows()
        &&& r.spec_ncols() == self.spec_ncols()
        &&& if matrix_max_s(*self) == 0 {
            r.same_content(self)
        } else {
            forall|i: int, j: int|
                0 <= i < self.spec_nrows() && 0 <= j < self.spec_ncols() ==> #[trigger] r.at(i, j)
                    == fx_div(self.at(i, j), matrix_max_s(*self))
        }
        &&& forall|i: int, j: int|
            0 <= i < self.spec_nrows() && 0 <= j < self.spec_ncols() ==> #[trigger] r.at(i, j)
                <= SCALE
    }

    fn normalize(self) -> (r: Matrix2D) {
        let m: usize = self.nrows();
        let n: usize = self.ncols();
        let mut maxes: Vec<Fixed> = Vec::new();
        let mut i: usize = 0;
        while i < m
            invariant
                self.wf(),
                m == self.spec_nrows(),
                n == self.spec_ncols(),
                n > 0,
                i <= m,
                maxes@.len() == i,
                forall|r: int| 0 <= r < i ==> (#[trigger] maxes@[r])@ == row_maxes_s(self)[r],
            decreases m - i,
        {
            let mut row: Vec<Fixed> = Vec::new();
            let mut j: usize = 0;
            while j < n
                invariant
                    self.wf(),
                    m == self.spec_nrows(),
                    n == self.spec_ncols(),
                    i < m,
                    j <= n,
                    row@.len() == j,
                    forall|c: int| 0 <= c < j ==> (#[trigger] row@[c])@ == self.at(i as int, c),
                decreases n - j,
            {
                row.push(self.get(i, j));
                j += 1;
            }
            proof {
                assert(row@.map_values(|f: Fixed| f@) =~= row_s(self, i as int));
            }
            let rm: Option<Fixed> = row.partial_max();
            maxes.push(rm.unwrap());
            i += 1;
        }
        proof {
            assert(maxes@.map_values(|f: Fixed| f@) =~= row_maxes_s(self));
        }
        let mx: Option<Fixed> = maxes.partial_max();
        let mx: Fixed = mx.unwrap();
        assert(mx@ == matrix_max_s(self));

        if mx.is_zero() {
            proof {
                assert forall|i: int, j: int|
                    0 <= i < self.spec_nrows() && 0 <= j < self.spec_ncols() implies #[trigger] self.at(
                    i,
                    j,
                ) <= SCALE by {
                    lemma_matrix_max_ge(self, i, j);
                    lemma_entry_bounds(self, i, j);
                }
            }
            return self;
        }

        let mut rows: Vec<Vec<Fixed>> = Vec::new();
        let mut i: usize = 0;
        while i < m
            invariant
                self.wf(),
                m == self.spec_nrows(),
                n == self.spec_ncols(),
                mx@ == matrix_max_s(self),
                mx@ != 0,
                i <= m,
                rows@.len() == i,
                forall|r: int| 0 <= r < i ==> (#[trigger] rows@[r])@.len() == n,
                forall|r: int, c: int|
                    0 <= r < i && 0 <= c < n ==> (#[trigger] rows@[r]@[c])@ == fx_div(
                        self.at(r, c),
                        matrix_max_s(self),
                    ),
            decreases m - i,
        {
            let mut row: Vec<Fixed> = Vec::new();
            let mut j: usize = 0;
            while j < n
                invariant
                    self.wf(),
                    m == self.spec_nrows(),
                    n == self.spec_ncols(),
                    mx@ == matrix_max_s(self),
                    mx@ != 0,
                    i < m,
                    j <= n,
                    row@.len() == j,
                    forall|c: int|
                        0 <= c < j ==> (#[trigger] row@[c])@ == fx_div(
                            self.at(i as int, c),
                            matrix_max_s(self),
                        ),
                decreases n - j,
            {
                row.push(self.get(i, j).div(mx));
                j += 1;
            }
            rows.push(row);
            i += 1;
        }
        let ghost rs: Seq<Vec<Fixed>> = rows@;
        let out = Matrix2D::from_rows(rows, n);
        proof {
            assert forall|i: int, j: int|
                0 <= i < self.spec_nrows() && 0 <= j < self.spec_ncols() implies #[trigger] out.at(
                i,
                j,
            ) == fx_div(self.at(i, j), matrix_max_s(self)) && out.at(i, j) <= SCALE by {
                assert(out.at(i, j) == (rs[i]@[j])@);
                lemma_matrix_max_ge(self, i, j);
                lemma_entry_bounds(self, i, j);
                let x = self.at(i, j);
                let mv = matrix_max_s(self);
                assert(x * (SCALE as int) <= mv * (SCALE as int)) by (nonlinear_arith)
                    requires
                        0 <= x <= mv,
                ;
                assert((x * (SCALE as int)) / mv <= (mv * (SCALE as int)) / mv) by (nonlinear_arith)
                    requires
                        x * (SCALE as int) <= mv * (SCALE as int),
                        0 < mv,
                ;
                assert((mv * (SCALE as int)) / mv == SCALE as int) by (nonlinear_arith)
                    requires
                        0 < mv,
                ;
            }
        }
        out
    }
}

} // verus!
