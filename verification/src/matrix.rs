//! `Matrix2D`: the dense, owned, row-major matrix all solvers operate on.
//!
//! A matrix is a rectangle of [`Fixed`] entries addressed by `(row, col)`.
//! Its mathematical model is the spec function [`Matrix2D::at`] giving the
//! raw value of each entry, together with the two dimensions.

use vstd::prelude::*;

use crate::fixed::Fixed;

verus! {

/// An owned dense matrix of non-negative fixed-point numbers.
#[derive(Clone, Debug)]
pub struct Matrix2D {
    rows: Vec<Vec<Fixed>>,
    cols: usize,
}

impl Matrix2D {
    /// The number of rows.
    pub closed spec fn spec_nrows(&self) -> nat {
        self.rows@.len()
    }

    /// The number of columns.
    pub closed spec fn spec_ncols(&self) -> nat {
        self.cols as nat
    }

    /// The raw value of the entry at `(i, j)`.
    pub closed spec fn at(&self, i: int, j: int) -> int {
        self.rows@[i]@[j]@
    }

    /// Every row holds exactly `spec_ncols` entries.
    pub closed spec fn wf(&self) -> bool {
        forall|i: int|
            0 <= i < self.rows@.len() ==> (#[trigger] self.rows@[i])@.len() == self.cols
    }

    /// Two matrices agree on their dimensions and on every entry.
    pub open spec fn same_content(&self, other: &Matrix2D) -> bool {
        &&& self.spec_nrows() == other.spec_nrows()
        &&& self.spec_ncols() == other.spec_ncols()
        &&& forall|i: int, j: int|
            0 <= i < self.spec_nrows() && 0 <= j < self.spec_ncols() ==> self.at(i, j)
                == other.at(i, j)
    }

    pub fn nrows(&self) -> (r: usize)
        ensures
            r == self.spec_nrows(),
    {
        self.rows.len()
    }

    pub fn ncols(&self) -> (r: usize)
        ensures
            r == self.spec_ncols(),
    {
        self.cols
    }

    /// The dimensions as `(rows, cols)`.
    pub fn shape(&self) -> (r: (usize, usize))
        ensures
            r.0 == self.spec_nrows(),
            r.1 == self.spec_ncols(),
    {
        (self.rows.len(), self.cols)
    }

    /// Read the entry at `(i, j)`.
    pub fn get(&self, i: usize, j: usize) -> (r: Fixed)
        requires
            self.wf(),
            i < self.spec_nrows(),
            j < self.spec_ncols(),
        ensures
            r@ == self.at(i as int, j as int),
    {
        self.rows[i][j]
    }

    /// Overwrite the entry at `(i, j)`; every other entry is kept.
    pub fn set(&mut self, i: usize, j: usize, v: Fixed)
        requires
            old(self).wf(),
            i < old(self).spec_nrows(),
            j < old(self).spec_ncols(),
        ensures
            final(self).wf(),
            final(self).spec_nrows() == old(self).spec_nrows(),
            final(self).spec_ncols() == old(self).spec_ncols(),
            final(self).at(i as int, j as int) == v@,
            forall|r: int, c: int|
                0 <= r < old(self).spec_nrows() && 0 <= c < old(self).spec_ncols() && !(r == i
                    && c == j) ==> final(self).at(r, c) == old(self).at(r, c),
    {
        self.rows[i][j] = v;
    }

    /// Replace row `i` wholesale; every other row is kept.
    pub fn set_row(&mut self, i: usize, row: Vec<Fixed>)
        requires
            old(self).wf(),
            i < old(self).spec_nrows(),
            row@.len() == old(self).spec_ncols(),
        ensures
            final(self).wf(),
            final(self).spec_nrows() == old(self).spec_nrows(),
            final(self).spec_ncols() == old(self).spec_ncols(),
            forall|c: int|
                0 <= c < old(self).spec_ncols() ==> final(self).at(i as int, c) == row@[c]@,
            forall|r: int, c: int|
                0 <= r < old(self).spec_nrows() && 0 <= c < old(self).spec_ncols() && r != i
                    ==> final(self).at(r, c) == old(self).at(r, c),
    {
        self.rows[i] = row;
    }

    /// A `nrows` by `ncols` matrix with `v` at every position.
    pub fn from_elem(nrows: usize, ncols: usize, v: Fixed) -> (r: Matrix2D)
        ensures
            r.wf(),
            r.spec_nrows() == nrows,
            r.spec_ncols() == ncols,
            forall|i: int, j: int| 0 <= i < nrows && 0 <= j < ncols ==> r.at(i, j) == v@,
    {
        let mut rows: Vec<Vec<Fixed>> = Vec::new();
        let mut i: usize = 0;
        while i < nrows
            invariant
                i <= nrows,
                rows@.len() == i,
                forall|r: int| 0 <= r < i ==> (#[trigger] rows@[r])@.len() == ncols,
                forall|r: int, c: int|
                    0 <= r < i && 0 <= c < ncols ==> (#[trigger] rows@[r]@[c])@ == v@,
            decreases nrows - i,
        {
            let mut row: Vec<Fixed> = Vec::new();
            let mut j: usize = 0;
            while j < ncols
                invariant
                    j <= ncols,
                    row@.len() == j,
                    forall|c: int| 0 <= c < j ==> (#[trigger] row@[c])@ == v@,
                decreases ncols - j,
            {
                row.push(v);
                j += 1;
            }
            rows.push(row);
            i += 1;
        }
        Matrix2D { rows, cols: ncols }
    }

    /// The all-zero matrix of the given dimensions.
    pub fn zeros(nrows: usize, ncols: usize) -> (r: Matrix2D)
        ensures
            r.wf(),
            r.spec_nrows() == nrows,
            r.spec_ncols() == ncols,
            forall|i: int, j: int| 0 <= i < nrows && 0 <= j < ncols ==> r.at(i, j) == 0,
    {
        Matrix2D::from_elem(nrows, ncols, Fixed::zero())
    }

    /// Build a matrix from explicit rows; each row must have `ncols` entries.
    pub fn from_rows(data: Vec<Vec<Fixed>>, ncols: usize) -> (r: Matrix2D)
        requires
            forall|i: int| 0 <= i < data@.len() ==> (#[trigger] data@[i])@.len() == ncols,
        ensures
            r.wf(),
            r.spec_nrows() == data@.len(),
            r.spec_ncols() == ncols,
            forall|i: int, j: int|
                0 <= i < data@.len() && 0 <= j < ncols ==> r.at(i, j) == (#[trigger] data@[i]@[j])@,
    {
        Matrix2D { rows: data, cols: ncols }
    }

    /// The transpose: entry `(i, j)` of the result is entry `(j, i)` of `self`.
    pub fn transpose(&self) -> (r: Matrix2D)
        requires
            self.wf(),
        ensures
            r.wf(),
            r.spec_nrows() == self.spec_ncols(),
            r.spec_ncols() == self.spec_nrows(),
            forall|i: int, j: int|
                0 <= i < r.spec_nrows() && 0 <= j < r.spec_ncols() ==> r.at(i, j) == self.at(j, i),
    {
        let nrows = self.ncols();
        let ncols = self.nrows();
        let mut rows: Vec<Vec<Fixed>> = Vec::new();
        let mut i: usize = 0;
        while i < nrows
            invariant
                self.wf(),
                nrows == self.spec_ncols(),
                ncols == self.spec_nrows(),
                i <= nrows,
                rows@.len() == i,
                forall|r: int| 0 <= r < i ==> (#[trigger] rows@[r])@.len() == ncols,
                forall|r: int, c: int|
                    0 <= r < i && 0 <= c < ncols ==> (#[trigger] rows@[r]@[c])@ == self.at(c, r),
            decreases nrows - i,
        {
            let mut row: Vec<Fixed> = Vec::new();
            let mut j: usize = 0;
            while j < ncols
                invariant
                    self.wf(),
                    nrows == self.spec_ncols(),
                    ncols == self.spec_nrows(),
                    i < nrows,
                    j <= ncols,
                    row@.len() == j,
                    forall|c: int| 0 <= c < j ==> (#[trigger] row@[c])@ == self.at(c, i as int),
                decreases ncols - j,
            {
                row.push(self.get(j, i));
                j += 1;
            }
            rows.push(row);
            i += 1;
        }
        Matrix2D { rows, cols: ncols }
    }

    /// The entrywise (saturating) sum of two equally shaped matrices.
    pub fn add_entrywise(&self, other: &Matrix2D) -> (r: Matrix2D)
        requires
            self.wf(),
            other.wf(),
            self.spec_nrows() == other.spec_nrows(),
            self.spec_ncols() == other.spec_ncols(),
        ensures
            r.wf(),
            r.spec_nrows() == self.spec_nrows(),
            r.spec_ncols() == self.spec_ncols(),
            forall|i: int, j: int|
                0 <= i < self.spec_nrows() && 0 <= j < self.spec_ncols() ==> #[trigger] r.at(i, j)
                    == crate::fixed::fx_add(self.at(i, j), other.at(i, j)),
    {
        let m: usize = self.nrows();
        let n: usize = self.ncols();
        let mut rows: Vec<Vec<Fixed>> = Vec::new();
        let mut i: usize = 0;
        while i < m
            invariant
                self.wf(),
                other.wf(),
                m == self.spec_nrows(),
                n == self.spec_ncols(),
                other.spec_nrows() == m,
                other.spec_ncols() == n,
                i <= m,
                rows@.len() == i,
                forall|r: int| 0 <= r < i ==> (#[trigger] rows@[r])@.len() == n,
                forall|r: int, c: int|
                    0 <= r < i && 0 <= c < n ==> (#[trigger] rows@[r]@[c])@ == crate::fixed::fx_add(
                        self.at(r, c),
                        other.at(r, c),
                    ),
            decreases m - i,
        {
            let mut row: Vec<Fixed> = Vec::new();
            let mut j: usize = 0;
            while j < n
                invariant
                    self.wf(),
                    other.wf(),
                    m == self.spec_nrows(),
                    n == self.spec_ncols(),
                    other.spec_nrows() == m,
                    other.spec_ncols() == n,
                    i < m,
                    j <= n,
                    row@.len() == j,
                    forall|c: int|
                        0 <= c < j ==> (#[trigger] row@[c])@ == crate::fixed::fx_add(
                            self.at(i as int, c),
                            other.at(i as int, c),
                        ),
                decreases n - j,
            {
                row.push(self.get(i, j).add(other.get(i, j)));
                j += 1;
            }
            rows.push(row);
            i += 1;
        }
        Matrix2D { rows, cols: n }
    }

    /// Every entry multiplied by the scalar `s`.
    pub fn scale_by(&self, s: Fixed) -> (r: Matrix2D)
        requires
            self.wf(),
        ensures
            r.wf(),
            r.spec_nrows() == self.spec_nrows(),
            r.spec_ncols() == self.spec_ncols(),
            forall|i: int, j: int|
                0 <= i < self.spec_nrows() && 0 <= j < self.spec_ncols() ==> #[trigger] r.at(i, j)
                    == crate::fixed::fx_mul(self.at(i, j), s@),
    {
        let m: usize = self.nrows();
        let n: usize = self.ncols();
        let mut rows: Vec<Vec<Fixed>> = Vec::new();
        let mut i: usize = 0;
        while i < m
            invariant
                self.wf(),
                m == self.spec_nrows(),
                n == self.spec_ncols(),
                i <= m,
                rows@.len() == i,
                forall|r: int| 0 <= r < i ==> (#[trigger] rows@[r])@.len() == n,
                forall|r: int, c: int|
                    0 <= r < i && 0 <= c < n ==> (#[trigger] rows@[r]@[c])@ == crate::fixed::fx_mul(
                        self.at(r, c),
                        s@,
                    ),
            decreases m - i,
        {
            let mut row: Vec<Fixed> = Vec::new();
            let mut j: usize = 0;
            while j < n
                invariant
                    self.wf(),
                    m == self.spec_nrows(),
                    n == self.spec_ncols(),
                    i < m,
                    j <= n,
                    row@.len() == j,
                    forall|c: int|
                        0 <= c < j ==> (#[trigger] row@[c])@ == crate::fixed::fx_mul(
                            self.at(i as int, c),
                            s@,
                        ),
                decreases n - j,
            {
                row.push(self.get(i, j).mul(s));
                j += 1;
            }
            rows.push(row);
            i += 1;
        }
        Matrix2D { rows, cols: n }
    }
}

/// Every in-range entry of a well-formed matrix is a representable
/// non-negative value: the scalar type cannot hold anything else.
pub proof fn lemma_entry_bounds(m: Matrix2D, i: int, j: int)
    requires
        m.wf(),
        0 <= i < m.spec_nrows(),
        0 <= j < m.spec_ncols(),
    ensures
        0 <= m.at(i, j) <= u64::MAX,
{
    crate::fixed::lemma_view_bounds(m.rows@[i]@[j]);
}

impl PartialEq for Matrix2D {
    /// Matrices are equal when their dimensions and all entries agree.
    fn eq(&self, other: &Matrix2D) -> (r: bool) {
        if self.rows.len() != other.rows.len() || self.cols != other.cols {
            return false;
        }
        let mut i: usize = 0;
        while i < self.rows.len()
            invariant
                self.spec_nrows() == other.spec_nrows(),
                i <= self.spec_nrows(),
            decreases self.rows@.len() - i,
        {
            let a = &self.rows[i];
            let b = &other.rows[i];
            if a.len() != b.len() {
                return false;
            }
            let mut j: usize = 0;
            while j < a.len()
                invariant
                    a@.len() == b@.len(),
                    j <= a@.len(),
                decreases a@.len() - j,
            {
                if a[j].to_bits() != b[j].to_bits() {
                    return false;
                }
                j += 1;
            }
            i += 1;
        }
        true
    }
}

impl vstd::std_specs::cmp::PartialEqSpecImpl for Matrix2D {
    /// `==` on matrices is only run, never reasoned about: verified code
    /// compares matrices through `same_content` instead.
    open spec fn obeys_eq_spec() -> bool {
        false
    }

    open spec fn eq_spec(&self, other: &Matrix2D) -> bool {
        true
    }
}

} // verus!
