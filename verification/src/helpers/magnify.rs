//! Enlarging a picture by an integer factor.

use vstd::prelude::*;

use crate::fixed::Fixed;
use crate::matrix::Matrix2D;

verus! {

/// The matrix blown up by `amount` in both directions: every entry becomes
/// an `amount` by `amount` block of its value; with amount zero the result
/// is empty.
pub fn magnify(matrix: Matrix2D, amount: usize) -> (r: Matrix2D)
    requires
        matrix.wf(),
        matrix.spec_nrows() * amount <= usize::MAX,
        matrix.spec_ncols() * amount <= usize::MAX,
    ensures
        r.wf(),
        r.spec_nrows() == matrix.spec_nrows() * amount,
        r.spec_ncols() == matrix.spec_ncols() * amount,
        forall|i: int, j: int|
            0 <= i < r.spec_nrows() && 0 <= j < r.spec_ncols() ==> #[trigger] r.at(i, j)
                == matrix.at(i / amount as int, j / amount as int),
{
    if amount == 0 {
        proof {
            assert(matrix.spec_nrows() * 0 == 0) by (nonlinear_arith);
            assert(matrix.spec_ncols() * 0 == 0) by (nonlinear_arith);
        }
        return Matrix2D::zeros(0, 0);
    }
    proof {
        assert(matrix.spec_nrows() * amount <= usize::MAX);
        assert(matrix.spec_ncols() * amount <= usize::MAX);
    }
    let nrows: usize = matrix.nrows() * amount;
    let ncols: usize = matrix.ncols() * amount;
    let mut rows: Vec<Vec<Fixed>> = Vec::new();
    let mut i: usize = 0;
    while i < nrows
        invariant
            matrix.wf(),
            0 < amount,
            nrows == matrix.spec_nrows() * amount,
            ncols == matrix.spec_ncols() * amount,
            i <= nrows,
            rows@.len() == i,
            forall|r: int| 0 <= r < i ==> (#[trigger] rows@[r])@.len() == ncols,
            forall|r: int, c: int|
                0 <= r < i && 0 <= c < ncols ==> (#[trigger] rows@[r]@[c])@ == matrix.at(
                    r / amount as int,
                    c / amount as int,
                ),
        decreases nrows - i,
    {
        proof {
            assert(i / amount < matrix.spec_nrows()) by (nonlinear_arith)
                requires
                    0 < amount,
                    0 <= i,
                    i < matrix.spec_nrows() * amount,
            ;
        }
        let src_row: usize = i / amount;
        let mut row: Vec<Fixed> = Vec::new();
        let mut j: usize = 0;
        while j < ncols
            invariant
                matrix.wf(),
                0 < amount,
                ncols == matrix.spec_ncols() * amount,
                src_row < matrix.spec_nrows(),
                src_row as int == i as int / amount as int,
                j <= ncols,
                row@.len() == j,
                forall|c: int|
                    0 <= c < j ==> (#[trigger] row@[c])@ == matrix.at(
                        i as int / amount as int,
                        c / amount as int,
                    ),
            decreases ncols - j,
        {
            proof {
                assert(j / amount < matrix.spec_ncols()) by (nonlinear_arith)
                    requires
                        0 < amount,
                        0 <= j,
                        j < matrix.spec_ncols() * amount,
                ;
            }
            row.push(matrix.get(src_row, j / amount));
            j += 1;
        }
        rows.push(row);
        i += 1;
    }
    let ghost rs: Seq<Vec<Fixed>> = rows@;
    let out = Matrix2D::from_rows(rows, ncols);
    proof {
        assert forall|i: int, j: int|
            0 <= i < out.spec_nrows() && 0 <= j < out.spec_ncols() implies #[trigger] out.at(i, j)
            == matrix.at(i / amount as int, j / amount as int) by {
            assert(out.at(i, j) == (rs[i]@[j])@);
        }
    }
    out
}

} // verus!
