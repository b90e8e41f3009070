/*!
generates images used to test NMF

reproducibly (seeded) generate test data: a series of pictures, each a
linear combination of factors with randomly chosen coefficients.

two evolving factors change over time; a fixed number of pictures is
generated for each change of the evolving factors, during which they stay
constant. the series of pictures is fed into the factorization one at a
time, each picture as one row of observed values.
*/

use vstd::prelude::*;

use crate::fixed::{fx_add, fx_mul, Fixed, SCALE};
use crate::helpers::normalize::Normalize;
use crate::helpers::random::random01_fixed;
use crate::matrix::Matrix2D;

use std::ops::Range;

verus! {

/// Cell `(i, j)` of a picture holding one in row `row` at columns
/// `c0 <= j < c1` and zero everywhere else.
pub open spec fn hline_cell_s(row: int, c0: int, c1: int, i: int, j: int) -> int {
    if i == row && c0 <= j < c1 {
        SCALE as int
    } else {
        0
    }
}

/// Cell `(i, j)` of a picture holding one in column `col` at rows
/// `r0 <= i < r1` and zero everywhere else.
pub open spec fn vline_cell_s(r0: int, r1: int, col: int, i: int, j: int) -> int {
    if j == col && r0 <= i < r1 {
        SCALE as int
    } else {
        0
    }
}

/// Cell `(i, j)` of the `k`-th static factor: first a short horizontal
/// stroke, then every full row from the bottom up, then a short vertical
/// stroke, then every full column but the first.
pub open spec fn static_factor_cell_s(k: int, i: int, j: int) -> int {
    if k == 0 {
        hline_cell_s(9, 0, 5, i, j)
    } else if k < 10 {
        hline_cell_s(9 - k, 0, 10, i, j)
    } else if k == 10 {
        vline_cell_s(5, 10, 0, i, j)
    } else {
        vline_cell_s(0, 10, k - 10, i, j)
    }
}

/// returns a matrix that has `1` in `row` for all `cols` and `0` everywhere
/// else
pub fn horizontal_line(row: usize, cols: Range<usize>) -> (r: Matrix2D)
    requires
        row < 10,
        cols.end <= 10 || cols.start >= cols.end,
    ensures
        r.wf(),
        r.spec_nrows() == 10,
        r.spec_ncols() == 10,
        forall|i: int, j: int|
            0 <= i < 10 && 0 <= j < 10 ==> #[trigger] r.at(i, j) == hline_cell_s(
                row as int,
                cols.start as int,
                cols.end as int,
                i,
                j,
            ),
{
    let mut factor = Matrix2D::zeros(10, 10);
    let mut col: usize = cols.start;
    while col < cols.end
        invariant
            factor.wf(),
            factor.spec_nrows() == 10,
            factor.spec_ncols() == 10,
            row < 10,
            cols.start <= col,
            col <= cols.end || col == cols.start,
            cols.end <= 10 || cols.start >= cols.end,
            forall|i: int, j: int|
                0 <= i < 10 && 0 <= j < 10 ==> #[trigger] factor.at(i, j) == hline_cell_s(
                    row as int,
                    cols.start as int,
                    col as int,
                    i,
                    j,
                ),
        decreases cols.end - col,
    {
        factor.set(row, col, Fixed::one());
        col += 1;
    }
    factor
}

/// returns a matrix that has `1` in `col` for all `rows` and `0` everywhere
/// else
pub fn vertical_line(rows: Range<usize>, col: usize) -> (r: Matrix2D)
    requires
        col < 10,
        rows.end <= 10 || rows.start >= rows.end,
    ensures
        r.wf(),
        r.spec_nrows() == 10,
        r.spec_ncols() == 10,
        forall|i: int, j: int|
            0 <= i < 10 && 0 <= j < 10 ==> #[trigger] r.at(i, j) == vline_cell_s(
                rows.start as int,
                rows.end as int,
                col as int,
                i,
                j,
            ),
{
    let mut factor = Matrix2D::zeros(10, 10);
    let mut row: usize = rows.start;
    while row < rows.end
        invariant
            factor.wf(),
            factor.spec_nrows() == 10,
            factor.spec_ncols() == 10,
            col < 10,
            rows.start <= row,
            row <= rows.end || row == rows.start,
            rows.end <= 10 || rows.start >= rows.end,
            forall|i: int, j: int|
                0 <= i < 10 && 0 <= j < 10 ==> #[trigger] factor.at(i, j) == vline_cell_s(
                    rows.start as int,
                    row as int,
                    col as int,
                    i,
                    j,
                ),
        decreases rows.end - row,
    {
        factor.set(row, col, Fixed::one());
        row += 1;
    }
    factor
}

/// The six evolving horizontal factors: a five-cell stroke in the bottom
/// row, sliding one column to the right per step.
pub fn horizontal_evolving_factors() -> (r: Vec<Matrix2D>)
    ensures
        r@.len() == 6,
        forall|k: int|
            0 <= k < 6 ==> (#[trigger] r@[k]).wf() && r@[k].spec_nrows() == 10
                && r@[k].spec_ncols() == 10,
        forall|k: int, i: int, j: int|
            0 <= k < 6 && 0 <= i < 10 && 0 <= j < 10 ==> #[trigger] r@[k].at(i, j) == hline_cell_s(
                9,
                k,
                k + 5,
                i,
                j,
            ),
{
    let mut factors: Vec<Matrix2D> = Vec::new();
    let mut start_col: usize = 0;
    while start_col < 6
        invariant
            start_col <= 6,
            factors@.len() == start_col,
            forall|k: int|
                0 <= k < start_col ==> (#[trigger] factors@[k]).wf() && factors@[k].spec_nrows()
                    == 10 && factors@[k].spec_ncols() == 10,
            forall|k: int, i: int, j: int|
                0 <= k < start_col && 0 <= i < 10 && 0 <= j < 10 ==> #[trigger] factors@[k].at(
                    i,
                    j,
                ) == hline_cell_s(9, k, k + 5, i, j),
        decreases 6 - start_col,
    {
        factors.push(horizontal_line(9, start_col..(start_col + 5)));
        start_col += 1;
    }
    factors
}

/// The six evolving vertical factors: a five-cell stroke in the first
/// column, sliding one row up per step.
pub fn vertical_evolving_factors() -> (r: Vec<Matrix2D>)
    ensures
        r@.len() == 6,
        forall|k: int|
            0 <= k < 6 ==> (#[trigger] r@[k]).wf() && r@[k].spec_nrows() == 10
                && r@[k].spec_ncols() == 10,
        forall|k: int, i: int, j: int|
            0 <= k < 6 && 0 <= i < 10 && 0 <= j < 10 ==> #[trigger] r@[k].at(i, j) == vline_cell_s(
                5 - k,
                10 - k,
                0,
                i,
                j,
            ),
{
    let mut factors: Vec<Matrix2D> = Vec::new();
    let mut k: usize = 0;
    while k < 6
        invariant
            k <= 6,
            factors@.len() == k,
            forall|t: int|
                0 <= t < k ==> (#[trigger] factors@[t]).wf() && factors@[t].spec_nrows() == 10
                    && factors@[t].spec_ncols() == 10,
            forall|t: int, i: int, j: int|
                0 <= t < k && 0 <= i < 10 && 0 <= j < 10 ==> #[trigger] factors@[t].at(i, j)
                    == vline_cell_s(5 - t, 10 - t, 0, i, j),
        decreases 6 - k,
    {
        let start_row: usize = 5 - k;
        factors.push(vertical_line(start_row..(start_row + 5), 0));
        k += 1;
    }
    factors
}

/// The twenty static factors: one short horizontal stroke, the nine full
/// rows above the bottom one, one short vertical stroke, and the nine full
/// columns after the first.
pub fn static_factors() -> (r: Vec<Matrix2D>)
    ensures
        r@.len() == 20,
        forall|k: int|
            0 <= k < 20 ==> (#[trigger] r@[k]).wf() && r@[k].spec_nrows() == 10
                && r@[k].spec_ncols() == 10,
        forall|k: int, i: int, j: int|
            0 <= k < 20 && 0 <= i < 10 && 0 <= j < 10 ==> #[trigger] r@[k].at(i, j)
                == static_factor_cell_s(k, i, j),
{
    let mut factors: Vec<Matrix2D> = Vec::new();
    factors.push(horizontal_line(9, 0..5));
    let mut k: usize = 1;
    while k < 10
        invariant
            1 <= k <= 10,
            factors@.len() == k,
            forall|t: int|
                0 <= t < k ==> (#[trigger] factors@[t]).wf() && factors@[t].spec_nrows() == 10
                    && factors@[t].spec_ncols() == 10,
            forall|t: int, i: int, j: int|
                0 <= t < k && 0 <= i < 10 && 0 <= j < 10 ==> #[trigger] factors@[t].at(i, j)
                    == static_factor_cell_s(t, i, j),
        decreases 10 - k,
    {
        factors.push(horizontal_line(9 - k, 0..10));
        k += 1;
    }
    factors.push(vertical_line(5..10, 0));
    let mut k: usize = 11;
    while k < 20
        invariant
            11 <= k <= 20,
            factors@.len() == k,
            forall|t: int|
                0 <= t < k ==> (#[trigger] factors@[t]).wf() && factors@[t].spec_nrows() == 10
                    && factors@[t].spec_ncols() == 10,
            forall|t: int, i: int, j: int|
                0 <= t < k && 0 <= i < 10 && 0 <= j < 10 ==> #[trigger] factors@[t].at(i, j)
                    == static_factor_cell_s(t, i, j),
        decreases 20 - k,
    {
        factors.push(vertical_line(0..10, k - 10));
        k += 1;
    }
    factors
}

/// Cell `(i, j)` of the linear combination of the first `n` factors with
/// the given coefficients, accumulated left to right with saturation.
pub open spec fn linear_combination_cell_s(
    factors: Seq<Matrix2D>,
    coefficients: Seq<int>,
    n: int,
    i: int,
    j: int,
) -> int
    decreases n,
{
    if n <= 0 {
        0
    } else {
        fx_add(
            linear_combination_cell_s(factors, coefficients, n - 1, i, j),
            fx_mul(factors[n - 1].at(i, j), coefficients[n - 1]),
        )
    }
}

/// The linear combination of equally shaped factors: the entrywise sum of
/// each factor scaled by its coefficient.
pub fn linear_combination(factors: &Vec<Matrix2D>, coefficients: &Vec<Fixed>) -> (r: Matrix2D)
    requires
        0 < factors@.len(),
        factors@.len() == coefficients@.len(),
        forall|k: int|
            0 <= k < factors@.len() ==> (#[trigger] factors@[k]).wf() && factors@[k].spec_nrows()
                == factors@[0].spec_nrows() && factors@[k].spec_ncols()
                == factors@[0].spec_ncols(),
    ensures
        r.wf(),
        r.spec_nrows() == factors@[0].spec_nrows(),
        r.spec_ncols() == factors@[0].spec_ncols(),
        forall|i: int, j: int|
            0 <= i < r.spec_nrows() && 0 <= j < r.spec_ncols() ==> #[trigger] r.at(i, j)
                == linear_combination_cell_s(
                factors@,
                coefficients@.map_values(|c: Fixed| c@),
                factors@.len() as int,
                i,
                j,
            ),
{
    let ghost coefs: Seq<int> = coefficients@.map_values(|c: Fixed| c@);
    let nrows: usize = factors[0].nrows();
    let ncols: usize = factors[0].ncols();
    let mut result = Matrix2D::zeros(nrows, ncols);
    let mut k: usize = 0;
    while k < factors.len()
        invariant
            0 < factors@.len(),
            factors@.len() == coefficients@.len(),
            forall|t: int|
                0 <= t < factors@.len() ==> (#[trigger] factors@[t]).wf()
                    && factors@[t].spec_nrows() == nrows && factors@[t].spec_ncols() == ncols,
            coefs == coefficients@.map_values(|c: Fixed| c@),
            k <= factors@.len(),
            result.wf(),
            result.spec_nrows() == nrows,
            result.spec_ncols() == ncols,
            forall|i: int, j: int|
                0 <= i < nrows && 0 <= j < ncols ==> #[trigger] result.at(i, j)
                    == linear_combination_cell_s(factors@, coefs, k as int, i, j),
        decreases factors@.len() - k,
    {
        let coefficient = coefficients[k];
        result = result.add_entrywise(&factors[k].scale_by(coefficient));
        k += 1;
    }
    result
}

/// A linear combination looks only at the first `n` factors and
/// coefficients: two sequences agreeing there combine to the same cell.
pub proof fn lemma_linear_combination_prefix(
    factors1: Seq<Matrix2D>,
    coefficients1: Seq<int>,
    factors2: Seq<Matrix2D>,
    coefficients2: Seq<int>,
    n: int,
    i: int,
    j: int,
)
    requires
        forall|k: int| 0 <= k < n ==> factors1[k] == factors2[k],
        forall|k: int| 0 <= k < n ==> coefficients1[k] == coefficients2[k],
    ensures
        linear_combination_cell_s(factors1, coefficients1, n, i, j) == linear_combination_cell_s(
            factors2,
            coefficients2,
            n,
            i,
            j,
        ),
    decreases n,
{
    if n > 0 {
        lemma_linear_combination_prefix(factors1, coefficients1, factors2, coefficients2, n - 1, i, j);
    }
}

/// How a produced picture relates to the factors in force when it was
/// drawn: for some coefficients in `[0, 1]`, one per factor, the picture is
/// the linear combination of the static factors and the two current
/// factors, normalized by its largest value.
pub open spec fn picture_from_s(
    static_factors: Seq<Matrix2D>,
    current_horizontal: Matrix2D,
    current_vertical: Matrix2D,
    coefficients: Seq<int>,
    combined: Matrix2D,
    picture: Matrix2D,
) -> bool {
    let all_factors = static_factors.push(current_horizontal).push(current_vertical);
    &&& coefficients.len() == all_factors.len()
    &&& forall|k: int| 0 <= k < coefficients.len() ==> 0 <= #[trigger] coefficients[k] <= SCALE
    &&& combined.wf()
    &&& combined.spec_nrows() == 10
    &&& combined.spec_ncols() == 10
    &&& forall|i: int, j: int|
        0 <= i < 10 && 0 <= j < 10 ==> #[trigger] combined.at(i, j) == linear_combination_cell_s(
            all_factors,
            coefficients,
            all_factors.len() as int,
            i,
            j,
        )
    &&& combined.normalize_post(&picture)
}

/// Whether `picture` can be produced from the given factors: it is the
/// normalized linear combination of them under some coefficients in
/// `[0, 1]`.
pub open spec fn some_picture_from_s(
    static_factors: Seq<Matrix2D>,
    current_horizontal: Matrix2D,
    current_vertical: Matrix2D,
    picture: Matrix2D,
) -> bool {
    exists|coefficients: Seq<int>, combined: Matrix2D|
        #[trigger] picture_from_s(
            static_factors,
            current_horizontal,
            current_vertical,
            coefficients,
            combined,
            picture,
        )
}

/// The generator of the test-image series: it owns the evolving factors
/// that are still to come, the two factors currently in force, the static
/// factors, and the random source for the combination coefficients.
pub struct ImgGen<R> {
    pub per_step: usize,
    pub step: usize,
    pub i: usize,
    pub horizontal_iter: Vec<Matrix2D>,
    pub vertical_iter: Vec<Matrix2D>,
    pub current_horizontal: Matrix2D,
    pub current_vertical: Matrix2D,
    pub static_factors: Vec<Matrix2D>,
    pub rng: R,
}

impl<R> ImgGen<R> {
    /// The structural invariant: every factor held is a well-formed ten by
    /// ten picture, at least one picture is produced per step, and the
    /// position within the current step never passes `per_step`.
    pub open spec fn wf(&self) -> bool {
        &&& 0 < self.per_step
        &&& self.i <= self.per_step
        &&& self.current_horizontal.wf()
        &&& self.current_horizontal.spec_nrows() == 10
        &&& self.current_horizontal.spec_ncols() == 10
        &&& self.current_vertical.wf()
        &&& self.current_vertical.spec_nrows() == 10
        &&& self.current_vertical.spec_ncols() == 10
        &&& forall|k: int|
            0 <= k < self.horizontal_iter@.len() ==> (#[trigger] self.horizontal_iter@[k]).wf()
                && self.horizontal_iter@[k].spec_nrows() == 10
                && self.horizontal_iter@[k].spec_ncols() == 10
        &&& forall|k: int|
            0 <= k < self.vertical_iter@.len() ==> (#[trigger] self.vertical_iter@[k]).wf()
                && self.vertical_iter@[k].spec_nrows() == 10
                && self.vertical_iter@[k].spec_ncols() == 10
        &&& forall|k: int|
            0 <= k < self.static_factors@.len() ==> (#[trigger] self.static_factors@[k]).wf()
                && self.static_factors@[k].spec_nrows() == 10
                && self.static_factors@[k].spec_ncols() == 10
    }
}

impl<R: rand::Rng> ImgGen<R> {
    /// The next picture of the series, as `(step, index within the step,
    /// picture)`; `None` once the evolving factors are exhausted.
    ///
    /// Every picture is a linear combination of the static factors and the
    /// two factors currently in force, with random coefficients, normalized
    /// by its largest value, so all its entries lie in `[0, 1]`.
    #[verifier::rlimit(30)]
    pub fn next(&mut self) -> (r: Option<(usize, usize, Matrix2D)>)
        requires
            old(self).wf(),
            old(self).step < usize::MAX,
        ensures
            final(self).wf(),
            final(self).per_step == old(self).per_step,
            final(self).static_factors == old(self).static_factors,
            old(self).i < old(self).per_step ==> {
                &&& final(self).step == old(self).step
                &&& final(self).i == old(self).i + 1
                &&& final(self).horizontal_iter == old(self).horizontal_iter
                &&& final(self).vertical_iter == old(self).vertical_iter
                &&& final(self).current_horizontal == old(self).current_horizontal
                &&& final(self).current_vertical == old(self).current_vertical
                &&& r is Some
                &&& (r matches Option::Some(t) ==> t.0 == old(self).step && t.1 == old(self).i)
            },
            old(self).i == old(self).per_step && (old(self).horizontal_iter@.len() == 0 || old(
                self,
            ).vertical_iter@.len() == 0) ==> {
                &&& r is None
                &&& final(self).step == old(self).step + 1
                &&& final(self).i == old(self).i
                &&& final(self).horizontal_iter == old(self).horizontal_iter
                &&& final(self).vertical_iter == old(self).vertical_iter
                &&& final(self).current_horizontal == old(self).current_horizontal
                &&& final(self).current_vertical == old(self).current_vertical
            },
            old(self).i == old(self).per_step && old(self).horizontal_iter@.len() > 0 && old(
                self,
            ).vertical_iter@.len() > 0 ==> {
                &&& final(self).step == old(self).step + 1
                &&& final(self).i == 1
                &&& final(self).horizontal_iter@ == old(self).horizontal_iter@.subrange(
                    1,
                    old(self).horizontal_iter@.len() as int,
                )
                &&& final(self).vertical_iter@ == old(self).vertical_iter@.subrange(
                    1,
                    old(self).vertical_iter@.len() as int,
                )
                &&& final(self).current_horizontal == old(self).horizontal_iter@[0]
                &&& final(self).current_vertical == old(self).vertical_iter@[0]
                &&& r is Some
                &&& (r matches Option::Some(t) ==> t.0 == old(self).step + 1 && t.1 == 0)
            },
            r matches Option::Some(t) ==> {
                &&& t.2.wf()
                &&& t.2.spec_nrows() == 10
                &&& t.2.spec_ncols() == 10
                &&& forall|i: int, j: int|
                    0 <= i < 10 && 0 <= j < 10 ==> #[trigger] t.2.at(i, j) <= SCALE
            },
            r matches Option::Some(t) ==> some_picture_from_s(
                final(self).static_factors@,
                final(self).current_horizontal,
                final(self).current_vertical,
                t.2,
            ),
    {
        if self.i == self.per_step {
            self.step += 1;
            if self.horizontal_iter.len() == 0 || self.vertical_iter.len() == 0 {
                return None;
            }
            let horizontal = self.horizontal_iter.remove(0);
            let vertical = self.vertical_iter.remove(0);
            self.current_horizontal = horizontal;
            self.current_vertical = vertical;
            self.i = 0;
            proof {
                assert(self.horizontal_iter@ =~= old(self).horizontal_iter@.subrange(
                    1,
                    old(self).horizontal_iter@.len() as int,
                ));
                assert(self.vertical_iter@ =~= old(self).vertical_iter@.subrange(
                    1,
                    old(self).vertical_iter@.len() as int,
                ));
            }
        }

        let i = self.i;
        self.i += 1;

        let ghost snap = *self;
        let ghost all_factors: Seq<Matrix2D> = snap.static_factors@.push(
            snap.current_horizontal,
        ).push(snap.current_vertical);

        let mut result = Matrix2D::zeros(10, 10);
        let ghost mut coefficients: Seq<int> = Seq::empty();

        // random linear combination of all the factors
        let mut k: usize = 0;
        while k < self.static_factors.len()
            invariant
                self.wf(),
                *self == (ImgGen { rng: self.rng, ..snap }),
                all_factors == snap.static_factors@.push(snap.current_horizontal).push(
                    snap.current_vertical,
                ),
                result.wf(),
                result.spec_nrows() == 10,
                result.spec_ncols() == 10,
                k <= self.static_factors@.len(),
                coefficients.len() == k,
                forall|t: int| 0 <= t < k ==> 0 <= #[trigger] coefficients[t] <= SCALE,
                forall|i: int, j: int|
                    0 <= i < 10 && 0 <= j < 10 ==> #[trigger] result.at(i, j)
                        == linear_combination_cell_s(all_factors, coefficients, k as int, i, j),
            decreases self.static_factors@.len() - k,
        {
            let coefficient = random01_fixed(&mut self.rng);
            let ghost previous = coefficients;
            let ghost before = result;
            result = result.add_entrywise(&self.static_factors[k].scale_by(coefficient));
            proof {
                coefficients = coefficients.push(coefficient@);
                assert forall|i: int, j: int|
                    0 <= i < 10 && 0 <= j < 10 implies #[trigger] result.at(i, j)
                    == linear_combination_cell_s(
                    all_factors,
                    coefficients,
                    k + 1,
                    i,
                    j,
                ) by {
                    lemma_linear_combination_prefix(
                        all_factors,
                        coefficients,
                        all_factors,
                        previous,
                        k as int,
                        i,
                        j,
                    );
                }
            }
            k += 1;
        }
        let horizontal_coefficient = random01_fixed(&mut self.rng);
        let ghost previous = coefficients;
        result = result.add_entrywise(&self.current_horizontal.scale_by(horizontal_coefficient));
        proof {
            coefficients = coefficients.push(horizontal_coefficient@);
            assert forall|i: int, j: int|
                0 <= i < 10 && 0 <= j < 10 implies #[trigger] result.at(i, j)
                == linear_combination_cell_s(
                all_factors,
                coefficients,
                coefficients.len() as int,
                i,
                j,
            ) by {
                lemma_linear_combination_prefix(
                    all_factors,
                    coefficients,
                    all_factors,
                    previous,
                    previous.len() as int,
                    i,
                    j,
                );
            }
        }
        let vertical_coefficient = random01_fixed(&mut self.rng);
        let ghost previous = coefficients;
        result = result.add_entrywise(&self.current_vertical.scale_by(vertical_coefficient));
        proof {
            coefficients = coefficients.push(vertical_coefficient@);
            assert forall|i: int, j: int|
                0 <= i < 10 && 0 <= j < 10 implies #[trigger] result.at(i, j)
                == linear_combination_cell_s(
                all_factors,
                coefficients,
                coefficients.len() as int,
                i,
                j,
            ) by {
                lemma_linear_combination_prefix(
                    all_factors,
                    coefficients,
                    all_factors,
                    previous,
                    previous.len() as int,
                    i,
                    j,
                );
            }
        }

        let ghost combined = result;
        let picture = result.normalize();
        proof {
            assert(some_picture_from_s(
                self.static_factors@,
                self.current_horizontal,
                self.current_vertical,
                picture,
            )) by {
                assert(picture_from_s(
                    self.static_factors@,
                    self.current_horizontal,
                    self.current_vertical,
                    coefficients,
                    combined,
                    picture,
                ));
            }
        }
        Some((self.step, i, picture))
    }
}

/// The full series of test images: one generator over the six evolving
/// steps, producing `per_step` pictures for each.
pub fn testimages<R: rand::Rng>(per_step: usize, rng: R) -> (r: ImgGen<R>)
    requires
        0 < per_step,
    ensures
        r.wf(),
        r.per_step == per_step,
        r.step == 0,
        r.i == 0,
        r.horizontal_iter@.len() == 5,
        r.vertical_iter@.len() == 5,
        r.static_factors@.len() == 20,
        forall|i: int, j: int|
            0 <= i < 10 && 0 <= j < 10 ==> #[trigger] r.current_horizontal.at(i, j)
                == hline_cell_s(9, 0, 5, i, j),
        forall|i: int, j: int|
            0 <= i < 10 && 0 <= j < 10 ==> #[trigger] r.current_vertical.at(i, j) == vline_cell_s(
                5,
                10,
                0,
                i,
                j,
            ),
        forall|k: int, i: int, j: int|
            0 <= k < 5 && 0 <= i < 10 && 0 <= j < 10 ==> #[trigger] r.horizontal_iter@[k].at(i, j)
                == hline_cell_s(9, k + 1, k + 6, i, j),
        forall|k: int, i: int, j: int|
            0 <= k < 5 && 0 <= i < 10 && 0 <= j < 10 ==> #[trigger] r.vertical_iter@[k].at(i, j)
                == vline_cell_s(4 - k, 9 - k, 0, i, j),
        forall|k: int, i: int, j: int|
            0 <= k < 20 && 0 <= i < 10 && 0 <= j < 10 ==> #[trigger] r.static_factors@[k].at(i, j)
                == static_factor_cell_s(k, i, j),
{
    let mut horizontal_iter = horizontal_evolving_factors();
    let mut vertical_iter = vertical_evolving_factors();
    let horizontal = horizontal_iter.remove(0);
    let vertical = vertical_iter.remove(0);
    ImgGen {
        per_step,
        step: 0,
        i: 0,
        horizontal_iter,
        vertical_iter,
        current_horizontal: horizontal,
        current_vertical: vertical,
        rng,
        static_factors: static_factors(),
    }
}

} // verus!
