//! The NMF solver built directly on the GEMM kernel.
//!
//! The free functions compute the four update quantities of one iteration
//! step — weights multiplier/divisor and hidden multiplier/divisor — each
//! into a caller-supplied buffer, and [`update_from_multiplier_and_divisor`]
//! applies the multiplicative update elementwise. [`NMFBlas`] owns the two
//! factor matrices and all scratch buffers, so repeated iteration never
//! reallocates.

use vstd::prelude::*;

use crate::fixed::{fx_add, fx_mul, fx_update_clamped, Fixed, SCALE};
use crate::gemm::{
    col_s, dot_s, gemm, lemma_gemm_cell_accumulate, lemma_gemm_cell_unit, row_s, Transpose,
};
use crate::matrix::{lemma_entry_bounds, Matrix2D};

verus! {

/// Types that report their dimensions as a tuple.
pub trait ShapeAsTuple<T> {
    fn shape_as_tuple(&self) -> T;
}

impl ShapeAsTuple<(usize, usize)> for Matrix2D {
    #[inline]
    fn shape_as_tuple(&self) -> (usize, usize) {
        self.shape()
    }
}

/// Cell `(i, j)` of the gamma matrix: zero on the diagonal, one off it.
pub open spec fn gamma_cell_s(i: int, j: int) -> int {
    if i == j {
        0
    } else {
        SCALE as int
    }
}

/// Cell `(i, j)` of `samples * hidden^T`: the weights multiplier.
pub open spec fn weights_multiplier_s(samples: Matrix2D, hidden: Matrix2D, i: int, j: int) -> int {
    dot_s(row_s(samples, i), row_s(hidden, j))
}

/// Cell `(i, j)` of the reconstruction `weights * hidden`.
pub open spec fn reconstruction_s(weights: Matrix2D, hidden: Matrix2D, i: int, j: int) -> int {
    dot_s(row_s(weights, i), col_s(hidden, j))
}

/// Row `i` of the reconstruction `weights * hidden`.
pub open spec fn reconstruction_row_s(weights: Matrix2D, hidden: Matrix2D, i: int) -> Seq<int> {
    Seq::new(hidden.spec_ncols(), |k: int| reconstruction_s(weights, hidden, i, k))
}

/// Cell `(i, j)` of `weights * hidden * hidden^T`: the weights divisor.
pub open spec fn weights_divisor_s(weights: Matrix2D, hidden: Matrix2D, i: int, j: int) -> int {
    dot_s(reconstruction_row_s(weights, hidden, i), row_s(hidden, j))
}

/// Cell `(i, j)` of `weights^T * samples`: the hidden multiplier.
pub open spec fn hidden_multiplier_s(weights: Matrix2D, samples: Matrix2D, i: int, j: int) -> int {
    dot_s(col_s(weights, i), col_s(samples, j))
}

/// Cell `(i, j)` of the small partial product `weights^T * weights`.
pub open spec fn hidden_partial_s(weights: Matrix2D, i: int, j: int) -> int {
    dot_s(col_s(weights, i), col_s(weights, j))
}

/// Row `i` of `weights^T * weights`.
pub open spec fn hidden_partial_row_s(weights: Matrix2D, i: int) -> Seq<int> {
    Seq::new(weights.spec_ncols(), |k: int| hidden_partial_s(weights, i, k))
}

/// Cell `(i, j)` of `(weights^T * weights) * hidden`: the hidden divisor
/// before any orthogonality term.
pub open spec fn hidden_divisor_base_s(weights: Matrix2D, hidden: Matrix2D, i: int, j: int) -> int {
    dot_s(hidden_partial_row_s(weights, i), col_s(hidden, j))
}

/// Cell `(i, j)` of the orthogonality pressure `alpha * gamma * hidden`.
pub open spec fn ortho_term_s(alpha: int, gamma: Matrix2D, hidden: Matrix2D, i: int, j: int) -> int {
    fx_mul(alpha, dot_s(row_s(gamma, i), col_s(hidden, j)))
}

/// The gamma matrix: a symmetric `size` by `size` matrix with diagonal
/// elements equal to zero and all other elements equal to one.
pub fn gamma(size: usize) -> (g: Matrix2D)
    ensures
        g.wf(),
        g.spec_nrows() == size,
        g.spec_ncols() == size,
        forall|i: int, j: int|
            0 <= i < size && 0 <= j < size ==> #[trigger] g.at(i, j) == gamma_cell_s(i, j),
{
    let mut g = Matrix2D::from_elem(size, size, Fixed::one());
    let mut i: usize = 0;
    while i < size
        invariant
            g.wf(),
            g.spec_nrows() == size,
            g.spec_ncols() == size,
            i <= size,
            forall|r: int, c: int|
                0 <= r < size && 0 <= c < size && (r != c || r >= i) ==> g.at(r, c) == SCALE,
            forall|r: int| 0 <= r < i ==> g.at(r, r) == 0,
        decreases size - i,
    {
        g.set(i, i, Fixed::zero());
        i += 1;
    }
    g
}

/// `weights_multiplier <- samples * hidden.transpose()`
pub fn weights_multiplier(
    samples: &Matrix2D,
    hidden: &Matrix2D,
    weights_multiplier: &mut Matrix2D,
)
    requires
        samples.wf(),
        hidden.wf(),
        old(weights_multiplier).wf(),
        samples.spec_ncols() == hidden.spec_ncols(),
        old(weights_multiplier).spec_nrows() == samples.spec_nrows(),
        old(weights_multiplier).spec_ncols() == hidden.spec_nrows(),
    ensures
        final(weights_multiplier).wf(),
        final(weights_multiplier).spec_nrows() == old(weights_multiplier).spec_nrows(),
        final(weights_multiplier).spec_ncols() == old(weights_multiplier).spec_ncols(),
        forall|i: int, j: int|
            0 <= i < samples.spec_nrows() && 0 <= j < hidden.spec_nrows() ==> final(weights_multiplier).at(i, j) == weights_multiplier_s(*samples, *hidden, i, j),
{
    gemm(
        Fixed::one(),
        Transpose::NoTrans,
        samples,
        Transpose::Trans,
        hidden,
        Fixed::zero(),
        weights_multiplier,
    );
    proof {
        assert forall|i: int, j: int|
            0 <= i < samples.spec_nrows() && 0 <= j < hidden.spec_nrows() implies weights_multiplier.at(
            i,
            j,
        ) == weights_multiplier_s(*samples, *hidden, i, j) by {
            lemma_entry_bounds(*old(weights_multiplier), i, j);
            lemma_gemm_cell_unit(
                Transpose::NoTrans,
                *samples,
                Transpose::Trans,
                *hidden,
                old(weights_multiplier).at(i, j),
                i,
                j,
            );
        }
    }
}

/// `weights_divisor <- weights * hidden * hidden.transpose()`, computing the
/// large reconstruction `weights * hidden` into `tmp` first.
pub fn weights_divisor(
    weights: &Matrix2D,
    hidden: &Matrix2D,
    tmp: &mut Matrix2D,
    weights_divisor: &mut Matrix2D,
)
    requires
        weights.wf(),
        hidden.wf(),
        old(tmp).wf(),
        old(weights_divisor).wf(),
        weights.spec_ncols() == hidden.spec_nrows(),
        old(tmp).spec_nrows() == weights.spec_nrows(),
        old(tmp).spec_ncols() == hidden.spec_ncols(),
        old(weights_divisor).spec_nrows() == weights.spec_nrows(),
        old(weights_divisor).spec_ncols() == hidden.spec_nrows(),
    ensures
        final(tmp).wf(),
        final(tmp).spec_nrows() == old(tmp).spec_nrows(),
        final(tmp).spec_ncols() == old(tmp).spec_ncols(),
        final(weights_divisor).wf(),
        final(weights_divisor).spec_nrows() == old(weights_divisor).spec_nrows(),
        final(weights_divisor).spec_ncols() == old(weights_divisor).spec_ncols(),
        forall|i: int, j: int|
            0 <= i < weights.spec_nrows() && 0 <= j < hidden.spec_ncols() ==> final(tmp).at(i, j)
                == reconstruction_s(*weights, *hidden, i, j),
        forall|i: int, j: int|
            0 <= i < weights.spec_nrows() && 0 <= j < hidden.spec_nrows() ==> final(weights_divisor).at(i, j) == weights_divisor_s(*weights, *hidden, i, j),
{
    // tmp <- weights * hidden
    gemm(
        Fixed::one(),
        Transpose::NoTrans,
        weights,
        Transpose::NoTrans,
        hidden,
        Fixed::zero(),
        tmp,
    );
    proof {
        assert forall|i: int, j: int|
            0 <= i < weights.spec_nrows() && 0 <= j < hidden.spec_ncols() implies tmp.at(i, j)
            == reconstruction_s(*weights, *hidden, i, j) by {
            lemma_entry_bounds(*old(tmp), i, j);
            lemma_gemm_cell_unit(
                Transpose::NoTrans,
                *weights,
                Transpose::NoTrans,
                *hidden,
                old(tmp).at(i, j),
                i,
                j,
            );
        }
    }
    let ghost mid: Matrix2D = *tmp;
    // weights_divisor <- tmp * hidden.transpose()
    gemm(
        Fixed::one(),
        Transpose::NoTrans,
        tmp,
        Transpose::Trans,
        hidden,
        Fixed::zero(),
        weights_divisor,
    );
    proof {
        assert forall|i: int, j: int|
            0 <= i < weights.spec_nrows() && 0 <= j < hidden.spec_nrows() implies weights_divisor.at(
            i,
            j,
        ) == weights_divisor_s(*weights, *hidden, i, j) by {
            lemma_entry_bounds(*old(weights_divisor), i, j);
            lemma_gemm_cell_unit(
                Transpose::NoTrans,
                mid,
                Transpose::Trans,
                *hidden,
                old(weights_divisor).at(i, j),
                i,
                j,
            );
            assert(row_s(mid, i) =~= reconstruction_row_s(*weights, *hidden, i));
        }
    }
}

/// `hidden_multiplier <- weights.transpose() * samples`
pub fn hidden_multiplier(weights: &Matrix2D, samples: &Matrix2D, hidden_multiplier: &mut Matrix2D)
    requires
        weights.wf(),
        samples.wf(),
        old(hidden_multiplier).wf(),
        weights.spec_nrows() == samples.spec_nrows(),
        old(hidden_multiplier).spec_nrows() == weights.spec_ncols(),
        old(hidden_multiplier).spec_ncols() == samples.spec_ncols(),
    ensures
        final(hidden_multiplier).wf(),
        final(hidden_multiplier).spec_nrows() == old(hidden_multiplier).spec_nrows(),
        final(hidden_multiplier).spec_ncols() == old(hidden_multiplier).spec_ncols(),
        forall|i: int, j: int|
            0 <= i < weights.spec_ncols() && 0 <= j < samples.spec_ncols() ==> final(hidden_multiplier).at(i, j) == hidden_multiplier_s(*weights, *samples, i, j),
{
    gemm(
        Fixed::one(),
        Transpose::Trans,
        weights,
        Transpose::NoTrans,
        samples,
        Fixed::zero(),
        hidden_multiplier,
    );
    proof {
        assert forall|i: int, j: int|
            0 <= i < weights.spec_ncols() && 0 <= j < samples.spec_ncols() implies hidden_multiplier.at(
            i,
            j,
        ) == hidden_multiplier_s(*weights, *samples, i, j) by {
            lemma_entry_bounds(*old(hidden_multiplier), i, j);
            lemma_gemm_cell_unit(
                Transpose::Trans,
                *weights,
                Transpose::NoTrans,
                *samples,
                old(hidden_multiplier).at(i, j),
                i,
                j,
            );
        }
    }
}

/// `hidden_divisor <- weights.transpose() * weights * hidden`, computing the
/// small partial product `weights^T * weights` into `tmp` first.
///
/// The GEMM kernel reads its operands and writes a separate output, so the
/// same `weights` matrix may feed both operand slots without a copy.
pub fn hidden_divisor(
    weights: &Matrix2D,
    hidden: &Matrix2D,
    tmp: &mut Matrix2D,
    hidden_divisor: &mut Matrix2D,
)
    requires
        weights.wf(),
        hidden.wf(),
        old(tmp).wf(),
        old(hidden_divisor).wf(),
        weights.spec_ncols() == hidden.spec_nrows(),
        old(tmp).spec_nrows() == hidden.spec_nrows(),
        old(tmp).spec_ncols() == hidden.spec_nrows(),
        old(hidden_divisor).spec_nrows() == hidden.spec_nrows(),
        old(hidden_divisor).spec_ncols() == hidden.spec_ncols(),
    ensures
        final(tmp).wf(),
        final(tmp).spec_nrows() == old(tmp).spec_nrows(),
        final(tmp).spec_ncols() == old(tmp).spec_ncols(),
        final(hidden_divisor).wf(),
        final(hidden_divisor).spec_nrows() == old(hidden_divisor).spec_nrows(),
        final(hidden_divisor).spec_ncols() == old(hidden_divisor).spec_ncols(),
        forall|i: int, j: int|
            0 <= i < weights.spec_ncols() && 0 <= j < weights.spec_ncols() ==> final(tmp).at(i, j)
                == hidden_partial_s(*weights, i, j),
        forall|i: int, j: int|
            0 <= i < hidden.spec_nrows() && 0 <= j < hidden.spec_ncols() ==> final(hidden_divisor).at(i, j) == hidden_divisor_base_s(*weights, *hidden, i, j),
{
    // tmp <- weights.transpose() * weights
    gemm(
        Fixed::one(),
        Transpose::Trans,
        weights,
        Transpose::NoTrans,
        weights,
        Fixed::zero(),
        tmp,
    );
    proof {
        assert forall|i: int, j: int|
            0 <= i < weights.spec_ncols() && 0 <= j < weights.spec_ncols() implies tmp.at(i, j)
            == hidden_partial_s(*weights, i, j) by {
            lemma_entry_bounds(*old(tmp), i, j);
            lemma_gemm_cell_unit(
                Transpose::Trans,
                *weights,
                Transpose::NoTrans,
                *weights,
                old(tmp).at(i, j),
                i,
                j,
            );
        }
    }
    let ghost mid: Matrix2D = *tmp;
    // hidden_divisor <- tmp * hidden
    gemm(
        Fixed::one(),
        Transpose::NoTrans,
        tmp,
        Transpose::NoTrans,
        hidden,
        Fixed::zero(),
        hidden_divisor,
    );
    proof {
        assert forall|i: int, j: int|
            0 <= i < hidden.spec_nrows() && 0 <= j < hidden.spec_ncols() implies hidden_divisor.at(
            i,
            j,
        ) == hidden_divisor_base_s(*weights, *hidden, i, j) by {
            lemma_entry_bounds(*old(hidden_divisor), i, j);
            lemma_gemm_cell_unit(
                Transpose::NoTrans,
                mid,
                Transpose::NoTrans,
                *hidden,
                old(hidden_divisor).at(i, j),
                i,
                j,
            );
            assert(row_s(mid, i) =~= hidden_partial_row_s(*weights, i));
        }
    }
}

/// `input_output <- input_output + alpha * gamma * hidden`
pub fn add_orthogonalization(
    alpha: Fixed,
    gamma: &Matrix2D,
    hidden: &Matrix2D,
    input_output: &mut Matrix2D,
)
    requires
        gamma.wf(),
        hidden.wf(),
        old(input_output).wf(),
        gamma.spec_nrows() == hidden.spec_nrows(),
        gamma.spec_ncols() == hidden.spec_nrows(),
        old(input_output).spec_nrows() == hidden.spec_nrows(),
        old(input_output).spec_ncols() == hidden.spec_ncols(),
    ensures
        final(input_output).wf(),
        final(input_output).spec_nrows() == old(input_output).spec_nrows(),
        final(input_output).spec_ncols() == old(input_output).spec_ncols(),
        forall|i: int, j: int|
            0 <= i < hidden.spec_nrows() && 0 <= j < hidden.spec_ncols() ==> final(input_output).at(i, j) == fx_add(
                ortho_term_s(alpha@, *gamma, *hidden, i, j),
                old(input_output).at(i, j),
            ),
{
    gemm(
        alpha,
        Transpose::NoTrans,
        gamma,
        Transpose::NoTrans,
        hidden,
        Fixed::one(),
        input_output,
    );
    proof {
        assert forall|i: int, j: int|
            0 <= i < hidden.spec_nrows() && 0 <= j < hidden.spec_ncols() implies input_output.at(
            i,
            j,
        ) == fx_add(ortho_term_s(alpha@, *gamma, *hidden, i, j), old(input_output).at(i, j)) by {
            lemma_entry_bounds(*old(input_output), i, j);
            crate::fixed::lemma_view_bounds(alpha);
            lemma_gemm_cell_accumulate(
                alpha@,
                Transpose::NoTrans,
                *gamma,
                Transpose::NoTrans,
                *hidden,
                old(input_output).at(i, j),
                i,
                j,
            );
        }
    }
}

/// `result(i,j) <- result(i,j) * multiplier(i,j) / divisor(i,j)`
///
/// A divisor cell that is exactly zero — which legitimately happens when a
/// factor matrix contains a zero — is replaced by the smallest positive
/// representable value for that cell only, so the update never divides by
/// zero and never produces an error. A result cell that would become
/// exactly zero is lifted to the smallest positive value, so the factors
/// never lose a cell to the multiplicative update for good.
pub fn update_from_multiplier_and_divisor(
    multiplier: &Matrix2D,
    divisor: &Matrix2D,
    result: &mut Matrix2D,
)
    requires
        multiplier.wf(),
        divisor.wf(),
        old(result).wf(),
        multiplier.spec_nrows() == old(result).spec_nrows(),
        multiplier.spec_ncols() == old(result).spec_ncols(),
        divisor.spec_nrows() == old(result).spec_nrows(),
        divisor.spec_ncols() == old(result).spec_ncols(),
    ensures
        final(result).wf(),
        final(result).spec_nrows() == old(result).spec_nrows(),
        final(result).spec_ncols() == old(result).spec_ncols(),
        forall|i: int, j: int|
            0 <= i < old(result).spec_nrows() && 0 <= j < old(result).spec_ncols()
                ==> #[trigger] final(result).at(i, j) == fx_update_clamped(
                old(result).at(i, j),
                multiplier.at(i, j),
                divisor.at(i, j),
            ),
        forall|i: int, j: int|
            0 <= i < old(result).spec_nrows() && 0 <= j < old(result).spec_ncols() ==> 1
                <= #[trigger] final(result).at(i, j),
{
    let m: usize = result.nrows();
    let n: usize = result.ncols();
    let mut i: usize = 0;
    while i < m
        invariant
            multiplier.wf(),
            divisor.wf(),
            result.wf(),
            i <= m,
            m == old(result).spec_nrows(),
            n == old(result).spec_ncols(),
            result.spec_nrows() == m,
            result.spec_ncols() == n,
            multiplier.spec_nrows() == m,
            multiplier.spec_ncols() == n,
            divisor.spec_nrows() == m,
            divisor.spec_ncols() == n,
            forall|r: int, c: int|
                0 <= r < i && 0 <= c < n ==> result.at(r, c) == fx_update_clamped(
                    old(result).at(r, c),
                    multiplier.at(r, c),
                    divisor.at(r, c),
                ),
            forall|r: int, c: int|
                i <= r < m && 0 <= c < n ==> result.at(r, c) == old(result).at(r, c),
        decreases m - i,
    {
        let mut row: Vec<Fixed> = Vec::new();
        let mut j: usize = 0;
        while j < n
            invariant
                multiplier.wf(),
                divisor.wf(),
                result.wf(),
                i < m,
                j <= n,
                m == old(result).spec_nrows(),
                n == old(result).spec_ncols(),
                result.spec_nrows() == m,
                result.spec_ncols() == n,
                multiplier.spec_nrows() == m,
                multiplier.spec_ncols() == n,
                divisor.spec_nrows() == m,
                divisor.spec_ncols() == n,
                forall|r: int, c: int|
                    i <= r < m && 0 <= c < n ==> result.at(r, c) == old(result).at(r, c),
                row@.len() == j,
                forall|c: int|
                    0 <= c < j ==> (#[trigger] row@[c])@ == fx_update_clamped(
                        old(result).at(i as int, c),
                        multiplier.at(i as int, c),
                        divisor.at(i as int, c),
                    ),
            decreases n - j,
        {
            let mut div: Fixed = divisor.get(i, j);
            // if we have any zero anywhere in the factor matrices, the
            // divisor can be zero; we can't divide by zero, so we change
            // such cells to the minimum positive value.
            if div.is_zero() {
                div = Fixed::min_positive();
            }
            let mut cell: Fixed = result.get(i, j).mul(multiplier.get(i, j).div(div));
            // keep the factors strictly positive, so the multiplicative
            // update can still move this cell in later iterations.
            if cell.is_zero() {
                cell = Fixed::min_positive();
            }
            row.push(cell);
            j += 1;
        }
        result.set_row(i, row);
        i += 1;
    }
    proof {
        assert forall|i: int, j: int|
            0 <= i < old(result).spec_nrows() && 0 <= j < old(result).spec_ncols() implies 1
            <= #[trigger] result.at(i, j) by {
            lemma_entry_bounds(*old(result), i, j);
            lemma_entry_bounds(*multiplier, i, j);
            lemma_entry_bounds(*divisor, i, j);
            crate::fixed::lemma_fx_update_clamped_pos(
                old(result).at(i, j),
                multiplier.at(i, j),
                divisor.at(i, j),
            );
        }
    }
}

/// Cell `(i, j)` of the hidden divisor of one [`NMFBlas::iterate`] step:
/// `(weights^T * weights) * hidden`, plus `alpha * gamma * hidden` when an
/// orthogonality strength is supplied.
pub open spec fn nmf_hidden_divisor_s(
    weights: Matrix2D,
    hidden: Matrix2D,
    gamma: Matrix2D,
    alpha: Option<Fixed>,
    i: int,
    j: int,
) -> int {
    match alpha {
        Option::None => hidden_divisor_base_s(weights, hidden, i, j),
        Option::Some(a) => fx_add(
            ortho_term_s(a@, gamma, hidden, i, j),
            hidden_divisor_base_s(weights, hidden, i, j),
        ),
    }
}

/// The solver state: the two factor matrices, the scratch buffers that hold
/// temporary results during an iteration (kept in this struct to prevent
/// unnecessary memory allocations), and the gamma matrix.
pub struct NMFBlas {
    pub hidden: Matrix2D,
    pub weights: Matrix2D,
    pub weights_multiplier: Matrix2D,
    pub weights_divisor: Matrix2D,
    pub weights_divisor_reconstruction: Matrix2D,
    pub hidden_multiplier: Matrix2D,
    pub hidden_divisor: Matrix2D,
    pub hidden_divisor_partial: Matrix2D,
    pub gamma: Matrix2D,
}

impl NMFBlas {
    /// The number of hidden variables.
    pub open spec fn spec_nhidden(&self) -> nat {
        self.hidden.spec_nrows()
    }

    /// The number of observed variables.
    pub open spec fn spec_nobserved(&self) -> nat {
        self.hidden.spec_ncols()
    }

    /// The number of data points.
    pub open spec fn spec_nsamples(&self) -> nat {
        self.weights.spec_nrows()
    }

    /// The structural invariant: all matrices are well-formed, every buffer
    /// has the shape derived from `(nhidden, nobserved, nsamples)`, and the
    /// gamma matrix has zeros on its diagonal and ones off it.
    pub open spec fn wf(&self) -> bool {
        &&& self.hidden.wf()
        &&& self.weights.wf()
        &&& self.weights_multiplier.wf()
        &&& self.weights_divisor.wf()
        &&& self.weights_divisor_reconstruction.wf()
        &&& self.hidden_multiplier.wf()
        &&& self.hidden_divisor.wf()
        &&& self.hidden_divisor_partial.wf()
        &&& self.gamma.wf()
        &&& self.weights.spec_ncols() == self.spec_nhidden()
        &&& self.weights_multiplier.spec_nrows() == self.spec_nsamples()
        &&& self.weights_multiplier.spec_ncols() == self.spec_nhidden()
        &&& self.weights_divisor.spec_nrows() == self.spec_nsamples()
        &&& self.weights_divisor.spec_ncols() == self.spec_nhidden()
        &&& self.weights_divisor_reconstruction.spec_nrows() == self.spec_nsamples()
        &&& self.weights_divisor_reconstruction.spec_ncols() == self.spec_nobserved()
        &&& self.hidden_multiplier.spec_nrows() == self.spec_nhidden()
        &&& self.hidden_multiplier.spec_ncols() == self.spec_nobserved()
        &&& self.hidden_divisor.spec_nrows() == self.spec_nhidden()
        &&& self.hidden_divisor.spec_ncols() == self.spec_nobserved()
        &&& self.hidden_divisor_partial.spec_nrows() == self.spec_nhidden()
        &&& self.hidden_divisor_partial.spec_ncols() == self.spec_nhidden()
        &&& self.gamma.spec_nrows() == self.spec_nhidden()
        &&& self.gamma.spec_ncols() == self.spec_nhidden()
        &&& forall|i: int, j: int|
            0 <= i < self.spec_nhidden() && 0 <= j < self.spec_nhidden()
                ==> #[trigger] self.gamma.at(i, j) == gamma_cell_s(i, j)
    }

    /// A solver whose factor matrices are filled with independent random
    /// draws from `[0, 1]`.
    pub fn new_random01<R: rand::Rng>(
        nhidden: usize,
        nobserved: usize,
        nsamples: usize,
        rng: &mut R,
    ) -> (r: NMFBlas)
        ensures
            r.wf(),
            r.spec_nhidden() == nhidden,
            r.spec_nobserved() == nobserved,
            r.spec_nsamples() == nsamples,
            forall|i: int, j: int|
                0 <= i < nhidden && 0 <= j < nobserved ==> 0 <= #[trigger] r.hidden.at(i, j)
                    <= SCALE,
            forall|i: int, j: int|
                0 <= i < nsamples && 0 <= j < nhidden ==> 0 <= #[trigger] r.weights.at(i, j)
                    <= SCALE,
    {
        let hidden = crate::helpers::random::random01_matrix(nhidden, nobserved, rng);
        let weights = crate::helpers::random::random01_matrix(nsamples, nhidden, rng);
        Self::new(hidden, weights)
    }

    /// Every scratch buffer of the solver holds zero at every position.
    pub open spec fn scratch_zeroed(&self) -> bool {
        &&& forall|i: int, j: int|
            0 <= i < self.spec_nsamples() && 0 <= j < self.spec_nhidden()
                ==> #[trigger] self.weights_multiplier.at(i, j) == 0
                && #[trigger] self.weights_divisor.at(i, j) == 0
        &&& forall|i: int, j: int|
            0 <= i < self.spec_nsamples() && 0 <= j < self.spec_nobserved()
                ==> #[trigger] self.weights_divisor_reconstruction.at(i, j) == 0
        &&& forall|i: int, j: int|
            0 <= i < self.spec_nhidden() && 0 <= j < self.spec_nobserved()
                ==> #[trigger] self.hidden_multiplier.at(i, j) == 0 && #[trigger] self.hidden_divisor.at(
                i,
                j,
            ) == 0
        &&& forall|i: int, j: int|
            0 <= i < self.spec_nhidden() && 0 <= j < self.spec_nhidden()
                ==> #[trigger] self.hidden_divisor_partial.at(i, j) == 0
    }

    /// A solver built from externally prepared factor matrices; the row
    /// count of `hidden` must be equal to the column count of `weights`.
    /// The scratch buffers are sized here, once, and start all-zero.
    pub fn new(hidden: Matrix2D, weights: Matrix2D) -> (r: NMFBlas)
        requires
            hidden.wf(),
            weights.wf(),
            weights.spec_ncols() == hidden.spec_nrows(),
        ensures
            r.wf(),
            r.hidden == hidden,
            r.weights == weights,
            r.scratch_zeroed(),
    {
        let hidden_shape = hidden.shape();
        let nhidden = hidden_shape.0;
        let weights_shape = weights.shape();
        let nobserved = hidden_shape.1;
        let nsamples = weights_shape.0;

        NMFBlas {
            hidden,
            weights,
            weights_multiplier: Matrix2D::zeros(nsamples, nhidden),
            weights_divisor: Matrix2D::zeros(nsamples, nhidden),
            weights_divisor_reconstruction: Matrix2D::zeros(nsamples, nobserved),
            hidden_multiplier: Matrix2D::zeros(nhidden, nobserved),
            hidden_divisor: Matrix2D::zeros(nhidden, nobserved),
            hidden_divisor_partial: Matrix2D::zeros(nhidden, nhidden),
            gamma: gamma(nhidden),
        }
    }

    /// returns the number of observed variables
    #[inline]
    pub fn nobserved(&self) -> (r: usize)
        ensures
            r == self.spec_nobserved(),
    {
        self.hidden.ncols()
    }

    /// returns the number of hidden variables
    #[inline]
    pub fn nhidden(&self) -> (r: usize)
        ensures
            r == self.spec_nhidden(),
    {
        self.hidden.nrows()
    }

    /// returns the shape of the hidden matrix
    pub fn hidden_shape(&self) -> (r: (usize, usize))
        ensures
            r.0 == self.spec_nhidden(),
            r.1 == self.spec_nobserved(),
    {
        self.hidden.shape()
    }

    /// returns the shape of the weights matrix
    pub fn weights_shape(&self) -> (r: (usize, usize))
        requires
            self.wf(),
        ensures
            r.0 == self.spec_nsamples(),
            r.1 == self.spec_nhidden(),
    {
        self.weights.shape()
    }

    /// returns the number of data points
    #[inline]
    pub fn nsamples(&self) -> (r: usize)
        ensures
            r == self.spec_nsamples(),
    {
        self.weights.nrows()
    }

    /// returns the shape a sample batch must have
    pub fn samples_shape(&self) -> (r: (usize, usize))
        ensures
            r.0 == self.spec_nsamples(),
            r.1 == self.spec_nobserved(),
    {
        (self.nsamples(), self.nobserved())
    }

    /// Does one iteration step: refreshes all scratch buffers from the
    /// current factors and `samples`, then rewrites `weights` and `hidden`
    /// by the multiplicative update, after which no factor entry is zero.
    /// `weights` and `hidden` get better and better with each iteration. `samples` contains one observed variable
    /// per column, one sample per row; its shape must match
    /// `samples_shape`. With `orthogonal_with_alpha`, the hidden divisor
    /// additionally receives the orthogonality pressure `alpha * gamma *
    /// hidden`.
    pub fn iterate(&mut self, samples: &Matrix2D, orthogonal_with_alpha: Option<Fixed>)
        requires
            old(self).wf(),
            samples.wf(),
            samples.spec_nrows() == old(self).spec_nsamples(),
            samples.spec_ncols() == old(self).spec_nobserved(),
        ensures
            final(self).wf(),
            final(self).spec_nhidden() == old(self).spec_nhidden(),
            final(self).spec_nobserved() == old(self).spec_nobserved(),
            final(self).spec_nsamples() == old(self).spec_nsamples(),
            final(self).gamma == old(self).gamma,
            forall|i: int, j: int|
                0 <= i < old(self).spec_nsamples() && 0 <= j < old(self).spec_nhidden()
                    ==> #[trigger] final(self).weights_multiplier.at(i, j)
                    == weights_multiplier_s(*samples, old(self).hidden, i, j),
            forall|i: int, j: int|
                0 <= i < old(self).spec_nsamples() && 0 <= j < old(self).spec_nhidden()
                    ==> #[trigger] final(self).weights_divisor.at(i, j) == weights_divisor_s(
                    old(self).weights,
                    old(self).hidden,
                    i,
                    j,
                ),
            forall|i: int, j: int|
                0 <= i < old(self).spec_nsamples() && 0 <= j < old(self).spec_nobserved()
                    ==> #[trigger] final(self).weights_divisor_reconstruction.at(i, j)
                    == reconstruction_s(old(self).weights, old(self).hidden, i, j),
            forall|i: int, j: int|
                0 <= i < old(self).spec_nhidden() && 0 <= j < old(self).spec_nobserved()
                    ==> #[trigger] final(self).hidden_multiplier.at(i, j) == hidden_multiplier_s(
                    old(self).weights,
                    *samples,
                    i,
                    j,
                ),
            forall|i: int, j: int|
                0 <= i < old(self).spec_nhidden() && 0 <= j < old(self).spec_nhidden()
                    ==> #[trigger] final(self).hidden_divisor_partial.at(i, j) == hidden_partial_s(
                    old(self).weights,
                    i,
                    j,
                ),
            forall|i: int, j: int|
                0 <= i < old(self).spec_nhidden() && 0 <= j < old(self).spec_nobserved()
                    ==> #[trigger] final(self).hidden_divisor.at(i, j) == nmf_hidden_divisor_s(
                    old(self).weights,
                    old(self).hidden,
                    old(self).gamma,
                    orthogonal_with_alpha,
                    i,
                    j,
                ),
            forall|i: int, j: int|
                0 <= i < old(self).spec_nsamples() && 0 <= j < old(self).spec_nhidden()
                    ==> #[trigger] final(self).weights.at(i, j) == fx_update_clamped(
                    old(self).weights.at(i, j),
                    weights_multiplier_s(*samples, old(self).hidden, i, j),
                    weights_divisor_s(old(self).weights, old(self).hidden, i, j),
                ),
            forall|i: int, j: int|
                0 <= i < old(self).spec_nhidden() && 0 <= j < old(self).spec_nobserved()
                    ==> #[trigger] final(self).hidden.at(i, j) == fx_update_clamped(
                    old(self).hidden.at(i, j),
                    hidden_multiplier_s(old(self).weights, *samples, i, j),
                    nmf_hidden_divisor_s(
                        old(self).weights,
                        old(self).hidden,
                        old(self).gamma,
                        orthogonal_with_alpha,
                        i,
                        j,
                    ),
                ),
            forall|i: int, j: int|
                0 <= i < old(self).spec_nsamples() && 0 <= j < old(self).spec_nhidden() ==> 1
                    <= #[trigger] final(self).weights.at(i, j),
            forall|i: int, j: int|
                0 <= i < old(self).spec_nhidden() && 0 <= j < old(self).spec_nobserved() ==> 1
                    <= #[trigger] final(self).hidden.at(i, j),
    {
        // weights_multiplier <- samples * hidden.transpose()
        weights_multiplier(samples, &self.hidden, &mut self.weights_multiplier);

        // weights_divisor <- weights * hidden * hidden.transpose()
        weights_divisor(
            &self.weights,
            &self.hidden,
            &mut self.weights_divisor_reconstruction,
            &mut self.weights_divisor,
        );

        // hidden_multiplier <- weights.transpose() * samples
        hidden_multiplier(&self.weights, samples, &mut self.hidden_multiplier);

        // hidden_divisor <- weights.transpose() * weights * hidden
        hidden_divisor(
            &self.weights,
            &self.hidden,
            &mut self.hidden_divisor_partial,
            &mut self.hidden_divisor,
        );

        if let Option::Some(alpha) = orthogonal_with_alpha {
            // hidden_divisor <- hidden_divisor + alpha * gamma * hidden
            add_orthogonalization(alpha, &self.gamma, &self.hidden, &mut self.hidden_divisor);
        }

        // weights(i,j) <-
        //   weights(i,j) * weights_multiplier(i,j) / weights_divisor(i,j)
        update_from_multiplier_and_divisor(
            &self.weights_multiplier,
            &self.weights_divisor,
            &mut self.weights,
        );

        // hidden(i,j) <-
        //   hidden(i,j) * hidden_multiplier(i,j) / hidden_divisor(i,j)
        update_from_multiplier_and_divisor(
            &self.hidden_multiplier,
            &self.hidden_divisor,
            &mut self.hidden,
        );
    }
}

/// Gamma construction is symmetric: for every size and every off-diagonal
/// value — one here, the strength `alpha` in the plain solver — the gamma
/// matrix equals its own transpose entrywise.
pub proof fn lemma_gamma_symmetric(g: Matrix2D, off: int, i: int, j: int)
    requires
        g.spec_nrows() == g.spec_ncols(),
        forall|a: int, b: int|
            0 <= a < g.spec_nrows() && 0 <= b < g.spec_ncols() ==> #[trigger] g.at(a, b) == (
            if a == b {
                0
            } else {
                off
            }),
        0 <= i < g.spec_nrows(),
        0 <= j < g.spec_nrows(),
    ensures
        g.at(i, j) == g.at(j, i),
{
}

/// A matrix times its own transpose is symmetric, so the partial product
/// `weights^T * weights` held in the solvers' scratch buffer equals its own
/// transpose entrywise.
pub proof fn lemma_hidden_partial_symmetric(weights: Matrix2D, i: int, j: int)
    requires
        weights.wf(),
        0 <= i < weights.spec_ncols(),
        0 <= j < weights.spec_ncols(),
    ensures
        hidden_partial_s(weights, i, j) == hidden_partial_s(weights, j, i),
{
    crate::gemm::lemma_dot_prefix_comm(
        col_s(weights, i),
        col_s(weights, j),
        col_s(weights, i).len() as int,
    );
}

} // verus!
