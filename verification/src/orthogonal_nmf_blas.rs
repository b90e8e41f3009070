//! The orthogonal NMF solver built on the GEMM kernel.
//!
//! [`OrthogonalNMFBlas`] carries the factor matrices and scratch buffers of
//! [`NMFBlas`], but its hidden divisor always receives the orthogonality
//! pressure `alpha * gamma * hidden`, computed first and accumulated with
//! the partial product `weights^T * weights * hidden`.

use vstd::prelude::*;

use crate::fixed::{fx_add, fx_update_clamped, Fixed, SCALE};
use crate::gemm::{
    col_s, gemm, lemma_gemm_cell_accumulate, lemma_gemm_cell_scaled, lemma_gemm_cell_unit,
    lemma_op_dot_bounds, row_s, Transpose,
};
use crate::matrix::{lemma_entry_bounds, Matrix2D};
use crate::nmf_blas::{
    gamma_cell_s, hidden_divisor_base_s, hidden_multiplier_s, hidden_partial_row_s,
    hidden_partial_s, ortho_term_s, reconstruction_row_s, reconstruction_s, weights_divisor_s,
    weights_multiplier_s,
};

verus! {

/// Cell `(i, j)` of the hidden divisor of one [`OrthogonalNMFBlas::iterate`]
/// step: `weights^T * weights * hidden + alpha * gamma * hidden`, with the
/// orthogonality term computed first and the partial product accumulated
/// onto it.
pub open spec fn ortho_hidden_divisor_s(
    weights: Matrix2D,
    hidden: Matrix2D,
    gamma: Matrix2D,
    alpha: int,
    i: int,
    j: int,
) -> int {
    fx_add(hidden_divisor_base_s(weights, hidden, i, j), ortho_term_s(alpha, gamma, hidden, i, j))
}

/// How the solver state after one [`OrthogonalNMFBlas::iterate`] step
/// relates to the state before it: the dimensions and the gamma matrix are
/// kept, and every entry of the two factor matrices is rewritten by the
/// multiplicative update built from the step's four product quantities.
pub open spec fn iterate_step_s(
    pre: OrthogonalNMFBlas,
    post: OrthogonalNMFBlas,
    samples: Matrix2D,
    alpha: Fixed,
) -> bool {
    &&& post.wf()
    &&& post.spec_nhidden() == pre.spec_nhidden()
    &&& post.spec_nobserved() == pre.spec_nobserved()
    &&& post.spec_nsamples() == pre.spec_nsamples()
    &&& post.gamma == pre.gamma
    &&& forall|i: int, j: int|
        0 <= i < pre.spec_nsamples() && 0 <= j < pre.spec_nhidden()
            ==> #[trigger] post.weights_multiplier.at(i, j) == weights_multiplier_s(
            samples,
            pre.hidden,
            i,
            j,
        )
    &&& forall|i: int, j: int|
        0 <= i < pre.spec_nsamples() && 0 <= j < pre.spec_nhidden()
            ==> #[trigger] post.weights_divisor.at(i, j) == weights_divisor_s(
            pre.weights,
            pre.hidden,
            i,
            j,
        )
    &&& forall|i: int, j: int|
        0 <= i < pre.spec_nhidden() && 0 <= j < pre.spec_nobserved()
            ==> #[trigger] post.hidden_multiplier.at(i, j) == hidden_multiplier_s(
            pre.weights,
            samples,
            i,
            j,
        )
    &&& forall|i: int, j: int|
        0 <= i < pre.spec_nhidden() && 0 <= j < pre.spec_nobserved()
            ==> #[trigger] post.hidden_divisor.at(i, j) == ortho_hidden_divisor_s(
            pre.weights,
            pre.hidden,
            pre.gamma,
            alpha@,
            i,
            j,
        )
    &&& forall|i: int, j: int|
        0 <= i < pre.spec_nsamples() && 0 <= j < pre.spec_nobserved()
            ==> #[trigger] post.weights_divisor_reconstruction.at(i, j) == reconstruction_s(
            pre.weights,
            pre.hidden,
            i,
            j,
        )
    &&& forall|i: int, j: int|
        0 <= i < pre.spec_nhidden() && 0 <= j < pre.spec_nhidden()
            ==> #[trigger] post.hidden_divisor_partial.at(i, j) == hidden_partial_s(
            pre.weights,
            i,
            j,
        )
    &&& forall|i: int, j: int|
        0 <= i < pre.spec_nsamples() && 0 <= j < pre.spec_nhidden()
            ==> #[trigger] post.weights.at(i, j) == fx_update_clamped(
            pre.weights.at(i, j),
            weights_multiplier_s(samples, pre.hidden, i, j),
            weights_divisor_s(pre.weights, pre.hidden, i, j),
        )
    &&& forall|i: int, j: int|
        0 <= i < pre.spec_nhidden() && 0 <= j < pre.spec_nobserved()
            ==> #[trigger] post.hidden.at(i, j) == fx_update_clamped(
            pre.hidden.at(i, j),
            hidden_multiplier_s(pre.weights, samples, i, j),
            ortho_hidden_divisor_s(pre.weights, pre.hidden, pre.gamma, alpha@, i, j),
        )
    &&& forall|i: int, j: int|
        0 <= i < pre.spec_nsamples() && 0 <= j < pre.spec_nhidden() ==> 1
            <= #[trigger] post.weights.at(i, j)
    &&& forall|i: int, j: int|
        0 <= i < pre.spec_nhidden() && 0 <= j < pre.spec_nobserved() ==> 1 <= #[trigger] post.hidden.at(
            i,
            j,
        )
}

/// Types that report their dimensions as a tuple.
pub trait ShapeAsTuple<T> {
    fn shape_as_tuple(&self) -> T;
}

/// The orthogonal solver state: the two factor matrices, the scratch
/// buffers that hold temporary results during an iteration (kept in this
/// struct to prevent unnecessary memory allocations), and the gamma matrix.
pub struct OrthogonalNMFBlas {
    pub hidden: Matrix2D,
    pub weights: Matrix2D,
    pub weights_multiplier: Matrix2D,
    pub weights_divisor: Matrix2D,
    pub weights_divisor_reconstruction: Matrix2D,
    pub hidden_multiplier: Matrix2D,
    pub hidden_divisor: Matrix2D,
    pub hidden_divisor_partial: Matrix2D,
    pub gamma: Matrix2D,
}

impl ShapeAsTuple<(usize, usize)> for Matrix2D {
    #[inline]
    fn shape_as_tuple(&self) -> (usize, usize) {
        self.shape()
    }
}

impl OrthogonalNMFBlas {
    /// The number of hidden variables.
    pub open spec fn spec_nhidden(&self) -> nat {
        self.hidden.spec_nrows()
    }

    /// The number of observed variables.
    pub open spec fn spec_nobserved(&self) -> nat {
        self.hidden.spec_ncols()
    }

    /// The number of data points.
    pub open spec fn spec_nsamples(&self) -> nat {
        self.weights.spec_nrows()
    }

    /// The structural invariant: all matrices are well-formed, every buffer
    /// has the shape derived from `(nhidden, nobserved, nsamples)`, and the
    /// gamma matrix has zeros on its diagonal and ones off it.
    pub open spec fn wf(&self) -> bool {
        &&& self.hidden.wf()
        &&& self.weights.wf()
        &&& self.weights_multiplier.wf()
        &&& self.weights_divisor.wf()
        &&& self.weights_divisor_reconstruction.wf()
        &&& self.hidden_multiplier.wf()
        &&& self.hidden_divisor.wf()
        &&& self.hidden_divisor_partial.wf()
        &&& self.gamma.wf()
        &&& self.weights.spec_ncols() == self.spec_nhidden()
        &&& self.weights_multiplier.spec_nrows() == self.spec_nsamples()
        &&& self.weights_multiplier.spec_ncols() == self.spec_nhidden()
        &&& self.weights_divisor.spec_nrows() == self.spec_nsamples()
        &&& self.weights_divisor.spec_ncols() == self.spec_nhidden()
        &&& self.weights_divisor_reconstruction.spec_nrows() == self.spec_nsamples()
        &&& self.weights_divisor_reconstruction.spec_ncols() == self.spec_nobserved()
        &&& self.hidden_multiplier.spec_nrows() == self.spec_nhidden()
        &&& self.hidden_multiplier.spec_ncols() == self.spec_nobserved()
        &&& self.hidden_divisor.spec_nrows() == self.spec_nhidden()
        &&& self.hidden_divisor.spec_ncols() == self.spec_nobserved()
        &&& self.hidden_divisor_partial.spec_nrows() == self.spec_nhidden()
        &&& self.hidden_divisor_partial.spec_ncols() == self.spec_nhidden()
        &&& self.gamma.spec_nrows() == self.spec_nhidden()
        &&& self.gamma.spec_ncols() == self.spec_nhidden()
        &&& forall|i: int, j: int|
            0 <= i < self.spec_nhidden() && 0 <= j < self.spec_nhidden()
                ==> #[trigger] self.gamma.at(i, j) == gamma_cell_s(i, j)
    }

    /// A solver whose factor matrices are filled with independent random
    /// draws from `[0, 1]`.
    pub fn new_random01<R: rand::Rng>(
        nhidden: usize,
        nobserved: usize,
        nsamples: usize,
        rng: &mut R,
    ) -> (r: OrthogonalNMFBlas)
        ensures
            r.wf(),
            r.spec_nhidden() == nhidden,
            r.spec_nobserved() == nobserved,
            r.spec_nsamples() == nsamples,
            forall|i: int, j: int|
                0 <= i < nhidden && 0 <= j < nobserved ==> 0 <= #[trigger] r.hidden.at(i, j)
                    <= SCALE,
            forall|i: int, j: int|
                0 <= i < nsamples && 0 <= j < nhidden ==> 0 <= #[trigger] r.weights.at(i, j)
                    <= SCALE,
    {
        let hidden = crate::helpers::random::random01_matrix(nhidden, nobserved, rng);
        let weights = crate::helpers::random::random01_matrix(nsamples, nhidden, rng);
        Self::new(hidden, weights)
    }

    /// Every scratch buffer of the solver holds zero at every position.
    pub open spec fn scratch_zeroed(&self) -> bool {
        &&& forall|i: int, j: int|
            0 <= i < self.spec_nsamples() && 0 <= j < self.spec_nhidden()
                ==> #[trigger] self.weights_multiplier.at(i, j) == 0
                && #[trigger] self.weights_divisor.at(i, j) == 0
        &&& forall|i: int, j: int|
            0 <= i < self.spec_nsamples() && 0 <= j < self.spec_nobserved()
                ==> #[trigger] self.weights_divisor_reconstruction.at(i, j) == 0
        &&& forall|i: int, j: int|
            0 <= i < self.spec_nhidden() && 0 <= j < self.spec_nobserved()
                ==> #[trigger] self.hidden_multiplier.at(i, j) == 0 && #[trigger] self.hidden_divisor.at(
                i,
                j,
            ) == 0
        &&& forall|i: int, j: int|
            0 <= i < self.spec_nhidden() && 0 <= j < self.spec_nhidden()
                ==> #[trigger] self.hidden_divisor_partial.at(i, j) == 0
    }

    /// A solver built from externally prepared factor matrices; the row
    /// count of `hidden` must be equal to the column count of `weights`.
    /// The scratch buffers are sized here, once, and start all-zero.
    pub fn new(hidden: Matrix2D, weights: Matrix2D) -> (r: OrthogonalNMFBlas)
        requires
            hidden.wf(),
            weights.wf(),
            weights.spec_ncols() == hidden.spec_nrows(),
        ensures
            r.wf(),
            r.hidden == hidden,
            r.weights == weights,
            r.scratch_zeroed(),
    {
        let hidden_shape = hidden.shape();
        let nhidden = hidden_shape.0;
        let weights_shape = weights.shape();
        let nobserved = hidden_shape.1;
        let nsamples = weights_shape.0;

        OrthogonalNMFBlas {
            hidden,
            weights,
            weights_multiplier: Matrix2D::zeros(nsamples, nhidden),
            weights_divisor: Matrix2D::zeros(nsamples, nhidden),
            weights_divisor_reconstruction: Matrix2D::zeros(nsamples, nobserved),
            hidden_multiplier: Matrix2D::zeros(nhidden, nobserved),
            hidden_divisor: Matrix2D::zeros(nhidden, nobserved),
            hidden_divisor_partial: Matrix2D::zeros(nhidden, nhidden),
            gamma: Self::gamma(nhidden),
        }
    }

    /// returns the number of observed variables
    #[inline]
    pub fn nobserved(&self) -> (r: usize)
        ensures
            r == self.spec_nobserved(),
    {
        self.hidden.ncols()
    }

    /// returns the number of hidden variables
    #[inline]
    pub fn nhidden(&self) -> (r: usize)
        ensures
            r == self.spec_nhidden(),
    {
        self.hidden.nrows()
    }

    /// returns the number of data points
    #[inline]
    pub fn nsamples(&self) -> (r: usize)
        ensures
            r == self.spec_nsamples(),
    {
        self.weights.nrows()
    }

    /// returns the shape a sample batch must have
    pub fn samples_shape(&self) -> (r: (usize, usize))
        ensures
            r.0 == self.spec_nsamples(),
            r.1 == self.spec_nobserved(),
    {
        (self.nsamples(), self.nobserved())
    }

    /// gamma is a symmetric matrix with diagonal elements equal to zero
    /// and other elements equal to one
    pub fn gamma(size: usize) -> (g: Matrix2D)
        ensures
            g.wf(),
            g.spec_nrows() == size,
            g.spec_ncols() == size,
            forall|i: int, j: int|
                0 <= i < size && 0 <= j < size ==> #[trigger] g.at(i, j) == gamma_cell_s(i, j),
    {
        crate::nmf_blas::gamma(size)
    }

    /// `weights_multiplier <- samples * hidden.transpose()`
    #[inline]
    pub fn update_weights_multiplier(&mut self, samples: &Matrix2D)
        requires
            old(self).wf(),
            samples.wf(),
            samples.spec_nrows() == old(self).spec_nsamples(),
            samples.spec_ncols() == old(self).spec_nobserved(),
        ensures
            final(self).wf(),
            *final(self) == (OrthogonalNMFBlas {
                weights_multiplier: final(self).weights_multiplier,
                ..*old(self)
            }),
            forall|i: int, j: int|
                0 <= i < old(self).spec_nsamples() && 0 <= j < old(self).spec_nhidden()
                    ==> #[trigger] final(self).weights_multiplier.at(i, j) == weights_multiplier_s(
                    *samples,
                    old(self).hidden,
                    i,
                    j,
                ),
    {
        crate::nmf_blas::weights_multiplier(samples, &self.hidden, &mut self.weights_multiplier);
    }

    /// `weights_divisor <- weights * hidden * hidden.transpose()`
    #[inline]
    pub fn update_weights_divisor(&mut self)
        requires
            old(self).wf(),
        ensures
            final(self).wf(),
            *final(self) == (OrthogonalNMFBlas {
                weights_divisor: final(self).weights_divisor,
                weights_divisor_reconstruction: final(self).weights_divisor_reconstruction,
                ..*old(self)
            }),
            forall|i: int, j: int|
                0 <= i < old(self).spec_nsamples() && 0 <= j < old(self).spec_nhidden()
                    ==> #[trigger] final(self).weights_divisor.at(i, j) == weights_divisor_s(
                    old(self).weights,
                    old(self).hidden,
                    i,
                    j,
                ),
            forall|i: int, j: int|
                0 <= i < old(self).spec_nsamples() && 0 <= j < old(self).spec_nobserved()
                    ==> #[trigger] final(self).weights_divisor_reconstruction.at(i, j)
                    == reconstruction_s(old(self).weights, old(self).hidden, i, j),
    {
        crate::nmf_blas::weights_divisor(
            &self.weights,
            &self.hidden,
            &mut self.weights_divisor_reconstruction,
            &mut self.weights_divisor,
        );
    }

    /// `hidden_multiplier <- weights.transpose() * samples`
    #[inline]
    pub fn update_hidden_multiplier(&mut self, samples: &Matrix2D)
        requires
            old(self).wf(),
            samples.wf(),
            samples.spec_nrows() == old(self).spec_nsamples(),
            samples.spec_ncols() == old(self).spec_nobserved(),
        ensures
            final(self).wf(),
            *final(self) == (OrthogonalNMFBlas {
                hidden_multiplier: final(self).hidden_multiplier,
                ..*old(self)
            }),
            forall|i: int, j: int|
                0 <= i < old(self).spec_nhidden() && 0 <= j < old(self).spec_nobserved()
                    ==> #[trigger] final(self).hidden_multiplier.at(i, j) == hidden_multiplier_s(
                    old(self).weights,
                    *samples,
                    i,
                    j,
                ),
    {
        crate::nmf_blas::hidden_multiplier(&self.weights, samples, &mut self.hidden_multiplier);
    }

    /// `hidden_divisor <- weights.transpose() * weights * hidden + alpha * gamma * hidden`
    ///
    /// The orthogonality pressure `alpha * gamma * hidden` is computed
    /// first, then the partial product `(weights^T * weights) * hidden` is
    /// accumulated onto it. The GEMM kernel reads its operands and writes a
    /// separate output, so `weights` may feed both operand slots of the
    /// partial product without a defensive copy.
    #[inline]
    pub fn update_hidden_divisor(&mut self, alpha: Fixed)
        requires
            old(self).wf(),
        ensures
            final(self).wf(),
            *final(self) == (OrthogonalNMFBlas {
                hidden_divisor: final(self).hidden_divisor,
                hidden_divisor_partial: final(self).hidden_divisor_partial,
                ..*old(self)
            }),
            forall|i: int, j: int|
                0 <= i < old(self).spec_nhidden() && 0 <= j < old(self).spec_nobserved()
                    ==> #[trigger] final(self).hidden_divisor.at(i, j) == ortho_hidden_divisor_s(
                    old(self).weights,
                    old(self).hidden,
                    old(self).gamma,
                    alpha@,
                    i,
                    j,
                ),
            forall|i: int, j: int|
                0 <= i < old(self).spec_nhidden() && 0 <= j < old(self).spec_nhidden()
                    ==> #[trigger] final(self).hidden_divisor_partial.at(i, j) == hidden_partial_s(
                    old(self).weights,
                    i,
                    j,
                ),
    {
        // partial <- weights.transpose() * weights
        gemm(
            Fixed::one(),
            Transpose::Trans,
            &self.weights,
            Transpose::NoTrans,
            &self.weights,
            Fixed::zero(),
            &mut self.hidden_divisor_partial,
        );
        proof {
            assert forall|i: int, j: int|
                0 <= i < old(self).spec_nhidden() && 0 <= j
                    < old(self).spec_nhidden() implies #[trigger] self.hidden_divisor_partial.at(
                i,
                j,
            ) == hidden_partial_s(old(self).weights, i, j) by {
                lemma_entry_bounds(old(self).hidden_divisor_partial, i, j);
                lemma_gemm_cell_unit(
                    Transpose::Trans,
                    old(self).weights,
                    Transpose::NoTrans,
                    old(self).weights,
                    old(self).hidden_divisor_partial.at(i, j),
                    i,
                    j,
                );
            }
        }
        // divisor <- alpha * gamma * hidden
        gemm(
            alpha,
            Transpose::NoTrans,
            &self.gamma,
            Transpose::NoTrans,
            &self.hidden,
            Fixed::zero(),
            &mut self.hidden_divisor,
        );
        proof {
            assert forall|i: int, j: int|
                0 <= i < old(self).spec_nhidden() && 0 <= j
                    < old(self).spec_nobserved() implies #[trigger] self.hidden_divisor.at(i, j)
                == ortho_term_s(alpha@, old(self).gamma, old(self).hidden, i, j) by {
                lemma_entry_bounds(old(self).hidden_divisor, i, j);
                crate::fixed::lemma_view_bounds(alpha);
                lemma_gemm_cell_scaled(
                    alpha@,
                    Transpose::NoTrans,
                    old(self).gamma,
                    Transpose::NoTrans,
                    old(self).hidden,
                    old(self).hidden_divisor.at(i, j),
                    i,
                    j,
                );
            }
        }
        let ghost mid: Matrix2D = self.hidden_divisor;
        let ghost partial: Matrix2D = self.hidden_divisor_partial;
        // divisor <- divisor + partial * hidden
        gemm(
            Fixed::one(),
            Transpose::NoTrans,
            &self.hidden_divisor_partial,
            Transpose::NoTrans,
            &self.hidden,
            Fixed::one(),
            &mut self.hidden_divisor,
        );
        proof {
            assert forall|i: int, j: int|
                0 <= i < old(self).spec_nhidden() && 0 <= j
                    < old(self).spec_nobserved() implies #[trigger] self.hidden_divisor.at(i, j)
                == ortho_hidden_divisor_s(
                old(self).weights,
                old(self).hidden,
                old(self).gamma,
                alpha@,
                i,
                j,
            ) by {
                lemma_entry_bounds(mid, i, j);
                lemma_gemm_cell_accumulate(
                    SCALE as int,
                    Transpose::NoTrans,
                    partial,
                    Transpose::NoTrans,
                    old(self).hidden,
                    mid.at(i, j),
                    i,
                    j,
                );
                lemma_op_dot_bounds(
                    Transpose::NoTrans,
                    partial,
                    Transpose::NoTrans,
                    old(self).hidden,
                    i,
                    j,
                );
                crate::fixed::lemma_fx_mul_one(
                    crate::gemm::dot_s(
                        row_s(partial, i),
                        crate::gemm::col_s(old(self).hidden, j),
                    ),
                );
                assert(row_s(partial, i) =~= hidden_partial_row_s(old(self).weights, i));
            }
        }
    }

    /// `result(i,j) <- result(i,j) * multiplier(i,j) / divisor(i,j)`
    ///
    /// A divisor cell that is exactly zero is replaced by the smallest
    /// positive representable value for that cell only, and a result cell
    /// that would become exactly zero is lifted to that value, so the
    /// factors never lose a cell for good.
    #[inline]
    pub fn update_from_multiplier_and_divisor(
        multiplier: &Matrix2D,
        divisor: &Matrix2D,
        result: &mut Matrix2D,
    )
        requires
            multiplier.wf(),
            divisor.wf(),
            old(result).wf(),
            multiplier.spec_nrows() == old(result).spec_nrows(),
            multiplier.spec_ncols() == old(result).spec_ncols(),
            divisor.spec_nrows() == old(result).spec_nrows(),
            divisor.spec_ncols() == old(result).spec_ncols(),
        ensures
            final(result).wf(),
            final(result).spec_nrows() == old(result).spec_nrows(),
            final(result).spec_ncols() == old(result).spec_ncols(),
            forall|i: int, j: int|
                0 <= i < old(result).spec_nrows() && 0 <= j < old(result).spec_ncols()
                    ==> #[trigger] final(result).at(i, j) == fx_update_clamped(
                    old(result).at(i, j),
                    multiplier.at(i, j),
                    divisor.at(i, j),
                ),
            forall|i: int, j: int|
                0 <= i < old(result).spec_nrows() && 0 <= j < old(result).spec_ncols() ==> 1
                    <= #[trigger] final(result).at(i, j),
    {
        crate::nmf_blas::update_from_multiplier_and_divisor(multiplier, divisor, result);
    }

    /// Does one iteration step, after which no factor entry is zero.
    /// `weights` and `hidden` get better and better with each iteration;
    /// usually around `10000` iterations are required. `samples` contains
    /// one observed variable per column, one sample per row; its shape must
    /// match `samples_shape`.
    pub fn iterate(&mut self, alpha: Fixed, samples: &Matrix2D)
        requires
            old(self).wf(),
            samples.wf(),
            samples.spec_nrows() == old(self).spec_nsamples(),
            samples.spec_ncols() == old(self).spec_nobserved(),
        ensures
            iterate_step_s(*old(self), *final(self), *samples, alpha),
    {
        // weights_multiplier <- samples * hidden.transpose()
        self.update_weights_multiplier(samples);
        // weights_divisor <- weights * hidden * hidden.transpose()
        self.update_weights_divisor();
        // hidden_multiplier <- weights.transpose() * samples
        self.update_hidden_multiplier(samples);
        // hidden_divisor <-
        // weights.transpose() * weights * hidden + alpha * gamma * hidden
        self.update_hidden_divisor(alpha);

        // weights(i,j) <-
        // weights(i,j) * weights_multiplier(i,j) / weights_divisor(i,j)
        crate::nmf_blas::update_from_multiplier_and_divisor(
            &self.weights_multiplier,
            &self.weights_divisor,
            &mut self.weights,
        );
        // hidden(i,j) <-
        // hidden(i,j) * hidden_multiplier(i,j) / hidden_divisor(i,j)
        crate::nmf_blas::update_from_multiplier_and_divisor(
            &self.hidden_multiplier,
            &self.hidden_divisor,
            &mut self.hidden,
        );
    }
}

/// Determinism: one iteration step is a function of the factor entries, the
/// sample batch and the strength alone. Two solvers whose factors agree
/// entrywise, fed the same samples and the same alpha, agree entrywise
/// after the step.
pub proof fn lemma_iterate_deterministic(
    pre1: OrthogonalNMFBlas,
    post1: OrthogonalNMFBlas,
    pre2: OrthogonalNMFBlas,
    post2: OrthogonalNMFBlas,
    samples: Matrix2D,
    alpha: Fixed,
)
    requires
        pre1.wf(),
        pre2.wf(),
        samples.wf(),
        samples.spec_nrows() == pre1.spec_nsamples(),
        samples.spec_ncols() == pre1.spec_nobserved(),
        pre1.hidden.same_content(&pre2.hidden),
        pre1.weights.same_content(&pre2.weights),
        iterate_step_s(pre1, post1, samples, alpha),
        iterate_step_s(pre2, post2, samples, alpha),
    ensures
        post1.weights.same_content(&post2.weights),
        post1.hidden.same_content(&post2.hidden),
{
    let w1 = pre1.weights;
    let w2 = pre2.weights;
    let h1 = pre1.hidden;
    let h2 = pre2.hidden;
    assert forall|t: int| 0 <= t < h1.spec_nrows() implies row_s(h1, t) == row_s(h2, t) by {
        assert(row_s(h1, t) =~= row_s(h2, t));
    }
    assert forall|c: int| 0 <= c < h1.spec_ncols() implies col_s(h1, c) == col_s(h2, c) by {
        assert(col_s(h1, c) =~= col_s(h2, c));
    }
    assert forall|t: int| 0 <= t < w1.spec_nrows() implies row_s(w1, t) == row_s(w2, t) by {
        assert(row_s(w1, t) =~= row_s(w2, t));
    }
    assert forall|c: int| 0 <= c < w1.spec_ncols() implies col_s(w1, c) == col_s(w2, c) by {
        assert(col_s(w1, c) =~= col_s(w2, c));
    }
    assert forall|t: int| 0 <= t < pre1.spec_nhidden() implies row_s(pre1.gamma, t) == row_s(
        pre2.gamma,
        t,
    ) by {
        assert(row_s(pre1.gamma, t) =~= row_s(pre2.gamma, t));
    }
    assert forall|i: int, j: int|
        0 <= i < pre1.spec_nsamples() && 0 <= j < pre1.spec_nhidden() implies weights_divisor_s(
        w1,
        h1,
        i,
        j,
    ) == weights_divisor_s(w2, h2, i, j) by {
        assert(reconstruction_row_s(w1, h1, i) =~= reconstruction_row_s(w2, h2, i));
    }
    assert forall|i: int, j: int|
        0 <= i < pre1.spec_nhidden() && 0 <= j
            < pre1.spec_nobserved() implies ortho_hidden_divisor_s(
        w1,
        h1,
        pre1.gamma,
        alpha@,
        i,
        j,
    ) == ortho_hidden_divisor_s(w2, h2, pre2.gamma, alpha@, i, j) by {
        assert(hidden_partial_row_s(w1, i) =~= hidden_partial_row_s(w2, i));
    }
    assert(post1.weights.same_content(&post2.weights));
    assert(post1.hidden.same_content(&post2.hidden));
}

/// The shape-only operations are stable under iteration: one step keeps all
/// three dimensions, and `nhidden`, `nobserved` and `nsamples` return
/// functions of the dimensions alone, so their values before and after any
/// number of `iterate` calls are the same.
pub proof fn lemma_shape_ops_stable(
    pre: OrthogonalNMFBlas,
    post: OrthogonalNMFBlas,
    samples: Matrix2D,
    alpha: Fixed,
)
    requires
        iterate_step_s(pre, post, samples, alpha),
    ensures
        post.spec_nhidden() == pre.spec_nhidden(),
        post.spec_nobserved() == pre.spec_nobserved(),
        post.spec_nsamples() == pre.spec_nsamples(),
{
}

/// Non-negativity: in every well-formed solver state — in particular after
/// any number of iterations — every entry of both factor matrices is at
/// least zero, because the scalar type cannot represent anything else.
pub proof fn lemma_factors_nonnegative(s: OrthogonalNMFBlas)
    requires
        s.wf(),
    ensures
        forall|i: int, j: int|
            0 <= i < s.spec_nhidden() && 0 <= j < s.spec_nobserved() ==> 0 <= #[trigger] s.hidden.at(i, j),
        forall|i: int, j: int|
            0 <= i < s.spec_nsamples() && 0 <= j < s.spec_nhidden() ==> 0 <= #[trigger] s.weights.at(i, j),
{
    assert forall|i: int, j: int|
        0 <= i < s.spec_nhidden() && 0 <= j < s.spec_nobserved() implies 0 <= #[trigger] s.hidden.at(i, j) by {
        lemma_entry_bounds(s.hidden, i, j);
    }
    assert forall|i: int, j: int|
        0 <= i < s.spec_nsamples() && 0 <= j < s.spec_nhidden() implies 0 <= #[trigger] s.weights.at(i, j) by {
        lemma_entry_bounds(s.weights, i, j);
    }
}

} // verus!
