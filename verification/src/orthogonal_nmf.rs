//! The plain orthogonal NMF solver.
//!
//! [`OrthogonalNMF`] keeps only the two factor matrices and allocates its
//! intermediate products on every call, which makes one iteration easy to
//! follow end to end. Its gamma matrix carries the orthogonality strength
//! `alpha` directly in its off-diagonal entries, and after each update any
//! factor entry that reached exact zero is lifted back to the smallest
//! positive value, so the factors stay reachable by later multiplicative
//! updates.

use vstd::prelude::*;

use crate::fixed::{fx_add, fx_update_clamped, Fixed, SCALE};
use crate::gemm::{col_s, dot_s, gemm, lemma_gemm_cell_unit, row_s, Transpose};
use crate::matrix::Matrix2D;
use crate::nmf_blas::{
    hidden_divisor_base_s, hidden_multiplier_s, weights_divisor_s, weights_multiplier_s,
};

verus! {

/// Row `i` of the alpha-gamma matrix: `alpha` everywhere except a zero in
/// position `i` (the diagonal).
pub open spec fn gamma_alpha_row_s(alpha: int, nhidden: nat, i: int) -> Seq<int> {
    Seq::new(nhidden as nat, |c: int| if c == i { 0 } else { alpha })
}

/// Cell `(i, j)` of the orthogonality pressure `gamma(alpha) * hidden`.
pub open spec fn naive_ortho_term_s(alpha: int, hidden: Matrix2D, i: int, j: int) -> int {
    dot_s(gamma_alpha_row_s(alpha, hidden.spec_nrows(), i), col_s(hidden, j))
}

/// Cell `(i, j)` of the hidden divisor of one [`OrthogonalNMF::iterate`]
/// step: `weights^T * weights * hidden + gamma(alpha) * hidden`.
pub open spec fn naive_hidden_divisor_s(
    weights: Matrix2D,
    hidden: Matrix2D,
    alpha: int,
    i: int,
    j: int,
) -> int {
    fx_add(hidden_divisor_base_s(weights, hidden, i, j), naive_ortho_term_s(alpha, hidden, i, j))
}

/// The gamma matrix of one iteration: `alpha` at every off-diagonal
/// position and zero on the diagonal, so each hidden row is pressured in
/// proportion to its overlap with every other row, but not with itself.
pub fn build_gamma(alpha: Fixed, nhidden: usize) -> (g: Matrix2D)
    ensures
        g.wf(),
        g.spec_nrows() == nhidden,
        g.spec_ncols() == nhidden,
        forall|i: int, j: int|
            0 <= i < nhidden && 0 <= j < nhidden ==> #[trigger] g.at(i, j) == (if i == j {
                0
            } else {
                alpha@
            }),
{
    let mut gamma_alpha = Matrix2D::from_elem(nhidden, nhidden, alpha);
    let mut d: usize = 0;
    while d < nhidden
        invariant
            gamma_alpha.wf(),
            gamma_alpha.spec_nrows() == nhidden,
            gamma_alpha.spec_ncols() == nhidden,
            d <= nhidden,
            forall|r: int, c: int|
                0 <= r < nhidden && 0 <= c < nhidden && (r != c || r >= d)
                    ==> #[trigger] gamma_alpha.at(r, c) == alpha@,
            forall|r: int| 0 <= r < d ==> gamma_alpha.at(r, r) == 0,
        decreases nhidden - d,
    {
        gamma_alpha.set(d, d, Fixed::zero());
        d += 1;
    }
    gamma_alpha
}

/// The plain solver state: just the two factor matrices.
pub struct OrthogonalNMF {
    pub hidden: Matrix2D,
    pub weights: Matrix2D,
}

impl OrthogonalNMF {
    /// The number of hidden variables.
    pub open spec fn spec_nhidden(&self) -> nat {
        self.hidden.spec_nrows()
    }

    /// The number of observed variables.
    pub open spec fn spec_nobserved(&self) -> nat {
        self.hidden.spec_ncols()
    }

    /// The number of data points.
    pub open spec fn spec_nsamples(&self) -> nat {
        self.weights.spec_nrows()
    }

    /// The structural invariant: both factors are well-formed and share the
    /// hidden dimension.
    pub open spec fn wf(&self) -> bool {
        &&& self.hidden.wf()
        &&& self.weights.wf()
        &&& self.weights.spec_ncols() == self.spec_nhidden()
    }

    /// A solver whose factor matrices are filled with independent random
    /// draws from `[0, 1]`.
    pub fn init_random01<R: rand::Rng>(
        nhidden: usize,
        nobserved: usize,
        nsamples: usize,
        rng: &mut R,
    ) -> (r: OrthogonalNMF)
        ensures
            r.wf(),
            r.spec_nhidden() == nhidden,
            r.spec_nobserved() == nobserved,
            r.spec_nsamples() == nsamples,
            forall|i: int, j: int|
                0 <= i < nhidden && 0 <= j < nobserved ==> 0 <= #[trigger] r.hidden.at(i, j)
                    <= SCALE,
            forall|i: int, j: int|
                0 <= i < nsamples && 0 <= j < nhidden ==> 0 <= #[trigger] r.weights.at(i, j)
                    <= SCALE,
    {
        let hidden = crate::helpers::random::random01_matrix(nhidden, nobserved, rng);
        let weights = crate::helpers::random::random01_matrix(nsamples, nhidden, rng);
        Self::init(hidden, weights)
    }

    /// A solver built from externally prepared factor matrices; the row
    /// count of `hidden` must be equal to the column count of `weights`.
    pub fn init(hidden: Matrix2D, weights: Matrix2D) -> (r: OrthogonalNMF)
        requires
            hidden.wf(),
            weights.wf(),
            weights.spec_ncols() == hidden.spec_nrows(),
        ensures
            r.wf(),
            r.hidden == hidden,
            r.weights == weights,
    {
        OrthogonalNMF { hidden, weights }
    }

    /// returns the number of observed variables
    #[inline]
    pub fn nobserved(&self) -> (r: usize)
        ensures
            r == self.spec_nobserved(),
    {
        self.hidden.ncols()
    }

    /// returns the number of hidden variables
    #[inline]
    pub fn nhidden(&self) -> (r: usize)
        ensures
            r == self.spec_nhidden(),
    {
        self.hidden.nrows()
    }

    /// returns the number of data points
    #[inline]
    pub fn nsamples(&self) -> (r: usize)
        ensures
            r == self.spec_nsamples(),
    {
        self.weights.nrows()
    }

    /// Does one iteration step; the factors get better and better with each
    /// iteration. `data` contains one observed variable per column, one
    /// sample per row. After the update no factor entry is zero: a cell
    /// that would vanish is lifted to the smallest positive value.
    pub fn iterate(&mut self, alpha: Fixed, data: &Matrix2D)
        requires
            old(self).wf(),
            data.wf(),
            data.spec_nrows() == old(self).spec_nsamples(),
            data.spec_ncols() == old(self).spec_nobserved(),
        ensures
            final(self).wf(),
            final(self).spec_nhidden() == old(self).spec_nhidden(),
            final(self).spec_nobserved() == old(self).spec_nobserved(),
            final(self).spec_nsamples() == old(self).spec_nsamples(),
            forall|i: int, j: int|
                0 <= i < old(self).spec_nsamples() && 0 <= j < old(self).spec_nhidden()
                    ==> #[trigger] final(self).weights.at(i, j) == fx_update_clamped(
                    old(self).weights.at(i, j),
                    weights_multiplier_s(*data, old(self).hidden, i, j),
                    weights_divisor_s(old(self).weights, old(self).hidden, i, j),
                ),
            forall|i: int, j: int|
                0 <= i < old(self).spec_nhidden() && 0 <= j < old(self).spec_nobserved()
                    ==> #[trigger] final(self).hidden.at(i, j) == fx_update_clamped(
                    old(self).hidden.at(i, j),
                    hidden_multiplier_s(old(self).weights, *data, i, j),
                    naive_hidden_divisor_s(old(self).weights, old(self).hidden, alpha@, i, j),
                ),
            forall|i: int, j: int|
                0 <= i < old(self).spec_nsamples() && 0 <= j < old(self).spec_nhidden() ==> 1
                    <= #[trigger] final(self).weights.at(i, j),
            forall|i: int, j: int|
                0 <= i < old(self).spec_nhidden() && 0 <= j < old(self).spec_nobserved() ==> 1
                    <= #[trigger] final(self).hidden.at(i, j),
    {
        let nhidden: usize = self.nhidden();
        let nobserved: usize = self.nobserved();
        let nsamples: usize = self.nsamples();

        // has the same shape as weights
        let mut new_weights_dividend = Matrix2D::zeros(nsamples, nhidden);
        crate::nmf_blas::weights_multiplier(data, &self.hidden, &mut new_weights_dividend);

        // the reconstruction has the shape of the samples, the divisor
        // that of the weights
        let mut reconstruction = Matrix2D::zeros(nsamples, nobserved);
        let mut new_weights_divisor = Matrix2D::zeros(nsamples, nhidden);
        crate::nmf_blas::weights_divisor(
            &self.weights,
            &self.hidden,
            &mut reconstruction,
            &mut new_weights_divisor,
        );

        // has the same shape as hidden
        let mut new_hidden_dividend = Matrix2D::zeros(nhidden, nobserved);
        crate::nmf_blas::hidden_multiplier(&self.weights, data, &mut new_hidden_dividend);

        // gamma is a symmetric matrix with diagonal elements equal to zero
        // and other elements equal to alpha
        let gamma_alpha = build_gamma(alpha, nhidden);

        // the small partial product, and a divisor with the shape of hidden
        let mut partial = Matrix2D::zeros(nhidden, nhidden);
        let mut divisor_base = Matrix2D::zeros(nhidden, nobserved);
        crate::nmf_blas::hidden_divisor(
            &self.weights,
            &self.hidden,
            &mut partial,
            &mut divisor_base,
        );

        // the previous latents multiplied by alpha, except for the diagonal
        // which is zero
        let mut ortho = Matrix2D::zeros(nhidden, nobserved);
        gemm(
            Fixed::one(),
            Transpose::NoTrans,
            &gamma_alpha,
            Transpose::NoTrans,
            &self.hidden,
            Fixed::zero(),
            &mut ortho,
        );
        proof {
            assert forall|i: int, j: int|
                0 <= i < nhidden && 0 <= j < nobserved implies #[trigger] ortho.at(i, j)
                == naive_ortho_term_s(alpha@, old(self).hidden, i, j) by {
                lemma_gemm_cell_unit(
                    Transpose::NoTrans,
                    gamma_alpha,
                    Transpose::NoTrans,
                    old(self).hidden,
                    0,
                    i,
                    j,
                );
                assert(row_s(gamma_alpha, i) =~= gamma_alpha_row_s(
                    alpha@,
                    old(self).hidden.spec_nrows(),
                    i,
                ));
            }
        }

        let new_hidden_divisor = divisor_base.add_entrywise(&ortho);

        // compute new weights
        crate::nmf_blas::update_from_multiplier_and_divisor(
            &new_weights_dividend,
            &new_weights_divisor,
            &mut self.weights,
        );

        // compute new hidden
        crate::nmf_blas::update_from_multiplier_and_divisor(
            &new_hidden_dividend,
            &new_hidden_divisor,
            &mut self.hidden,
        );

    }
}

} // verus!
