//! Random draws, used only to initialize factor matrices.

use vstd::prelude::*;

use crate::fixed::{Fixed, SCALE};
use crate::matrix::Matrix2D;

verus! {

/// Returns a random number between `0.` (inclusive) and `1.` (inclusive).
///
/// Relies on `rand::Rng::gen`: drawing a `rand::Closed01<T>` yields a value
/// of `T` in the closed unit interval. The result is random, so nothing is
/// assumed about it.
#[verifier::external_body]
pub fn random01<T, R>(rng: &mut R) -> T where
    rand::Closed01<T>: rand::Rand,
    R: rand::Rng,
 {
    let rand::Closed01(random) = rng.gen::<rand::Closed01<T>>();
    random
}

/// A random fixed-point number between `0` (inclusive) and `1` (inclusive).
///
/// Relies on `rand::Rng::gen_range`, which returns a value in
/// `[low, high)`; only that range is assumed of the result.
#[verifier::external_body]
pub fn random01_fixed<R: rand::Rng>(rng: &mut R) -> (r: Fixed)
    ensures
        0 <= r@ <= SCALE,
{
    Fixed::from_bits(rng.gen_range(0u64, SCALE + 1))
}

/// A matrix with every entry drawn independently from `[0, 1]`.
pub fn random01_matrix<R: rand::Rng>(nrows: usize, ncols: usize, rng: &mut R) -> (m: Matrix2D)
    ensures
        m.wf(),
        m.spec_nrows() == nrows,
        m.spec_ncols() == ncols,
        forall|i: int, j: int|
            0 <= i < nrows && 0 <= j < ncols ==> 0 <= #[trigger] m.at(i, j) <= SCALE,
{
    let mut rows: Vec<Vec<Fixed>> = Vec::new();
    let mut i: usize = 0;
    while i < nrows
        invariant
            i <= nrows,
            rows@.len() == i,
            forall|r: int| 0 <= r < i ==> (#[trigger] rows@[r])@.len() == ncols,
            forall|r: int, c: int|
                0 <= r < i && 0 <= c < ncols ==> 0 <= (#[trigger] rows@[r]@[c])@ <= SCALE,
        decreases nrows - i,
    {
        let mut row: Vec<Fixed> = Vec::new();
        let mut j: usize = 0;
        while j < ncols
            invariant
                j <= ncols,
                row@.len() == j,
                forall|c: int| 0 <= c < j ==> 0 <= (#[trigger] row@[c])@ <= SCALE,
            decreases ncols - j,
        {
            row.push(random01_fixed(rng));
            j += 1;
        }
        rows.push(row);
        i += 1;
    }
    let ghost rs: Seq<Vec<Fixed>> = rows@;
    let m = Matrix2D::from_rows(rows, ncols);
    proof {
        assert forall|i: int, j: int|
            0 <= i < nrows && 0 <= j < ncols implies 0 <= #[trigger] m.at(i, j) <= SCALE by {
            assert(0 <= (rs[i]@[j])@ <= SCALE);
            assert(m.at(i, j) == (rs[i]@[j])@);
        }
    }
    m
}

} // verus!
