use onmf::fixed::SCALE;
use onmf::gemm::{gemm, Transpose};
use onmf::nmf_blas::ShapeAsTuple;
use onmf::{Fixed, Matrix2D};

use rand::{Rng, SeedableRng, StdRng};

fn fixed(num: u64, den: u64) -> Fixed {
    Fixed::from_ratio(num, den)
}

#[test]
fn test_fixed_constants() {
    assert_eq!(Fixed::zero().to_bits(), 0);
    assert_eq!(Fixed::one().to_bits(), SCALE);
    assert_eq!(SCALE, 4294967296);
    assert_eq!(Fixed::min_positive().to_bits(), 1);
    assert_eq!(fixed(1, 2).to_bits(), 2147483648);
    assert_eq!(fixed(3, 10).to_bits(), 1288490188);
}

#[test]
fn test_fixed_arithmetic() {
    let half = fixed(1, 2);
    let quarter = fixed(1, 4);
    assert_eq!(half.mul(half).to_bits(), quarter.to_bits());
    assert_eq!(half.div(quarter).to_bits(), 2 * SCALE);
    assert_eq!(half.add(quarter).to_bits(), fixed(3, 4).to_bits());
    assert_eq!(Fixed::one().mul(Fixed::zero()).to_bits(), 0);
    assert_eq!(Fixed::one().div(Fixed::one()).to_bits(), SCALE);
}

#[test]
fn test_fixed_saturation() {
    let top = Fixed::from_bits(u64::MAX);
    assert_eq!(top.add(Fixed::min_positive()).to_bits(), u64::MAX);
    assert_eq!(top.mul(top).to_bits(), u64::MAX);
    // dividing by the smallest positive value overflows the range
    assert_eq!(Fixed::one().div(Fixed::min_positive()).to_bits(), u64::MAX);
}

#[test]
fn test_matrix_shape_and_cells() {
    let mut m = Matrix2D::zeros(2, 3);
    assert_eq!(m.shape(), (2, 3));
    assert_eq!(m.nrows(), 2);
    assert_eq!(m.ncols(), 3);
    m.set(1, 2, Fixed::one());
    assert_eq!(m.get(1, 2).to_bits(), SCALE);
    assert_eq!(m.get(0, 0).to_bits(), 0);
    let t = m.transpose();
    assert_eq!(t.shape(), (3, 2));
    assert_eq!(t.get(2, 1).to_bits(), SCALE);
}

#[test]
fn test_matrix_add_and_scale() {
    let a = Matrix2D::from_elem(2, 2, fixed(1, 2));
    let b = Matrix2D::from_elem(2, 2, fixed(1, 4));
    let s = a.add_entrywise(&b);
    assert_eq!(s.get(0, 0).to_bits(), fixed(3, 4).to_bits());
    let d = a.scale_by(fixed(1, 2));
    assert_eq!(d.get(1, 1).to_bits(), fixed(1, 4).to_bits());
}

#[test]
fn test_gemm_exact_product() {
    // [[1, 2], [0, 1]] * [[1], [1/2]] == [[2], [1/2]]
    let a = Matrix2D::from_rows(
        vec![
            vec![Fixed::one(), Fixed::from_bits(2 * SCALE)],
            vec![Fixed::zero(), Fixed::one()],
        ],
        2,
    );
    let b = Matrix2D::from_rows(vec![vec![Fixed::one()], vec![fixed(1, 2)]], 1);
    let mut c = Matrix2D::zeros(2, 1);
    gemm(
        Fixed::one(),
        Transpose::NoTrans,
        &a,
        Transpose::NoTrans,
        &b,
        Fixed::zero(),
        &mut c,
    );
    assert_eq!(c.get(0, 0).to_bits(), 2 * SCALE);
    assert_eq!(c.get(1, 0).to_bits(), SCALE / 2);
}

#[test]
fn test_gemm_alpha_beta() {
    // c <- alpha * a * b + beta * c with alpha = 1/2, beta = 1
    let a = Matrix2D::from_elem(1, 1, Fixed::one());
    let b = Matrix2D::from_elem(1, 1, Fixed::one());
    let mut c = Matrix2D::from_elem(1, 1, Fixed::one());
    gemm(
        fixed(1, 2),
        Transpose::NoTrans,
        &a,
        Transpose::NoTrans,
        &b,
        Fixed::one(),
        &mut c,
    );
    assert_eq!(c.get(0, 0).to_bits(), fixed(3, 2).to_bits());
}

#[test]
fn test_gemm_transpose_flags() {
    // a is 1x2; a^T * a is 2x2
    let a = Matrix2D::from_rows(vec![vec![Fixed::one(), fixed(1, 2)]], 2);
    let mut c = Matrix2D::zeros(2, 2);
    gemm(
        Fixed::one(),
        Transpose::Trans,
        &a,
        Transpose::NoTrans,
        &a,
        Fixed::zero(),
        &mut c,
    );
    assert_eq!(c.get(0, 0).to_bits(), SCALE);
    assert_eq!(c.get(0, 1).to_bits(), SCALE / 2);
    assert_eq!(c.get(1, 0).to_bits(), SCALE / 2);
    assert_eq!(c.get(1, 1).to_bits(), SCALE / 4);
}

#[test]
fn test_a_mul_a_transposed_is_symetric() {
    let seed: &[_] = &[1, 2, 3, 4];
    let mut rng: StdRng = SeedableRng::from_seed(seed);

    let rows = 10;
    let cols = 5;

    let mut a = Matrix2D::zeros(rows, cols);
    for icol in 0..a.ncols() {
        for irow in 0..a.nrows() {
            a.set(irow, icol, Fixed::from_bits(rng.gen::<u32>() as u64));
        }
    }

    // b <- a * a^T
    let mut b = Matrix2D::zeros(rows, rows);
    gemm(
        Fixed::one(),
        Transpose::NoTrans,
        &a,
        Transpose::Trans,
        &a,
        Fixed::zero(),
        &mut b,
    );
    // is b symmetric
    assert_eq!(b, b.transpose());

    // c <- a^T * a
    let mut c = Matrix2D::zeros(cols, cols);
    gemm(
        Fixed::one(),
        Transpose::Trans,
        &a,
        Transpose::NoTrans,
        &a,
        Fixed::zero(),
        &mut c,
    );
    // is c symmetric
    assert_eq!(c, c.transpose());
}

#[test]
fn test_shape_as_tuple() {
    let m = Matrix2D::zeros(3, 4);
    assert_eq!(m.shape_as_tuple(), (3, 4));
}
