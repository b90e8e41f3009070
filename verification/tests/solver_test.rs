use onmf::fixed::SCALE;
use onmf::nmf_blas::{gamma, update_from_multiplier_and_divisor, weights_multiplier};
use onmf::orthogonal_nmf::build_gamma;
use onmf::orthogonal_nmf_blas::ShapeAsTuple;
use onmf::testimage_generator::{horizontal_line, vertical_line};
use onmf::{Fixed, Matrix2D, NMFBlas, OrthogonalNMF, OrthogonalNMFBlas};

use rand::{Rng, SeedableRng, StdRng};

fn fixed_from_f64(x: f64) -> Fixed {
    Fixed::from_bits((x * SCALE as f64) as u64)
}

fn to_f64(x: Fixed) -> f64 {
    x.to_bits() as f64 / SCALE as f64
}

fn random_matrix(nrows: usize, ncols: usize, rng: &mut StdRng) -> Matrix2D {
    let mut m = Matrix2D::zeros(nrows, ncols);
    for i in 0..nrows {
        for j in 0..ncols {
            m.set(i, j, Fixed::from_bits(rng.gen::<u32>() as u64));
        }
    }
    m
}

/// A flattened picture: one sample row of 100 observed values.
fn flatten_to_row(m: &Matrix2D) -> Vec<Fixed> {
    let mut row = Vec::new();
    for i in 0..m.nrows() {
        for j in 0..m.ncols() {
            row.push(m.get(i, j));
        }
    }
    row
}

fn reconstruction_error(samples: &Matrix2D, solver: &OrthogonalNMFBlas) -> f64 {
    let mut err = 0.0;
    for i in 0..samples.nrows() {
        for j in 0..samples.ncols() {
            let mut rec = 0.0;
            for k in 0..solver.nhidden() {
                rec += to_f64(solver.weights.get(i, k)) * to_f64(solver.hidden.get(k, j));
            }
            let d = to_f64(samples.get(i, j)) - rec;
            err += d * d;
        }
    }
    err.sqrt()
}

/// The normalized inner product of the two hidden rows.
fn hidden_overlap(solver: &OrthogonalNMFBlas) -> f64 {
    let mut dot = 0.0;
    let mut n0 = 0.0;
    let mut n1 = 0.0;
    for j in 0..solver.nobserved() {
        let a = to_f64(solver.hidden.get(0, j));
        let b = to_f64(solver.hidden.get(1, j));
        dot += a * b;
        n0 += a * a;
        n1 += b * b;
    }
    dot / (n0.sqrt() * n1.sqrt())
}

#[test]
fn test_gamma_ones_off_diagonal() {
    let g = gamma(3);
    assert_eq!(g.shape(), (3, 3));
    for i in 0..3 {
        for j in 0..3 {
            let expected = if i == j { 0 } else { SCALE };
            assert_eq!(g.get(i, j).to_bits(), expected);
        }
    }
}

#[test]
fn test_build_gamma_alpha() {
    let alpha = Fixed::from_ratio(3, 10);
    let g = build_gamma(alpha, 4);
    assert_eq!(g.shape(), (4, 4));
    let mut off_diagonal = 0;
    for i in 0..4 {
        for j in 0..4 {
            if i == j {
                assert_eq!(g.get(i, j).to_bits(), 0);
            } else {
                assert_eq!(g.get(i, j).to_bits(), alpha.to_bits());
                off_diagonal += 1;
            }
        }
    }
    assert_eq!(off_diagonal, 12);
}

#[test]
fn test_build_gamma_symmetric() {
    for size in 1..6 {
        let g = build_gamma(Fixed::from_ratio(7, 13), size);
        for i in 0..size {
            for j in 0..size {
                assert_eq!(g.get(i, j).to_bits(), g.get(j, i).to_bits());
            }
        }
    }
}

#[test]
fn test_shapes_unchanged_by_iterate() {
    let seed: &[_] = &[7];
    let mut rng: StdRng = SeedableRng::from_seed(seed);
    let mut solver = OrthogonalNMFBlas::new_random01(4, 25, 12, &mut rng);
    let samples = random_matrix(12, 25, &mut rng);
    for _ in 0..5 {
        solver.iterate(Fixed::from_ratio(1, 10), &samples);
        assert_eq!(solver.hidden.shape(), (4, 25));
        assert_eq!(solver.weights.shape(), (12, 4));
    }
}

#[test]
fn test_shape_only_operations_stable() {
    let seed: &[_] = &[8];
    let mut rng: StdRng = SeedableRng::from_seed(seed);
    let mut solver = OrthogonalNMFBlas::new_random01(3, 16, 9, &mut rng);
    let before = (solver.nhidden(), solver.nobserved(), solver.nsamples());
    assert_eq!(before, (3, 16, 9));
    assert_eq!(solver.samples_shape(), (9, 16));
    let samples = random_matrix(9, 16, &mut rng);
    for _ in 0..7 {
        solver.iterate(Fixed::from_ratio(1, 5), &samples);
    }
    assert_eq!(
        (solver.nhidden(), solver.nobserved(), solver.nsamples()),
        before
    );
    assert_eq!(solver.samples_shape(), (9, 16));
}

#[test]
fn test_factors_stay_nonnegative() {
    let seed: &[_] = &[3, 1];
    let mut rng: StdRng = SeedableRng::from_seed(seed);
    let mut solver = OrthogonalNMFBlas::new_random01(3, 20, 10, &mut rng);
    let samples = random_matrix(10, 20, &mut rng);
    for _ in 0..25 {
        solver.iterate(Fixed::from_ratio(1, 10), &samples);
    }
    // the scalar type is unsigned: no entry can be negative, and none has
    // become an error value of any kind
    for i in 0..3 {
        for j in 0..20 {
            let _ = solver.hidden.get(i, j).to_bits();
        }
    }
    for i in 0..10 {
        for j in 0..3 {
            let _ = solver.weights.get(i, j).to_bits();
        }
    }
}

#[test]
fn test_iterate_deterministic() {
    let seed: &[_] = &[11, 22];
    let mut rng: StdRng = SeedableRng::from_seed(seed);
    let hidden = random_matrix(3, 12, &mut rng);
    let weights = random_matrix(8, 3, &mut rng);
    let samples = random_matrix(8, 12, &mut rng);

    let mut s1 = OrthogonalNMFBlas::new(hidden.clone(), weights.clone());
    let mut s2 = OrthogonalNMFBlas::new(hidden, weights);
    for step in 0..50 {
        let alpha = Fixed::from_ratio(step + 1, 100);
        s1.iterate(alpha, &samples);
        s2.iterate(alpha, &samples);
    }
    assert_eq!(s1.hidden, s2.hidden);
    assert_eq!(s1.weights, s2.weights);
}

#[test]
fn test_zero_divisor_is_survived() {
    // a hidden matrix with an all-zero row makes both the weights divisor
    // and the weights multiplier column exactly zero
    let mut hidden = Matrix2D::zeros(2, 4);
    for j in 0..4 {
        hidden.set(0, j, Fixed::from_ratio(1, 2));
    }
    let weights = Matrix2D::from_elem(3, 2, Fixed::from_ratio(1, 2));
    let samples = Matrix2D::from_elem(3, 4, Fixed::from_ratio(1, 2));

    let mut solver = OrthogonalNMF::init(hidden, weights);
    let before = solver.weights.get(0, 1).to_bits();
    for _ in 0..10 {
        solver.iterate(Fixed::from_ratio(1, 10), &samples);
        // the affected column decreases toward zero but never reaches it
        for i in 0..3 {
            let w = solver.weights.get(i, 1).to_bits();
            assert!(w > 0);
            assert!(w < before);
        }
        // every other entry is positive too
        for i in 0..3 {
            for j in 0..2 {
                assert!(solver.weights.get(i, j).to_bits() > 0);
            }
        }
        for i in 0..2 {
            for j in 0..4 {
                assert!(solver.hidden.get(i, j).to_bits() > 0);
            }
        }
    }
}

#[test]
fn test_nmf_blas_with_and_without_orthogonality() {
    let seed: &[_] = &[5, 6];
    let mut rng: StdRng = SeedableRng::from_seed(seed);
    let hidden = random_matrix(2, 9, &mut rng);
    let weights = random_matrix(6, 2, &mut rng);
    let samples = random_matrix(6, 9, &mut rng);

    let mut plain = NMFBlas::new(hidden.clone(), weights.clone());
    let mut ortho = NMFBlas::new(hidden, weights);
    plain.iterate(&samples, None);
    ortho.iterate(&samples, Some(Fixed::from_ratio(1, 2)));
    assert_eq!(plain.hidden_shape(), (2, 9));
    assert_eq!(plain.weights_shape(), (6, 2));
    // the orthogonality pressure enlarges the hidden divisor, so the
    // orthogonalized hidden factors cannot exceed the plain ones
    let mut some_smaller = false;
    for i in 0..2 {
        for j in 0..9 {
            let p = plain.hidden.get(i, j).to_bits();
            let o = ortho.hidden.get(i, j).to_bits();
            assert!(o <= p);
            if o < p {
                some_smaller = true;
            }
        }
    }
    assert!(some_smaller);
    assert_eq!(plain.weights, ortho.weights);
}

#[test]
fn test_convergence_on_disjoint_patterns() {
    // two basis patterns with disjoint support
    let horizontal = horizontal_line(9, 5..10);
    let vertical = vertical_line(0..5, 0);
    let h_row = flatten_to_row(&horizontal);
    let v_row = flatten_to_row(&vertical);

    let seed: &[_] = &[17];
    let mut rng: StdRng = SeedableRng::from_seed(seed);

    let nsamples = 20;
    let mut rows: Vec<Vec<Fixed>> = Vec::new();
    for _ in 0..nsamples {
        let a = fixed_from_f64(rng.gen_range(0.1f64, 1.0));
        let b = fixed_from_f64(rng.gen_range(0.1f64, 1.0));
        let mut row = Vec::new();
        for k in 0..100 {
            row.push(h_row[k].mul(a).add(v_row[k].mul(b)));
        }
        rows.push(row);
    }
    let samples = Matrix2D::from_rows(rows, 100);

    let mut solver = OrthogonalNMFBlas::new_random01(2, 100, nsamples, &mut rng);
    let initial_error = reconstruction_error(&samples, &solver);
    let initial_overlap = hidden_overlap(&solver);

    let mut block_means: Vec<f64> = Vec::new();
    let mut block_sum = 0.0;
    for step in 0..1000 {
        let alpha = 0.1 * 1.01f64.powi(step as i32);
        solver.iterate(fixed_from_f64(alpha), &samples);
        block_sum += reconstruction_error(&samples, &solver);
        if step % 100 == 99 {
            block_means.push(block_sum / 100.0);
            block_sum = 0.0;
        }
    }

    let final_overlap = hidden_overlap(&solver);

    // the reconstruction improves a lot overall ...
    assert!(*block_means.last().unwrap() < initial_error * 0.6);
    assert!(*block_means.last().unwrap() < block_means[0] * 0.9);
    // ... and it decreases monotonically on average over blocks of
    // iterations, up to the last fixed-point digit
    for w in block_means.windows(2) {
        assert!(w[1] <= w[0] * 1.000001);
    }
    // the hidden rows end up more mutually orthogonal than they started
    assert!(final_overlap < initial_overlap);
}

#[test]
fn test_update_exact_values() {
    // result * (multiplier / divisor), entrywise
    let multiplier = Matrix2D::from_elem(1, 2, Fixed::from_ratio(1, 2));
    let mut divisor = Matrix2D::from_elem(1, 2, Fixed::from_ratio(1, 4));
    // one divisor cell exactly zero: substituted by the minimum positive
    divisor.set(0, 1, Fixed::zero());
    let mut result = Matrix2D::from_elem(1, 2, Fixed::from_ratio(1, 2));
    update_from_multiplier_and_divisor(&multiplier, &divisor, &mut result);
    // 1/2 * (1/2 / 1/4) == 1
    assert_eq!(result.get(0, 0).to_bits(), SCALE);
    // dividing by the substituted minimum makes the quotient huge but
    // exact: 1/2 * ((1/2 * SCALE) / (1 / SCALE)) has raw value 2^62
    assert_eq!(result.get(0, 1).to_bits(), 1u64 << 62);

    // a result cell that would vanish is lifted to the minimum positive
    let zero_multiplier = Matrix2D::from_elem(1, 1, Fixed::zero());
    let divisor = Matrix2D::from_elem(1, 1, Fixed::one());
    let mut result = Matrix2D::from_elem(1, 1, Fixed::from_ratio(1, 2));
    update_from_multiplier_and_divisor(&zero_multiplier, &divisor, &mut result);
    assert_eq!(result.get(0, 0).to_bits(), 1);
}

#[test]
fn test_blas_factors_never_reach_zero() {
    // a hidden matrix with an all-zero row zeroes a whole column of both
    // the weights multiplier and the weights divisor
    let mut hidden = Matrix2D::zeros(2, 4);
    for j in 0..4 {
        hidden.set(0, j, Fixed::from_ratio(1, 2));
    }
    let weights = Matrix2D::from_elem(3, 2, Fixed::from_ratio(1, 2));
    let samples = Matrix2D::from_elem(3, 4, Fixed::from_ratio(1, 2));

    let mut solver = OrthogonalNMFBlas::new(hidden, weights);
    let before = solver.weights.get(0, 1).to_bits();
    for _ in 0..10 {
        solver.iterate(Fixed::from_ratio(1, 10), &samples);
        for i in 0..3 {
            // the affected column decreases toward zero but never reaches it
            let w = solver.weights.get(i, 1).to_bits();
            assert!(w > 0);
            assert!(w < before);
        }
        for i in 0..2 {
            for j in 0..4 {
                assert!(solver.hidden.get(i, j).to_bits() > 0);
            }
        }
    }
}

#[test]
fn test_new_solver_scratch_buffers_start_zero() {
    let hidden = Matrix2D::from_elem(2, 5, Fixed::from_ratio(1, 2));
    let weights = Matrix2D::from_elem(3, 2, Fixed::from_ratio(1, 2));
    let solver = OrthogonalNMFBlas::new(hidden, weights);
    assert_eq!(solver.weights_multiplier.shape(), (3, 2));
    assert_eq!(solver.weights_divisor.shape(), (3, 2));
    assert_eq!(solver.weights_divisor_reconstruction.shape(), (3, 5));
    assert_eq!(solver.hidden_multiplier.shape(), (2, 5));
    assert_eq!(solver.hidden_divisor.shape(), (2, 5));
    assert_eq!(solver.hidden_divisor_partial.shape(), (2, 2));
    let buffers = [
        &solver.weights_multiplier,
        &solver.weights_divisor,
        &solver.weights_divisor_reconstruction,
        &solver.hidden_multiplier,
        &solver.hidden_divisor,
        &solver.hidden_divisor_partial,
    ];
    for buffer in buffers {
        for i in 0..buffer.nrows() {
            for j in 0..buffer.ncols() {
                assert_eq!(buffer.get(i, j).to_bits(), 0);
            }
        }
    }
}

#[test]
fn test_partial_buffer_is_symmetric_after_iterate() {
    let seed: &[_] = &[13];
    let mut rng: StdRng = SeedableRng::from_seed(seed);
    let mut solver = OrthogonalNMFBlas::new_random01(3, 8, 6, &mut rng);
    let samples = random_matrix(6, 8, &mut rng);
    solver.iterate(Fixed::from_ratio(1, 10), &samples);
    // the partial buffer holds weights^T * weights, which is symmetric
    for i in 0..3 {
        for j in 0..3 {
            assert_eq!(
                solver.hidden_divisor_partial.get(i, j).to_bits(),
                solver.hidden_divisor_partial.get(j, i).to_bits()
            );
        }
    }
}

#[test]
fn test_weights_multiplier_exact() {
    // samples 1x2, hidden 1x2: samples * hidden^T is 1x1
    let samples = Matrix2D::from_elem(1, 2, Fixed::from_ratio(1, 2));
    let hidden = Matrix2D::from_elem(1, 2, Fixed::one());
    let mut out = Matrix2D::zeros(1, 1);
    weights_multiplier(&samples, &hidden, &mut out);
    assert_eq!(out.get(0, 0).to_bits(), SCALE);
}

#[test]
fn test_iterate_exact_one_cell() {
    // with S = W = H = [1/2], one step drives both factors to exactly one:
    // each multiplier is 1/4, each divisor 1/8, and 1/2 * (1/4 / 1/8) = 1
    let hidden = Matrix2D::from_elem(1, 1, Fixed::from_ratio(1, 2));
    let weights = Matrix2D::from_elem(1, 1, Fixed::from_ratio(1, 2));
    let samples = Matrix2D::from_elem(1, 1, Fixed::from_ratio(1, 2));
    let mut solver = NMFBlas::new(hidden, weights);
    solver.iterate(&samples, None);
    assert_eq!(solver.weights.get(0, 0).to_bits(), SCALE);
    assert_eq!(solver.hidden.get(0, 0).to_bits(), SCALE);
    assert_eq!(solver.weights_multiplier.get(0, 0).to_bits(), SCALE / 4);
    assert_eq!(solver.weights_divisor.get(0, 0).to_bits(), SCALE / 8);
    assert_eq!(solver.hidden_multiplier.get(0, 0).to_bits(), SCALE / 4);
    assert_eq!(solver.hidden_divisor.get(0, 0).to_bits(), SCALE / 8);
}

#[test]
fn test_shape_as_tuple_on_factors() {
    let seed: &[_] = &[2];
    let mut rng: StdRng = SeedableRng::from_seed(seed);
    let solver = OrthogonalNMFBlas::new_random01(2, 6, 4, &mut rng);
    assert_eq!(solver.hidden.shape_as_tuple(), (2, 6));
    assert_eq!(solver.weights.shape_as_tuple(), (4, 2));
}
