use onmf::fixed::SCALE;
use onmf::testimage_generator::{
    horizontal_evolving_factors, horizontal_line, linear_combination, static_factors, testimages,
    vertical_evolving_factors, vertical_line,
};
use onmf::{Fixed, Matrix2D};

use rand::{SeedableRng, StdRng};

#[test]
fn test_horizontal_line_cells() {
    let m = horizontal_line(9, 0..5);
    assert_eq!(m.shape(), (10, 10));
    for i in 0..10 {
        for j in 0..10 {
            let expected = if i == 9 && j < 5 { SCALE } else { 0 };
            assert_eq!(m.get(i, j).to_bits(), expected);
        }
    }
}

#[test]
fn test_vertical_line_cells() {
    let m = vertical_line(5..10, 0);
    assert_eq!(m.shape(), (10, 10));
    for i in 0..10 {
        for j in 0..10 {
            let expected = if j == 0 && i >= 5 { SCALE } else { 0 };
            assert_eq!(m.get(i, j).to_bits(), expected);
        }
    }
}

#[test]
fn test_evolving_factors_slide() {
    let hs = horizontal_evolving_factors();
    assert_eq!(hs.len(), 6);
    for (k, m) in hs.iter().enumerate() {
        for j in 0..10 {
            let expected = if j >= k && j < k + 5 { SCALE } else { 0 };
            assert_eq!(m.get(9, j).to_bits(), expected);
            assert_eq!(m.get(0, j).to_bits(), 0);
        }
    }
    let vs = vertical_evolving_factors();
    assert_eq!(vs.len(), 6);
    for (k, m) in vs.iter().enumerate() {
        for i in 0..10 {
            let expected = if i >= 5 - k && i < 10 - k { SCALE } else { 0 };
            assert_eq!(m.get(i, 0).to_bits(), expected);
            assert_eq!(m.get(i, 9).to_bits(), 0);
        }
    }
}

#[test]
fn test_static_factors_count_and_strokes() {
    let fs = static_factors();
    assert_eq!(fs.len(), 20);
    // first: short horizontal stroke in the bottom row
    assert_eq!(fs[0].get(9, 0).to_bits(), SCALE);
    assert_eq!(fs[0].get(9, 5).to_bits(), 0);
    // rows 8 down to 0, full width
    for k in 1..10 {
        let row = 9 - k;
        for j in 0..10 {
            assert_eq!(fs[k].get(row, j).to_bits(), SCALE);
        }
    }
    // short vertical stroke
    assert_eq!(fs[10].get(5, 0).to_bits(), SCALE);
    assert_eq!(fs[10].get(4, 0).to_bits(), 0);
    // columns 1 to 9, full height
    for k in 11..20 {
        let col = k - 10;
        for i in 0..10 {
            assert_eq!(fs[k].get(i, col).to_bits(), SCALE);
        }
    }
}

#[test]
fn test_testimages_series() {
    let seed: &[_] = &[42];
    let rng: StdRng = SeedableRng::from_seed(seed);
    let mut gen = testimages(3, rng);

    // six evolving steps, three pictures each
    let mut count = 0;
    let mut last_step = 0;
    loop {
        match gen.next() {
            Some((step, i, picture)) => {
                assert_eq!(picture.shape(), (10, 10));
                assert!(i < 3);
                assert!(step >= last_step);
                last_step = step;
                // normalized: nothing exceeds one
                for r in 0..10 {
                    for c in 0..10 {
                        assert!(picture.get(r, c).to_bits() <= SCALE);
                    }
                }
                count += 1;
            }
            None => break,
        }
    }
    assert_eq!(count, 18);
    assert_eq!(last_step, 5);
    // once exhausted it stays exhausted
    assert!(gen.next().is_none());
}

#[test]
fn test_linear_combination_exact() {
    let a = Matrix2D::from_elem(2, 2, Fixed::one());
    let b = Matrix2D::from_elem(2, 2, Fixed::from_ratio(1, 2));
    let combined = linear_combination(
        &vec![a, b],
        &vec![Fixed::from_ratio(1, 2), Fixed::from_ratio(1, 4)],
    );
    assert_eq!(combined.shape(), (2, 2));
    for i in 0..2 {
        for j in 0..2 {
            assert_eq!(combined.get(i, j).to_bits(), Fixed::from_ratio(5, 8).to_bits());
        }
    }
}

#[test]
fn test_empty_ranges_give_blank_pictures() {
    // an empty range is accepted even when its bound passes the picture edge
    let h = horizontal_line(5, 12..12);
    let v = vertical_line(12..3, 0);
    for i in 0..10 {
        for j in 0..10 {
            assert_eq!(h.get(i, j).to_bits(), 0);
            assert_eq!(v.get(i, j).to_bits(), 0);
        }
    }
}
