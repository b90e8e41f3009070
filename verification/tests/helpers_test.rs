use onmf::fixed::SCALE;
use onmf::helpers::partial_max::select_fold1;
use onmf::helpers::{magnify, random01, repeatedly, Normalize, PartialMaxIteratorExt, ToImage};
use onmf::{Fixed, Matrix2D};

use rand::{SeedableRng, StdRng};

#[test]
fn test_random01() {
    let seed: &[_] = &[1, 2, 3, 4];
    let mut rng: StdRng = SeedableRng::from_seed(seed);
    let r: f64 = random01(&mut rng);
    assert_eq!(r, 0.5162139860908154);
}

#[test]
fn test_random01_fixed_in_unit_interval() {
    let seed: &[_] = &[9, 9, 9];
    let mut rng: StdRng = SeedableRng::from_seed(seed);
    for _ in 0..1000 {
        let r: Fixed = onmf::helpers::random::random01_fixed(&mut rng);
        assert!(r.to_bits() <= SCALE);
    }
}

#[test]
fn test_repeatedly() {
    let mut constant = repeatedly(|| 3usize);
    let mut v: Vec<usize> = Vec::new();
    for _ in 0..4 {
        v.push(constant.next().unwrap());
    }
    assert_eq!(vec![3, 3, 3, 3], v);

    let mut i = 0;
    let mut counter = repeatedly(|| {
        i += 1;
        i
    });
    let mut v: Vec<usize> = Vec::new();
    for _ in 0..4 {
        v.push(counter.next().unwrap());
    }
    assert_eq!(vec![1, 2, 3, 4], v);
    drop(counter);
    assert_eq!(i, 4);

    let seed: &[_] = &[1, 2, 3, 4];
    let mut rng: StdRng = SeedableRng::from_seed(seed);
    let mut draws = repeatedly(|| random01::<f64, StdRng>(&mut rng));
    let mut v: Vec<f64> = Vec::new();
    for _ in 0..4 {
        v.push(draws.next().unwrap());
    }
    assert_eq!(
        vec![
            0.5162139860908154,
            0.13628294371987984,
            0.21635575241586105,
            0.10006169673911681
        ],
        v
    );
}

#[test]
fn test_normalize_zeros() {
    let mat = Matrix2D::zeros(10, 10);
    assert_eq!(mat.clone(), mat.normalize());
}

#[test]
fn test_normalize_ones() {
    let mat = Matrix2D::from_elem(10, 10, Fixed::one());
    assert_eq!(mat.clone(), mat.normalize());
}

#[test]
fn test_normalize_values() {
    let mat = Matrix2D::from_elem(10, 10, Fixed::from_ratio(1, 2));
    assert_eq!(Matrix2D::from_elem(10, 10, Fixed::one()), mat.normalize());
}

#[test]
fn test_partial_max() {
    let empty: Vec<Fixed> = Vec::new();
    assert_eq!(empty.partial_max(), None);
    let v = vec![
        Fixed::from_ratio(1, 4),
        Fixed::from_ratio(3, 4),
        Fixed::from_ratio(1, 2),
    ];
    assert_eq!(v.partial_max().unwrap().to_bits(), Fixed::from_ratio(3, 4).to_bits());
}

#[test]
fn test_magnify_by_zero_is_empty() {
    let m = Matrix2D::from_elem(2, 2, Fixed::one());
    assert_eq!(magnify(m, 0).shape(), (0, 0));
}

#[test]
fn test_magnify() {
    let mut m = Matrix2D::zeros(2, 2);
    m.set(0, 1, Fixed::one());
    let big = magnify(m, 3);
    assert_eq!(big.shape(), (6, 6));
    for i in 0..6 {
        for j in 0..6 {
            let expected = if i < 3 && j >= 3 { SCALE } else { 0 };
            assert_eq!(big.get(i, j).to_bits(), expected);
        }
    }
}

#[test]
fn test_luma_bytes_levels() {
    let mut m = Matrix2D::zeros(1, 3);
    m.set(0, 1, Fixed::from_ratio(1, 2));
    m.set(0, 2, Fixed::one());
    let bytes = onmf::helpers::to_image::luma_bytes(&m);
    assert_eq!(bytes, vec![0u8, 128, 255]);
}

#[test]
fn test_to_image_pixels() {
    let mut m = Matrix2D::zeros(2, 2);
    m.set(0, 0, Fixed::one());
    m.set(1, 1, Fixed::from_ratio(1, 2));
    let img = m.to_image();
    let luma = img.into_luma8();
    assert_eq!(luma.width(), 2);
    assert_eq!(luma.height(), 2);
    assert_eq!(luma.get_pixel(0, 0).0[0], 255);
    assert_eq!(luma.get_pixel(1, 0).0[0], 0);
    assert_eq!(luma.get_pixel(0, 1).0[0], 0);
    assert_eq!(luma.get_pixel(1, 1).0[0], 128);
}

#[test]
fn test_select_fold1() {
    let empty: Vec<u64> = Vec::new();
    assert!(select_fold1(&empty, |x: &u64| *x, |a: &u64, _: &u64, b: &u64, _: &u64| a < b).is_none());

    let items: Vec<u64> = vec![3, 9, 4, 9, 1];
    // select the largest projection; switching only on strictly larger
    // values keeps the earliest of equal maxima
    let (projection, item) =
        select_fold1(&items, |x: &u64| *x * 2, |a: &u64, _: &u64, b: &u64, _: &u64| a < b).unwrap();
    assert_eq!(item, 9);
    assert_eq!(projection, 18);
}
