//! make images from things containing brightness information

use vstd::prelude::*;

use crate::fixed::SCALE;
use crate::matrix::Matrix2D;

verus! {

#[verifier::external_type_specification]
#[verifier::external_body]
pub struct ExDynamicImage(image::DynamicImage);

/// The 8-bit grayscale level of an entry known to lie in `[0, 1]`: the
/// value times `255`, rounded to the nearest integer.
pub open spec fn luma_byte_s(x: int) -> int {
    (x * 255 + (SCALE as int) / 2) / (SCALE as int)
}

/// The entries of `m` as 8-bit grayscale levels, row-major.
///
/// Every entry must lie in `[0, 1]`; values above one would not fit a byte.
pub fn luma_bytes(m: &Matrix2D) -> (r: Vec<u8>)
    requires
        m.wf(),
        m.spec_ncols() > 0,
        m.spec_nrows() * m.spec_ncols() <= usize::MAX,
        forall|i: int, j: int|
            0 <= i < m.spec_nrows() && 0 <= j < m.spec_ncols() ==> #[trigger] m.at(i, j) <= SCALE,
    ensures
        r@.len() == m.spec_nrows() * m.spec_ncols(),
        forall|k: int|
            0 <= k < r@.len() ==> #[trigger] r@[k] == luma_byte_s(
                m.at(k / m.spec_ncols() as int, k % m.spec_ncols() as int),
            ),
{
    let nrows: usize = m.nrows();
    let ncols: usize = m.ncols();
    proof {
        assert(nrows * ncols <= usize::MAX);
    }
    let total: usize = nrows * ncols;
    let mut bytes: Vec<u8> = Vec::new();
    let mut k: usize = 0;
    while k < total
        invariant
            m.wf(),
            nrows == m.spec_nrows(),
            ncols == m.spec_ncols(),
            ncols > 0,
            total == nrows * ncols,
            forall|i: int, j: int|
                0 <= i < nrows && 0 <= j < ncols ==> #[trigger] m.at(i, j) <= SCALE,
            k <= total,
            bytes@.len() == k,
            forall|t: int|
                0 <= t < k ==> #[trigger] bytes@[t] == luma_byte_s(
                    m.at(t / ncols as int, t % ncols as int),
                ),
        decreases total - k,
    {
        proof {
            assert(k / ncols < nrows) by (nonlinear_arith)
                requires
                    0 < ncols,
                    0 <= k,
                    k < nrows * ncols,
            ;
        }
        let i: usize = k / ncols;
        let j: usize = k % ncols;
        let x: u64 = m.get(i, j).to_bits();
        let wide: u128 = (x as u128) * 255 + (SCALE / 2) as u128;
        let level: u128 = wide / (SCALE as u128);
        proof {
            assert((x as int) * 255 + (SCALE as int) / 2 < 256 * (SCALE as int)) by (nonlinear_arith)
                requires
                    0 <= x <= SCALE,
            ;
            assert(((x as int) * 255 + (SCALE as int) / 2) / (SCALE as int) < 256) by (nonlinear_arith)
                requires
                    (x as int) * 255 + (SCALE as int) / 2 < 256 * (SCALE as int),
                    0 <= (x as int) * 255 + (SCALE as int) / 2,
            ;
        }
        bytes.push(level as u8);
        k += 1;
    }
    bytes
}

/// make images from things containing brightness information
pub trait ToImage {
    /// The inputs `to_image` accepts.
    spec fn to_image_req(&self) -> bool;

    /// The picture rendered as an 8-bit grayscale image, with brightness
    /// `0` mapped to black and `1` to white.
    fn to_image(&self) -> image::DynamicImage
        requires
            self.to_image_req(),
    ;
}

impl ToImage for Matrix2D {
    /// A matrix can be rendered when all its values are between `0`
    /// (inclusive) and `1` (inclusive) and its dimensions fit an image.
    open spec fn to_image_req(&self) -> bool {
        &&& self.wf()
        &&& 0 < self.spec_ncols() <= u32::MAX
        &&& 0 < self.spec_nrows() <= u32::MAX
        &&& self.spec_nrows() * self.spec_ncols() <= usize::MAX
        &&& forall|i: int, j: int|
            0 <= i < self.spec_nrows() && 0 <= j < self.spec_ncols() ==> #[trigger] self.at(i, j)
                <= SCALE
    }

    fn to_image(&self) -> image::DynamicImage {
        let bytes = luma_bytes(self);
        let width: u32 = self.ncols() as u32;
        let height: u32 = self.nrows() as u32;
        proof {
            assert(self.spec_nrows() * self.spec_ncols() == (width as int) * (height as int))
                by (nonlinear_arith)
                requires
                    width == self.spec_ncols(),
                    height == self.spec_nrows(),
            ;
        }
        luma8_image(width, height, bytes)
    }
}

/// Relies on `image::ImageBuffer::from_raw`, which wraps a byte buffer of
/// exactly `width * height` bytes as a grayscale image, and on
/// `image::DynamicImage::ImageLuma8`, which only tags it.
#[verifier::external_body]
fn luma8_image(width: u32, height: u32, bytes: Vec<u8>) -> image::DynamicImage
    requires
        bytes@.len() == (width as int) * (height as int),
{
    match image::ImageBuffer::from_raw(width, height, bytes) {
        Some(buffer) => image::DynamicImage::ImageLuma8(buffer),
        None => image::DynamicImage::new_luma8(width, height),
    }
}

} // verus!
