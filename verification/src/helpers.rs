//! Helper functions used by this crate whose utility surpasses the
//! confines of this crate: generic things that are also useful elsewhere.

pub mod magnify;
pub mod normalize;
pub mod partial_max;
pub mod random;
pub mod repeatedly;
pub mod to_image;

pub use self::magnify::magnify;
pub use self::normalize::Normalize;
pub use self::partial_max::PartialMaxIteratorExt;
pub use self::random::random01;
pub use self::repeatedly::{repeatedly, Repeatedly};
pub use self::to_image::ToImage;
