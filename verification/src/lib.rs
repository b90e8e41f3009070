//! Orthogonal non-negative matrix factorization.
//!
//! Given a batch of non-negative observation rows `S`, the solvers in this
//! crate iteratively refine a pair of non-negative factor matrices: a hidden
//! basis `H` (one basis vector per row) and per-sample mixing weights `W`,
//! so that `W * H` reconstructs `S`, while an orthogonality penalty drives
//! the rows of `H` toward disjoint support.
//!
//! All numbers are [`fixed::Fixed`], a non-negative fixed-point scalar, so
//! every update step has an exact, fully deterministic contract.

pub mod fixed;
pub mod helpers;
pub mod gemm;
pub mod matrix;
pub mod nmf_blas;
pub mod orthogonal_nmf;
pub mod orthogonal_nmf_blas;
pub mod testimage_generator;

pub use fixed::Fixed;
pub use nmf_blas::NMFBlas;
pub use orthogonal_nmf::OrthogonalNMF;
pub use orthogonal_nmf_blas::OrthogonalNMFBlas;
pub use matrix::Matrix2D;
