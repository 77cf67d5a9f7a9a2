//! A small dense matrix over any element type that can name its own zero,
//! with elementwise addition and a plain-text rendering.

pub mod complex;
pub mod decimal;
pub mod element;
pub mod header;
pub mod matrix;
pub mod text;

pub use crate::complex::Complex;
pub use crate::element::{One, Render, Zero};
pub use crate::matrix::Matrix;
