//! Integer vectors and single-precision matrices as plain values.

pub mod matrix;
pub mod single;
pub mod vector;
