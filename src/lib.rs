//! Lane-wise dot products: how two equal-length sequences are split into
//! fixed-width lane groups and a scalar tail, and why summing in that order
//! gives the same exact value as a plain left-to-right sum.

pub mod exact;
pub mod plan;
