//! Deterministic tire contact-patch core over fixed-point arithmetic.
//!
//! Every quantity is a signed fixed-point number with six fractional
//! decimal digits: the raw value `1_000_000` stands for `1.0`. All
//! computations are exact integer arithmetic, so identical inputs give
//! identical outputs on every machine.

pub mod contact;
pub mod conv;
pub mod patch;
pub mod radius;
pub mod wear;
pub mod fx;
pub mod normalize;
pub mod vec3;
