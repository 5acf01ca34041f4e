//! Deterministic identicon descriptors.
//!
//! A seed string is hashed into a 512-bit digest, the digest is consumed as a
//! pool of uniform draws, and the draws are composed into one of two icon
//! descriptors (shield-style or shape-style) under a visual-contrast rule.
//! The same seed always yields the same descriptor; distinct seeds yield
//! unrelated-looking ones.

pub mod bignum;
pub mod color;
pub mod error;
pub mod frac;
pub mod pool;
pub mod query;
pub mod shape;
pub mod shield;
