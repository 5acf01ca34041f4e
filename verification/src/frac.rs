//! Exact fractions for stripe geometry.
//!
//! Stripe strides and positions are ratios of small integers; keeping them as
//! numerator and denominator states the closed-form geometry exactly, where a
//! binary floating-point value could only approximate it.

use vstd::prelude::*;

verus! {

/// A non-negative fraction `num / den`.
#[derive(Debug, Clone, Copy, PartialEq, Eq, Structural)]
pub struct Frac {
    /// Numerator.
    pub num: u32,
    /// Denominator; never zero in any fraction the composers produce.
    pub den: u32,
}

} // verus!
