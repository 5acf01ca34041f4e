//! Failures of the entropy pool and of the composers built on it.

use vstd::prelude::*;

verus! {

/// Why a draw, and with it a whole composition, failed.
///
/// Every failure aborts the composition that depends on it; no partial
/// descriptor is ever returned, and a pool is not reused after a failure.
#[derive(Clone, Copy, Debug, PartialEq, Eq, Structural)]
pub enum IconError {
    /// A draw requested a range exceeding the pool's remaining bound.
    EntropyExhausted,
    /// A range was requested whose upper end does not exceed its lower end.
    InvalidRange,
    /// A weighted choice was requested over weights summing to zero.
    WeightSumZero,
}

impl IconError {
    /// A short description of the failure.
    pub fn message(&self) -> (res: &'static str)
        ensures
            *self is EntropyExhausted ==> res@ == "entropy pool exhausted"@,
            *self is InvalidRange ==> res@ == "invalid range"@,
            *self is WeightSumZero ==> res@ == "weights sum to zero"@,
    {
        match self {
            IconError::EntropyExhausted => "entropy pool exhausted",
            IconError::InvalidRange => "invalid range",
            IconError::WeightSumZero => "weights sum to zero",
        }
    }
}

} // verus!
