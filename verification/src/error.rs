//! The ways in which the pipeline refuses its input.

use vstd::prelude::*;

verus! {

/// Why an interval or a stream of columns was refused.
#[derive(Clone, Copy, Debug, PartialEq, Eq, Structural)]
pub enum PipelineError {
    /// An interval line has fewer than three fields, or a start or end that
    /// is not a number of 32 bits.
    InvalidInterval,
    /// A coordinate is smaller than the one before it on the same reference.
    OrderingViolation,
    /// A record is due for a reference id that has no name.
    UnknownReference,
}

impl PipelineError {
    /// A short description for diagnostics.
    pub fn message(&self) -> (text: &'static str)
        ensures
            text@ == match *self {
                PipelineError::InvalidInterval => "invalid interval"@,
                PipelineError::OrderingViolation => "coordinates out of order"@,
                PipelineError::UnknownReference => "unknown reference id"@,
            },
    {
        match self {
            PipelineError::InvalidInterval => "invalid interval",
            PipelineError::OrderingViolation => "coordinates out of order",
            PipelineError::UnknownReference => "unknown reference id",
        }
    }
}

} // verus!
