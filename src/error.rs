//! Why an interpolation call produced no values.

use vstd::prelude::*;

verus! {

/// The ways in which an interpolation call can fail.
#[derive(Debug, Clone, Copy, PartialEq, Eq, Structural)]
pub enum InterpError {
    /// A query lies outside the closed interval from the first to the last sample.
    Range,
    /// The sample set has no elements.
    NoneArray,
    /// No pair of consecutive samples encloses a query.
    Unbracketed,
}

impl InterpError {
    /// The human-readable sentence for the error.
    pub fn message(&self) -> (r: &'static str)
        ensures
            *self == InterpError::Range ==> r@ == "xi is not bound by x"@,
            *self == InterpError::NoneArray ==> r@ == "Returned none when looking for data in x"@,
            *self == InterpError::Unbracketed ==> r@ == "no pair of samples in x encloses xi"@,
    {
        match self {
            InterpError::Range => "xi is not bound by x",
            InterpError::NoneArray => "Returned none when looking for data in x",
            InterpError::Unbracketed => "no pair of samples in x encloses xi",
        }
    }

    /// A short description of the error.
    pub fn description(&self) -> (r: &'static str)
        ensures
            *self == InterpError::Range ==> r@ == "out of bounds"@,
            *self == InterpError::NoneArray ==> r@ == "option is none"@,
            *self == InterpError::Unbracketed ==> r@ == "no enclosing interval"@,
    {
        match self {
            InterpError::Range => "out of bounds",
            InterpError::NoneArray => "option is none",
            InterpError::Unbracketed => "no enclosing interval",
        }
    }
}

} // verus!
