//! The ways in which an operation of the accumulator can fail.
use vstd::prelude::*;

verus! {

/// Why an operation failed.
#[derive(Debug, Clone, Copy, PartialEq, Eq, Structural)]
pub enum AccumulatorError {
    /// Malformed bytes were supplied for a key, an accumulator or a proof.
    ParseError,
    /// `x + alpha` is zero, so no witness exists for the element.
    SingularInput,
    /// Internal arithmetic disagreed with its own re-check.
    InvariantViolation,
}

impl AccumulatorError {
    /// The text of `message`.
    pub open spec fn message_spec(&self) -> Seq<char> {
        match self {
            AccumulatorError::ParseError => "malformed bytes"@,
            AccumulatorError::SingularInput => "x + alpha is zero"@,
            AccumulatorError::InvariantViolation => "internal re-check failed"@,
        }
    }

    /// A short description of the failure.
    pub fn message(&self) -> (r: String)
        ensures
            r@ == self.message_spec(),
    {
        proof {
            reveal_strlit("malformed bytes");
            reveal_strlit("x + alpha is zero");
            reveal_strlit("internal re-check failed");
        }
        match self {
            AccumulatorError::ParseError => String::from_str("malformed bytes"),
            AccumulatorError::SingularInput => String::from_str("x + alpha is zero"),
            AccumulatorError::InvariantViolation => String::from_str("internal re-check failed"),
        }
    }
}

} // verus!
