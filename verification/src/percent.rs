//! Errors of reading a percentage.
use vstd::prelude::*;
use core::cmp::Ordering;
use std::num::ParseFloatError;

verus! {

/// The error of `str::parse` for a floating point number.
#[verifier::external_type_specification]
#[verifier::external_body]
pub struct ExParseFloatError(ParseFloatError);

/// Where a value lies relative to the range of percentages.
#[derive(Debug, Clone, Copy, PartialEq, Eq, Structural)]
pub enum Bound {
    Less,
    Equal,
    Greater,
}

/// Why a text is not a percentage.
#[derive(Debug)]
pub enum PercentError {
    /// The number is below zero (`Less`) or above a hundred (`Greater`).
    Value(Bound),
    /// The text is not a number.
    Parse(ParseFloatError),
}

impl PercentError {
    /// The error of a number out of range, on the side `side` says.
    pub fn from_ordering(side: Ordering) -> (res: PercentError)
        ensures
            res == PercentError::Value(match side {
                Ordering::Less => Bound::Less,
                Ordering::Equal => Bound::Equal,
                Ordering::Greater => Bound::Greater,
            }),
    {
        PercentError::Value(
            match side {
                Ordering::Less => Bound::Less,
                Ordering::Equal => Bound::Equal,
                Ordering::Greater => Bound::Greater,
            },
        )
    }
}

impl From<ParseFloatError> for PercentError {
    fn from(pfe: ParseFloatError) -> (res: PercentError) {
        PercentError::Parse(pfe)
    }
}

impl vstd::std_specs::convert::FromSpecImpl<ParseFloatError> for PercentError {
    open spec fn obeys_from_spec() -> bool {
        true
    }

    open spec fn from_spec(pfe: ParseFloatError) -> PercentError {
        PercentError::Parse(pfe)
    }
}

} // verus!
