//! The reasons for which an operation on an amount is refused.

use vstd::prelude::*;

verus! {

/// Why an operation on an amount was refused.
#[derive(Debug, PartialEq, Eq)]
pub enum CoinError {
    /// The text names neither denomination; it is carried along as it was given.
    InvalidDenomination(String),
    /// The magnitude is not a decimal number of the shape its denomination allows.
    MalformedAmount,
    /// The magnitude is a decimal number, but not one that the target can hold.
    AmountOutOfRange,
    /// The sum or difference does not fit the width that amounts are computed in.
    ArithmeticOverflow,
}

/// What a `CoinError` says, with the carried text as a sequence of characters.
pub enum Fault {
    InvalidDenomination(Seq<char>),
    MalformedAmount,
    AmountOutOfRange,
    ArithmeticOverflow,
}

impl View for CoinError {
    type V = Fault;

    open spec fn view(&self) -> Fault {
        match self {
            CoinError::InvalidDenomination(text) => Fault::InvalidDenomination(text@),
            CoinError::MalformedAmount => Fault::MalformedAmount,
            CoinError::AmountOutOfRange => Fault::AmountOutOfRange,
            CoinError::ArithmeticOverflow => Fault::ArithmeticOverflow,
        }
    }
}

/// The view of a result: of what it holds, whichever side that is.
pub open spec fn outcome<T: View>(r: Result<T, CoinError>) -> Result<T::V, Fault> {
    match r {
        Ok(value) => Ok(value@),
        Err(error) => Err(error@),
    }
}

} // verus!
