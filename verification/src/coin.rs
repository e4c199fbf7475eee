//! The coin: a magnitude and its scale, the change of scale, and sums and
//! differences.

use vstd::prelude::*;
use vstd::string::*;
use crate::denom::Denom;
use crate::error::{outcome, CoinError, Fault};
use crate::magnitude::{amount_text, max_size, measured, size_of};
use crate::reading::{measure, Units};
use crate::writing::render;

verus! {

/// An amount of the token: a magnitude written as a decimal number, and the
/// scale it is counted in. The magnitude is kept as it was given and is read
/// only by the operations that need its value.
#[derive(Clone, Debug, PartialEq, Eq)]
pub struct Coin {
    amount: String,
    denom: Denom,
}

/// The view of a coin: its magnitude as a sequence of characters, and its
/// scale.
pub struct CoinView {
    pub amount: Seq<char>,
    pub denom: Denom,
}

impl View for Coin {
    type V = CoinView;

    closed spec fn view(&self) -> CoinView {
        CoinView { amount: self.amount@, denom: self.denom }
    }
}

impl CoinView {
    /// The coin that stands for `v` minor units in the scale `denom`.
    pub open spec fn of_units(v: int, denom: Denom) -> CoinView {
        CoinView { amount: amount_text(v, denom.places_spec()), denom }
    }

    /// The value of this coin in minor units, or why it has none: its
    /// magnitude is not of the shape its scale allows, or its size is beyond
    /// what amounts are computed with.
    pub open spec fn units(self) -> Result<int, Fault> {
        measured(self.amount, self.denom.places_spec())
    }

    /// This coin in the scale `denom`. A coin that is in that scale already
    /// stays as it is, whatever its magnitude holds.
    pub open spec fn in_scale(self, denom: Denom) -> Result<CoinView, Fault> {
        if self.denom == denom {
            Ok(self)
        } else {
            match self.units() {
                Ok(v) => Ok(Self::of_units(v, denom)),
                Err(fault) => Err(fault),
            }
        }
    }

    /// The value of this coin as an operand that must not be negative.
    pub open spec fn unsigned_units(self) -> Result<int, Fault> {
        match self.units() {
            Ok(v) => if v < 0 {
                Err(Fault::AmountOutOfRange)
            } else {
                Ok(v)
            },
            Err(fault) => Err(fault),
        }
    }

    /// The sum of two coins, neither of them negative, in the scale of the
    /// left one. The left coin is read first.
    pub open spec fn sum(self, rhs: CoinView) -> Result<CoinView, Fault> {
        match self.unsigned_units() {
            Err(fault) => Err(fault),
            Ok(a) => match rhs.unsigned_units() {
                Err(fault) => Err(fault),
                Ok(b) => if a + b > max_size() {
                    Err(Fault::ArithmeticOverflow)
                } else {
                    Ok(Self::of_units(a + b, self.denom))
                },
            },
        }
    }

    /// The left coin less the right one, in the scale of the left one. Either
    /// coin and the result may be negative. The left coin is read first.
    pub open spec fn difference(self, rhs: CoinView) -> Result<CoinView, Fault> {
        match self.units() {
            Err(fault) => Err(fault),
            Ok(a) => match rhs.units() {
                Err(fault) => Err(fault),
                Ok(b) => if size_of(a - b) > max_size() {
                    Err(Fault::ArithmeticOverflow)
                } else {
                    Ok(Self::of_units(a - b, self.denom))
                },
            },
        }
    }
}

impl Coin {
    /// A coin of the major scale with the magnitude `amount`, which is not
    /// looked into.
    pub fn major(amount: &str) -> (coin: Coin)
        ensures
            coin@ == (CoinView { amount: amount@, denom: Denom::Major }),
    {
        Coin { amount: amount.to_owned(), denom: Denom::Major }
    }

    /// A coin of the minor scale with the magnitude `amount`, which is not
    /// looked into.
    pub fn minor(amount: &str) -> (coin: Coin)
        ensures
            coin@ == (CoinView { amount: amount@, denom: Denom::Minor }),
    {
        Coin { amount: amount.to_owned(), denom: Denom::Minor }
    }

    /// A coin of the scale `denom` with the magnitude `amount`, which is not
    /// looked into.
    pub fn new(amount: &str, denom: &Denom) -> (coin: Coin)
        ensures
            coin@ == (CoinView { amount: amount@, denom: *denom }),
    {
        Coin { amount: amount.to_owned(), denom: *denom }
    }

    /// The magnitude, as it was given.
    pub fn amount(&self) -> (amount: String)
        ensures
            amount@ == self@.amount,
    {
        self.amount.clone()
    }

    /// The scale.
    pub fn denom(&self) -> (denom: Denom)
        ensures
            denom == self@.denom,
    {
        self.denom
    }

    /// This coin in the scale `denom`.
    fn in_scale(&self, denom: Denom) -> (r: Result<Coin, CoinError>)
        ensures
            outcome(r) == self@.in_scale(denom),
    {
        if self.denom == denom {
            return Ok(Coin { amount: self.amount.clone(), denom });
        }
        match measure(self.amount.as_str(), self.denom.places()) {
            Ok(units) => Ok(Coin { amount: render(units, denom.places()), denom }),
            Err(error) => Err(error),
        }
    }

    /// This coin in the major scale: a coin of the minor scale is divided by
    /// `MINOR_IN_MAJOR`, exactly.
    pub fn to_major(&self) -> (r: Result<Coin, CoinError>)
        ensures
            outcome(r) == self@.in_scale(Denom::Major),
    {
        self.in_scale(Denom::Major)
    }

    /// This coin in the minor scale: a coin of the major scale is multiplied
    /// by `MINOR_IN_MAJOR`.
    pub fn to_minor(&self) -> (r: Result<Coin, CoinError>)
        ensures
            outcome(r) == self@.in_scale(Denom::Minor),
    {
        self.in_scale(Denom::Minor)
    }

    /// The coin as it is shown: its magnitude, a space, and the name of its
    /// scale under `ticker`.
    pub fn format(&self, ticker: &str) -> (s: String)
        ensures
            s@ == self@.amount + seq![' '] + self@.denom.format_spec(ticker@),
    {
        proof {
            reveal_strlit(" ");
        }
        let mut s = self.amount.clone();
        s.append(" ");
        s.append(self.denom.format(ticker).as_str());
        assert(" "@ =~= seq![' ']);
        s
    }

    /// The sum of two coins in the scale of the left one.
    pub fn add(self, rhs: Coin) -> (r: Result<Coin, CoinError>)
        ensures
            outcome(r) == self@.sum(rhs@),
            r matches Ok(coin) ==> coin@.denom == self@.denom,
    {
        let a = match measure(self.amount.as_str(), self.denom.places()) {
            Ok(units) => units,
            Err(error) => {
                return Err(error);
            },
        };
        if a.negative && a.size > 0 {
            return Err(CoinError::AmountOutOfRange);
        }
        let b = match measure(rhs.amount.as_str(), rhs.denom.places()) {
            Ok(units) => units,
            Err(error) => {
                return Err(error);
            },
        };
        if b.negative && b.size > 0 {
            return Err(CoinError::AmountOutOfRange);
        }
        match a.size.checked_add(b.size) {
            Some(size) => {
                let total = Units { negative: false, size };
                Ok(Coin { amount: render(total, self.denom.places()), denom: self.denom })
            },
            None => Err(CoinError::ArithmeticOverflow),
        }
    }

    /// The left coin less the right one, in the scale of the left one.
    pub fn sub(self, rhs: Coin) -> (r: Result<Coin, CoinError>)
        ensures
            outcome(r) == self@.difference(rhs@),
            r matches Ok(coin) ==> coin@.denom == self@.denom,
    {
        let a = match measure(self.amount.as_str(), self.denom.places()) {
            Ok(units) => units,
            Err(error) => {
                return Err(error);
            },
        };
        let b = match measure(rhs.amount.as_str(), rhs.denom.places()) {
            Ok(units) => units,
            Err(error) => {
                return Err(error);
            },
        };
        let rest = if a.negative != b.negative {
            match a.size.checked_add(b.size) {
                Some(size) => Units { negative: a.negative, size },
                None => {
                    return Err(CoinError::ArithmeticOverflow);
                },
            }
        } else if a.size >= b.size {
            Units { negative: a.negative, size: a.size - b.size }
        } else {
            Units { negative: !a.negative, size: b.size - a.size }
        };
        assert(rest.value() == a.value() - b.value());
        Ok(Coin { amount: render(rest, self.denom.places()), denom: self.denom })
    }
}

} // verus!
