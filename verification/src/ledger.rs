//! Amounts as the ledger takes them: a decimal number of any size and either
//! sign, and the name of its denomination. The decimal is kept as text, in
//! its canonical form. The ledger crate's own decimal holds less; what it
//! makes of an amount is asked of it.

use std::str::FromStr;
use vstd::prelude::*;
use crate::coin::{Coin, CoinView};
use crate::denom::Denom;
use crate::error::{outcome, CoinError, Fault};
use crate::magnitude::{
    canonical, is_canonical, is_decimal, lemma_canonical, lemma_canonical_natural, natural_of,
    natural_text,
};
use crate::reading::canonical_form;

verus! {

/// An amount as the ledger takes it: a decimal number in its canonical form,
/// and the name of its denomination.
#[derive(Debug, PartialEq, Eq)]
pub struct LedgerCoin {
    amount: String,
    denom: String,
}

/// The view of a ledger amount: its decimal and its name, both as sequences
/// of characters.
pub struct LedgerCoinView {
    pub amount: Seq<char>,
    pub denom: Seq<char>,
}

impl View for LedgerCoin {
    type V = LedgerCoinView;

    closed spec fn view(&self) -> LedgerCoinView {
        LedgerCoinView { amount: self.amount@, denom: self.denom@ }
    }
}

impl Clone for LedgerCoin {
    fn clone(&self) -> (coin: LedgerCoin)
        ensures
            coin@ == self@,
    {
        proof {
            use_type_invariant(self);
        }
        LedgerCoin { amount: self.amount.clone(), denom: self.denom.clone() }
    }
}

/// Whether the ledger crate takes `s` as the name of a denomination: it
/// holds nothing but the letters 'a' to 'z'.
pub open spec fn is_ledger_denom(s: Seq<char>) -> bool {
    forall|i: int| 0 <= i < s.len() ==> 'a' <= #[trigger] s[i] && s[i] <= 'z'
}

/// Reads a decimal with `Decimal::from_str` of cosmos_sdk, which parses it
/// as a `u64`: an optional plus sign and digits, no more than `u64::MAX`. The
/// number is taken from what the decimal displays, which is that `u64`.
#[verifier::external_body]
fn ledger_amount(s: &str) -> (r: Option<u64>)
    ensures
        match r {
            Some(n) => natural_of(s@, u64::MAX as nat) == Some(n as nat),
            None => natural_of(s@, u64::MAX as nat) is None,
        },
{
    match cosmos_sdk::Decimal::from_str(s) {
        Ok(decimal) => decimal.to_string().parse::<u64>().ok(),
        Err(_) => None,
    }
}

/// Asks `Denom::from_str` of cosmos_sdk whether it takes `s`: it does where
/// every character of `s` is one of 'a' to 'z'.
#[verifier::external_body]
fn ledger_takes_denom(s: &str) -> (r: bool)
    ensures
        r == is_ledger_denom(s@),
{
    cosmos_sdk::Denom::from_str(s).is_ok()
}

impl LedgerCoinView {
    /// The ledger amount of the decimal that `amount` denotes, named `denom`:
    /// the decimal in its canonical form, where `amount` is a decimal number
    /// at all.
    pub open spec fn of(amount: Seq<char>, denom: Seq<char>) -> Result<LedgerCoinView, Fault> {
        if is_decimal(amount) {
            Ok(LedgerCoinView { amount: canonical(amount), denom })
        } else {
            Err(Fault::MalformedAmount)
        }
    }
}

impl LedgerCoin {
    /// What every ledger amount holds: a decimal number in its canonical form.
    #[verifier::type_invariant]
    spec fn holds_a_decimal(self) -> bool {
        is_canonical(self.amount@)
    }

    /// The ledger amount of the decimal that `amount` denotes, named `denom`.
    /// The decimal may be of any size and either sign.
    pub fn new(amount: &str, denom: &str) -> (r: Result<LedgerCoin, CoinError>)
        ensures
            outcome(r) == LedgerCoinView::of(amount@, denom@),
    {
        match canonical_form(amount) {
            Some(decimal) => {
                proof {
                    lemma_canonical(amount@);
                }
                Ok(LedgerCoin { amount: decimal, denom: denom.to_owned() })
            },
            None => Err(CoinError::MalformedAmount),
        }
    }

    /// The decimal, in its canonical form.
    pub fn amount(&self) -> (amount: String)
        ensures
            amount@ == self@.amount,
            is_canonical(amount@),
    {
        proof {
            use_type_invariant(self);
        }
        self.amount.clone()
    }

    /// The name of the denomination.
    pub fn denom(&self) -> (denom: String)
        ensures
            denom@ == self@.denom,
    {
        self.denom.clone()
    }

    /// The number that the ledger crate's own decimal holds for this amount,
    /// if it can hold it: it holds whole numbers up to `u64::MAX`, and
    /// nothing that is negative or has a fraction.
    pub fn whole_number(&self) -> (r: Option<u64>)
        ensures
            match r {
                Some(n) => natural_of(self@.amount, u64::MAX as nat) == Some(n as nat)
                    && self@.amount == natural_text(n as nat),
                None => natural_of(self@.amount, u64::MAX as nat) is None,
            },
    {
        proof {
            use_type_invariant(self);
            if natural_of(self.amount@, u64::MAX as nat) is Some {
                lemma_canonical_natural(self.amount@, u64::MAX as nat);
            }
        }
        ledger_amount(self.amount.as_str())
    }

    /// Whether the ledger crate takes the name of this amount's denomination.
    pub fn denom_is_taken(&self) -> (r: bool)
        ensures
            r == is_ledger_denom(self@.denom),
    {
        ledger_takes_denom(self.denom.as_str())
    }
}

impl CoinView {
    /// This coin as a ledger amount under `ticker`: the decimal that its
    /// magnitude denotes, whatever its scale, and the name of its scale.
    pub open spec fn to_ledger(self, ticker: Seq<char>) -> Result<LedgerCoinView, Fault> {
        LedgerCoinView::of(self.amount, self.denom.format_spec(ticker))
    }

    /// The coin that a ledger amount stands for under `ticker`: its decimal
    /// for the magnitude, and the scale that its name reads as.
    pub open spec fn from_ledger(coin: LedgerCoinView, ticker: Seq<char>) -> Result<
        CoinView,
        Fault,
    > {
        match Denom::parse_spec(coin.denom, ticker) {
            Ok(denom) => Ok(CoinView { amount: coin.amount, denom }),
            Err(fault) => Err(fault),
        }
    }
}

impl Coin {
    /// This coin as a ledger amount, its scale named under `ticker`. It fails
    /// only where the magnitude is no decimal number.
    pub fn to_ledger(&self, ticker: &str) -> (r: Result<LedgerCoin, CoinError>)
        ensures
            outcome(r) == self@.to_ledger(ticker@),
    {
        let amount = self.amount();
        let denom = self.denom().format(ticker);
        LedgerCoin::new(amount.as_str(), denom.as_str())
    }

    /// The coin that a ledger amount stands for, its scale read under
    /// `ticker`.
    pub fn from_ledger(coin: &LedgerCoin, ticker: &str) -> (r: Result<Coin, CoinError>)
        ensures
            outcome(r) == CoinView::from_ledger(coin@, ticker@),
    {
        match Denom::parse(coin.denom.as_str(), ticker) {
            Ok(denom) => Ok(Coin::new(coin.amount.as_str(), &denom)),
            Err(error) => Err(error),
        }
    }
}

} // verus!
