//! Amounts as contracts take them: a number of 128 bits without sign.

use vstd::prelude::*;
use crate::coin::{Coin, CoinView};
use crate::denom::Denom;
use crate::error::{outcome, CoinError, Fault};
use crate::magnitude::{is_decimal, natural_of, natural_text};
use crate::reading::{chars_of, scan};

verus! {

/// An amount as contracts take it: a number of 128 bits without sign, and the
/// name of its denomination.
#[derive(Clone, Debug, PartialEq, Eq)]
pub struct ContractCoin {
    pub amount: u128,
    pub denom: String,
}

/// The view of a contract amount: its number, and its name as a sequence of
/// characters.
pub struct ContractCoinView {
    pub amount: nat,
    pub denom: Seq<char>,
}

impl View for ContractCoin {
    type V = ContractCoinView;

    open spec fn view(&self) -> ContractCoinView {
        ContractCoinView { amount: self.amount as nat, denom: self.denom@ }
    }
}

/// Reads a magnitude with `Uint128::try_from` of cosmwasm-std, which parses
/// it as a `u128`: an optional plus sign and digits, no more than `u128::MAX`.
#[verifier::external_body]
fn contract_amount(s: &str) -> (r: Option<u128>)
    ensures
        match r {
            Some(n) => natural_of(s@, u128::MAX as nat) == Some(n as nat),
            None => natural_of(s@, u128::MAX as nat) is None,
        },
{
    match cosmwasm_std::Uint128::try_from(s) {
        Ok(n) => Some(n.u128()),
        Err(_) => None,
    }
}

/// Writes a contract amount the way `Uint128` of cosmwasm-std displays it:
/// as the decimal digits of its number.
#[verifier::external_body]
fn contract_amount_text(n: u128) -> (s: String)
    ensures
        s@ == natural_text(n as nat),
{
    cosmwasm_std::Uint128::new(n).to_string()
}

impl ContractCoin {
    /// The contract amount of `amount` units named `denom`.
    pub fn new(amount: u128, denom: &str) -> (coin: ContractCoin)
        ensures
            coin@ == (ContractCoinView { amount: amount as nat, denom: denom@ }),
    {
        ContractCoin { amount, denom: denom.to_owned() }
    }
}

impl CoinView {
    /// This coin as a contract amount under `ticker`: its magnitude read as an
    /// unsigned integer of 128 bits, whatever its scale, and the name of its
    /// scale. A magnitude that is a decimal number but no such integer is out
    /// of range.
    pub open spec fn to_contract(self, ticker: Seq<char>) -> Result<ContractCoinView, Fault> {
        match natural_of(self.amount, u128::MAX as nat) {
            Some(n) => Ok(ContractCoinView { amount: n, denom: self.denom.format_spec(ticker) }),
            None => if is_decimal(self.amount) {
                Err(Fault::AmountOutOfRange)
            } else {
                Err(Fault::MalformedAmount)
            },
        }
    }

    /// The coin that a contract amount stands for under `ticker`.
    pub open spec fn from_contract(coin: ContractCoinView, ticker: Seq<char>) -> Result<
        CoinView,
        Fault,
    > {
        match Denom::parse_spec(coin.denom, ticker) {
            Ok(denom) => Ok(CoinView { amount: natural_text(coin.amount), denom }),
            Err(fault) => Err(fault),
        }
    }
}

impl Coin {
    /// This coin as a contract amount, its scale named under `ticker`.
    pub fn to_contract(&self, ticker: &str) -> (r: Result<ContractCoin, CoinError>)
        ensures
            outcome(r) == self@.to_contract(ticker@),
    {
        let amount = self.amount();
        match contract_amount(amount.as_str()) {
            Some(n) => Ok(ContractCoin { amount: n, denom: self.denom().format(ticker) }),
            None => {
                let chars = chars_of(amount.as_str());
                if scan(&chars).is_some() {
                    Err(CoinError::AmountOutOfRange)
                } else {
                    Err(CoinError::MalformedAmount)
                }
            },
        }
    }

    /// The coin that a contract amount stands for, its scale read under
    /// `ticker`.
    pub fn from_contract(coin: &ContractCoin, ticker: &str) -> (r: Result<Coin, CoinError>)
        ensures
            outcome(r) == CoinView::from_contract(coin@, ticker@),
    {
        match Denom::parse(coin.denom.as_str(), ticker) {
            Ok(denom) => Ok(Coin::new(contract_amount_text(coin.amount).as_str(), &denom)),
            Err(error) => Err(error),
        }
    }
}

} // verus!
