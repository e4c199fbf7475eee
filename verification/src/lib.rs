//! Amounts of a token that is counted in two scales, a major and a minor one,
//! a million minor units to the major unit: written as decimal numbers, kept
//! as text, changed from one scale to the other, added and subtracted, and
//! taken to and from the amounts of a ledger and of contracts.

pub mod coin;
pub mod contract;
pub mod denom;
pub mod error;
pub mod laws;
pub mod ledger;
pub mod magnitude;
mod reading;
mod writing;

pub use crate::coin::{Coin, CoinView};
pub use crate::contract::{ContractCoin, ContractCoinView};
pub use crate::denom::Denom;
pub use crate::error::{CoinError, Fault};
pub use crate::ledger::{LedgerCoin, LedgerCoinView};
