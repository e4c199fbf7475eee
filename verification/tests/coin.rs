use std::str::FromStr;

use cosmos_sdk::Coin as CosmosCoin;
use cosmos_sdk::Decimal;
use cosmos_sdk::Denom as CosmosDenom;
use cosmwasm_std::Coin as CosmWasmCoin;
use wallet_coin::{Coin, CoinError, ContractCoin, Denom, LedgerCoin};

const TICKER: &str = "upunk";

#[test]
fn denom_conversions() {
    let minor = Coin::minor("1");
    let major = minor.to_major().unwrap();

    assert_eq!(major, Coin::major("0.000001"));

    let minor = major.to_minor().unwrap();
    assert_eq!(minor, Coin::minor("1"));
}

fn amounts() -> Vec<&'static str> {
    vec![
        "1",
        "10",
        "100",
        "1000",
        "10000",
        "100000",
        "10000000",
        "100000000",
        "1000000000",
        "10000000000",
        "100000000000",
        "1000000000000",
        "10000000000000",
        "100000000000000",
        "1000000000000000",
        "10000000000000000",
        "100000000000000000",
        "1000000000000000000",
    ]
}

fn cosmwasm(coin: &ContractCoin) -> CosmWasmCoin {
    CosmWasmCoin::new(coin.amount, coin.denom.clone())
}

fn cosmos(coin: &LedgerCoin) -> CosmosCoin {
    CosmosCoin {
        amount: Decimal::from(coin.whole_number().unwrap()),
        denom: CosmosDenom::from_str(&coin.denom()).unwrap(),
    }
}

#[test]
fn coin_to_cosmoswasm() {
    for amount in amounts() {
        let coin = Coin::minor(amount);
        let cosmoswasm_coin = coin.to_contract(TICKER).unwrap();
        assert_eq!(
            cosmwasm(&cosmoswasm_coin),
            CosmWasmCoin::new(
                amount.parse::<u128>().unwrap(),
                Denom::Minor.format(TICKER)
            )
        );
        assert_eq!(
            Coin::from_contract(&cosmoswasm_coin, TICKER).unwrap(),
            Coin::minor(amount)
        );

        let coin = Coin::major(amount);
        let cosmoswasm_coin = coin.to_contract(TICKER).unwrap();
        assert_eq!(
            cosmwasm(&cosmoswasm_coin),
            CosmWasmCoin::new(
                amount.parse::<u128>().unwrap(),
                Denom::Major.format(TICKER)
            )
        );
        assert_eq!(
            Coin::from_contract(&cosmoswasm_coin, TICKER).unwrap(),
            Coin::major(amount)
        );
    }
}

#[test]
fn coin_to_cosmos() {
    for amount in amounts() {
        let coin = Coin::minor(amount);
        let cosmos_coin = coin.to_ledger(TICKER).unwrap();
        assert_eq!(
            cosmos(&cosmos_coin),
            CosmosCoin {
                amount: Decimal::from_str(amount).unwrap(),
                denom: CosmosDenom::from_str(&Denom::Minor.format(TICKER)).unwrap()
            }
        );
        assert_eq!(
            Coin::from_ledger(&cosmos_coin, TICKER).unwrap(),
            Coin::minor(amount)
        );

        let coin = Coin::major(amount);
        let cosmos_coin = coin.to_ledger(TICKER).unwrap();
        assert_eq!(
            cosmos(&cosmos_coin),
            CosmosCoin {
                amount: Decimal::from_str(amount).unwrap(),
                denom: CosmosDenom::from_str(&Denom::Major.format(TICKER)).unwrap()
            }
        );
        assert_eq!(
            Coin::from_ledger(&cosmos_coin, TICKER).unwrap(),
            Coin::major(amount)
        );
    }
}

#[test]
fn test_add() {
    assert_eq!(
        Coin::minor("1").add(Coin::minor("1")).unwrap(),
        Coin::minor("2")
    );
    assert_eq!(
        Coin::major("1").add(Coin::major("1")).unwrap(),
        Coin::major("2")
    );
    assert_eq!(
        Coin::minor("1").add(Coin::major("1")).unwrap(),
        Coin::minor("1000001")
    );
    assert_eq!(
        Coin::major("1").add(Coin::minor("1")).unwrap(),
        Coin::major("1.000001")
    );
}

#[test]
fn test_sub() {
    assert_eq!(
        Coin::minor("1").sub(Coin::minor("1")).unwrap(),
        Coin::minor("0")
    );
    assert_eq!(
        Coin::major("1").sub(Coin::major("1")).unwrap(),
        Coin::major("0")
    );
    assert_eq!(
        Coin::minor("1").sub(Coin::major("1")).unwrap(),
        Coin::minor("-999999")
    );
    assert_eq!(
        Coin::major("1").sub(Coin::minor("1")).unwrap(),
        Coin::major("0.999999")
    );
}

#[test]
fn negative_amount_is_out_of_range_for_contract() {
    assert_eq!(
        Coin::minor("-1").to_contract(TICKER),
        Err(CoinError::AmountOutOfRange)
    );
}
