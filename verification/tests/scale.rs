use wallet_coin::{Coin, CoinError, Denom};

const MAX: &str = "340282366920938463463374607431768211455";
const ABOVE_MAX: &str = "340282366920938463463374607431768211456";

#[test]
fn constructors_keep_what_they_are_given() {
    assert_eq!(Coin::major("1.5").amount(), "1.5");
    assert_eq!(Coin::major("1.5").denom(), Denom::Major);
    assert_eq!(Coin::minor("12").amount(), "12");
    assert_eq!(Coin::minor("12").denom(), Denom::Minor);
    assert_eq!(Coin::new("7", &Denom::Major), Coin::major("7"));
    assert_eq!(Coin::new("7", &Denom::Minor), Coin::minor("7"));
    assert_eq!(Coin::minor("not a number").amount(), "not a number");
}

#[test]
fn coins_differ_by_text_and_by_scale() {
    assert_ne!(Coin::major("1"), Coin::minor("1"));
    assert_ne!(Coin::major("1"), Coin::major("1.0"));
}

#[test]
fn minor_to_major_divides_by_a_million() {
    assert_eq!(Coin::minor("1").to_major(), Ok(Coin::major("0.000001")));
    assert_eq!(Coin::minor("1000000").to_major(), Ok(Coin::major("1")));
    assert_eq!(Coin::minor("1500000").to_major(), Ok(Coin::major("1.5")));
    assert_eq!(Coin::minor("1000001").to_major(), Ok(Coin::major("1.000001")));
    assert_eq!(Coin::minor("123456789").to_major(), Ok(Coin::major("123.456789")));
    assert_eq!(Coin::minor("120").to_major(), Ok(Coin::major("0.00012")));
    assert_eq!(Coin::minor("0").to_major(), Ok(Coin::major("0")));
}

#[test]
fn major_to_minor_multiplies_by_a_million() {
    assert_eq!(Coin::major("1").to_minor(), Ok(Coin::minor("1000000")));
    assert_eq!(Coin::major("0.000001").to_minor(), Ok(Coin::minor("1")));
    assert_eq!(Coin::major("1.5").to_minor(), Ok(Coin::minor("1500000")));
    assert_eq!(Coin::major("1.50").to_minor(), Ok(Coin::minor("1500000")));
    assert_eq!(Coin::major("123.456789").to_minor(), Ok(Coin::minor("123456789")));
    assert_eq!(Coin::major("0").to_minor(), Ok(Coin::minor("0")));
    assert_eq!(Coin::major("0.000000").to_minor(), Ok(Coin::minor("0")));
}

#[test]
fn a_coin_in_the_scale_asked_for_stays_as_it_is() {
    assert_eq!(Coin::major("1.50").to_major(), Ok(Coin::major("1.50")));
    assert_eq!(Coin::minor("007").to_minor(), Ok(Coin::minor("007")));
    assert_eq!(Coin::major("rubbish").to_major(), Ok(Coin::major("rubbish")));
    assert_eq!(Coin::minor("").to_minor(), Ok(Coin::minor("")));
}

#[test]
fn negative_amounts_change_scale() {
    assert_eq!(Coin::minor("-999999").to_major(), Ok(Coin::major("-0.999999")));
    assert_eq!(Coin::minor("-1000000").to_major(), Ok(Coin::major("-1")));
    assert_eq!(Coin::major("-0.5").to_minor(), Ok(Coin::minor("-500000")));
    assert_eq!(Coin::major("-2").to_minor(), Ok(Coin::minor("-2000000")));
}

#[test]
fn signs_and_leading_zeros_are_read_and_not_written() {
    assert_eq!(Coin::minor("+5").to_major(), Ok(Coin::major("0.000005")));
    assert_eq!(Coin::minor("007").to_major(), Ok(Coin::major("0.000007")));
    assert_eq!(Coin::major("+01.5").to_minor(), Ok(Coin::minor("1500000")));
    assert_eq!(Coin::minor("-0").to_major(), Ok(Coin::major("0")));
    assert_eq!(Coin::major("-0.0").to_minor(), Ok(Coin::minor("0")));
}

#[test]
fn scale_round_trip() {
    for n in ["0", "1", "999999", "1000000", "1000001", "-1", "-1234567", MAX] {
        let minor = Coin::minor(n);
        let major = minor.to_major().unwrap();
        assert_eq!(major.denom(), Denom::Major);
        assert_eq!(major.to_minor().unwrap().amount(), n);
    }
}

#[test]
fn the_largest_amount_changes_scale() {
    assert_eq!(
        Coin::minor(MAX).to_major(),
        Ok(Coin::major("340282366920938463463374607431768.211455"))
    );
    assert_eq!(
        Coin::major("340282366920938463463374607431768.211455").to_minor(),
        Ok(Coin::minor(MAX))
    );
    assert_eq!(
        Coin::minor("-340282366920938463463374607431768211455").to_major(),
        Ok(Coin::major("-340282366920938463463374607431768.211455"))
    );
}

#[test]
fn amounts_beyond_the_largest_are_out_of_range() {
    assert_eq!(Coin::minor(ABOVE_MAX).to_major(), Err(CoinError::AmountOutOfRange));
    assert_eq!(
        Coin::major("340282366920938463463374607431768.211456").to_minor(),
        Err(CoinError::AmountOutOfRange)
    );
    assert_eq!(Coin::major(MAX).to_minor(), Err(CoinError::AmountOutOfRange));
    assert_eq!(
        Coin::minor("-340282366920938463463374607431768211456").to_major(),
        Err(CoinError::AmountOutOfRange)
    );
    assert_eq!(
        Coin::minor("99999999999999999999999999999999999999999999999999").to_major(),
        Err(CoinError::AmountOutOfRange)
    );
}

#[test]
fn text_that_is_no_number_is_malformed() {
    for text in [
        "", "abc", "-", "+", ".", "1.", ".5", "1.5.2", "1,5", " 1", "1 ", "--1", "+-1", "1e3", "0x10",
        "1_000", "\u{662}", "1.\u{663}", "NaN", "inf",
    ] {
        assert_eq!(
            Coin::major(text).to_minor(),
            Err(CoinError::MalformedAmount),
            "major {:?}",
            text
        );
        assert_eq!(
            Coin::minor(text).to_major(),
            Err(CoinError::MalformedAmount),
            "minor {:?}",
            text
        );
    }
}

#[test]
fn a_major_amount_has_at_most_six_places() {
    assert_eq!(Coin::major("0.123456").to_minor(), Ok(Coin::minor("123456")));
    assert_eq!(Coin::major("0.1234567").to_minor(), Err(CoinError::MalformedAmount));
    assert_eq!(Coin::major("1.0000000").to_minor(), Err(CoinError::MalformedAmount));
}

#[test]
fn a_minor_amount_has_no_places() {
    assert_eq!(Coin::minor("1.5").to_major(), Err(CoinError::MalformedAmount));
    assert_eq!(Coin::minor("1.0").to_major(), Err(CoinError::MalformedAmount));
}

#[test]
fn malformed_comes_before_out_of_range() {
    let long = format!("{}x", ABOVE_MAX);
    assert_eq!(Coin::minor(&long).to_major(), Err(CoinError::MalformedAmount));
    let long = format!("{}.1234567", ABOVE_MAX);
    assert_eq!(Coin::major(&long).to_minor(), Err(CoinError::MalformedAmount));
}

#[test]
fn a_coin_is_shown_with_the_name_of_its_scale() {
    assert_eq!(Coin::minor("1").format("upunk"), "1 upunk");
    assert_eq!(Coin::major("0.5").format("upunk"), "0.5 punk");
    assert_eq!(Coin::major("").format(""), " ");
}
