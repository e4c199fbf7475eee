use wallet_coin::{Coin, CoinError, Denom};

const MAX: &str = "340282366920938463463374607431768211455";
const ABOVE_MAX: &str = "340282366920938463463374607431768211456";

#[test]
fn sum_is_in_the_scale_of_the_left_coin() {
    for (lhs, rhs) in [
        (Coin::minor("5"), Coin::minor("7")),
        (Coin::minor("5"), Coin::major("7")),
        (Coin::major("5"), Coin::minor("7")),
        (Coin::major("5"), Coin::major("7")),
    ] {
        let denom = lhs.denom();
        assert_eq!(lhs.add(rhs).unwrap().denom(), denom);
    }
}

#[test]
fn difference_is_in_the_scale_of_the_left_coin() {
    for (lhs, rhs) in [
        (Coin::minor("5"), Coin::minor("7")),
        (Coin::minor("5"), Coin::major("7")),
        (Coin::major("5"), Coin::minor("7")),
        (Coin::major("5"), Coin::major("7")),
    ] {
        let denom = lhs.denom();
        assert_eq!(lhs.sub(rhs).unwrap().denom(), denom);
    }
}

#[test]
fn sum_of_fractions() {
    assert_eq!(
        Coin::major("0.5").add(Coin::major("0.5")),
        Ok(Coin::major("1"))
    );
    assert_eq!(
        Coin::major("1.25").add(Coin::minor("250000")),
        Ok(Coin::major("1.5"))
    );
    assert_eq!(
        Coin::minor("250000").add(Coin::major("1.25")),
        Ok(Coin::minor("1500000"))
    );
    assert_eq!(Coin::minor("0").add(Coin::major("0")), Ok(Coin::minor("0")));
}

#[test]
fn sum_writes_the_value_not_the_text() {
    assert_eq!(Coin::minor("007").add(Coin::minor("+3")), Ok(Coin::minor("10")));
    assert_eq!(Coin::major("1.50").add(Coin::major("0")), Ok(Coin::major("1.5")));
    assert_eq!(Coin::minor("-0").add(Coin::minor("0")), Ok(Coin::minor("0")));
}

#[test]
fn sum_refuses_a_negative_coin() {
    assert_eq!(
        Coin::minor("-1").add(Coin::minor("2")),
        Err(CoinError::AmountOutOfRange)
    );
    assert_eq!(
        Coin::minor("2").add(Coin::minor("-1")),
        Err(CoinError::AmountOutOfRange)
    );
    assert_eq!(
        Coin::major("2").add(Coin::major("-0.000001")),
        Err(CoinError::AmountOutOfRange)
    );
}

#[test]
fn sum_refuses_text_that_is_no_number() {
    assert_eq!(
        Coin::minor("one").add(Coin::minor("2")),
        Err(CoinError::MalformedAmount)
    );
    assert_eq!(
        Coin::minor("2").add(Coin::minor("")),
        Err(CoinError::MalformedAmount)
    );
    assert_eq!(
        Coin::minor("2.5").add(Coin::minor("1")),
        Err(CoinError::MalformedAmount)
    );
    assert_eq!(
        Coin::major("1").add(Coin::major("0.0000001")),
        Err(CoinError::MalformedAmount)
    );
}

#[test]
fn sum_reads_the_left_coin_first() {
    assert_eq!(
        Coin::minor("-1").add(Coin::minor("x")),
        Err(CoinError::AmountOutOfRange)
    );
    assert_eq!(
        Coin::minor("x").add(Coin::minor("-1")),
        Err(CoinError::MalformedAmount)
    );
    assert_eq!(
        Coin::minor(ABOVE_MAX).add(Coin::minor("x")),
        Err(CoinError::AmountOutOfRange)
    );
}

#[test]
fn sum_up_to_the_largest_amount() {
    assert_eq!(
        Coin::minor("340282366920938463463374607431768211454").add(Coin::minor("1")),
        Ok(Coin::minor(MAX))
    );
    assert_eq!(Coin::minor(MAX).add(Coin::minor("0")), Ok(Coin::minor(MAX)));
}

#[test]
fn sum_beyond_the_largest_amount_overflows() {
    assert_eq!(
        Coin::minor(MAX).add(Coin::minor("1")),
        Err(CoinError::ArithmeticOverflow)
    );
    assert_eq!(
        Coin::minor(MAX).add(Coin::minor(MAX)),
        Err(CoinError::ArithmeticOverflow)
    );
    assert_eq!(
        Coin::major("340282366920938463463374607431768").add(Coin::major("1")),
        Err(CoinError::ArithmeticOverflow)
    );
}

#[test]
fn a_coin_beyond_the_largest_amount_is_out_of_range() {
    assert_eq!(
        Coin::minor(ABOVE_MAX).add(Coin::minor("1")),
        Err(CoinError::AmountOutOfRange)
    );
    assert_eq!(
        Coin::minor("1").sub(Coin::major(MAX)),
        Err(CoinError::AmountOutOfRange)
    );
}

#[test]
fn difference_may_be_negative() {
    assert_eq!(Coin::minor("1").sub(Coin::minor("3")), Ok(Coin::minor("-2")));
    assert_eq!(
        Coin::major("0.5").sub(Coin::major("2")),
        Ok(Coin::major("-1.5"))
    );
    assert_eq!(Coin::minor("-1").sub(Coin::minor("3")), Ok(Coin::minor("-4")));
    assert_eq!(Coin::minor("-1").sub(Coin::minor("-3")), Ok(Coin::minor("2")));
    assert_eq!(Coin::minor("-3").sub(Coin::minor("-1")), Ok(Coin::minor("-2")));
    assert_eq!(Coin::minor("3").sub(Coin::minor("-1")), Ok(Coin::minor("4")));
    assert_eq!(Coin::minor("-0").sub(Coin::minor("0")), Ok(Coin::minor("0")));
    assert_eq!(Coin::minor("0").sub(Coin::minor("-0")), Ok(Coin::minor("0")));
}

#[test]
fn difference_refuses_text_that_is_no_number() {
    assert_eq!(
        Coin::minor("one").sub(Coin::minor("2")),
        Err(CoinError::MalformedAmount)
    );
    assert_eq!(
        Coin::minor("2").sub(Coin::major("1.2.3")),
        Err(CoinError::MalformedAmount)
    );
}

#[test]
fn difference_beyond_the_largest_amount_overflows() {
    let lowest = format!("-{}", MAX);
    assert_eq!(
        Coin::minor(&lowest).sub(Coin::minor("1")),
        Err(CoinError::ArithmeticOverflow)
    );
    assert_eq!(
        Coin::minor(MAX).sub(Coin::minor("-1")),
        Err(CoinError::ArithmeticOverflow)
    );
    assert_eq!(
        Coin::minor(&lowest).sub(Coin::minor("-1")),
        Ok(Coin::minor("-340282366920938463463374607431768211454"))
    );
    assert_eq!(Coin::minor(MAX).sub(Coin::minor(MAX)), Ok(Coin::minor("0")));
    assert_eq!(
        Coin::minor("0").sub(Coin::minor(MAX)),
        Ok(Coin::minor(&lowest))
    );
}

#[test]
fn arithmetic_keeps_the_scale_of_a_new_coin() {
    let denom = Denom::Major;
    let sum = Coin::new("1", &denom).add(Coin::minor("1")).unwrap();
    assert_eq!(sum.denom(), Denom::Major);
    assert_eq!(sum.amount(), "1.000001");
}
