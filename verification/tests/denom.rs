use wallet_coin::{CoinError, Denom};
use wallet_coin::denom::MINOR_IN_MAJOR;

const TICKER: &str = "upunk";

#[test]
fn format_minor_is_the_ticker() {
    assert_eq!(Denom::Minor.format(TICKER), "upunk");
}

#[test]
fn format_major_drops_the_first_character() {
    assert_eq!(Denom::Major.format(TICKER), "punk");
}

#[test]
fn format_major_drops_one_character_not_one_byte() {
    assert_eq!(Denom::Major.format("\u{b5}nym"), "nym");
    assert_eq!(Denom::Minor.format("\u{b5}nym"), "\u{b5}nym");
}

#[test]
fn format_under_an_empty_ticker_is_empty() {
    assert_eq!(Denom::Major.format(""), "");
    assert_eq!(Denom::Minor.format(""), "");
}

#[test]
fn format_under_a_ticker_of_one_character() {
    assert_eq!(Denom::Major.format("u"), "");
    assert_eq!(Denom::Minor.format("u"), "u");
}

#[test]
fn parse_reads_the_tickers() {
    assert_eq!(Denom::parse("upunk", TICKER), Ok(Denom::Minor));
    assert_eq!(Denom::parse("punk", TICKER), Ok(Denom::Major));
}

#[test]
fn parse_reads_the_words() {
    assert_eq!(Denom::parse("minor", TICKER), Ok(Denom::Minor));
    assert_eq!(Denom::parse("major", TICKER), Ok(Denom::Major));
}

#[test]
fn parse_ignores_case() {
    assert_eq!(Denom::parse("MINOR", TICKER), Ok(Denom::Minor));
    assert_eq!(Denom::parse("Major", TICKER), Ok(Denom::Major));
    assert_eq!(Denom::parse("UPUNK", TICKER), Ok(Denom::Minor));
    assert_eq!(Denom::parse("PuNk", TICKER), Ok(Denom::Major));
}

#[test]
fn parse_ignores_the_case_of_the_ticker() {
    assert_eq!(Denom::parse("upunk", "UPUNK"), Ok(Denom::Minor));
    assert_eq!(Denom::parse("punk", "UPUNK"), Ok(Denom::Major));
}

#[test]
fn parse_lowers_letters_beyond_ascii() {
    // U+212A, the Kelvin sign, has 'k' for its lowercase.
    assert_eq!(Denom::parse("upun\u{212a}", TICKER), Ok(Denom::Minor));
    assert_eq!(Denom::parse("pun\u{212a}", TICKER), Ok(Denom::Major));
}

#[test]
fn parse_refuses_other_text_and_carries_it() {
    assert_eq!(
        Denom::parse("atom", TICKER),
        Err(CoinError::InvalidDenomination("atom".to_string()))
    );
    assert_eq!(
        Denom::parse("ATOM", TICKER),
        Err(CoinError::InvalidDenomination("ATOM".to_string()))
    );
    assert_eq!(
        Denom::parse("", TICKER),
        Err(CoinError::InvalidDenomination(String::new()))
    );
    assert_eq!(
        Denom::parse(" minor", TICKER),
        Err(CoinError::InvalidDenomination(" minor".to_string()))
    );
}

#[test]
fn parse_undoes_format() {
    for denom in [Denom::Major, Denom::Minor] {
        assert_eq!(Denom::parse(&denom.format(TICKER), TICKER), Ok(denom));
    }
}

#[test]
fn parse_tries_the_minor_scale_first() {
    // Under this ticker the major name is the word "minor".
    assert_eq!(Denom::Major.format("xminor"), "minor");
    assert_eq!(Denom::parse("minor", "xminor"), Ok(Denom::Minor));
    assert_eq!(Denom::parse("xminor", "xminor"), Ok(Denom::Minor));
}

#[test]
fn both_scales_read_back_under_a_plain_ticker() {
    assert!(Denom::reads_back(TICKER));
    assert!(Denom::reads_back("unym"));
    assert!(Denom::reads_back("UPUNK"));
    assert!(Denom::reads_back("u"));
}

#[test]
fn the_major_scale_does_not_read_back_under_some_tickers() {
    assert!(!Denom::reads_back("xminor"));
    assert!(!Denom::reads_back("xMINOR"));
    assert!(!Denom::reads_back(""));
    for ticker in ["xminor", ""] {
        assert_eq!(
            Denom::parse(&Denom::Major.format(ticker), ticker),
            Ok(Denom::Minor)
        );
    }
}

#[test]
fn classify_compares_with_names_and_words() {
    assert_eq!(Denom::classify("upunk", "upunk", "punk"), Some(Denom::Minor));
    assert_eq!(Denom::classify("minor", "upunk", "punk"), Some(Denom::Minor));
    assert_eq!(Denom::classify("punk", "upunk", "punk"), Some(Denom::Major));
    assert_eq!(Denom::classify("major", "upunk", "punk"), Some(Denom::Major));
    assert_eq!(Denom::classify("Minor", "upunk", "punk"), None);
    assert_eq!(Denom::classify("", "upunk", "punk"), None);
    assert_eq!(Denom::classify("same", "same", "same"), Some(Denom::Minor));
}

#[test]
fn places_of_the_scales() {
    assert_eq!(Denom::Major.places(), 6);
    assert_eq!(Denom::Minor.places(), 0);
    assert_eq!(MINOR_IN_MAJOR, 1_000_000);
}
