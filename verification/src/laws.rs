//! What holds of coins whatever their values are.

use vstd::prelude::*;
use crate::coin::CoinView;
use crate::contract::ContractCoinView;
use crate::denom::{lowercase, major_ticker, minor_word, Denom, MINOR_IN_MAJOR};
use crate::error::Fault;
use crate::ledger::LedgerCoinView;
use crate::magnitude::{
    amount_text, digits_value, fraction_part, is_canonical, is_decimal, lemma_canonical,
    lemma_canonical_value, lemma_natural_is_decimal, lemma_natural_of_text, lemma_natural_text,
    lemma_parts, lemma_read_written, lemma_written_is_canonical, max_size, natural_text, pow10,
    scaled_value, size_of, well_formed,
};

verus! {

/// The coin written for an amount has that amount for its value, in either
/// scale, as long as the amount is of a size that amounts are computed with.
pub proof fn written_coin_has_its_value(v: int, denom: Denom)
    requires
        size_of(v) <= max_size(),
    ensures
        CoinView::of_units(v, denom).units() == Ok::<int, Fault>(v),
{
    lemma_read_written(v, denom.places_spec());
}

/// One major unit is `MINOR_IN_MAJOR` minor units: a major coin whose
/// magnitude is a whole number counts that number times `MINOR_IN_MAJOR`,
/// and is out of range where that is beyond the size amounts are computed
/// with.
pub proof fn major_counts_in_minor(n: nat)
    ensures
        (CoinView { amount: natural_text(n), denom: Denom::Major }).units() == (if n
            * MINOR_IN_MAJOR <= max_size() {
            Ok::<int, Fault>(n * MINOR_IN_MAJOR)
        } else {
            Err::<int, Fault>(Fault::AmountOutOfRange)
        }),
{
    lemma_natural_text(n);
    lemma_parts(Seq::<char>::empty(), natural_text(n), Seq::<char>::empty());
    let text = natural_text(n);
    assert(text =~= Seq::<char>::empty() + natural_text(n) + Seq::<char>::empty());
    reveal_with_fuel(pow10, 7);
    assert(pow10(6) == MINOR_IN_MAJOR);
    assert(digits_value(fraction_part(text)) == 0);
}

/// A whole number of minor units that is taken to the major scale and back
/// is the coin it was: the magnitude comes back character for character.
pub proof fn scale_round_trip(n: int)
    requires
        size_of(n) <= max_size(),
    ensures
        ({
            let minor = CoinView { amount: amount_text(n, 0), denom: Denom::Minor };
            let major = CoinView { amount: amount_text(n, 6), denom: Denom::Major };
            &&& minor.in_scale(Denom::Major) == Ok::<CoinView, Fault>(major)
            &&& major.in_scale(Denom::Minor) == Ok::<CoinView, Fault>(minor)
        }),
{
    written_coin_has_its_value(n, Denom::Minor);
    written_coin_has_its_value(n, Denom::Major);
}

/// Changing the scale of a coin keeps its value: the coin that comes out is
/// in the scale asked for and counts as many minor units as the coin that
/// went in. The change fails only where the scale differs and the coin has
/// no value, and then for the reason that it has none.
pub proof fn scale_keeps_value(coin: CoinView, denom: Denom)
    ensures
        match coin.in_scale(denom) {
            Ok(other) => other.denom == denom && other.units() == coin.units(),
            Err(fault) => coin.denom != denom && coin.units() == Err::<int, Fault>(fault),
        },
{
    if coin.denom != denom {
        if let Ok(v) = coin.units() {
            written_coin_has_its_value(v, denom);
        }
    }
}

/// A sum and a difference are in the scale of the left coin, whatever the
/// scale of the right one.
pub proof fn denomination_is_kept(lhs: CoinView, rhs: CoinView)
    ensures
        lhs.sum(rhs) matches Ok(coin) ==> coin.denom == lhs.denom,
        lhs.difference(rhs) matches Ok(coin) ==> coin.denom == lhs.denom,
{
}

/// A sum counts as many minor units as both coins together, and a difference
/// as many as the left coin has more than the right one.
pub proof fn arithmetic_is_on_values(lhs: CoinView, rhs: CoinView)
    ensures
        lhs.sum(rhs) matches Ok(coin) ==> lhs.units() is Ok && rhs.units() is Ok && coin.units()
            == Ok::<int, Fault>(lhs.units()->Ok_0 + rhs.units()->Ok_0),
        lhs.difference(rhs) matches Ok(coin) ==> lhs.units() is Ok && rhs.units() is Ok
            && coin.units() == Ok::<int, Fault>(lhs.units()->Ok_0 - rhs.units()->Ok_0),
{
    if let Ok(coin) = lhs.sum(rhs) {
        written_coin_has_its_value(lhs.units()->Ok_0 + rhs.units()->Ok_0, lhs.denom);
    }
    if let Ok(coin) = lhs.difference(rhs) {
        written_coin_has_its_value(lhs.units()->Ok_0 - rhs.units()->Ok_0, lhs.denom);
    }
}

/// Reading the name that a scale was written with gives the scale back. For
/// the minor scale this holds under every ticker. For the major scale it
/// holds exactly where the ticker without its first character is, in
/// lowercase, neither the whole ticker in lowercase nor the word "minor":
/// those two name the minor scale, which is tried first.
pub proof fn parse_undoes_format(ticker: Seq<char>)
    ensures
        Denom::parse_spec(Denom::Minor.format_spec(ticker), ticker) == Ok::<Denom, Fault>(
            Denom::Minor,
        ),
        Denom::parse_spec(Denom::Major.format_spec(ticker), ticker) == Ok::<Denom, Fault>(
            Denom::Major,
        ) <==> lowercase(major_ticker(ticker)) != lowercase(ticker) && lowercase(
            major_ticker(ticker),
        ) != minor_word(),
{
}

/// Under a ticker that `Denom::reads_back` accepts, reading the name that a
/// scale was written with gives the scale back, for both scales.
pub proof fn parse_undoes_format_where_it_reads_back(denom: Denom, ticker: Seq<char>)
    ensures
        Denom::reads_back_spec(ticker) ==> Denom::parse_spec(denom.format_spec(ticker), ticker)
            == Ok::<Denom, Fault>(denom),
        Denom::reads_back_spec(ticker) <==> lowercase(major_ticker(ticker)) != lowercase(ticker)
            && lowercase(major_ticker(ticker)) != minor_word(),
{
}

/// Reading a name does not look at the case of its letters: two texts with
/// the same lowercase equivalent name the same scale, or neither names one.
pub proof fn parse_ignores_case(a: Seq<char>, b: Seq<char>, ticker: Seq<char>)
    ensures
        lowercase(a) == lowercase(b) ==> match Denom::parse_spec(a, ticker) {
            Ok(denom) => Denom::parse_spec(b, ticker) == Ok::<Denom, Fault>(denom),
            Err(_) => Denom::parse_spec(b, ticker) is Err,
        },
{
}

/// What a contract is sent is the number that the magnitude is, in the
/// coin's own scale: of a minor coin the number of minor units, of a major
/// coin the number of major units, a millionth of what it counts in minor
/// units.
pub proof fn sent_amount_is_the_magnitude(coin: CoinView, ticker: Seq<char>)
    ensures
        coin.to_contract(ticker) matches Ok(sent) ==> coin.units() == (if sent.amount
            * pow10(coin.denom.places_spec()) <= max_size() {
            Ok::<int, Fault>((sent.amount * pow10(coin.denom.places_spec())) as int)
        } else {
            Err::<int, Fault>(Fault::AmountOutOfRange)
        }),
        pow10(Denom::Minor.places_spec()) == 1,
        pow10(Denom::Major.places_spec()) == MINOR_IN_MAJOR,
{
    reveal_with_fuel(pow10, 7);
    if coin.to_contract(ticker) is Ok {
        lemma_natural_is_decimal(coin.amount, u128::MAX as nat, coin.denom.places_spec());
    }
}

/// Every magnitude that is a decimal number goes to the ledger, whatever
/// its sign and its size, and the ledger amount is canonical and denotes the
/// number that the magnitude denotes: read at any scale that the magnitude
/// can be read at, both give the same value.
pub proof fn ledger_amount_is_the_magnitude(coin: CoinView, ticker: Seq<char>, places: nat)
    ensures
        coin.to_ledger(ticker) is Ok <==> is_decimal(coin.amount),
        coin.to_ledger(ticker) matches Err(fault) ==> fault == Fault::MalformedAmount,
        coin.to_ledger(ticker) matches Ok(sent) ==> {
            &&& is_canonical(sent.amount)
            &&& sent.denom == coin.denom.format_spec(ticker)
            &&& well_formed(coin.amount, places) ==> well_formed(sent.amount, places)
                && scaled_value(sent.amount, places) == scaled_value(coin.amount, places)
        },
{
    if is_decimal(coin.amount) {
        lemma_canonical(coin.amount);
        if well_formed(coin.amount, places) {
            lemma_canonical_value(coin.amount, places);
        }
    }
}

/// What the library writes is canonical: the coin written for an amount in
/// either scale, and so every coin that comes out of a change of scale, a
/// sum or a difference, goes to the ledger and comes back letter for letter.
pub proof fn written_coin_is_canonical(v: int, denom: Denom)
    ensures
        is_canonical(CoinView::of_units(v, denom).amount),
{
    lemma_written_is_canonical(v, denom.places_spec());
}

/// Reading the tag that a scale has in a record gives the scale back.
pub proof fn tag_round_trip(denom: Denom)
    ensures
        Denom::from_tag_spec(denom.tag_spec()) == Ok::<Denom, Fault>(denom),
{
    assert(Denom::Major.tag_spec()[1] != Denom::Minor.tag_spec()[1]);
}

/// A number of 128 bits, written as a coin of either scale and taken to a
/// contract amount, gives the amount that holds the number and the name of
/// the scale. Taken back, it is the coin it was exactly where reading gives
/// the scale back that was written, which for a minor coin is always.
pub proof fn contract_round_trip(n: nat, denom: Denom, ticker: Seq<char>)
    requires
        n <= u128::MAX,
    ensures
        ({
            let coin = CoinView { amount: natural_text(n), denom };
            let sent = ContractCoinView { amount: n, denom: denom.format_spec(ticker) };
            &&& coin.to_contract(ticker) == Ok::<ContractCoinView, Fault>(sent)
            &&& CoinView::from_contract(sent, ticker) == Ok::<CoinView, Fault>(coin)
                <==> Denom::parse_spec(denom.format_spec(ticker), ticker) == Ok::<Denom, Fault>(
                denom,
            )
            &&& denom == Denom::Minor ==> CoinView::from_contract(sent, ticker) == Ok::<
                CoinView,
                Fault,
            >(coin)
        }),
{
    lemma_natural_of_text(n, u128::MAX as nat);
}

/// A coin whose magnitude is a canonical decimal, of any sign and any size,
/// goes to the ledger amount that holds that decimal and the name of the
/// scale. Taken back, it is the coin it was exactly where reading gives the
/// scale back that was written, which for a minor coin is always.
pub proof fn ledger_round_trip(m: Seq<char>, denom: Denom, ticker: Seq<char>)
    requires
        is_canonical(m),
    ensures
        ({
            let coin = CoinView { amount: m, denom };
            let sent = LedgerCoinView { amount: m, denom: denom.format_spec(ticker) };
            &&& coin.to_ledger(ticker) == Ok::<LedgerCoinView, Fault>(sent)
            &&& CoinView::from_ledger(sent, ticker) == Ok::<CoinView, Fault>(coin)
                <==> Denom::parse_spec(denom.format_spec(ticker), ticker) == Ok::<Denom, Fault>(
                denom,
            )
            &&& denom == Denom::Minor ==> CoinView::from_ledger(sent, ticker) == Ok::<
                CoinView,
                Fault,
            >(coin)
        }),
{
}

} // verus!
