//! Writing an amount: from a number of units to its magnitude.

use vstd::prelude::*;
use vstd::string::*;
use crate::magnitude::{
    amount_text, digit_char, fraction_text, natural_text, padded_text, size_of,
};
use crate::reading::{unit_of, Units, MAX_PLACES};

verus! {

/// The text of one digit.
fn digit_text(d: u128) -> (s: &'static str)
    requires
        d < 10,
    ensures
        s@ == seq![digit_char(d as nat)],
{
    proof {
        reveal_strlit("0");
        reveal_strlit("1");
        reveal_strlit("2");
        reveal_strlit("3");
        reveal_strlit("4");
        reveal_strlit("5");
        reveal_strlit("6");
        reveal_strlit("7");
        reveal_strlit("8");
        reveal_strlit("9");
    }
    let s = if d == 0 {
        "0"
    } else if d == 1 {
        "1"
    } else if d == 2 {
        "2"
    } else if d == 3 {
        "3"
    } else if d == 4 {
        "4"
    } else if d == 5 {
        "5"
    } else if d == 6 {
        "6"
    } else if d == 7 {
        "7"
    } else if d == 8 {
        "8"
    } else {
        "9"
    };
    assert(s@ =~= seq![digit_char(d as nat)]);
    s
}

/// Writes `n` in decimal digits.
fn render_natural(n: u128) -> (s: String)
    ensures
        s@ == natural_text(n as nat),
{
    let mut s = String::from_str(digit_text(n % 10));
    let mut rest = n / 10;
    while rest > 0
        invariant
            rest == 0 ==> natural_text(n as nat) == s@,
            rest > 0 ==> natural_text(n as nat) == natural_text(rest as nat) + s@,
        decreases rest,
    {
        let ghost before = s@;
        s = String::from_str(digit_text(rest % 10)).concat(s.as_str());
        proof {
            let d = seq![digit_char((rest % 10) as nat)];
            assert(s@ == d + before);
            if rest >= 10 {
                assert(natural_text(rest as nat) == natural_text((rest / 10) as nat) + d);
                assert(natural_text(n as nat) == natural_text((rest / 10) as nat) + s@);
            }
        }
        rest = rest / 10;
    }
    s
}

/// Writes the last `width` digits of `n`.
fn render_padded(n: u128, width: usize) -> (s: String)
    ensures
        s@ == padded_text(n as nat, width as nat),
{
    let mut s = String::new();
    let mut rest = n;
    let mut left = width;
    while left > 0
        invariant
            padded_text(n as nat, width as nat) == padded_text(rest as nat, left as nat) + s@,
        decreases left,
    {
        let ghost before = s@;
        s = String::from_str(digit_text(rest % 10)).concat(s.as_str());
        proof {
            let d = seq![digit_char((rest % 10) as nat)];
            assert(s@ == d + before);
            assert(padded_text(rest as nat, left as nat) == padded_text(
                (rest / 10) as nat,
                (left - 1) as nat,
            ) + d);
            assert(padded_text(n as nat, width as nat) == padded_text(
                (rest / 10) as nat,
                (left - 1) as nat,
            ) + s@);
        }
        rest = rest / 10;
        left = left - 1;
    }
    s
}

/// Writes the digits behind the point.
fn render_fraction(f: u128, width: usize) -> (s: String)
    ensures
        s@ == fraction_text(f as nat, width as nat),
{
    let mut rest = f;
    let mut left = width;
    while left > 0 && rest > 0 && rest % 10 == 0
        invariant
            fraction_text(f as nat, width as nat) == fraction_text(rest as nat, left as nat),
        decreases left,
    {
        rest = rest / 10;
        left = left - 1;
    }
    if left == 0 || rest == 0 {
        String::new()
    } else {
        render_padded(rest, left)
    }
}

/// Writes an amount of `units` as a magnitude with `places` digits behind the point.
pub(crate) fn render(units: Units, places: usize) -> (s: String)
    requires
        places <= MAX_PLACES,
    ensures
        s@ == amount_text(units.value(), places as nat),
{
    let unit = unit_of(places);
    let whole = units.size / unit;
    let rest = units.size % unit;
    assert(size_of(units.value()) == units.size);
    let mut s = if units.negative && units.size > 0 {
        proof {
            reveal_strlit("-");
        }
        String::from_str("-")
    } else {
        String::new()
    };
    assert(s@ =~= if units.value() < 0 { seq!['-'] } else { Seq::<char>::empty() });
    let w = render_natural(whole);
    s.append(w.as_str());
    if rest != 0 {
        proof {
            reveal_strlit(".");
        }
        s.append(".");
        let f = render_fraction(rest, places);
        s.append(f.as_str());
    }
    s
}

} // verus!
