//! Magnitudes: the decimal numbers that amounts are written as, what they
//! denote, and how an amount is written. All of it is mathematics; the code
//! that reads and writes stands beside it.

use vstd::prelude::*;
use crate::error::Fault;

verus! {

/// Whether `c` is one of the ten decimal digits.
pub open spec fn is_digit(c: char) -> bool {
    '0' <= c && c <= '9'
}

/// The number a decimal digit stands for.
pub open spec fn digit_value(c: char) -> nat {
    (c as int - '0' as int) as nat
}

/// The digit that stands for `d`, where `d` is below ten.
pub open spec fn digit_char(d: nat) -> char {
    seq!['0', '1', '2', '3', '4', '5', '6', '7', '8', '9'][d as int]
}

/// Whether `s` holds decimal digits only.
pub open spec fn all_digits(s: Seq<char>) -> bool {
    forall|i: int| 0 <= i < s.len() ==> is_digit(#[trigger] s[i])
}

/// The number that a run of decimal digits denotes; the empty run denotes zero.
pub open spec fn digits_value(s: Seq<char>) -> nat
    decreases s.len(),
{
    if s.len() == 0 {
        0
    } else {
        10 * digits_value(s.drop_last()) + digit_value(s.last())
    }
}

/// Ten to the power `n`.
pub open spec fn pow10(n: nat) -> nat
    decreases n,
{
    if n == 0 {
        1
    } else {
        10 * pow10((n - 1) as nat)
    }
}

/// Whether `s` opens with a sign.
pub open spec fn has_sign(s: Seq<char>) -> bool {
    s.len() > 0 && (s[0] == '+' || s[0] == '-')
}

/// Whether `s` opens with a minus sign.
pub open spec fn is_negative(s: Seq<char>) -> bool {
    s.len() > 0 && s[0] == '-'
}

/// `s` without its sign.
pub open spec fn unsigned_part(s: Seq<char>) -> Seq<char> {
    if has_sign(s) {
        s.skip(1)
    } else {
        s
    }
}

/// Where the first decimal point of `b` stands, or the length of `b` if it holds none.
pub open spec fn point(b: Seq<char>) -> int {
    match b.index_of_first('.') {
        Some(i) => i,
        None => b.len() as int,
    }
}

/// What stands between the sign of `s` and its first decimal point.
pub open spec fn whole_part(s: Seq<char>) -> Seq<char> {
    let b = unsigned_part(s);
    b.take(point(b))
}

/// What follows the first decimal point of `s`; empty where `s` has no point.
pub open spec fn fraction_part(s: Seq<char>) -> Seq<char> {
    let b = unsigned_part(s);
    if point(b) < b.len() {
        b.skip(point(b) + 1)
    } else {
        Seq::empty()
    }
}

/// The grammar of a magnitude: an optional sign, one or more digits, and
/// optionally a point followed by one or more digits.
pub open spec fn is_decimal(s: Seq<char>) -> bool {
    &&& whole_part(s).len() > 0
    &&& all_digits(whole_part(s))
    &&& all_digits(fraction_part(s))
    &&& unsigned_part(s).contains('.') ==> fraction_part(s).len() > 0
}

/// A magnitude with at most `places` digits behind the point.
pub open spec fn well_formed(s: Seq<char>, places: nat) -> bool {
    is_decimal(s) && fraction_part(s).len() <= places
}

/// The number that the well-formed magnitude `s` denotes, times ten to the
/// power `places`.
pub open spec fn scaled_value(s: Seq<char>, places: nat) -> int {
    let shift = (places - fraction_part(s).len()) as nat;
    let size = digits_value(whole_part(s)) * pow10(places) + digits_value(fraction_part(s))
        * pow10(shift);
    if is_negative(s) {
        -(size as int)
    } else {
        size as int
    }
}

/// The size of `v`, without its sign.
pub open spec fn size_of(v: int) -> nat {
    if v < 0 {
        (-v) as nat
    } else {
        v as nat
    }
}

/// The largest size an amount may have where it is computed with.
pub open spec fn max_size() -> nat {
    u128::MAX as nat
}

/// What reading the magnitude `s` at `places` digits behind the point gives:
/// its scaled value, or the reason why it has none.
pub open spec fn measured(s: Seq<char>, places: nat) -> Result<int, Fault> {
    if !well_formed(s, places) {
        Err(Fault::MalformedAmount)
    } else if size_of(scaled_value(s, places)) > max_size() {
        Err(Fault::AmountOutOfRange)
    } else {
        Ok(scaled_value(s, places))
    }
}

/// What reading `s` as an unsigned integer of at most `max` gives, the way the
/// standard library reads one: an optional plus sign, then one or more
/// digits and nothing else, denoting a number that is not above `max`.
pub open spec fn natural_of(s: Seq<char>, max: nat) -> Option<nat> {
    let digits = if s.len() > 0 && s[0] == '+' {
        s.skip(1)
    } else {
        s
    };
    if digits.len() > 0 && all_digits(digits) && digits_value(digits) <= max {
        Some(digits_value(digits))
    } else {
        None
    }
}

/// The decimal digits of `n`, without leading zeros; zero is written "0".
pub open spec fn natural_text(n: nat) -> Seq<char>
    decreases n,
{
    if n < 10 {
        seq![digit_char(n)]
    } else {
        natural_text(n / 10).push(digit_char(n % 10))
    }
}

/// The last `width` decimal digits of `n`, with zeros in front where `n` has fewer.
pub open spec fn padded_text(n: nat, width: nat) -> Seq<char>
    decreases width,
{
    if width == 0 {
        Seq::empty()
    } else {
        padded_text(n / 10, (width - 1) as nat).push(digit_char(n % 10))
    }
}

/// The digits behind the point of `f` parts in ten to the power `width`:
/// `f` padded to `width` digits, without the zeros at its end.
pub open spec fn fraction_text(f: nat, width: nat) -> Seq<char>
    decreases width,
{
    if width == 0 || f == 0 {
        Seq::empty()
    } else if f % 10 == 0 {
        fraction_text(f / 10, (width - 1) as nat)
    } else {
        padded_text(f, width)
    }
}

/// The magnitude that stands for `v` units of ten to the power minus `places`:
/// a minus sign where `v` is negative, the whole part without leading zeros,
/// and a point with the fraction where there is one.
pub open spec fn amount_text(v: int, places: nat) -> Seq<char> {
    let sign = if v < 0 {
        seq!['-']
    } else {
        Seq::empty()
    };
    let whole = natural_text(size_of(v) / pow10(places));
    let rest = size_of(v) % pow10(places);
    if rest == 0 {
        sign + whole
    } else {
        sign + whole + seq!['.'] + fraction_text(rest, places)
    }
}

/// A run of digits without the zeros in front of it; the last digit stays.
pub open spec fn without_leading_zeros(w: Seq<char>) -> Seq<char>
    decreases w.len(),
{
    if w.len() > 1 && w[0] == '0' {
        without_leading_zeros(w.skip(1))
    } else {
        w
    }
}

/// A run of digits without the zeros at its end.
pub open spec fn without_trailing_zeros(f: Seq<char>) -> Seq<char>
    decreases f.len(),
{
    if f.len() > 0 && f.last() == '0' {
        without_trailing_zeros(f.drop_last())
    } else {
        f
    }
}

/// The one way to write the number that the magnitude `s` denotes: no plus
/// sign, no zeros in front of the whole part, none at the end of the
/// fraction, no point without a fraction, and no minus sign before zero.
pub open spec fn canonical(s: Seq<char>) -> Seq<char> {
    let whole = without_leading_zeros(whole_part(s));
    let fraction = without_trailing_zeros(fraction_part(s));
    let zero = whole == seq!['0'] && fraction.len() == 0;
    let sign = if is_negative(s) && !zero {
        seq!['-']
    } else {
        Seq::empty()
    };
    if fraction.len() == 0 {
        sign + whole
    } else {
        sign + whole + seq!['.'] + fraction
    }
}

/// Whether `s` is a magnitude written in the one way that `canonical` writes.
pub open spec fn is_canonical(s: Seq<char>) -> bool {
    is_decimal(s) && canonical(s) == s
}

/// A prefix of a run of digits denotes no more than the whole run.
pub proof fn lemma_prefix_value(s: Seq<char>, k: int)
    requires
        0 <= k <= s.len(),
    ensures
        digits_value(s.take(k)) <= digits_value(s),
    decreases s.len(),
{
    if k == s.len() {
        assert(s.take(k) == s);
    } else {
        lemma_prefix_value(s.drop_last(), k);
        assert(s.drop_last().take(k) == s.take(k));
    }
}

/// Ten to any power is at least one.
pub proof fn lemma_pow10_positive(n: nat)
    ensures
        pow10(n) >= 1,
    decreases n,
{
    if n > 0 {
        lemma_pow10_positive((n - 1) as nat);
    }
}

/// Each number below ten has its digit, and the digit denotes the number.
pub proof fn lemma_digit_char(d: nat)
    requires
        d < 10,
    ensures
        is_digit(digit_char(d)),
        digit_value(digit_char(d)) == d,
{
}

/// A single digit denotes its own value.
pub proof fn lemma_single_digit(c: char)
    ensures
        digits_value(seq![c]) == digit_value(c),
{
    assert(seq![c].drop_last() =~= Seq::<char>::empty());
    assert(digits_value(seq![c].drop_last()) == 0);
}

/// A run of digits with one more digit behind it denotes ten times as much
/// and the digit.
pub proof fn lemma_pushed_digit(s: Seq<char>, c: char)
    ensures
        digits_value(s.push(c)) == 10 * digits_value(s) + digit_value(c),
{
    assert(s.push(c).drop_last() =~= s);
}

/// The digits of a number are digits, at least one, and denote the number.
pub proof fn lemma_natural_text(n: nat)
    ensures
        natural_text(n).len() > 0,
        all_digits(natural_text(n)),
        digits_value(natural_text(n)) == n,
    decreases n,
{
    if n < 10 {
        lemma_digit_char(n);
        lemma_single_digit(digit_char(n));
    } else {
        lemma_natural_text(n / 10);
        lemma_digit_char(n % 10);
        lemma_pushed_digit(natural_text(n / 10), digit_char(n % 10));
    }
}

/// A number padded to a width has that many digits, and they denote what is
/// left of the number below ten to the power of the width.
pub proof fn lemma_padded_text(n: nat, width: nat)
    ensures
        padded_text(n, width).len() == width,
        all_digits(padded_text(n, width)),
        digits_value(padded_text(n, width)) == n % pow10(width),
    decreases width,
{
    if width > 0 {
        let rest = (width - 1) as nat;
        lemma_padded_text(n / 10, rest);
        lemma_digit_char(n % 10);
        lemma_pushed_digit(padded_text(n / 10, rest), digit_char(n % 10));
        lemma_pow10_positive(rest);
        vstd::arithmetic::div_mod::lemma_mod_breakdown(n as int, 10, pow10(rest) as int);
    }
}

/// The digits behind the point are digits, at least one and no more than
/// the places there are, and stand for the parts they were written from.
pub proof fn lemma_fraction_text(f: nat, width: nat)
    requires
        0 < f < pow10(width),
    ensures
        0 < fraction_text(f, width).len() <= width,
        all_digits(fraction_text(f, width)),
        digits_value(fraction_text(f, width)) * pow10(
            (width - fraction_text(f, width).len()) as nat,
        ) == f,
    decreases width,
{
    if width == 0 {
    } else if f % 10 == 0 {
        let rest = (width - 1) as nat;
        lemma_fraction_text(f / 10, rest);
        let t = fraction_text(f / 10, rest);
        let shift = (rest - t.len()) as nat;
        assert(pow10((width - t.len()) as nat) == 10 * pow10(shift));
        assert(digits_value(t) * (10 * pow10(shift)) == 10 * (f / 10)) by (nonlinear_arith)
            requires
                digits_value(t) * pow10(shift) == f / 10,
        ;
    } else {
        lemma_padded_text(f, width);
        vstd::arithmetic::div_mod::lemma_small_mod(f, pow10(width));
        assert(digits_value(padded_text(f, width)) * pow10(0) == f);
    }
}

/// How a magnitude put together from a sign, a whole part and a fraction
/// reads: as those parts.
pub proof fn lemma_parts(sign: Seq<char>, whole: Seq<char>, fraction: Seq<char>)
    requires
        sign == Seq::<char>::empty() || sign == seq!['+'] || sign == seq!['-'],
        whole.len() > 0,
        all_digits(whole),
        all_digits(fraction),
    ensures
        ({
            let tail = if fraction.len() > 0 {
                seq!['.'] + fraction
            } else {
                Seq::<char>::empty()
            };
            let text = sign + whole + tail;
            &&& is_decimal(text)
            &&& is_negative(text) == (sign == seq!['-'])
            &&& whole_part(text) == whole
            &&& fraction_part(text) == fraction
        }),
{
    let tail = if fraction.len() > 0 {
        seq!['.'] + fraction
    } else {
        Seq::<char>::empty()
    };
    let text = sign + whole + tail;
    let b = unsigned_part(text);
    assert(is_digit(whole[0]));
    if sign.len() > 0 {
        assert(text[0] == sign[0]);
        assert(seq!['+'][0] == '+' && seq!['-'][0] == '-');
    } else {
        assert(text[0] == whole[0]);
    }
    assert(b =~= whole + tail);
    b.index_of_first_ensures('.');
    assert(forall|i: int| 0 <= i < whole.len() ==> b[i] == whole[i]);
    if fraction.len() > 0 {
        assert(b[whole.len() as int] == '.');
        let p = point(b);
        if p < whole.len() {
            assert(is_digit(whole[p]));
        }
        assert(p == whole.len());
        assert(b.take(p) =~= whole);
        assert(b.skip(p + 1) =~= fraction);
    } else {
        assert(b =~= whole);
        assert(forall|i: int| 0 <= i < b.len() ==> is_digit(#[trigger] b[i]));
        assert(!b.contains('.'));
        assert(b.take(b.len() as int) =~= whole);
    }
}

/// Reading what was written gives the amount back: the magnitude written
/// for `v` is well formed, and its value is `v`.
pub proof fn lemma_read_written(v: int, places: nat)
    ensures
        well_formed(amount_text(v, places), places),
        scaled_value(amount_text(v, places), places) == v,
        is_negative(amount_text(v, places)) == (v < 0),
{
    let size = size_of(v);
    let unit = pow10(places);
    lemma_pow10_positive(places);
    let whole = natural_text(size / unit);
    let rest = size % unit;
    lemma_natural_text(size / unit);
    vstd::arithmetic::div_mod::lemma_fundamental_div_mod(size as int, unit as int);
    assert(unit * (size / unit) == (size / unit) * unit) by (nonlinear_arith);
    let text = amount_text(v, places);
    let sign = if v < 0 {
        seq!['-']
    } else {
        Seq::<char>::empty()
    };
    if rest == 0 {
        lemma_parts(sign, whole, Seq::<char>::empty());
        assert(text =~= sign + whole + Seq::<char>::empty());
        let low = digits_value(fraction_part(text));
        assert(low == 0);
        assert(low * pow10(places) == 0) by (nonlinear_arith)
            requires
                low == 0,
        ;
    } else {
        lemma_fraction_text(rest, places);
        let fraction = fraction_text(rest, places);
        lemma_parts(sign, whole, fraction);
        assert(text =~= sign + whole + (seq!['.'] + fraction));
        assert(digits_value(fraction_part(text)) * pow10(
            (places - fraction_part(text).len()) as nat,
        ) == rest);
    }
    assert(whole_part(text) == whole);
    assert(digits_value(whole_part(text)) * pow10(places) == (size / unit) * unit);
}

/// What reads as an unsigned integer is a magnitude without a fraction, and
/// denotes the same number as one.
pub proof fn lemma_natural_is_decimal(s: Seq<char>, max: nat, places: nat)
    requires
        natural_of(s, max) is Some,
    ensures
        well_formed(s, places),
        !is_negative(s),
        scaled_value(s, places) == natural_of(s, max).unwrap() * pow10(places),
{
    let sign = if s[0] == '+' {
        seq!['+']
    } else {
        Seq::<char>::empty()
    };
    let digits = if s[0] == '+' {
        s.skip(1)
    } else {
        s
    };
    lemma_parts(sign, digits, Seq::<char>::empty());
    assert(s =~= sign + digits + Seq::<char>::empty());
    let low = digits_value(fraction_part(s));
    assert(low == 0);
    assert(low * pow10(places) == 0) by (nonlinear_arith)
        requires
            low == 0,
    ;
}

/// The digits of a number read as an unsigned integer give the number.
pub proof fn lemma_natural_of_text(n: nat, max: nat)
    requires
        n <= max,
    ensures
        natural_of(natural_text(n), max) == Some(n),
{
    lemma_natural_text(n);
    assert(is_digit(natural_text(n)[0]));
}


/// Ten to the power of a sum is the product of the powers.
pub proof fn lemma_pow10_sum(a: nat, b: nat)
    ensures
        pow10(a + b) == pow10(a) * pow10(b),
    decreases a,
{
    if a == 0 {
        assert(pow10(0) * pow10(b) == pow10(b)) by (nonlinear_arith)
            requires
                pow10(0) == 1,
        ;
    } else {
        lemma_pow10_sum((a - 1) as nat, b);
        assert(pow10(a + b) == 10 * pow10((a - 1 + b) as nat));
        assert(10 * (pow10((a - 1) as nat) * pow10(b)) == (10 * pow10((a - 1) as nat)) * pow10(b))
            by (nonlinear_arith);
    }
}

/// A zero in front of a run of digits does not change what it denotes.
pub proof fn lemma_leading_zero(w: Seq<char>)
    requires
        w.len() > 0,
        w[0] == '0',
    ensures
        digits_value(w.skip(1)) == digits_value(w),
    decreases w.len(),
{
    if w.len() == 1 {
        lemma_single_digit('0');
        assert(w =~= seq!['0']);
        assert(w.skip(1) =~= Seq::<char>::empty());
    } else {
        lemma_leading_zero(w.drop_last());
        assert(w.drop_last().skip(1) =~= w.skip(1).drop_last());
        assert(w.skip(1).last() == w.last());
    }
}

/// A run of digits without its leading zeros is a run of digits still, not
/// empty, denotes the same number, and has no leading zeros left.
pub proof fn lemma_without_leading_zeros(w: Seq<char>)
    requires
        w.len() > 0,
        all_digits(w),
    ensures
        without_leading_zeros(w).len() > 0,
        all_digits(without_leading_zeros(w)),
        digits_value(without_leading_zeros(w)) == digits_value(w),
        without_leading_zeros(without_leading_zeros(w)) == without_leading_zeros(w),
    decreases w.len(),
{
    if w.len() > 1 && w[0] == '0' {
        let rest = w.skip(1);
        assert(forall|i: int| 0 <= i < rest.len() ==> rest[i] == w[i + 1]);
        lemma_without_leading_zeros(rest);
        lemma_leading_zero(w);
    }
}

/// A run of digits without its trailing zeros is a run of digits still,
/// denotes the number that the run denotes divided by ten for each zero
/// taken, and has no trailing zeros left.
pub proof fn lemma_without_trailing_zeros(f: Seq<char>)
    requires
        all_digits(f),
    ensures
        without_trailing_zeros(f).len() <= f.len(),
        all_digits(without_trailing_zeros(f)),
        digits_value(without_trailing_zeros(f)) * pow10(
            (f.len() - without_trailing_zeros(f).len()) as nat,
        ) == digits_value(f),
        without_trailing_zeros(without_trailing_zeros(f)) == without_trailing_zeros(f),
    decreases f.len(),
{
    let t = without_trailing_zeros(f);
    if f.len() > 0 && f.last() == '0' {
        let rest = f.drop_last();
        lemma_without_trailing_zeros(rest);
        let k = (rest.len() - t.len()) as nat;
        assert(pow10((f.len() - t.len()) as nat) == 10 * pow10(k));
        assert(digits_value(f) == 10 * digits_value(rest));
        assert(digits_value(t) * (10 * pow10(k)) == 10 * (digits_value(t) * pow10(k)))
            by (nonlinear_arith);
    } else {
        assert(digits_value(t) * pow10(0) == digits_value(t)) by (nonlinear_arith)
            requires
                pow10(0) == 1,
        ;
    }
}

/// The canonical form of a magnitude is a magnitude, has the parts of the
/// magnitude it was made from without their zeros, and is its own canonical
/// form.
pub proof fn lemma_canonical(s: Seq<char>)
    requires
        is_decimal(s),
    ensures
        is_canonical(canonical(s)),
        whole_part(canonical(s)) == without_leading_zeros(whole_part(s)),
        fraction_part(canonical(s)) == without_trailing_zeros(fraction_part(s)),
        is_negative(canonical(s)) ==> is_negative(s),
{
    let whole = without_leading_zeros(whole_part(s));
    let fraction = without_trailing_zeros(fraction_part(s));
    lemma_without_leading_zeros(whole_part(s));
    lemma_without_trailing_zeros(fraction_part(s));
    let zero = whole == seq!['0'] && fraction.len() == 0;
    let sign = if is_negative(s) && !zero {
        seq!['-']
    } else {
        Seq::<char>::empty()
    };
    lemma_parts(sign, whole, fraction);
    let c = canonical(s);
    if fraction.len() == 0 {
        assert(c =~= sign + whole + Seq::<char>::empty());
    } else {
        assert(c =~= sign + whole + (seq!['.'] + fraction));
    }
    assert(seq!['-'].len() == 1);
}

/// The canonical form of a magnitude denotes the number that the magnitude
/// denotes, at every scale that the magnitude can be read at.
pub proof fn lemma_canonical_value(s: Seq<char>, places: nat)
    requires
        well_formed(s, places),
    ensures
        well_formed(canonical(s), places),
        scaled_value(canonical(s), places) == scaled_value(s, places),
{
    lemma_canonical(s);
    let c = canonical(s);
    let whole = whole_part(s);
    let fraction = fraction_part(s);
    let kept = without_trailing_zeros(fraction);
    lemma_without_leading_zeros(whole);
    lemma_without_trailing_zeros(fraction);
    let taken = (fraction.len() - kept.len()) as nat;
    let shift = (places - fraction.len()) as nat;
    lemma_pow10_sum(taken, shift);
    assert(pow10((places - kept.len()) as nat) == pow10(taken) * pow10(shift));
    let low = digits_value(fraction) * pow10(shift);
    assert(digits_value(kept) * (pow10(taken) * pow10(shift)) == digits_value(kept) * pow10(taken)
        * pow10(shift)) by (nonlinear_arith);
    assert(digits_value(fraction_part(c)) * pow10((places - fraction_part(c).len()) as nat)
        == low);
    let top = digits_value(whole) * pow10(places);
    assert(digits_value(whole_part(c)) * pow10(places) == top);
    if is_negative(s) && !is_negative(c) {
        assert(without_leading_zeros(whole) == seq!['0'] && kept.len() == 0);
        lemma_single_digit('0');
        assert(digits_value(whole) == 0);
        assert(digits_value(kept) == 0);
        assert(top == 0) by (nonlinear_arith)
            requires
                top == digits_value(whole) * pow10(places),
                digits_value(whole) == 0,
        ;
        assert(low == 0) by (nonlinear_arith)
            requires
                low == digits_value(kept) * pow10(taken) * pow10(shift),
                digits_value(kept) == 0,
        ;
    }
}

/// The digits of a number have no zeros in front: a single digit, or a
/// first digit that is not zero.
pub proof fn lemma_natural_text_is_trimmed(n: nat)
    ensures
        without_leading_zeros(natural_text(n)) == natural_text(n),
        n < 10 ==> natural_text(n) == seq![digit_char(n)],
        n >= 10 ==> natural_text(n).len() > 1 && natural_text(n)[0] != '0',
    decreases n,
{
    if n >= 10 {
        lemma_natural_text_is_trimmed(n / 10);
        lemma_natural_text(n / 10);
        lemma_digit_char(n / 10 % 10);
        if n / 10 < 10 {
            assert(natural_text(n / 10)[0] == digit_char(n / 10));
        }
    }
}

/// The digits behind the point have no zero at their end.
pub proof fn lemma_fraction_text_is_trimmed(f: nat, width: nat)
    requires
        0 < f < pow10(width),
    ensures
        without_trailing_zeros(fraction_text(f, width)) == fraction_text(f, width),
    decreases width,
{
    if width == 0 {
    } else if f % 10 == 0 {
        lemma_fraction_text_is_trimmed(f / 10, (width - 1) as nat);
    } else {
        lemma_padded_text(f, width);
        lemma_digit_char(f % 10);
        assert(padded_text(f, width).last() == digit_char(f % 10));
    }
}

/// What is written for an amount is canonical.
pub proof fn lemma_written_is_canonical(v: int, places: nat)
    ensures
        is_canonical(amount_text(v, places)),
{
    let size = size_of(v);
    let unit = pow10(places);
    lemma_pow10_positive(places);
    let whole = natural_text(size / unit);
    let rest = size % unit;
    lemma_natural_text(size / unit);
    lemma_natural_text_is_trimmed(size / unit);
    lemma_read_written(v, places);
    let text = amount_text(v, places);
    let sign = if v < 0 {
        seq!['-']
    } else {
        Seq::<char>::empty()
    };
    let fraction = if rest == 0 {
        Seq::<char>::empty()
    } else {
        fraction_text(rest, places)
    };
    if rest != 0 {
        lemma_fraction_text(rest, places);
        lemma_fraction_text_is_trimmed(rest, places);
        assert(text =~= sign + whole + (seq!['.'] + fraction));
    } else {
        assert(text =~= sign + whole + Seq::<char>::empty());
    }
    lemma_parts(sign, whole, fraction);
    if v < 0 && whole == seq!['0'] && fraction.len() == 0 {
        lemma_single_digit('0');
        vstd::arithmetic::div_mod::lemma_fundamental_div_mod(size as int, unit as int);
        assert(size / unit == 0);
        assert(unit * 0 == 0);
    }
    assert(canonical(text) =~= text);
}

/// A run of digits that is a single digit, or does not start with zero, is
/// the digits of the number it denotes.
pub proof fn lemma_trimmed_digits(w: Seq<char>)
    requires
        w.len() > 0,
        all_digits(w),
        w.len() == 1 || w[0] != '0',
    ensures
        natural_text(digits_value(w)) == w,
    decreases w.len(),
{
    let last = w.last();
    assert(is_digit(last));
    assert(digit_char(digit_value(last)) == last);
    if w.len() == 1 {
        assert(w =~= seq![last]);
        lemma_single_digit(last);
    } else {
        let rest = w.drop_last();
        assert(forall|i: int| 0 <= i < rest.len() ==> rest[i] == w[i]);
        lemma_trimmed_digits(rest);
        lemma_prefix_value(rest, 1);
        assert(rest.take(1) =~= seq![rest[0]]);
        lemma_single_digit(rest[0]);
        assert(is_digit(rest[0]));
        let n = digits_value(w);
        assert(n == 10 * digits_value(rest) + digit_value(last));
        assert(natural_text(n) =~= rest.push(last));
        assert(rest.push(last) =~= w);
    }
}

/// A canonical magnitude that reads as an unsigned integer is the digits of
/// that integer.
pub proof fn lemma_canonical_natural(m: Seq<char>, max: nat)
    requires
        is_canonical(m),
        natural_of(m, max) is Some,
    ensures
        m == natural_text(natural_of(m, max).unwrap()),
{
    lemma_natural_is_decimal(m, max, 0);
    let sign = if m[0] == '+' {
        seq!['+']
    } else {
        Seq::<char>::empty()
    };
    let digits = if m[0] == '+' {
        m.skip(1)
    } else {
        m
    };
    lemma_parts(sign, digits, Seq::<char>::empty());
    assert(m =~= sign + digits + Seq::<char>::empty());
    lemma_without_leading_zeros(digits);
    let kept = without_leading_zeros(digits);
    assert(without_trailing_zeros(Seq::<char>::empty()) =~= Seq::<char>::empty());
    assert(canonical(m) =~= kept);
    assert(is_digit(kept[0]));
    assert(m[0] != '+');
    if digits.len() > 1 && digits[0] == '0' {
        lemma_trimmed_length(digits.skip(1));
    }
    lemma_trimmed_digits(digits);
}

/// Taking leading zeros away makes a run of digits no longer.
pub proof fn lemma_trimmed_length(w: Seq<char>)
    ensures
        without_leading_zeros(w).len() <= w.len(),
    decreases w.len(),
{
    if w.len() > 1 && w[0] == '0' {
        lemma_trimmed_length(w.skip(1));
    }
}

} // verus!
