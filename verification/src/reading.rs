//! Reading a magnitude: from text to a number of units.

use vstd::prelude::*;
use crate::error::{CoinError, Fault};
use vstd::string::*;
use crate::magnitude::{
    all_digits, canonical, digits_value, fraction_part, has_sign, is_decimal, is_digit,
    is_negative, lemma_prefix_value, measured, point, pow10, scaled_value, size_of, unsigned_part,
    whole_part, without_leading_zeros, without_trailing_zeros,
};

verus! {

/// An amount counted in the smallest unit: its size and its sign.
#[derive(Clone, Copy)]
pub(crate) struct Units {
    pub(crate) negative: bool,
    pub(crate) size: u128,
}

impl Units {
    /// The amount as an integer. A negative zero is zero.
    pub(crate) open spec fn value(self) -> int {
        if self.negative {
            -(self.size as int)
        } else {
            self.size as int
        }
    }
}

/// The characters of `s`, one by one.
pub(crate) fn chars_of(s: &str) -> (v: Vec<char>)
    ensures
        v@ == s@,
{
    let mut v: Vec<char> = Vec::new();
    for c in it: s.chars()
        invariant
            v@ == it.seq().take(it.index() as int),
    {
        v.push(c);
    }
    v
}

/// Where the digits of a magnitude start and where its point stands.
pub(crate) struct Layout {
    pub(crate) start: usize,
    pub(crate) point: usize,
}

/// Checks `text` against the grammar of a magnitude.
pub(crate) fn scan(text: &Vec<char>) -> (r: Option<Layout>)
    ensures
        r is Some <==> is_decimal(text@),
        r matches Some(l) ==> {
            &&& l.start <= l.point <= text.len()
            &&& l.start == (if has_sign(text@) { 1int } else { 0int })
            &&& whole_part(text@) == text@.subrange(l.start as int, l.point as int)
            &&& l.point < text.len() ==> fraction_part(text@) == text@.skip(l.point + 1)
            &&& l.point == text.len() ==> fraction_part(text@) == Seq::<char>::empty()
        },
{
    let n = text.len();
    let start: usize = if n > 0 && (text[0] == '+' || text[0] == '-') { 1 } else { 0 };
    let ghost b = unsigned_part(text@);
    assert(b == text@.skip(start as int));
    let mut i: usize = start;
    while i < n && text[i] >= '0' && text[i] <= '9'
        invariant
            start <= i <= n,
            n == text.len(),
            forall|j: int| start <= j < i ==> is_digit(#[trigger] text@[j]),
        decreases n - i,
    {
        i = i + 1;
    }
    let dot = i;
    proof {
        b.index_of_first_ensures('.');
        assert(forall|j: int| 0 <= j < dot - start ==> b[j] == text@[j + start]);
    }
    if dot == start {
        proof {
            if dot < n {
                assert(!is_digit(text@[dot as int]));
                assert(b[0] == text@[dot as int]);
                if is_decimal(text@) {
                    assert(whole_part(text@)[0] == b[0]);
                }
            }
        }
        return None;
    }
    if dot == n {
        proof {
            assert(forall|j: int| 0 <= j < b.len() ==> is_digit(#[trigger] b[j]));
            assert(!b.contains('.'));
            assert(b.take(dot - start) == b);
        }
        return Some(Layout { start, point: dot });
    }
    assert(!is_digit(text@[dot as int]));
    if text[dot] != '.' {
        proof {
            assert(b[dot - start] == text@[dot as int]);
            if is_decimal(text@) {
                let p = point(b);
                if p > dot - start {
                    assert(whole_part(text@)[dot - start] == b[dot - start]);
                } else if p < dot - start {
                    assert(is_digit(b[p]));
                }
            }
        }
        return None;
    }
    proof {
        assert(b[dot - start] == '.');
        assert(b.contains('.'));
        assert(is_digit(b[0]));
        let p = point(b);
        if p < dot - start {
            assert(is_digit(b[p]));
        }
        assert(p == dot - start);
        assert(b.take(p) == text@.subrange(start as int, dot as int));
        assert(b.skip(p + 1) == text@.skip(dot + 1));
    }
    let mut k: usize = dot + 1;
    while k < n && text[k] >= '0' && text[k] <= '9'
        invariant
            dot < k <= n,
            n == text.len(),
            forall|j: int| dot < j < k ==> is_digit(#[trigger] text@[j]),
        decreases n - k,
    {
        k = k + 1;
    }
    if k < n || k == dot + 1 {
        proof {
            if k < n {
                assert(fraction_part(text@)[k - dot - 1] == text@[k as int]);
            }
        }
        return None;
    }
    proof {
        let fraction = fraction_part(text@);
        assert(forall|j: int| 0 <= j < fraction.len() ==> fraction[j] == text@[j + dot + 1]);
    }
    Some(Layout { start, point: dot })
}

/// The number that the digits of `text` from `from` up to `to` denote, if it
/// fits in 128 bits.
fn number_of(text: &Vec<char>, from: usize, to: usize) -> (r: Option<u128>)
    requires
        from <= to <= text.len(),
        all_digits(text@.subrange(from as int, to as int)),
    ensures
        match r {
            Some(v) => v == digits_value(text@.subrange(from as int, to as int)),
            None => digits_value(text@.subrange(from as int, to as int)) > u128::MAX,
        },
{
    let ghost run = text@.subrange(from as int, to as int);
    let mut acc: u128 = 0;
    let mut i: usize = from;
    assert(run.take(0) == Seq::<char>::empty());
    while i < to
        invariant
            from <= i <= to <= text.len(),
            run == text@.subrange(from as int, to as int),
            all_digits(run),
            acc == digits_value(run.take(i - from)),
        decreases to - i,
    {
        let c = text[i];
        let ghost next = run.take(i - from + 1);
        proof {
            assert(run[i - from] == c);
            assert(is_digit(c));
            assert(next.drop_last() == run.take(i - from));
            assert(next.last() == c);
            lemma_prefix_value(run, i - from + 1);
        }
        let d = (c as u32 - '0' as u32) as u128;
        let shifted = match acc.checked_mul(10) {
            Some(m) => m,
            None => {
                return None;
            },
        };
        acc = match shifted.checked_add(d) {
            Some(v) => v,
            None => {
                return None;
            },
        };
        i = i + 1;
    }
    assert(run.take(to - from) == run);
    Some(acc)
}

/// The most digits behind the point that any denomination has.
pub(crate) const MAX_PLACES: usize = 6;

/// Ten to the power `places`.
pub(crate) fn unit_of(places: usize) -> (unit: u128)
    requires
        places <= MAX_PLACES,
    ensures
        unit == pow10(places as nat),
        1 <= unit <= 1_000_000,
{
    proof {
        reveal_with_fuel(pow10, 7);
    }
    if places == 0 {
        1
    } else if places == 1 {
        10
    } else if places == 2 {
        100
    } else if places == 3 {
        1_000
    } else if places == 4 {
        10_000
    } else if places == 5 {
        100_000
    } else {
        1_000_000
    }
}

/// Reads `text` as a magnitude with at most `places` digits behind the point
/// and counts it in units of ten to the power minus `places`.
pub(crate) fn measure(text: &str, places: usize) -> (r: Result<Units, CoinError>)
    requires
        places <= MAX_PLACES,
    ensures
        match r {
            Ok(u) => measured(text@, places as nat) == Ok::<int, Fault>(u.value())
                && u.negative == is_negative(text@),
            Err(e) => measured(text@, places as nat) == Err::<int, Fault>(e@),
        },
{
    let chars = chars_of(text);
    let layout = match scan(&chars) {
        Some(l) => l,
        None => {
            return Err(CoinError::MalformedAmount);
        },
    };
    let n = chars.len();
    let negative = n > 0 && chars[0] == '-';
    let digits: usize = if layout.point < n { n - layout.point - 1 } else { 0 };
    if digits > places {
        return Err(CoinError::MalformedAmount);
    }
    let ghost whole = whole_part(text@);
    let ghost fraction = fraction_part(text@);
    let ghost top = digits_value(whole) * pow10(places as nat);
    let ghost low = digits_value(fraction) * pow10((places - digits) as nat);
    assert(size_of(scaled_value(text@, places as nat)) == top + low);
    let unit = unit_of(places);
    let shift = unit_of(places - digits);
    let w = match number_of(&chars, layout.start, layout.point) {
        Some(w) => w,
        None => {
            assert(top > u128::MAX) by (nonlinear_arith)
                requires
                    top == digits_value(whole) * pow10(places as nat),
                    digits_value(whole) > u128::MAX,
                    pow10(places as nat) >= 1,
            ;
            return Err(CoinError::AmountOutOfRange);
        },
    };
    let f: u128 = if layout.point < n {
        assert(chars@.skip(layout.point + 1) == chars@.subrange(layout.point + 1, n as int));
        match number_of(&chars, layout.point + 1, n) {
            Some(f) => f,
            None => {
                assert(low > u128::MAX) by (nonlinear_arith)
                    requires
                        low == digits_value(fraction) * pow10((places - digits) as nat),
                        digits_value(fraction) > u128::MAX,
                        pow10((places - digits) as nat) >= 1,
                ;
                return Err(CoinError::AmountOutOfRange);
            },
        }
    } else {
        0
    };
    let high = match w.checked_mul(unit) {
        Some(h) => h,
        None => {
            return Err(CoinError::AmountOutOfRange);
        },
    };
    let tail = match f.checked_mul(shift) {
        Some(t) => t,
        None => {
            return Err(CoinError::AmountOutOfRange);
        },
    };
    match high.checked_add(tail) {
        Some(size) => Ok(Units { negative, size }),
        None => Err(CoinError::AmountOutOfRange),
    }
}

/// Writes the magnitude `text` in its canonical form, if it is a magnitude.
/// Its digits are not counted: the number may be of any size.
pub(crate) fn canonical_form(text: &str) -> (r: Option<String>)
    ensures
        match r {
            Some(s) => is_decimal(text@) && s@ == canonical(text@),
            None => !is_decimal(text@),
        },
{
    let chars = chars_of(text);
    let layout = match scan(&chars) {
        Some(l) => l,
        None => {
            return None;
        },
    };
    let n = chars.len();
    let dot = layout.point;
    let ghost whole = whole_part(text@);
    let ghost fraction = fraction_part(text@);
    let mut i: usize = layout.start;
    while i + 1 < dot && chars[i] == '0'
        invariant
            layout.start <= i < dot <= n,
            n == chars.len(),
            without_leading_zeros(whole) == without_leading_zeros(
                chars@.subrange(i as int, dot as int),
            ),
        decreases dot - i,
    {
        assert(chars@.subrange(i as int, dot as int).skip(1) =~= chars@.subrange(
            i + 1,
            dot as int,
        ));
        i = i + 1;
    }
    let first: usize = if dot < n { dot + 1 } else { n };
    assert(fraction =~= chars@.subrange(first as int, n as int));
    let mut j: usize = n;
    while j > first && chars[j - 1] == '0'
        invariant
            first <= j <= n,
            n == chars.len(),
            without_trailing_zeros(fraction) == without_trailing_zeros(
                chars@.subrange(first as int, j as int),
            ),
        decreases j,
    {
        assert(chars@.subrange(first as int, j as int).drop_last() =~= chars@.subrange(
            first as int,
            j - 1,
        ));
        j = j - 1;
    }
    let ghost kept_whole = chars@.subrange(i as int, dot as int);
    let ghost kept_fraction = chars@.subrange(first as int, j as int);
    assert(without_leading_zeros(whole) == kept_whole);
    assert(without_trailing_zeros(fraction) == kept_fraction);
    let zero = i + 1 == dot && chars[i] == '0' && j == first;
    assert(zero == (kept_whole == seq!['0'] && kept_fraction.len() == 0)) by {
        if i + 1 == dot && chars@[i as int] == '0' {
            assert(kept_whole =~= seq!['0']);
        } else if kept_whole == seq!['0'] {
            assert(kept_whole.len() == 1 && kept_whole[0] == '0');
        }
    }
    let mut s = if n > 0 && chars[0] == '-' && !zero {
        proof {
            reveal_strlit("-");
        }
        String::from_str("-")
    } else {
        String::new()
    };
    assert(s@ =~= if is_negative(text@) && !zero { seq!['-'] } else { Seq::<char>::empty() });
    s.append(text.substring_char(i, dot));
    if j > first {
        proof {
            reveal_strlit(".");
        }
        s.append(".");
        s.append(text.substring_char(first, j));
        assert("."@ =~= seq!['.']);
    }
    Some(s)
}

} // verus!
