//! What amounts and instants are when they are read and written.

use vstd::prelude::*;

use crate::budget::Usd;
use crate::digits::{digits_value, ten_to};
use crate::json::NumberView;
use crate::money::{scaled, DecimalParts, LARGEST_EXPONENT};
use crate::time::{instant_read, rfc3339_of, Duration, Timestamp};

verus! {

/// A power of ten is ten times the one before.
pub proof fn powers_of_ten_grow_by_ten(k: nat)
    ensures
        ten_to(0) == 1,
        ten_to(k + 1) == 10 * ten_to(k),
        ten_to(9) == 1_000_000_000,
{
    assert(ten_to(9) == 1_000_000_000) by {
        reveal_with_fuel(ten_to, 11);
    }
}

/// A whole number of dollars is that many billions of billionths.
pub proof fn whole_dollars_are_read(n: u64, m: i64)
    ensures
        Usd::of_number(NumberView::Unsigned(n)) matches Some(amount) && amount.nanos == n
            * 1_000_000_000,
        Usd::of_number(NumberView::Signed(m)) matches Some(amount) && amount.nanos == m
            * 1_000_000_000,
{
}

/// An amount that is written with decimals is read back as it was.
pub proof fn an_amount_survives_its_text(amount: Usd)
    ensures
        Usd::of_number(amount.number()) == Some(amount),
{
    crate::money::amount_number_round_trip(amount);
}

/// A decimal is cut into its digits: the sign is that of its first character, the digits of its
/// whole part come next, and those of its fraction after the point.
pub proof fn a_decimal_is_cut_at_its_point(text: Seq<char>, parts: DecimalParts)
    requires
        DecimalParts::of(text) == Some(parts),
    ensures
        parts.negative <==> text[0] == '-',
        parts.whole.len() > 0,
        ({
            let start: int = if parts.negative {
                1
            } else {
                0
            };
            let end = start + parts.whole.len();
            &&& end <= text.len()
            &&& parts.whole == text.subrange(start, end)
            &&& parts.fraction.len() > 0 ==> {
                &&& text[end] == '.'
                &&& end + 1 + parts.fraction.len() <= text.len()
                &&& parts.fraction == text.subrange(end + 1, end + 1 + parts.fraction.len())
            }
            &&& parts.fraction.len() == 0 ==> end == text.len() || text[end] == 'e' || text[end]
                == 'E'
            &&& parts.exponent.len() <= text.len()
            &&& parts.exponent == text.skip(text.len() - parts.exponent.len())
            &&& parts.shrinks ==> text[text.len() - parts.exponent.len() - 1] == '-'
        }),
{
    let negative = text.len() > 0 && text[0] == '-';
    let a: int = if negative {
        1
    } else {
        0
    };
    lemma_end_is_later(text, a);
    let b = crate::digits::digits_end(text, a);
    let c = if b < text.len() && text[b] == '.' {
        b + 1
    } else {
        b
    };
    lemma_end_is_later(text, c);
    let d = crate::digits::digits_end(text, c);
    let mark = d < text.len() && (text[d] == 'e' || text[d] == 'E');
    let e = if mark {
        d + 1
    } else {
        d
    };
    let f = if mark && e < text.len() && (text[e] == '-' || text[e] == '+') {
        e + 1
    } else {
        e
    };
    lemma_end_is_later(text, f);
    assert(parts.exponent =~= text.skip(f));
}

/// The digits from `i` on end at `i` or later, at the end of the text at the latest.
proof fn lemma_end_is_later(text: Seq<char>, i: int)
    requires
        0 <= i <= text.len(),
    ensures
        i <= crate::digits::digits_end(text, i) <= text.len(),
        crate::digits::digits_end(text, i) == i ==> i == text.len() || !crate::digits::is_digit(
            text[i],
        ),
        crate::digits::digits_end(text, i) < text.len() ==> !crate::digits::is_digit(
            text[crate::digits::digits_end(text, i)],
        ),
    decreases text.len() - i,
{
    if i < text.len() && crate::digits::is_digit(text[i]) {
        lemma_end_is_later(text, i + 1);
    }
}

/// A decimal stands for its digits, moved by its exponent and counted in billionths: exactly
/// where that is a whole number of them, and otherwise to the nearest one.
pub proof fn a_decimal_is_read_in_billionths(text: Seq<char>, parts: DecimalParts)
    requires
        DecimalParts::of(text) == Some(parts),
        digits_value(parts.whole + parts.fraction) <= u128::MAX,
        digits_value(parts.exponent) <= LARGEST_EXPONENT,
    ensures
        parts.fraction.len() <= 9 && parts.exponent.len() == 0 && digits_value(
            parts.whole + parts.fraction,
        ) * ten_to((9 - parts.fraction.len()) as nat) <= i128::MAX ==> Usd::of_decimal(
            text,
        ) is Some,
        Usd::of_decimal(text) matches Some(amount) ==> {
            let digits = digits_value(parts.whole + parts.fraction);
            let moved = digits_value(parts.exponent);
            let exponent: int = if parts.shrinks {
                -(moved as int)
            } else {
                moved as int
            };
            let shift = exponent - parts.fraction.len() + 9;
            let size: int = if parts.negative {
                -amount.nanos
            } else {
                amount.nanos as int
            };
            &&& shift >= 0 ==> size == digits * ten_to(shift as nat)
            &&& shift < 0 ==> {
                let unit = ten_to((-shift) as nat);
                &&& 2 * (size * unit) <= 2 * digits + unit
                &&& 2 * digits - unit < 2 * (size * unit)
            }
        },
{
    if let Some(amount) = Usd::of_decimal(text) {
        let digits = parts.mantissa();
        let shift = parts.scale();
        if shift < 0 {
            let unit = ten_to((-shift) as nat);
            lemma_ten_to_is_positive((-shift) as nat);
            let whole: nat = digits / unit;
            let rest: nat = digits % unit;
            assert(digits == whole * unit + rest && rest < unit) by (nonlinear_arith)
                requires
                    unit > 0,
                    whole == digits / unit,
                    rest == digits % unit,
            ;
            assert((whole + 1) * unit == whole * unit + unit) by (nonlinear_arith);
            assert(scaled(digits, shift) == whole || scaled(digits, shift) == whole + 1);
        }
    }
}

/// A power of ten is positive.
proof fn lemma_ten_to_is_positive(k: nat)
    ensures
        ten_to(k) > 0,
    decreases k,
{
    if k > 0 {
        lemma_ten_to_is_positive((k - 1) as nat);
    }
}

/// A second is a billion nanoseconds and a millisecond a million of them, and an instant after a
/// span is that much later.
pub proof fn spans_are_counted_in_nanoseconds(
    secs: u64,
    long: Duration,
    millis: u64,
    short: Duration,
    at: Timestamp,
    later: Timestamp,
)
    requires
        call_ensures(Duration::from_secs, (secs,), long),
        call_ensures(Duration::from_millis, (millis,), short),
        call_ensures(Timestamp::after, (at, long), later),
        at.nanos + long.nanos <= i128::MAX,
    ensures
        long.nanos == secs * 1_000_000_000,
        short.nanos == millis * 1_000_000,
        later.nanos == at.nanos + secs * 1_000_000_000,
{
}

/// Two amounts are added as their billionths are.
pub proof fn amounts_are_added(one: Usd, other: Usd, both: Usd)
    requires
        call_ensures(Usd::plus, (one, other), both),
        i128::MIN <= one.nanos + other.nanos <= i128::MAX,
    ensures
        both.nanos == one.nanos + other.nanos,
{
}

/// An instant is written by its seconds and what is left in billionths, and a text is read into
/// the instant that has them.
pub proof fn an_instant_is_its_seconds_and_billionths(
    at: Timestamp,
    secs: i64,
    rest: u32,
    text: Seq<char>,
)
    requires
        rest < 1_000_000_000,
        at.nanos == secs * 1_000_000_000 + rest,
    ensures
        at.rfc3339() == rfc3339_of(secs, rest),
        instant_read(text) == Some((secs, rest)) ==> Timestamp::of_text(text) == Some(at),
        instant_read(text) is None ==> Timestamp::of_text(text) is None,
{
    assert(at.nanos as int / 1_000_000_000 == secs && at.nanos as int % 1_000_000_000 == rest);
}

} // verus!
