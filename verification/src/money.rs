//! Amounts of money as decimal numbers.
//!
//! In a document an amount is a number of dollars with a point: with one decimal where it
//! is a whole number of dollars, else with nine. A fraction is read with any number of decimals and
//! with an exponent, and rounded to billionths.

use vstd::prelude::*;

use crate::budget::Usd;
use crate::digits::{
    digits_end, digits_value, find_digits_end, fixed_digits, fixed_digits_text, is_digit,
    power_of_ten, read_digits, ten_to,
};
use crate::json::{Number, NumberView};
use crate::text::{chars_of, concat4, decimal, decimal_text};

verus! {

/// `mantissa` times ten to the power of `scale`, rounded to the nearest whole number
/// and, half way between two, up.
pub open spec fn scaled(mantissa: nat, scale: int) -> nat {
    if scale >= 0 {
        mantissa * ten_to(scale as nat)
    } else {
        let unit: nat = ten_to((-scale) as nat);
        let whole: nat = mantissa / unit;
        if 2 * (mantissa % unit) >= unit {
            whole + 1
        } else {
            whole
        }
    }
}

/// The largest exponent that is read.
pub const LARGEST_EXPONENT: u128 = 100_000;

/// A decimal number in its parts: sign, digits before and behind the point, exponent.
pub struct DecimalParts {
    /// Whether it begins with a minus sign.
    pub negative: bool,
    /// The digits before the point.
    pub whole: Seq<char>,
    /// The digits behind the point.
    pub fraction: Seq<char>,
    /// Whether the exponent is negative.
    pub shrinks: bool,
    /// The digits of the exponent.
    pub exponent: Seq<char>,
}

impl DecimalParts {
    /// The parts of a text that is a decimal number: an optional minus sign, digits,
    /// optionally a point and digits, optionally an `e` or `E`, an optional sign and
    /// digits.
    pub open spec fn of(s: Seq<char>) -> Option<DecimalParts> {
        let negative = s.len() > 0 && s[0] == '-';
        let a: int = if negative {
            1
        } else {
            0
        };
        let b = digits_end(s, a);
        let point = b < s.len() && s[b] == '.';
        let c = if point {
            b + 1
        } else {
            b
        };
        let d = digits_end(s, c);
        let mark = d < s.len() && (s[d] == 'e' || s[d] == 'E');
        let e = if mark {
            d + 1
        } else {
            d
        };
        let shrinks = mark && e < s.len() && s[e] == '-';
        let f = if mark && e < s.len() && (s[e] == '-' || s[e] == '+') {
            e + 1
        } else {
            e
        };
        let g = digits_end(s, f);
        if a < b && (point ==> c < d) && (mark ==> f < g) && g == s.len() {
            Some(
                DecimalParts {
                    negative,
                    whole: s.subrange(a, b),
                    fraction: s.subrange(c, d),
                    shrinks,
                    exponent: s.subrange(f, g),
                },
            )
        } else {
            None
        }
    }

    /// All the digits as one number.
    pub open spec fn mantissa(self) -> nat {
        digits_value(self.whole + self.fraction)
    }

    /// The power of ten that makes billionths of the mantissa.
    pub open spec fn scale(self) -> int {
        let exponent: int = if self.shrinks {
            -(digits_value(self.exponent) as int)
        } else {
            digits_value(self.exponent) as int
        };
        exponent - self.fraction.len() + 9
    }
}

impl Usd {
    /// The amount of `size` billionths with a sign, where there is one.
    pub open spec fn of_size(negative: bool, size: nat) -> Option<Usd> {
        if negative && size <= 0x8000_0000_0000_0000_0000_0000_0000_0000 {
            Some(Usd { nanos: (-(size as int)) as i128 })
        } else if !negative && size <= i128::MAX {
            Some(Usd { nanos: size as i128 })
        } else {
            None
        }
    }

    /// The amount that a decimal number of dollars stands for, rounded to billionths;
    /// `None` for a text that is no decimal number, for an amount out of range, and where
    /// the digits pass `u128::MAX` or the exponent [`LARGEST_EXPONENT`].
    pub open spec fn of_decimal(s: Seq<char>) -> Option<Usd> {
        match DecimalParts::of(s) {
            Some(parts) => if parts.mantissa() <= u128::MAX && digits_value(parts.exponent)
                <= LARGEST_EXPONENT {
                Usd::of_size(parts.negative, scaled(parts.mantissa(), parts.scale()))
            } else {
                None
            },
            None => None,
        }
    }

    /// The amount that a number of dollars stands for.
    pub open spec fn of_number(number: NumberView) -> Option<Usd> {
        match number {
            NumberView::Unsigned(n) => Some(Usd { nanos: (n * 1_000_000_000) as i128 }),
            NumberView::Signed(n) => Some(Usd { nanos: (n * 1_000_000_000) as i128 }),
            NumberView::Fraction(text) => Usd::of_decimal(text),
        }
    }

    /// The size of this amount in billionths of a dollar.
    pub open spec fn size(self) -> nat {
        if self.nanos < 0 {
            (-self.nanos) as nat
        } else {
            self.nanos as nat
        }
    }

    /// How many decimals this amount is written with: one where it is a whole number of
    /// dollars, else nine.
    pub open spec fn decimals(self) -> nat {
        if self.size() % 1_000_000_000 == 0 {
            1
        } else {
            9
        }
    }

    /// This amount in dollars, with one decimal or nine.
    pub open spec fn written(self) -> Seq<char> {
        let sign: Seq<char> = if self.nanos < 0 {
            "-"@
        } else {
            ""@
        };
        sign + decimal(self.size() / 1_000_000_000) + "."@ + fixed_digits(
            self.size() % 1_000_000_000,
            self.decimals(),
        )
    }

    /// This amount as a number of dollars.
    pub open spec fn number(self) -> NumberView {
        NumberView::Fraction(self.written())
    }

    /// Whether this amount is a whole number of dollars, less than
    /// 900 000 000 000 000 of them.
    pub open spec fn in_dollars(self) -> bool {
        &&& self.size() % 1_000_000_000 == 0
        &&& self.size() / 1_000_000_000 < 900_000_000_000_000
    }
}

// ---- proofs --------------------------------------------------------------------

proof fn lemma_written_parts(amount: Usd)
    ensures
        DecimalParts::of(amount.written()) == Some(
            DecimalParts {
                negative: amount.nanos < 0,
                whole: decimal(amount.size() / 1_000_000_000),
                fraction: fixed_digits(amount.size() % 1_000_000_000, amount.decimals()),
                shrinks: false,
                exponent: Seq::<char>::empty(),
            },
        ),
{
    reveal_strlit("-");
    reveal_strlit("");
    reveal_strlit(".");
    let s = amount.written();
    let whole = decimal(amount.size() / 1_000_000_000);
    let fraction = fixed_digits(amount.size() % 1_000_000_000, amount.decimals());
    crate::digits::lemma_decimal(amount.size() / 1_000_000_000);
    crate::digits::lemma_fixed_digits(amount.size() % 1_000_000_000, amount.decimals());
    let a: int = if amount.nanos < 0 {
        1
    } else {
        0
    };
    let b = a + whole.len();
    assert(s.len() == b + 1 + amount.decimals());
    assert(forall|i: int| a <= i < b ==> s[i] == #[trigger] whole[i - a]);
    assert forall|i: int| a <= i < b implies is_digit(#[trigger] s[i]) by {
        assert(s[i] == whole[i - a]);
    }
    assert(s[b] == '.');
    assert forall|i: int| b + 1 <= i < s.len() implies is_digit(#[trigger] s[i]) by {
        assert(s[i] == fraction[i - b - 1]);
    }
    if amount.nanos >= 0 {
        assert(is_digit(s[0]));
        assert(!is_digit('-'));
    }
    crate::digits::lemma_digits_end_is(s, a, b);
    crate::digits::lemma_digits_end_is(s, b + 1, s.len() as int);
    assert(s.subrange(a, b) =~= whole);
    assert(s.subrange(b + 1, s.len() as int) =~= fraction);
    assert(s.subrange(s.len() as int, s.len() as int) =~= Seq::<char>::empty());
}

/// A whole number of dollars is written as `serde_json` writes it.
proof fn lemma_whole_written(amount: Usd)
    requires
        amount.size() % 1_000_000_000 == 0,
    ensures
        amount.written() == crate::wire::whole_text(
            amount.nanos < 0,
            amount.size() / 1_000_000_000,
        ),
        amount.in_dollars() ==> crate::wire::whole_number(amount.written()),
{
    let dollars = amount.size() / 1_000_000_000;
    let fraction = fixed_digits(0, 1);
    reveal_strlit("-");
    reveal_strlit("");
    reveal_strlit(".");
    reveal_strlit(".0");
    assert(fixed_digits(0, 0) =~= Seq::<char>::empty());
    assert(fraction =~= seq!['0']) by {
        reveal_with_fuel(fixed_digits, 2);
    }
    assert("."@ + fraction =~= ".0"@);
    assert(amount.written() =~= crate::wire::whole_text(amount.nanos < 0, dollars));
}

/// An amount survives its number: what is read back from the number that an amount is
/// written as is the amount.
pub proof fn amount_number_round_trip(amount: Usd)
    ensures
        Usd::of_number(amount.number()) == Some(amount),
        amount.in_dollars() ==> crate::wire::whole_number(amount.written()),
{
    let dollars = amount.size() / 1_000_000_000;
    let rest = amount.size() % 1_000_000_000;
    let whole = decimal(dollars);
    let fraction = fixed_digits(rest, amount.decimals());
    lemma_written_parts(amount);
    crate::digits::lemma_decimal(dollars);
    assert(ten_to(9) == 1_000_000_000 && ten_to(8) == 100_000_000 && ten_to(1) == 10) by {
        reveal_with_fuel(ten_to, 10);
    }
    crate::digits::lemma_fixed_digits(rest, amount.decimals());
    crate::digits::lemma_digits_joined(whole, fraction);
    assert(dollars * ten_to(9) == dollars * 1_000_000_000) by (nonlinear_arith)
        requires
            ten_to(9) == 1_000_000_000,
    ;
    assert(dollars * ten_to(1) == dollars * 10) by (nonlinear_arith)
        requires
            ten_to(1) == 10,
    ;
    let parts = DecimalParts::of(amount.written())->0;
    if rest == 0 {
        assert(digits_value(whole + fraction) == dollars * 10);
        assert(parts.scale() == 8);
        assert((dollars * 10) * ten_to(8) == amount.size()) by (nonlinear_arith)
            requires
                ten_to(8) == 100_000_000,
                amount.size() == dollars * 1_000_000_000,
        ;
        assert(dollars * 10 <= amount.size());
        lemma_whole_written(amount);
    } else {
        assert(digits_value(whole + fraction) == amount.size());
        assert(parts.scale() == 0);
        assert(ten_to(0) == 1);
        assert(amount.size() * 1 == amount.size()) by (nonlinear_arith);
    }
}

// ---- code ----------------------------------------------------------------------

/// `mantissa` times ten to the power of `scale`, rounded; `None` where it passes
/// `u128::MAX`.
fn scale_up(mantissa: u128, scale: i128) -> (r: Option<u128>)
    requires
        -200_000_000_000_000_000_000 <= scale <= 200_000_000_000_000_000_000,
    ensures
        match r {
            Some(n) => n == scaled(mantissa as nat, scale as int),
            None => scaled(mantissa as nat, scale as int) > u128::MAX,
        },
{
    if scale >= 0 {
        if mantissa == 0 {
            proof {
                assert(0 * ten_to(scale as nat) == 0) by (nonlinear_arith);
            }
            return Some(0);
        }
        proof {
            crate::digits::lemma_ten_to_bound(scale as nat);
        }
        if scale > 38 {
            proof {
                assert(mantissa * ten_to(scale as nat) >= ten_to(scale as nat))
                    by (nonlinear_arith)
                    requires
                        mantissa >= 1,
                ;
            }
            return None;
        }
        mantissa.checked_mul(power_of_ten(scale as u32))
    } else {
        let k: i128 = -scale;
        proof {
            crate::digits::lemma_ten_to_bound(k as nat);
        }
        if k > 38 {
            proof {
                let unit = ten_to(k as nat);
                assert(mantissa as nat / unit == 0 && mantissa as nat % unit == mantissa)
                    by (nonlinear_arith)
                    requires
                        0 <= mantissa < unit,
                ;
            }
            return Some(0);
        }
        let unit: u128 = power_of_ten(k as u32);
        let whole: u128 = mantissa / unit;
        let rest: u128 = mantissa % unit;
        proof {
            assert(whole <= mantissa) by (nonlinear_arith)
                requires
                    whole == mantissa / unit,
                    unit >= 1,
            ;
            assert(unit >= 2 ==> 2 * whole <= mantissa) by (nonlinear_arith)
                requires
                    whole == mantissa / unit,
            ;
            assert(k == 1 ==> unit == 10) by {
                reveal_with_fuel(ten_to, 2);
            }
            crate::digits::lemma_unit_above_one(k as nat);
        }
        if rest >= unit - rest {
            Some(whole + 1)
        } else {
            Some(whole)
        }
    }
}

impl Usd {
    /// This amount in dollars, with one decimal or nine.
    pub fn to_written(self) -> (r: String)
        ensures
            r@ == self.written(),
    {
        let size: u128 = if self.nanos >= 0 {
            self.nanos as u128
        } else {
            (-(self.nanos + 1)) as u128 + 1
        };
        concat4(
            if self.nanos < 0 {
                "-"
            } else {
                ""
            },
            decimal_text(size / 1_000_000_000).as_str(),
            ".",
            if size % 1_000_000_000 == 0 {
                fixed_digits_text(0, 1)
            } else {
                fixed_digits_text(size % 1_000_000_000, 9)
            }.as_str(),
        )
    }

    /// This amount as a number of dollars.
    pub fn to_number(self) -> (r: Number)
        ensures
            r@ == self.number(),
    {
        Number::Fraction(self.to_written())
    }

    /// The amount that a number of dollars stands for, rounded to billionths; `None`
    /// where it is out of range.
    pub fn from_number(number: &Number) -> (r: Option<Usd>)
        ensures
            r == Usd::of_number(number@),
    {
        match number {
            Number::Unsigned(n) => Some(Usd { nanos: (*n as i128) * 1_000_000_000 }),
            Number::Signed(n) => Some(Usd { nanos: (*n as i128) * 1_000_000_000 }),
            Number::Fraction(text) => Usd::from_decimal(text.as_str()),
        }
    }

    /// The amount that a decimal number of dollars stands for, rounded to billionths.
    pub fn from_decimal(text: &str) -> (r: Option<Usd>)
        ensures
            r == Usd::of_decimal(text@),
    {
        let s: Vec<char> = chars_of(text);
        let cut: Cut = match cut_decimal(&s) {
            Some(cut) => cut,
            None => return None,
        };
        let ghost parts = DecimalParts::of(s@)->0;
        let mantissa: u128 = match read_mantissa(&s, &cut) {
            Some(mantissa) => mantissa,
            None => return None,
        };
        let exponent: u128 = match read_digits(&s, cut.f, cut.g, 0) {
            Some(exponent) => exponent,
            None => return None,
        };
        if exponent > LARGEST_EXPONENT {
            return None;
        }
        let signed: i128 = if cut.shrinks {
            -(exponent as i128)
        } else {
            exponent as i128
        };
        let scale: i128 = signed - (cut.d - cut.c) as i128 + 9;
        match scale_up(mantissa, scale) {
            Some(size) => Usd::from_size(cut.negative, size),
            None => None,
        }
    }

    fn from_size(negative: bool, size: u128) -> (r: Option<Usd>)
        ensures
            r == Usd::of_size(negative, size as nat),
    {
        if negative {
            if size > 0x8000_0000_0000_0000_0000_0000_0000_0000 {
                None
            } else if size == 0x8000_0000_0000_0000_0000_0000_0000_0000 {
                Some(Usd { nanos: i128::MIN })
            } else {
                Some(Usd { nanos: -(size as i128) })
            }
        } else if size > 0x7FFF_FFFF_FFFF_FFFF_FFFF_FFFF_FFFF_FFFF {
            None
        } else {
            Some(Usd { nanos: size as i128 })
        }
    }
}

/// Where the parts of a decimal number stand: the digits before the point from `a` to
/// `b`, those behind it from `c` to `d`, those of the exponent from `f` to `g`.
struct Cut {
    negative: bool,
    a: usize,
    b: usize,
    c: usize,
    d: usize,
    shrinks: bool,
    f: usize,
    g: usize,
}

impl Cut {
    spec fn fits(self, s: Seq<char>) -> bool {
        &&& self.a <= self.b <= self.c <= self.d <= self.f <= self.g == s.len()
        &&& forall|i: int| self.a <= i < self.b ==> is_digit(#[trigger] s[i])
        &&& forall|i: int| self.c <= i < self.d ==> is_digit(#[trigger] s[i])
        &&& forall|i: int| self.f <= i < self.g ==> is_digit(#[trigger] s[i])
    }

    spec fn parts(self, s: Seq<char>) -> DecimalParts {
        DecimalParts {
            negative: self.negative,
            whole: s.subrange(self.a as int, self.b as int),
            fraction: s.subrange(self.c as int, self.d as int),
            shrinks: self.shrinks,
            exponent: s.subrange(self.f as int, self.g as int),
        }
    }
}

/// Cuts a decimal number into its parts.
fn cut_decimal(s: &Vec<char>) -> (r: Option<Cut>)
    ensures
        match r {
            Some(cut) => cut.fits(s@) && DecimalParts::of(s@) == Some(cut.parts(s@)),
            None => DecimalParts::of(s@) is None,
        },
{
    let len: usize = s.len();
    let negative: bool = len > 0 && s[0] == '-';
    let a: usize = if negative {
        1
    } else {
        0
    };
    let b: usize = find_digits_end(s, a);
    let point: bool = b < len && s[b] == '.';
    let c: usize = if point {
        b + 1
    } else {
        b
    };
    let d: usize = find_digits_end(s, c);
    let mark: bool = d < len && (s[d] == 'e' || s[d] == 'E');
    let e: usize = if mark {
        d + 1
    } else {
        d
    };
    let shrinks: bool = mark && e < len && s[e] == '-';
    let f: usize = if mark && e < len && (s[e] == '-' || s[e] == '+') {
        e + 1
    } else {
        e
    };
    let g: usize = find_digits_end(s, f);
    proof {
        crate::digits::lemma_digits_end_bounds(s@, a as int);
        crate::digits::lemma_digits_end_bounds(s@, c as int);
        crate::digits::lemma_digits_end_bounds(s@, f as int);
    }
    if a == b || (point && c == d) || (mark && f == g) || g != len {
        return None;
    }
    Some(Cut { negative, a, b, c, d, shrinks, f, g })
}

/// All the digits of a decimal number as one number; `None` where it passes `u128::MAX`.
fn read_mantissa(s: &Vec<char>, cut: &Cut) -> (r: Option<u128>)
    requires
        cut.fits(s@),
    ensures
        match r {
            Some(n) => n == cut.parts(s@).mantissa(),
            None => cut.parts(s@).mantissa() > u128::MAX,
        },
{
    let ghost parts = cut.parts(s@);
    proof {
        crate::digits::lemma_digits_joined(parts.whole, parts.fraction);
        assert(0 * ten_to((cut.b - cut.a) as nat) == 0) by (nonlinear_arith);
    }
    let head: u128 = match read_digits(s, cut.a, cut.b, 0) {
        Some(head) => head,
        None => {
            proof {
                crate::digits::lemma_ten_to_bound(parts.fraction.len());
                assert(digits_value(parts.whole) * ten_to(parts.fraction.len()) >= digits_value(
                    parts.whole,
                )) by (nonlinear_arith)
                    requires
                        ten_to(parts.fraction.len()) >= 1,
                ;
            }
            return None;
        },
    };
    read_digits(s, cut.c, cut.d, head)
}

} // verus!
