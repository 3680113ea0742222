//! Decimal digits: what they spell, and how numbers are written with them.

use vstd::prelude::*;

use crate::text::{chars_of, decimal, digit, digit_text};

verus! {

/// Ten to the power of `k`.
pub open spec fn ten_to(k: nat) -> nat
    decreases k,
{
    if k == 0 {
        1
    } else {
        10 * ten_to((k - 1) as nat)
    }
}

/// The last `k` decimal digits of a number, with leading zeros.
pub open spec fn fixed_digits(n: nat, k: nat) -> Seq<char>
    decreases k,
{
    if k == 0 {
        Seq::empty()
    } else {
        fixed_digits(n / 10, (k - 1) as nat).push(digit(n % 10))
    }
}

/// Whether a character is a decimal digit.
pub open spec fn is_digit(c: char) -> bool {
    '0' as u32 <= c as u32 <= '9' as u32
}

/// The number that decimal digits spell; none spell zero.
pub open spec fn digits_value(s: Seq<char>) -> nat
    decreases s.len(),
{
    if s.len() == 0 {
        0
    } else {
        10 * digits_value(s.drop_last()) + (s.last() as u32 - '0' as u32) as nat
    }
}

/// Where the digits that begin at `i` end.
pub open spec fn digits_end(s: Seq<char>, i: int) -> int
    decreases s.len() - i,
{
    if 0 <= i < s.len() && is_digit(s[i]) {
        digits_end(s, i + 1)
    } else {
        i
    }
}

pub(crate) proof fn lemma_ten_to_bound(k: nat)
    ensures
        k <= 38 ==> 1 <= ten_to(k) <= 100_000_000_000_000_000_000_000_000_000_000_000_000,
        k >= 39 ==> ten_to(k) >= 1_000_000_000_000_000_000_000_000_000_000_000_000_000,
    decreases k,
{
    if k == 0 {
    } else if k == 39 {
        reveal_with_fuel(ten_to, 40);
    } else {
        lemma_ten_to_bound((k - 1) as nat);
        if k <= 38 {
            lemma_ten_to_below((k - 1) as nat);
        }
    }
}

pub(crate) proof fn lemma_ten_to_below(k: nat)
    requires
        k <= 37,
    ensures
        1 <= ten_to(k) <= 10_000_000_000_000_000_000_000_000_000_000_000_000,
{
    reveal_with_fuel(ten_to, 38);
}

pub(crate) proof fn lemma_digits_end_bounds(s: Seq<char>, i: int)
    requires
        0 <= i <= s.len(),
    ensures
        i <= digits_end(s, i) <= s.len(),
        forall|j: int| i <= j < digits_end(s, i) ==> is_digit(#[trigger] s[j]),
        digits_end(s, i) < s.len() ==> !is_digit(s[digits_end(s, i)]),
    decreases s.len() - i,
{
    if i < s.len() && is_digit(s[i]) {
        lemma_digits_end_bounds(s, i + 1);
    }
}

pub(crate) proof fn lemma_digits_end_is(s: Seq<char>, i: int, j: int)
    requires
        0 <= i <= j <= s.len(),
        forall|k: int| i <= k < j ==> is_digit(#[trigger] s[k]),
        j < s.len() ==> !is_digit(s[j]),
    ensures
        digits_end(s, i) == j,
    decreases j - i,
{
    if i < j {
        lemma_digits_end_is(s, i + 1, j);
    }
}

pub(crate) proof fn lemma_digit(d: nat)
    requires
        d < 10,
    ensures
        is_digit(digit(d)),
        digit(d) as u32 - '0' as u32 == d,
{
}

pub(crate) proof fn lemma_decimal(n: nat)
    ensures
        decimal(n).len() > 0,
        digits_value(decimal(n)) == n,
        forall|i: int| 0 <= i < decimal(n).len() ==> is_digit(#[trigger] decimal(n)[i]),
    decreases n,
{
    if n < 10 {
        lemma_digit(n);
        let s = decimal(n);
        assert(s.drop_last() =~= Seq::<char>::empty());
        assert(digits_value(s.drop_last()) == 0);
    } else {
        lemma_decimal(n / 10);
        lemma_digit(n % 10);
        let s = decimal(n);
        assert(s.drop_last() =~= decimal(n / 10));
        assert forall|i: int| 0 <= i < s.len() implies is_digit(#[trigger] s[i]) by {
            if i < s.len() - 1 {
                assert(s[i] == decimal(n / 10)[i]);
            }
        }
    }
}

pub(crate) proof fn lemma_fixed_digits(n: nat, k: nat)
    ensures
        fixed_digits(n, k).len() == k,
        forall|i: int| 0 <= i < k ==> is_digit(#[trigger] fixed_digits(n, k)[i]),
        n < ten_to(k) ==> digits_value(fixed_digits(n, k)) == n,
    decreases k,
{
    if k > 0 {
        lemma_fixed_digits(n / 10, (k - 1) as nat);
        lemma_digit(n % 10);
        let s = fixed_digits(n, k);
        assert(s.drop_last() =~= fixed_digits(n / 10, (k - 1) as nat));
        assert forall|i: int| 0 <= i < k implies is_digit(#[trigger] s[i]) by {
            if i < k - 1 {
                assert(s[i] == s.drop_last()[i]);
            }
        }
    }
}

pub(crate) proof fn lemma_digits_joined(a: Seq<char>, b: Seq<char>)
    ensures
        digits_value(a + b) == digits_value(a) * ten_to(b.len()) + digits_value(b),
    decreases b.len(),
{
    if b.len() == 0 {
        assert(a + b =~= a);
        assert(ten_to(0) == 1);
        assert(digits_value(a) * 1 == digits_value(a)) by (nonlinear_arith);
    } else {
        let front = b.drop_last();
        lemma_digits_joined(a, front);
        assert((a + b).drop_last() =~= a + front);
        assert((a + b).last() == b.last());
        assert(ten_to(b.len()) == 10 * ten_to(front.len()));
        assert(10 * (digits_value(a) * ten_to(front.len())) == digits_value(a) * (10 * ten_to(
            front.len(),
        ))) by (nonlinear_arith);
    }
}

pub(crate) fn fixed_digits_text(n: u128, k: u32) -> (r: String)
    ensures
        r@ == fixed_digits(n as nat, k as nat),
    decreases k,
{
    if k == 0 {
        String::new()
    } else {
        let mut text: String = fixed_digits_text(n / 10, k - 1);
        text.append(digit_text(n % 10));
        proof {
            assert(text@ =~= fixed_digits((n / 10) as nat, (k - 1) as nat).push(
                digit((n % 10) as nat),
            ));
        }
        text
    }
}

pub(crate) fn is_digit_char(c: char) -> (r: bool)
    ensures
        r == is_digit(c),
{
    let code: u32 = c as u32;
    code >= 48 && code <= 57
}

pub(crate) fn find_digits_end(s: &Vec<char>, from: usize) -> (r: usize)
    requires
        from <= s@.len(),
    ensures
        r == digits_end(s@, from as int),
        from <= r <= s@.len(),
{
    let mut i: usize = from;
    while i < s.len() && is_digit_char(s[i])
        invariant
            from <= i <= s@.len(),
            digits_end(s@, i as int) == digits_end(s@, from as int),
        decreases s@.len() - i,
    {
        i = i + 1;
    }
    i
}

/// The number that more digits make of `start`; `None` where it passes `u128::MAX`.
pub(crate) fn read_digits(s: &Vec<char>, from: usize, to: usize, start: u128) -> (r: Option<u128>)
    requires
        from <= to <= s@.len(),
        forall|i: int| from <= i < to ==> is_digit(#[trigger] s@[i]),
    ensures
        match r {
            Some(n) => n == start * ten_to((to - from) as nat) + digits_value(
                s@.subrange(from as int, to as int),
            ),
            None => start * ten_to((to - from) as nat) + digits_value(
                s@.subrange(from as int, to as int),
            ) > u128::MAX,
        },
{
    let mut n: u128 = start;
    let mut i: usize = from;
    proof {
        assert(s@.subrange(from as int, from as int) =~= Seq::<char>::empty());
        assert(ten_to(0) == 1);
        assert(start * 1 == start) by (nonlinear_arith);
    }
    while i < to
        invariant
            from <= i <= to <= s@.len(),
            forall|j: int| from <= j < to ==> is_digit(#[trigger] s@[j]),
            n == start * ten_to((i - from) as nat) + digits_value(
                s@.subrange(from as int, i as int),
            ),
        decreases to - i,
    {
        let code: u32 = s[i] as u32;
        proof {
            assert(is_digit(s@[i as int]));
        }
        let d: u128 = (code - 48) as u128;
        let ghost before = s@.subrange(from as int, i as int);
        let ghost here = s@.subrange(from as int, i + 1);
        proof {
            assert(here.drop_last() =~= before);
            assert(here.last() == s@[i as int]);
            assert(10 * (start * ten_to((i - from) as nat)) == start * (10 * ten_to(
                (i - from) as nat,
            ))) by (nonlinear_arith);
            assert(ten_to((i + 1 - from) as nat) == 10 * ten_to((i - from) as nat));
            assert(start * ten_to((i + 1 - from) as nat) + digits_value(here) == 10 * n + d);
        }
        let longer: Option<u128> = match n.checked_mul(10) {
            Some(tens) => tens.checked_add(d),
            None => None,
        };
        match longer {
            Some(longer) => {
                n = longer;
            },
            None => {
                proof {
                    lemma_more_digits(s@, from as int, i + 1, to as int, start as nat);
                }
                return None;
            },
        }
        i = i + 1;
    }
    Some(n)
}

pub(crate) proof fn lemma_more_digits(s: Seq<char>, from: int, mid: int, to: int, start: nat)
    requires
        0 <= from <= mid <= to <= s.len(),
    ensures
        start * ten_to((mid - from) as nat) + digits_value(s.subrange(from, mid)) <= start
            * ten_to((to - from) as nat) + digits_value(s.subrange(from, to)),
    decreases to - mid,
{
    if mid < to {
        lemma_more_digits(s, from, mid + 1, to, start);
        let here = s.subrange(from, mid + 1);
        assert(here.drop_last() =~= s.subrange(from, mid));
        assert(10 * (start * ten_to((mid - from) as nat)) == start * (10 * ten_to(
            (mid - from) as nat,
        ))) by (nonlinear_arith);
        assert(ten_to((mid + 1 - from) as nat) == 10 * ten_to((mid - from) as nat));
        assert(start * ten_to((mid - from) as nat) >= 0) by (nonlinear_arith);
    }
}

pub(crate) fn power_of_ten(k: u32) -> (r: u128)
    requires
        k <= 38,
    ensures
        r == ten_to(k as nat),
    decreases k,
{
    proof {
        lemma_ten_to_bound(k as nat);
    }
    if k == 0 {
        1
    } else {
        10 * power_of_ten(k - 1)
    }
}

pub(crate) proof fn lemma_unit_above_one(k: nat)
    requires
        k >= 1,
    ensures
        ten_to(k) >= 10,
    decreases k,
{
    if k > 1 {
        lemma_unit_above_one((k - 1) as nat);
    } else {
        assert(ten_to(0) == 1);
    }
}

/// The integer that a text spells: an optional sign and digits, within the range of an
/// `i64`.
pub open spec fn integer_of(s: Seq<char>) -> Option<i64> {
    let negative = s.len() > 0 && s[0] == '-';
    let a: int = if s.len() > 0 && (s[0] == '-' || s[0] == '+') {
        1
    } else {
        0
    };
    let size = digits_value(s.skip(a));
    if a < s.len() && digits_end(s, a) == s.len() {
        if negative && size <= 0x8000_0000_0000_0000 {
            Some((-(size as int)) as i64)
        } else if !negative && size <= i64::MAX {
            Some(size as i64)
        } else {
            None
        }
    } else {
        None
    }
}

/// The integer that a text spells.
pub fn parse_integer(text: &str) -> (r: Option<i64>)
    ensures
        r == integer_of(text@),
{
    let s: Vec<char> = chars_of(text);
    let len: usize = s.len();
    let negative: bool = len > 0 && s[0] == '-';
    let a: usize = if len > 0 && (s[0] == '-' || s[0] == '+') {
        1
    } else {
        0
    };
    proof {
        lemma_digits_end_bounds(s@, a as int);
        assert(s@.skip(a as int) =~= s@.subrange(a as int, len as int));
        assert(0 * ten_to((len - a) as nat) == 0) by (nonlinear_arith);
    }
    if a >= len || find_digits_end(&s, a) != len {
        return None;
    }
    match read_digits(&s, a, len, 0) {
        Some(size) => {
            if negative {
                if size > 0x8000_0000_0000_0000 {
                    None
                } else {
                    Some((-(size as i128)) as i64)
                }
            } else if size > 0x7FFF_FFFF_FFFF_FFFF {
                None
            } else {
                Some(size as i64)
            }
        },
        None => None,
    }
}

} // verus!
