//! Exact decimal numbers and the numerals they are read from.
//!
//! A style length is kept as a decimal fraction, so that unit conversion
//! (`1em` is 16 points, `1pt` is 1.33 points) is exact.

use crate::text::{copy_range, find_char, index_of};
use vstd::prelude::*;

verus! {

/// The largest digit value that a numeral may spell: 10^36.
pub const MAX_MAGNITUDE: u128 = 1_000_000_000_000_000_000_000_000_000_000_000_000u128;

/// The largest number of fraction digits that a numeral may have.
pub const MAX_FRACTION_DIGITS: usize = 250usize;

/// The number `magnitude / 10^scale`, negated where `negative` is set.
#[derive(Clone, Copy, Debug, PartialEq, Eq, Structural)]
pub struct Decimal {
    pub negative: bool,
    pub magnitude: u128,
    pub scale: u8,
}

/// `(magnitude, scale)` with the trailing zeros of the fraction dropped: the
/// same number, written in the one way that has the least scale.
pub open spec fn reduced(magnitude: nat, scale: nat) -> (nat, nat)
    decreases scale,
{
    if scale > 0 && magnitude % 10 == 0 {
        reduced(magnitude / 10, (scale - 1) as nat)
    } else {
        (magnitude, scale)
    }
}

/// Ten to the power `n`.
pub open spec fn pow10(n: nat) -> nat
    decreases n,
{
    if n == 0 {
        1
    } else {
        10 * pow10((n - 1) as nat)
    }
}

impl Decimal {
    /// The number is written in its one canonical way: no trailing zero in
    /// the fraction, and zero is not negative.
    pub open spec fn wf(self) -> bool {
        &&& self.scale > 0 ==> self.magnitude % 10 != 0
        &&& self.negative ==> self.magnitude > 0
    }

    /// The canonical decimal for `magnitude / 10^scale` with the given sign.
    pub open spec fn of(negative: bool, magnitude: nat, scale: nat) -> Decimal {
        let r = reduced(magnitude, scale);
        Decimal { negative: negative && r.0 > 0, magnitude: r.0 as u128, scale: r.1 as u8 }
    }

    /// The canonical decimal for `magnitude / 10^scale` with the given sign.
    pub fn new(negative: bool, magnitude: u128, scale: u8) -> (out: Decimal)
        ensures
            out == Decimal::of(negative, magnitude as nat, scale as nat),
            out.wf(),
    {
        let mut m: u128 = magnitude;
        let mut s: u8 = scale;
        while s > 0 && m % 10 == 0
            invariant
                reduced(m as nat, s as nat) == reduced(magnitude as nat, scale as nat),
            decreases s,
        {
            m = m / 10;
            s = s - 1;
        }
        Decimal { negative: negative && m > 0, magnitude: m, scale: s }
    }

    /// The whole number `n`.
    pub fn whole(n: u64) -> (out: Decimal)
        ensures
            out == Decimal::spec_whole(n as nat),
            out.wf(),
    {
        Decimal { negative: false, magnitude: n as u128, scale: 0 }
    }

    /// The whole number `n`.
    pub open spec fn spec_whole(n: nat) -> Decimal {
        Decimal { negative: false, magnitude: n as u128, scale: 0 }
    }

    /// This number times `factor / 10^shift`.
    pub open spec fn spec_scaled(self, factor: nat, shift: nat) -> Decimal {
        Decimal::of(
            self.negative,
            (self.magnitude * factor) as nat,
            (self.scale + shift) as nat,
        )
    }

    /// This number times `factor / 10^shift`.
    pub fn scaled(self, factor: u8, shift: u8) -> (out: Decimal)
        requires
            self.magnitude <= MAX_MAGNITUDE,
            self.scale + shift <= u8::MAX,
        ensures
            out == self.spec_scaled(factor as nat, shift as nat),
            out.wf(),
    {
        assert(self.magnitude * factor <= MAX_MAGNITUDE * 255) by (nonlinear_arith)
            requires
                self.magnitude <= MAX_MAGNITUDE,
                factor <= 255,
        ;
        Decimal::new(self.negative, self.magnitude * (factor as u128), self.scale + shift)
    }
}

/// Reducing keeps the number: the reduced magnitude, scaled back up, is the
/// magnitude that was given.
pub proof fn lemma_reduced_keeps_value(magnitude: nat, scale: nat)
    ensures
        reduced(magnitude, scale).1 <= scale,
        reduced(magnitude, scale).0 <= magnitude,
        reduced(magnitude, scale).0 * pow10((scale - reduced(magnitude, scale).1) as nat)
            == magnitude,
        reduced(magnitude, scale).1 > 0 ==> reduced(magnitude, scale).0 % 10 != 0,
    decreases scale,
{
    if scale > 0 && magnitude % 10 == 0 {
        let r = reduced(magnitude / 10, (scale - 1) as nat);
        lemma_reduced_keeps_value(magnitude / 10, (scale - 1) as nat);
        let k = ((scale - 1) - r.1) as nat;
        assert(reduced(magnitude, scale) == r);
        assert(pow10(k + 1) == 10 * pow10(k));
        assert(r.0 * pow10(k + 1) == (r.0 * pow10(k)) * 10) by (nonlinear_arith)
            requires
                pow10(k + 1) == 10 * pow10(k),
        ;
        assert((magnitude / 10) * 10 == magnitude);
        assert((scale - r.1) as nat == k + 1);
    } else {
        assert(reduced(magnitude, scale) == (magnitude, scale));
        assert(pow10(0) == 1);
        assert(magnitude * 1 == magnitude);
    }
}

/// Whether `c` is a decimal digit.
pub open spec fn is_digit(c: char) -> bool {
    '0' <= c <= '9'
}

/// Whether every character of `s` is a decimal digit.
pub open spec fn all_digits(s: Seq<char>) -> bool {
    forall|i: int| 0 <= i < s.len() ==> is_digit(#[trigger] s[i])
}

/// The value of a decimal digit.
pub open spec fn digit_value(c: char) -> nat {
    if is_digit(c) {
        (c as u32 - '0' as u32) as nat
    } else {
        0
    }
}

/// The value that the digit string `s` spells in base ten.
pub open spec fn digits_value(s: Seq<char>) -> nat
    decreases s.len(),
{
    if s.len() == 0 {
        0
    } else {
        digits_value(s.drop_last()) * 10 + digit_value(s.last())
    }
}

/// `s` without a leading sign.
pub open spec fn unsigned(s: Seq<char>) -> Seq<char> {
    if s.len() > 0 && (s[0] == '+' || s[0] == '-') {
        s.drop_first()
    } else {
        s
    }
}

/// Whether `s` starts with a minus sign.
pub open spec fn has_minus(s: Seq<char>) -> bool {
    s.len() > 0 && s[0] == '-'
}

/// The characters of `s` before its first decimal point.
pub open spec fn whole_part(s: Seq<char>) -> Seq<char> {
    s.take(index_of(s, '.'))
}

/// The characters of `s` after its first decimal point; none without one.
pub open spec fn fraction_part(s: Seq<char>) -> Seq<char> {
    if index_of(s, '.') < s.len() {
        s.skip(index_of(s, '.') + 1)
    } else {
        Seq::empty()
    }
}

/// A numeral is an optional sign, then decimal digits with at most one
/// decimal point among them, and at least one digit.
pub open spec fn is_numeral(s: Seq<char>) -> bool {
    let body = unsigned(s);
    &&& all_digits(whole_part(body))
    &&& all_digits(fraction_part(body))
    &&& whole_part(body).len() + fraction_part(body).len() > 0
}

/// The number that the text `s` spells, where it is a numeral within the
/// limits of [`MAX_MAGNITUDE`] and [`MAX_FRACTION_DIGITS`].
pub open spec fn number(s: Seq<char>) -> Option<Decimal> {
    let body = unsigned(s);
    let digits = whole_part(body) + fraction_part(body);
    if is_numeral(s) && digits_value(digits) <= MAX_MAGNITUDE && fraction_part(body).len()
        <= MAX_FRACTION_DIGITS {
        Some(Decimal::of(has_minus(s), digits_value(digits), fraction_part(body).len()))
    } else {
        None
    }
}

/// Reading more digits never lowers the value read so far.
pub proof fn lemma_digits_value_grows(s: Seq<char>, n: int)
    requires
        0 <= n <= s.len(),
    ensures
        digits_value(s.take(n)) <= digits_value(s),
    decreases s.len() - n,
{
    if n == s.len() {
        assert(s.take(n) == s);
    } else {
        lemma_digits_value_grows(s, n + 1);
        assert(s.take(n + 1).drop_last() == s.take(n));
    }
}

/// Whether `c` is a decimal digit.
pub fn char_is_digit(c: char) -> (digit: bool)
    ensures
        digit == is_digit(c),
{
    '0' <= c && c <= '9'
}

/// Whether every character of `s` is a decimal digit.
pub fn all_digit_chars(s: &Vec<char>) -> (all: bool)
    ensures
        all == all_digits(s@),
{
    let mut i: usize = 0;
    while i < s.len()
        invariant
            i <= s.len(),
            forall|j: int| 0 <= j < i ==> is_digit(#[trigger] s@[j]),
        decreases s.len() - i,
    {
        if !char_is_digit(s[i]) {
            return false;
        }
        i += 1;
    }
    true
}

/// The value of the digit string `s`, where it is at most `limit`.
fn read_digits(s: &Vec<char>, limit: u128) -> (out: Option<u128>)
    requires
        all_digits(s@),
        limit <= MAX_MAGNITUDE,
    ensures
        out == if digits_value(s@) <= limit {
            Some(digits_value(s@) as u128)
        } else {
            None
        },
{
    let mut value: u128 = 0;
    let mut i: usize = 0;
    assert(s@.take(0) == Seq::<char>::empty());
    while i < s.len()
        invariant
            i <= s.len(),
            all_digits(s@),
            limit <= MAX_MAGNITUDE,
            value == digits_value(s@.take(i as int)),
            value <= limit,
        decreases s.len() - i,
    {
        let c = s[i];
        assert(is_digit(s@[i as int]));
        assert(s@.take(i + 1).drop_last() == s@.take(i as int));
        assert(s@.take(i + 1).last() == c);
        let d: u128 = (c as u32 - '0' as u32) as u128;
        if value * 10 + d > limit {
            proof {
                lemma_digits_value_grows(s@, i + 1);
            }
            return None;
        }
        value = value * 10 + d;
        i += 1;
    }
    assert(s@.take(s@.len() as int) == s@);
    Some(value)
}

/// Reads a number from the text `s`.
pub fn parse_decimal(s: &Vec<char>) -> (out: Option<Decimal>)
    ensures
        out == number(s@),
        out matches Some(d) ==> d.wf() && d.magnitude <= MAX_MAGNITUDE && d.scale
            <= MAX_FRACTION_DIGITS,
{
    let n = s.len();
    let start: usize = if n > 0 && (s[0] == '+' || s[0] == '-') {
        1
    } else {
        0
    };
    let negative = n > 0 && s[0] == '-';
    let body = copy_range(s, start, n);
    assert(body@ == unsigned(s@));
    let point = find_char(&body, '.');
    let whole = copy_range(&body, 0, point);
    let fraction = if point < body.len() {
        copy_range(&body, point + 1, body.len())
    } else {
        Vec::new()
    };
    assert(whole@ == whole_part(body@));
    assert(fraction@ == fraction_part(body@));
    if !all_digit_chars(&whole) || !all_digit_chars(&fraction) {
        return None;
    }
    if whole.len() + fraction.len() == 0 || fraction.len() > MAX_FRACTION_DIGITS {
        return None;
    }
    let mut digits = whole;
    crate::text::append_chars(&mut digits, &fraction);
    match read_digits(&digits, MAX_MAGNITUDE) {
        Some(value) => {
            proof {
                lemma_reduced_keeps_value(value as nat, fraction.len() as nat);
            }
            Some(Decimal::new(negative, value, fraction.len() as u8))
        },
        None => None,
    }
}

/// Whether the text `s` is a plain integer: an optional sign, then at least
/// one decimal digit and nothing else.
pub open spec fn is_integer_text(s: Seq<char>) -> bool {
    unsigned(s).len() > 0 && all_digits(unsigned(s))
}

/// The integer that the text `s` spells, where it fits 32 bits.
pub open spec fn integer(s: Seq<char>) -> Option<i32> {
    let v = digits_value(unsigned(s));
    if !is_integer_text(s) {
        None
    } else if has_minus(s) {
        if v <= 0x8000_0000 {
            Some((-v) as i32)
        } else {
            None
        }
    } else if v <= 0x7fff_ffff {
        Some(v as i32)
    } else {
        None
    }
}

/// Reads a 32-bit integer from the text `s`.
pub fn parse_integer(s: &Vec<char>) -> (out: Option<i32>)
    ensures
        out == integer(s@),
{
    let n = s.len();
    let start: usize = if n > 0 && (s[0] == '+' || s[0] == '-') {
        1
    } else {
        0
    };
    let negative = n > 0 && s[0] == '-';
    let body = copy_range(s, start, n);
    assert(body@ == unsigned(s@));
    if body.len() == 0 || !all_digit_chars(&body) {
        return None;
    }
    match read_digits(&body, 0x8000_0000) {
        Some(value) => {
            if negative {
                if value == 0x8000_0000 {
                    Some(i32::MIN)
                } else {
                    Some(-(value as i32))
                }
            } else if value <= 0x7fff_ffff {
                Some(value as i32)
            } else {
                None
            }
        },
        None => None,
    }
}

} // verus!
