//! Decimal numbers as text, and numbers that stand for a score.

use crate::text::string_of;
use vstd::prelude::*;
use vstd::slice::slice_subrange;

verus! {

/// The character of a decimal digit.
pub open spec fn digit_char(d: nat) -> char
    recommends
        d < 10,
{
    ('0' as u32 + d) as char
}

/// A number in decimal, without leading zeros.
pub open spec fn decimal(n: nat) -> Seq<char>
    decreases n,
{
    if n < 10 {
        seq![digit_char(n)]
    } else {
        decimal(n / 10).push(digit_char(n % 10))
    }
}

/// Whether a character is one of `0` to `9`.
pub open spec fn is_digit(c: char) -> bool {
    '0' <= c && c <= '9'
}

/// The number that a sequence of digits writes in decimal.
pub open spec fn digits_value(s: Seq<char>) -> nat
    decreases s.len(),
{
    if s.len() == 0 {
        0
    } else {
        10 * digits_value(s.drop_last()) + (s.last() as u32 - '0' as u32) as nat
    }
}

/// `s` without one leading plus sign.
pub open spec fn unsigned_digits(s: Seq<char>) -> Seq<char> {
    if s.len() > 0 && s[0] == '+' {
        s.skip(1)
    } else {
        s
    }
}

/// The number that a text writes: an optional plus sign, then at least one
/// digit and nothing else.
pub open spec fn written_number(s: Seq<char>) -> Option<nat> {
    let d = unsigned_digits(s);
    if d.len() > 0 && (forall|i: int| 0 <= i < d.len() ==> is_digit(#[trigger] d[i])) {
        Some(digits_value(d))
    } else {
        None
    }
}

/// The number that a text writes, if it is at most `max`.
pub open spec fn number_up_to(s: Seq<char>, max: u64) -> Option<u64> {
    match written_number(s) {
        Some(n) => if n <= max {
            Some(n as u64)
        } else {
            None
        },
        None => None,
    }
}

/// A number in decimal.
pub fn to_decimal(n: u64) -> (r: String)
    ensures
        r@ == decimal(n as nat),
{
    let mut digits: Vec<char> = Vec::new();
    let mut rest: u64 = n;
    assert(decimal(n as nat) =~= decimal(rest as nat) + digits@.reverse());
    while rest >= 10
        invariant
            decimal(n as nat) == decimal(rest as nat) + digits@.reverse(),
        decreases rest,
    {
        let d: u8 = (rest % 10) as u8;
        let c: char = (48 + d) as char;
        let ghost before = digits@;
        digits.push(c);
        assert(c == digit_char((rest % 10) as nat));
        assert(digits@.reverse() =~= seq![c] + before.reverse());
        assert(decimal(rest as nat) + before.reverse() =~= decimal((rest / 10) as nat)
            + digits@.reverse());
        rest = rest / 10;
    }
    let c: char = (48 + rest as u8) as char;
    assert(c == digit_char(rest as nat));
    let ghost tail = digits@;
    digits.push(c);
    assert(digits@.reverse() =~= seq![c] + tail.reverse());
    let mut r: Vec<char> = Vec::new();
    let mut i: usize = digits.len();
    while i > 0
        invariant
            i <= digits@.len(),
            r@.len() == digits@.len() - i,
            forall|j: int| 0 <= j < r@.len() ==> r@[j] == digits@.reverse()[j],
        decreases i,
    {
        i -= 1;
        r.push(digits[i]);
    }
    assert(r@ =~= digits@.reverse());
    string_of(r.as_slice())
}

/// The number that a text writes, if it is at most `max`.
pub fn parse_number(s: &[char], max: u64) -> (r: Option<u64>)
    ensures
        r == number_up_to(s@, max),
{
    let d = if s.len() > 0 && s[0] == '+' {
        slice_subrange(s, 1, s.len())
    } else {
        s
    };
    assert(d@ =~= unsigned_digits(s@));
    if d.len() == 0 {
        return None;
    }
    let mut i: usize = 0;
    let mut fits: bool = true;
    let mut value: u64 = 0;
    while i < d.len()
        invariant
            i <= d@.len(),
            d@ == unsigned_digits(s@),
            forall|j: int| 0 <= j < i ==> is_digit(#[trigger] d@[j]),
            fits ==> value == digits_value(d@.take(i as int)) && value <= max,
            !fits ==> digits_value(d@.take(i as int)) > max,
        decreases d@.len() - i,
    {
        let c = d[i];
        if !('0' <= c && c <= '9') {
            assert(!is_digit(d@[i as int]));
            return None;
        }
        assert(d@.take(i + 1).drop_last() =~= d@.take(i as int));
        let v: u64 = (c as u32 - 48) as u64;
        if fits {
            let wide: u128 = value as u128 * 10 + v as u128;
            if wide <= max as u128 {
                value = wide as u64;
            } else {
                fits = false;
            }
        }
        i += 1;
    }
    assert(d@.take(i as int) =~= d@);
    if fits {
        Some(value)
    } else {
        None
    }
}

/// The bits of the score one half, the least that a detection needs unless
/// another one is set.
pub const HALF_BITS: u64 = 0x3fe0_0000_0000_0000;

/// A score of a detection or a transcript, held by the bits of its binary64
/// representation.
#[derive(Debug, Clone, Copy, PartialEq, Eq, Structural)]
pub struct Confidence {
    /// The sign in the highest bit, then the exponent, then the fraction.
    pub bits: u64,
}

impl Confidence {
    /// The bits below the sign.
    pub open spec fn magnitude(self) -> int {
        if self.bits >= 0x8000_0000_0000_0000u64 {
            self.bits - 0x8000_0000_0000_0000u64
        } else {
            self.bits as int
        }
    }

    /// The representation stands for no number.
    pub open spec fn is_nan(self) -> bool {
        self.magnitude() > 0x7ff0_0000_0000_0000u64
    }

    /// An integer that orders representations as the numbers they stand for;
    /// both zeros have the same one.
    pub open spec fn rank(self) -> int {
        if self.bits >= 0x8000_0000_0000_0000u64 {
            -self.magnitude()
        } else {
            self.magnitude()
        }
    }

    /// This score is at least `other`: both are numbers, in that order.
    pub open spec fn reaches(self, other: Confidence) -> bool {
        !self.is_nan() && !other.is_nan() && self.rank() >= other.rank()
    }

    /// This score is a number from 0.0 to 1.0.
    pub open spec fn in_unit_range(self) -> bool {
        self.reaches(Confidence { bits: 0 }) && (Confidence {
            bits: 0x3ff0_0000_0000_0000,
        }).reaches(self)
    }

    /// Whether this score is a number from 0.0 to 1.0.
    pub fn is_in_unit_range(self) -> (r: bool)
        ensures
            r == self.in_unit_range(),
    {
        self.at_least(Confidence { bits: 0 }) && Confidence {
            bits: 0x3ff0_0000_0000_0000,
        }.at_least(self)
    }

    /// Whether this score is at least `other`.
    pub fn at_least(self, other: Confidence) -> (r: bool)
        ensures
            r == self.reaches(other),
    {
        let sign: u64 = 0x8000_0000_0000_0000;
        let nan: u64 = 0x7ff0_0000_0000_0000;
        let a: u64 = if self.bits >= sign {
            self.bits - sign
        } else {
            self.bits
        };
        let b: u64 = if other.bits >= sign {
            other.bits - sign
        } else {
            other.bits
        };
        if a > nan || b > nan {
            return false;
        }
        if self.bits >= sign {
            if other.bits >= sign {
                a <= b
            } else {
                a == 0 && b == 0
            }
        } else if other.bits >= sign {
            true
        } else {
            a >= b
        }
    }
}

proof fn lemma_decimal(n: nat)
    ensures
        decimal(n).len() > 0,
        forall|i: int| 0 <= i < decimal(n).len() ==> is_digit(#[trigger] decimal(n)[i]),
        digits_value(decimal(n)) == n,
    decreases n,
{
    if n >= 10 {
        lemma_decimal(n / 10);
        let s = decimal(n);
        let head = decimal(n / 10);
        assert(s.drop_last() =~= head);
        assert(s.last() == digit_char(n % 10));
        assert forall|i: int| 0 <= i < s.len() implies is_digit(#[trigger] s[i]) by {
            if i < s.len() - 1 {
                assert(s[i] == head[i]);
            }
        }
    } else {
        reveal_with_fuel(digits_value, 2);
        let s = decimal(n);
        assert(s.drop_last() =~= Seq::<char>::empty());
        assert(s.last() == digit_char(n));
    }
}

/// A number that is written in decimal, with or without a plus sign, is read
/// back, unless it is larger than it may be.
pub proof fn law_numbers_read_back(n: nat, max: u64)
    ensures
        n <= max ==> number_up_to(decimal(n), max) == Some(n as u64),
        n <= max ==> number_up_to(seq!['+'] + decimal(n), max) == Some(n as u64),
        n > max ==> number_up_to(decimal(n), max) is None,
{
    lemma_decimal(n);
    let s = decimal(n);
    assert(is_digit(s[0]));
    assert(unsigned_digits(s) == s);
    let signed = seq!['+'] + s;
    assert(signed.skip(1) =~= s);
}

/// A further digit multiplies a number by ten and adds to it.
pub proof fn law_digits_count_by_ten(s: Seq<char>, d: nat)
    requires
        d < 10,
    ensures
        digits_value(s.push(digit_char(d))) == 10 * digits_value(s) + d,
        digits_value(Seq::empty()) == 0,
{
    let more = s.push(digit_char(d));
    assert(more.drop_last() =~= s);
}

/// Text is no number where it has no digit, or anything but digits behind one
/// plus sign.
pub proof fn law_other_texts_are_no_numbers(s: Seq<char>, max: u64, i: int)
    requires
        s.len() == 0 || s == seq!['+'] || (0 <= i < s.len() && !is_digit(s[i]) && (i > 0 || s[i]
            != '+')),
    ensures
        number_up_to(s, max) is None,
{
    let d = unsigned_digits(s);
    if s.len() > 0 && s[0] == '+' {
        if d.len() > 0 && i > 0 {
            assert(d[i - 1] == s[i]);
        }
    }
}

/// Scores are ordered as numbers are: the bits count upwards from zero and,
/// with the sign, downwards; both zeros are equal, and what stands for no number
/// is compared with nothing.
pub proof fn law_scores_are_ordered(a: Confidence, b: Confidence)
    ensures
        a.bits <= 0x7ff0_0000_0000_0000 && b.bits <= 0x7ff0_0000_0000_0000 ==> (a.reaches(b)
            <==> a.bits >= b.bits),
        0x8000_0000_0000_0000 <= a.bits <= 0xfff0_0000_0000_0000 && 0x8000_0000_0000_0000 <= b.bits
            <= 0xfff0_0000_0000_0000 ==> (a.reaches(b) <==> a.bits <= b.bits),
        a.bits <= 0x7ff0_0000_0000_0000 && 0x8000_0000_0000_0000 <= b.bits <= 0xfff0_0000_0000_0000
            ==> a.reaches(b) && (b.reaches(a) <==> a.bits == 0 && b.bits == 0x8000_0000_0000_0000),
        0x7ff0_0000_0000_0000 < a.bits < 0x8000_0000_0000_0000 || a.bits > 0xfff0_0000_0000_0000
            ==> !a.reaches(b) && !b.reaches(a),
{
}

/// From 0.0 to 1.0 lie the two zeros and the bits up to those of one.
pub proof fn law_unit_range(a: Confidence)
    ensures
        a.in_unit_range() <==> a.bits <= 0x3ff0_0000_0000_0000 || a.bits == 0x8000_0000_0000_0000,
        (Confidence { bits: HALF_BITS }).in_unit_range(),
        HALF_BITS == 0x3ff0_0000_0000_0000 - 0x10_0000_0000_0000,
{
}

} // verus!
