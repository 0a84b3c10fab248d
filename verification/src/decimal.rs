//! Decimal numbers as the profile tables write them: the scales of fields.

use crate::text::{
    is_numeral, numeral_value, parse_numeral, split_on, split_ranges, without_plus, Radix,
};
use vstd::prelude::*;

verus! {

/// A decimal number that is not negative: `mantissa` divided by ten to the power of
/// `fraction_digits`. It keeps the digits as they were written, so `1.0` and `1` are
/// different values of the same worth.
#[derive(Debug, Clone, Copy, PartialEq, Eq, Structural)]
pub struct Decimal {
    pub mantissa: u64,
    pub fraction_digits: u8,
}

impl Decimal {
    /// The number one, written without a fraction.
    pub open spec fn spec_one() -> Decimal {
        Decimal { mantissa: 1, fraction_digits: 0 }
    }

    /// The number one, written without a fraction.
    #[verifier::when_used_as_spec(spec_one)]
    pub fn one() -> (one: Decimal)
        ensures
            one == Decimal::spec_one(),
    {
        Decimal { mantissa: 1, fraction_digits: 0 }
    }

    /// Whether the number is greater than zero.
    pub open spec fn spec_is_positive(&self) -> bool {
        self.mantissa > 0
    }

    /// Whether the number is greater than zero.
    #[verifier::when_used_as_spec(spec_is_positive)]
    pub fn is_positive(&self) -> (positive: bool)
        ensures
            positive == self.spec_is_positive(),
    {
        self.mantissa > 0
    }
}

/// The digits before the decimal point of the pieces that a text falls into at its
/// decimal points.
pub open spec fn integer_digits(pieces: Seq<Seq<char>>) -> Seq<char> {
    pieces[0]
}

/// The digits after the decimal point, of which there are none without a point.
pub open spec fn fraction_digits(pieces: Seq<Seq<char>>) -> Seq<char> {
    if pieces.len() == 2 {
        pieces[1]
    } else {
        Seq::empty()
    }
}

/// The decimal number that `s` writes: an optional plus sign, then digits with at most
/// one decimal point among them, before them or after them. There is at least one
/// digit, there are at most 255 digits after the point, and the digits without the
/// point write a number of at most 64 bits.
pub open spec fn decimal_of(s: Seq<char>) -> Option<Decimal> {
    let pieces = split_on(without_plus(s), '.');
    let digits = integer_digits(pieces) + fraction_digits(pieces);
    if pieces.len() <= 2 && fraction_digits(pieces).len() <= 0xFF && is_numeral(digits, 10)
        && numeral_value(digits, 10) <= u64::MAX {
        Some(
            Decimal {
                mantissa: numeral_value(digits, 10) as u64,
                fraction_digits: fraction_digits(pieces).len() as u8,
            },
        )
    } else {
        None
    }
}

/// Reads `chars` as a decimal number.
pub fn parse_decimal(chars: &[char]) -> (value: Option<Decimal>)
    ensures
        value == decimal_of(chars@),
{
    let body: &[char] = if chars.len() > 0 && chars[0] == '+' {
        assert(chars@.subrange(1, chars.len() as int) =~= chars@.drop_first());
        &chars[1..chars.len()]
    } else {
        chars
    };
    assert(body@ == without_plus(chars@));
    let ranges = split_ranges(body, '.');
    proof {
        crate::text::lemma_split_on(body@, '.');
    }
    if ranges.len() > 2 {
        return None;
    }
    let ghost pieces = split_on(body@, '.');
    assert(pieces[0] == body@.subrange(ranges[0].0 as int, ranges[0].1 as int));
    let mut digits: Vec<char> = Vec::new();
    let (from, to) = ranges[0];
    let mut i: usize = from;
    while i < to
        invariant
            from <= i <= to <= body.len(),
            digits@ == body@.subrange(from as int, i as int),
        decreases to - i,
    {
        digits.push(body[i]);
        assert(body@.subrange(from as int, i + 1) =~= body@.subrange(from as int, i as int).push(
            body@[i as int],
        ));
        i += 1;
    }
    let mut fraction: usize = 0;
    if ranges.len() == 2 {
        assert(pieces[1] == body@.subrange(ranges[1].0 as int, ranges[1].1 as int));
        let (from, to) = ranges[1];
        fraction = to - from;
        let mut i: usize = from;
        while i < to
            invariant
                from <= i <= to <= body.len(),
                digits@ == integer_digits(pieces) + body@.subrange(from as int, i as int),
            decreases to - i,
        {
            digits.push(body[i]);
            assert(body@.subrange(from as int, i + 1) =~= body@.subrange(
                from as int,
                i as int,
            ).push(body@[i as int]));
            i += 1;
        }
    } else {
        assert(digits@ =~= integer_digits(pieces) + fraction_digits(pieces));
    }
    assert(digits@ == integer_digits(pieces) + fraction_digits(pieces));
    assert(fraction == fraction_digits(pieces).len());
    if fraction > 0xFF {
        return None;
    }
    match parse_numeral(digits.as_slice(), Radix::Decimal, u64::MAX) {
        Some(mantissa) => Some(Decimal { mantissa, fraction_digits: fraction as u8 }),
        None => None,
    }
}

} // verus!
