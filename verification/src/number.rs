//! Decimal digits and the numbers they denote.

use vstd::prelude::*;
use crate::ascii::{DIGIT_ZERO, DOT, MINUS};
use crate::bytes::is_digit;
use crate::token::Decimal;

verus! {

pub open spec fn all_digits(ds: Seq<u8>) -> bool {
    forall|i: int| 0 <= i < ds.len() ==> is_digit(#[trigger] ds[i])
}

/// The number that a string of decimal digits denotes; the empty string denotes zero.
pub open spec fn digits_value(ds: Seq<u8>) -> nat
    decreases ds.len(),
{
    if ds.len() == 0 {
        0
    } else {
        digits_value(ds.drop_last()) * 10 + (ds.last() - DIGIT_ZERO) as nat
    }
}

/// A prefix of a digit string never denotes more than the whole string.
pub proof fn lemma_digits_value_prefix(ds: Seq<u8>, k: int)
    requires
        all_digits(ds),
        0 <= k <= ds.len(),
    ensures
        digits_value(ds.take(k)) <= digits_value(ds),
    decreases ds.len() - k,
{
    if k == ds.len() {
        assert(ds.take(k) == ds);
    } else {
        lemma_digits_value_prefix(ds.drop_last(), k);
        assert(ds.drop_last().take(k) == ds.take(k));
    }
}

/// Reads the digits of `src` as a number, unless it exceeds `limit`.
pub(crate) fn parse_digits(src: &[u8], limit: u64) -> (r: Option<u64>)
    requires
        all_digits(src@),
    ensures
        r == if digits_value(src@) <= limit {
            Some(digits_value(src@) as u64)
        } else {
            None
        },
{
    let mut acc: u64 = 0;
    let mut i: usize = 0;
    while i < src.len()
        invariant
            0 <= i <= src@.len(),
            all_digits(src@),
            acc == digits_value(src@.take(i as int)),
            acc <= limit,
        decreases src@.len() - i,
    {
        let d: u64 = (src[i] - DIGIT_ZERO) as u64;
        proof {
            assert(src@.take(i + 1).drop_last() == src@.take(i as int));
            assert(digits_value(src@.take(i + 1)) == acc * 10 + d);
            lemma_digits_value_prefix(src@, i + 1);
        }
        if acc > limit / 10 {
            return None;
        }
        if d > limit - acc * 10 {
            return None;
        }
        acc = acc * 10 + d;
        i += 1;
    }
    proof {
        assert(src@.take(i as int) == src@);
    }
    Some(acc)
}

/// The length of a digit string once the zeros at its end are dropped.
pub open spec fn significant_len(ds: Seq<u8>) -> int
    decreases ds.len(),
{
    if ds.len() > 0 && ds.last() == DIGIT_ZERO {
        significant_len(ds.drop_last())
    } else {
        ds.len() as int
    }
}

pub proof fn lemma_significant_len(ds: Seq<u8>)
    ensures
        0 <= significant_len(ds) <= ds.len(),
        significant_len(ds) > 0 ==> ds[significant_len(ds) - 1] != DIGIT_ZERO,
        forall|i: int| significant_len(ds) <= i < ds.len() ==> #[trigger] ds[i] == DIGIT_ZERO,
    decreases ds.len(),
{
    if ds.len() > 0 && ds.last() == DIGIT_ZERO {
        lemma_significant_len(ds.drop_last());
        assert forall|i: int| significant_len(ds) <= i < ds.len() implies #[trigger] ds[i]
            == DIGIT_ZERO by {
            if i < ds.len() - 1 {
                assert(ds.drop_last()[i] == ds[i]);
            }
        }
    }
}

/// Finds where the significant digits of `src[from..to]` end.
pub(crate) fn trim_trailing_zeros(src: &[u8], from: usize, to: usize) -> (end: usize)
    requires
        from <= to <= src@.len(),
    ensures
        end == from + significant_len(src@.subrange(from as int, to as int)),
        from <= end <= to,
{
    let mut end: usize = to;
    while end > from && src[end - 1] == DIGIT_ZERO
        invariant
            from <= end <= to <= src@.len(),
            significant_len(src@.subrange(from as int, to as int)) == significant_len(
                src@.subrange(from as int, end as int),
            ),
        decreases end - from,
    {
        proof {
            assert(src@.subrange(from as int, end as int).drop_last() == src@.subrange(
                from as int,
                end - 1,
            ));
        }
        end -= 1;
    }
    end
}

/// The decimal digits of a number, without leading zeros; zero is `0`.
pub open spec fn decimal_digits(n: nat) -> Seq<u8>
    decreases n,
{
    if n < 10 {
        seq![(DIGIT_ZERO + n) as u8]
    } else {
        decimal_digits(n / 10).push((DIGIT_ZERO + n % 10) as u8)
    }
}

/// The text of an integer: its decimal digits, behind a `-` where it is negative.
pub open spec fn integer_text(v: int) -> Seq<u8> {
    if v < 0 {
        seq![MINUS] + decimal_digits((-v) as nat)
    } else {
        decimal_digits(v as nat)
    }
}

/// A run of `count` zeros.
pub open spec fn zeros(count: nat) -> Seq<u8> {
    Seq::new(count, |i: int| DIGIT_ZERO)
}

/// The text of a decimal number: the digits of the mantissa with the point set
/// `scale` places from their end. A number without a fraction ends in `.0`, so
/// the text always shows a fractional part.
pub open spec fn decimal_text(d: Decimal) -> Seq<u8> {
    let digits = decimal_digits(d.mantissa as nat);
    let scale = d.scale as int;
    if scale == 0 {
        digits + seq![DOT, DIGIT_ZERO]
    } else if digits.len() > scale {
        digits.take(digits.len() - scale) + seq![DOT] + digits.skip(digits.len() - scale)
    } else {
        seq![DIGIT_ZERO, DOT] + zeros((scale - digits.len()) as nat) + digits
    }
}

/// Appends the decimal digits of `n`.
pub fn push_digits(out: &mut Vec<u8>, n: u64)
    ensures
        final(out)@ == old(out)@ + decimal_digits(n as nat),
    decreases n,
{
    if n >= 10 {
        push_digits(out, n / 10);
    }
    out.push(DIGIT_ZERO + (n % 10) as u8);
    assert(final(out)@ =~= old(out)@ + decimal_digits(n as nat));
}

/// Renders an integer.
pub fn render_integer(v: i64) -> (out: Vec<u8>)
    ensures
        out@ == integer_text(v as int),
{
    let mut out: Vec<u8> = Vec::new();
    if v < 0 {
        out.push(MINUS);
        let magnitude: u64 = ((-(v + 1)) as u64) + 1;
        push_digits(&mut out, magnitude);
    } else {
        push_digits(&mut out, v as u64);
    }
    out
}

/// Renders a decimal number.
pub fn render_decimal(d: Decimal) -> (out: Vec<u8>)
    ensures
        out@ == decimal_text(d),
{
    let mut digits: Vec<u8> = Vec::new();
    push_digits(&mut digits, d.mantissa);
    let mut out: Vec<u8> = Vec::new();
    if d.scale == 0 {
        out.extend_from_slice(digits.as_slice());
        out.push(DOT);
        out.push(DIGIT_ZERO);
        assert(out@ =~= decimal_text(d));
    } else if digits.len() > d.scale {
        let split = digits.len() - d.scale;
        let mut i: usize = 0;
        while i < digits.len()
            invariant
                0 <= i <= digits.len(),
                split < digits.len(),
                out@ == if i <= split {
                    digits@.take(i as int)
                } else {
                    digits@.take(split as int) + seq![DOT] + digits@.subrange(
                        split as int,
                        i as int,
                    )
                },
            decreases digits.len() - i,
        {
            if i == split {
                out.push(DOT);
            }
            out.push(digits[i]);
            i += 1;
            assert(out@ =~= if i <= split {
                digits@.take(i as int)
            } else {
                digits@.take(split as int) + seq![DOT] + digits@.subrange(split as int, i as int)
            });
        }
        assert(digits@.subrange(split as int, digits.len() as int) =~= digits@.skip(split as int));
    } else {
        out.push(DIGIT_ZERO);
        out.push(DOT);
        let padding = d.scale - digits.len();
        let mut i: usize = 0;
        while i < padding
            invariant
                0 <= i <= padding,
                out@ == seq![DIGIT_ZERO, DOT] + zeros(i as nat),
            decreases padding - i,
        {
            out.push(DIGIT_ZERO);
            i += 1;
            assert(out@ =~= seq![DIGIT_ZERO, DOT] + zeros(i as nat));
        }
        out.extend_from_slice(digits.as_slice());
    }
    out
}

} // verus!
