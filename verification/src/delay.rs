//! The pre-request delay: reading a `"min-max"` millisecond range and
//! drawing a delay from it.
use vstd::prelude::*;
use crate::text::{
    chars_of, decimal, is_digit, lemma_decimal, lemma_split_pair, parse_u64_in, parse_u64_spec,
    split_on, split_ranges, unsigned_digits,
};
use crate::random::{gen_range_u64, thread_rng};
use std::ops::Range;

verus! {

/// The bounds that a delay argument `"start-end"` denotes: exactly two
/// pieces around `-`, both unsigned integers, the first below the second.
pub open spec fn delay_bounds(val: Seq<char>) -> Option<(u64, u64)> {
    let parts = split_on(val, '-');
    if parts.len() == 2 {
        match (parse_u64_spec(parts[0]), parse_u64_spec(parts[1])) {
            (Some(a), Some(b)) => if a < b { Some((a, b)) } else { None },
            _ => None,
        }
    } else {
        None
    }
}

/// Reads a delay range such as `"100-500"`; any other shape gives `None`.
pub fn parse_delay(val: &str) -> (r: Option<Range<u64>>)
    ensures
        match r {
            Some(range) => delay_bounds(val@) == Some((range.start, range.end)),
            None => delay_bounds(val@) is None,
        },
        r matches Some(range) ==> range.start < range.end,
{
    let chars = chars_of(val);
    assert(chars@.subrange(0, chars@.len() as int) =~= val@);
    let parts = split_ranges(&chars, 0, chars.len(), '-');
    if parts.len() == 2 {
        let (s0, e0) = parts[0];
        let (s1, e1) = parts[1];
        let a = parse_u64_in(&chars, s0, e0);
        let b = parse_u64_in(&chars, s1, e1);
        match (a, b) {
            (Some(start), Some(end)) => {
                if start < end {
                    return Some(start..end);
                }
            },
            _ => {},
        }
    }
    None
}

/// A range written out as `"{start}-{end}"`, in decimal, reads back as
/// itself whenever the start lies below the end.
pub proof fn lemma_delay_round_trip(start: u64, end: u64)
    requires
        start < end,
    ensures
        delay_bounds(decimal(start as nat) + seq!['-'] + decimal(end as nat)) == Some((start, end)),
{
    let a = decimal(start as nat);
    let b = decimal(end as nat);
    lemma_decimal(start as nat);
    lemma_decimal(end as nat);
    assert forall|i: int| 0 <= i < a.len() implies a[i] != '-' by {
        assert(is_digit(a[i]));
    }
    assert forall|i: int| 0 <= i < b.len() implies b[i] != '-' by {
        assert(is_digit(b[i]));
    }
    lemma_split_pair(a, b, '-');
    let parts = split_on(a + seq!['-'] + b, '-');
    assert(parts[0] == a && parts[1] == b);
    assert(is_digit(a[0]) && is_digit(b[0]));
    assert(unsigned_digits(a) == a);
    assert(unsigned_digits(b) == b);
}

/// The delay to wait before a request: nothing without a range or with an
/// empty one, else a random value inside it.
pub fn pick_delay(delay_range: Option<Range<u64>>) -> (r: Option<u64>)
    ensures
        match delay_range {
            Some(range) => if range.start < range.end {
                r matches Some(d) && range.start <= d < range.end
            } else {
                r is None
            },
            None => r is None,
        },
{
    match delay_range {
        Some(range) => {
            if range.start < range.end {
                let mut rng = thread_rng();
                Some(gen_range_u64(&mut rng, range))
            } else {
                None
            }
        },
        None => None,
    }
}

} // verus!
