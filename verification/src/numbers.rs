//! Decimal integers read from settings and shortcut strings, as `str::parse` reads
//! them: an optional sign, then one or more ASCII digits, within the type's range.
use vstd::prelude::*;
use crate::text::chars_of;

verus! {

pub open spec fn is_digit(c: char) -> bool {
    '0' <= c <= '9'
}

pub open spec fn all_digits(ds: Seq<char>) -> bool {
    forall|i: int| 0 <= i < ds.len() ==> is_digit(#[trigger] ds[i])
}

/// The value of a string of decimal digits.
pub open spec fn digits_value(ds: Seq<char>) -> nat
    decreases ds.len(),
{
    if ds.len() == 0 {
        0
    } else {
        digits_value(ds.drop_last()) * 10 + ((ds.last() as u32 - '0' as u32) as nat)
    }
}

/// The magnitude written by `s`: an optional `+`, then one or more digits.
pub open spec fn unsigned_value(s: Seq<char>) -> Option<nat> {
    let ds = if s.len() > 0 && s[0] == '+' {
        s.skip(1)
    } else {
        s
    };
    if ds.len() > 0 && all_digits(ds) {
        Some(digits_value(ds))
    } else {
        None
    }
}

/// What `s.parse::<usize>()` gives, as an option.
pub open spec fn parse_usize_spec(s: Seq<char>) -> Option<usize> {
    match unsigned_value(s) {
        Some(v) => if v <= usize::MAX {
            Some(v as usize)
        } else {
            None
        },
        None => None,
    }
}

/// What `s.parse::<u32>()` gives, as an option.
pub open spec fn parse_u32_spec(s: Seq<char>) -> Option<u32> {
    match unsigned_value(s) {
        Some(v) => if v <= u32::MAX {
            Some(v as u32)
        } else {
            None
        },
        None => None,
    }
}

/// The value written by `s`: an optional `+` or `-`, then one or more digits.
pub open spec fn signed_value(s: Seq<char>) -> Option<int> {
    if s.len() > 0 && s[0] == '-' {
        let ds = s.skip(1);
        if ds.len() > 0 && all_digits(ds) {
            Some(-(digits_value(ds) as int))
        } else {
            None
        }
    } else {
        match unsigned_value(s) {
            Some(v) => Some(v as int),
            None => None,
        }
    }
}

/// What `s.parse::<i64>()` gives, as an option.
pub open spec fn parse_i64_spec(s: Seq<char>) -> Option<i64> {
    match signed_value(s) {
        Some(v) => if i64::MIN <= v <= i64::MAX {
            Some(v as i64)
        } else {
            None
        },
        None => None,
    }
}

proof fn lemma_digits_value_monotone(ds: Seq<char>, i: int)
    requires
        0 <= i <= ds.len(),
    ensures
        digits_value(ds.take(i)) <= digits_value(ds),
    decreases ds.len() - i,
{
    if i < ds.len() {
        lemma_digits_value_monotone(ds, i + 1);
        assert(ds.take(i + 1).drop_last() =~= ds.take(i));
    } else {
        assert(ds.take(i) =~= ds);
    }
}

/// The value of the digits `ds`, or `None` when it exceeds `limit`.
fn digits_up_to(ds: &[char], start: usize, limit: u64) -> (r: Option<u64>)
    requires
        start <= ds@.len(),
        all_digits(ds@.skip(start as int)),
    ensures
        match r {
            Some(v) => v == digits_value(ds@.skip(start as int)) && v <= limit,
            None => digits_value(ds@.skip(start as int)) > limit,
        },
{
    let ghost tail = ds@.skip(start as int);
    let mut v: u64 = 0;
    let mut i: usize = start;
    assert(tail.take(0) =~= seq![]);
    while i < ds.len()
        invariant
            start <= i <= ds@.len(),
            tail == ds@.skip(start as int),
            all_digits(tail),
            v == digits_value(tail.take(i - start)),
            v <= limit,
        decreases ds.len() - i,
    {
        let c = ds[i];
        assert(tail[i - start] == c);
        let d = (c as u32 - '0' as u32) as u64;
        assert(tail.take(i - start + 1).drop_last() =~= tail.take(i - start));
        assert(tail.take(i - start + 1).last() == c);
        if d > limit || v > (limit - d) / 10 {
            proof {
                if d <= limit {
                    assert(v * 10 + d > limit) by (nonlinear_arith)
                        requires
                            v > (limit - d) / 10,
                            d <= limit,
                    ;
                }
                lemma_digits_value_monotone(tail, i - start + 1);
            }
            return None;
        }
        assert(v * 10 + d <= limit) by (nonlinear_arith)
            requires
                v <= (limit - d) / 10,
                d <= limit,
        ;
        v = v * 10 + d;
        i += 1;
    }
    assert(tail.take(i - start) =~= tail);
    Some(v)
}

/// Whether every character of `ds` from `start` on is a digit.
fn digits_from(ds: &[char], start: usize) -> (b: bool)
    requires
        start <= ds@.len(),
    ensures
        b == all_digits(ds@.skip(start as int)),
{
    let mut i: usize = start;
    while i < ds.len()
        invariant
            start <= i <= ds@.len(),
            forall|j: int| start <= j < i ==> is_digit(ds@[j]),
        decreases ds.len() - i,
    {
        if !(ds[i] >= '0' && ds[i] <= '9') {
            assert(ds@.skip(start as int)[i - start] == ds@[i as int]);
            return false;
        }
        i += 1;
    }
    true
}

/// `s.parse::<usize>()`, as an option.
pub fn parse_usize(s: &str) -> (r: Option<usize>)
    ensures
        r == parse_usize_spec(s@),
{
    let cs = chars_of(s);
    parse_usize_chars(cs.as_slice())
}

/// `parse_usize` on characters.
pub fn parse_usize_chars(cs: &[char]) -> (r: Option<usize>)
    ensures
        r == parse_usize_spec(cs@),
{
    let start: usize = if cs.len() > 0 && cs[0] == '+' {
        1
    } else {
        0
    };
    assert(cs@.skip(0) =~= cs@);
    if start >= cs.len() || !digits_from(cs, start) {
        return None;
    }
    match digits_up_to(cs, start, usize::MAX as u64) {
        Some(v) => Some(v as usize),
        None => None,
    }
}

/// `s.parse::<u32>()` on characters, as an option.
pub fn parse_u32_chars(cs: &[char]) -> (r: Option<u32>)
    ensures
        r == parse_u32_spec(cs@),
{
    let start: usize = if cs.len() > 0 && cs[0] == '+' {
        1
    } else {
        0
    };
    assert(cs@.skip(0) =~= cs@);
    if start >= cs.len() || !digits_from(cs, start) {
        return None;
    }
    match digits_up_to(cs, start, u32::MAX as u64) {
        Some(v) => Some(v as u32),
        None => None,
    }
}

/// `s.parse::<i64>()`, as an option.
pub fn parse_i64(s: &str) -> (r: Option<i64>)
    ensures
        r == parse_i64_spec(s@),
{
    let cs = chars_of(s);
    if cs.len() > 0 && cs[0] == '-' {
        if cs.len() == 1 || !digits_from(cs.as_slice(), 1) {
            return None;
        }
        match digits_up_to(cs.as_slice(), 1, 9223372036854775808u64) {
            Some(v) => {
                if v == 9223372036854775808u64 {
                    Some(i64::MIN)
                } else {
                    Some(-(v as i64))
                }
            },
            None => None,
        }
    } else {
        let start: usize = if cs.len() > 0 && cs[0] == '+' {
            1
        } else {
            0
        };
        assert(cs@.skip(0) =~= cs@);
        if start >= cs.len() || !digits_from(cs.as_slice(), start) {
            return None;
        }
        match digits_up_to(cs.as_slice(), start, i64::MAX as u64) {
            Some(v) => Some(v as i64),
            None => None,
        }
    }
}

} // verus!
