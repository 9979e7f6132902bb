//! Human-readable byte sizes.
//!
//! Sizes of a kilobyte and more are shown with one decimal, as formatting the
//! floating-point quotient with `{:.1}` shows them. That is computed here exactly
//! in integers: the byte count is first rounded to the nearest double (53
//! significant bits, ties to even), and the quotient is then rounded to tenths,
//! ties to even.
use vstd::prelude::*;
use crate::text::{append_chars, decimal, decimal_chars, digit, digit_char, string_of};

verus! {

/// `n / d` rounded to the nearest integer, ties to the even one.
pub open spec fn round_half_even(n: nat, d: nat) -> nat {
    if d == 0 {
        0
    } else {
        let q = n / d;
        let r = n % d;
        if r * 2 > d || (r * 2 == d && q % 2 == 1) {
            q + 1
        } else {
            q
        }
    }
}

/// The largest magnitude below which every integer is exactly a double.
pub open spec fn exact_double_limit() -> nat {
    9007199254740992
}

/// The spacing of doubles near `b`: the least power of two `d` (from the given one,
/// doubling) with `b / d` below the exact limit.
pub open spec fn double_spacing(b: nat, d: nat) -> nat
    decreases b - d,
{
    if d == 0 || d > b || b / d < exact_double_limit() {
        d
    } else {
        proof {
            assert(d * 2 <= b) by (nonlinear_arith)
                requires
                    d > 0,
                    d <= b,
                    b / d >= 9007199254740992,
            ;
        }
        double_spacing(b, d * 2)
    }
}

/// The double nearest to `b` (ties to even), as an integer.
pub open spec fn nearest_double(b: nat) -> nat {
    let d = double_spacing(b, 1);
    round_half_even(b, d) * d
}

/// `t` tenths written with one decimal: `12` is `1.2`.
pub open spec fn tenths_text(t: nat) -> Seq<char> {
    decimal(t / 10) + seq!['.', digit_char(t % 10)]
}

/// The text that `format_size` gives for `b` bytes.
pub open spec fn format_size_spec(b: nat) -> Seq<char> {
    if b < 1024 {
        decimal(b) + seq![' ', 'B']
    } else if b < 1048576 {
        tenths_text(round_half_even(b * 10, 1024)) + seq![' ', 'K', 'B']
    } else {
        tenths_text(round_half_even(nearest_double(b) * 10, 1048576)) + seq![' ', 'M', 'B']
    }
}

fn round_half_even_u128(n: u128, d: u128) -> (q: u128)
    requires
        d > 0,
        n / d < u128::MAX,
    ensures
        q == round_half_even(n as nat, d as nat),
{
    let q = n / d;
    let r = n % d;
    if r > d - r || (r == d - r && q % 2 == 1) {
        q + 1
    } else {
        q
    }
}

/// The double nearest to `b`, as an integer.
fn nearest_double_of(b: u64) -> (v: u128)
    ensures
        v == nearest_double(b as nat),
        v <= 4 * (b as nat) + 4,
{
    let mut d: u64 = 1;
    while d <= b && b / d >= 9007199254740992
        invariant
            d >= 1,
            d <= 2 * (b as nat) + 1,
            double_spacing(b as nat, 1) == double_spacing(b as nat, d as nat),
        decreases b - d,
    {
        assert(d * 2 <= b) by (nonlinear_arith)
            requires
                d > 0,
                d <= b,
                b / d >= 9007199254740992,
        ;
        d = d * 2;
    }
    let q = round_half_even_u128(b as u128, d as u128);
    proof {
        vstd::arithmetic::div_mod::lemma_fundamental_div_mod(b as int, d as int);
        assert(q <= b / d + 1);
        assert(q * d <= (b / d) * d + d) by (nonlinear_arith)
            requires
                d >= 1,
                q <= b / d + 1,
        ;
        assert((b / d) * d <= b);
    }
    q * (d as u128)
}

/// `t` tenths with one decimal.
fn tenths_chars(t: u128) -> (out: Vec<char>)
    requires
        t / 10 <= u64::MAX,
    ensures
        out@ == tenths_text(t as nat),
{
    let mut out = decimal_chars((t / 10) as u64);
    out.push('.');
    out.push(digit((t % 10) as u64));
    out
}

/// A byte count as text: `B` below a kilobyte, else `KB` below a megabyte, else
/// `MB`, with one decimal for `KB` and `MB`.
pub fn format_size(bytes: u64) -> (out: String)
    ensures
        out@ == format_size_spec(bytes as nat),
{
    let mut text: Vec<char>;
    if bytes < 1024 {
        text = decimal_chars(bytes);
        append_chars(&mut text, &[' ', 'B']);
        assert(seq![' ', 'B'] =~= [' ', 'B']@);
    } else if bytes < 1048576 {
        let t = round_half_even_u128((bytes as u128) * 10, 1024);
        text = tenths_chars(t);
        append_chars(&mut text, &[' ', 'K', 'B']);
        assert(seq![' ', 'K', 'B'] =~= [' ', 'K', 'B']@);
    } else {
        let v = nearest_double_of(bytes);
        let t = round_half_even_u128(v * 10, 1048576);
        text = tenths_chars(t);
        append_chars(&mut text, &[' ', 'M', 'B']);
        assert(seq![' ', 'M', 'B'] =~= [' ', 'M', 'B']@);
    }
    string_of(text.as_slice())
}

/// Below the exact limit a byte count is its own double, so `MB` sizes there are the
/// byte count in tenths of a megabyte, rounded half to even.
pub proof fn lemma_small_counts_are_exact(b: nat)
    requires
        b < exact_double_limit(),
    ensures
        nearest_double(b) == b,
{
    assert(b / 1 == b);
    assert(b % 1 == 0);
    assert(double_spacing(b, 1) == 1);
    assert(round_half_even(b, 1) == b);
}

} // verus!
