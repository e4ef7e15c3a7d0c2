//! Verified decimal rendering of the integer property values that appear in
//! graph upserts.

use vstd::prelude::*;

verus! {

/// The decimal digit character for `d`.
pub open spec fn digit_char(d: int) -> char {
    if d == 0 {
        '0'
    } else if d == 1 {
        '1'
    } else if d == 2 {
        '2'
    } else if d == 3 {
        '3'
    } else if d == 4 {
        '4'
    } else if d == 5 {
        '5'
    } else if d == 6 {
        '6'
    } else if d == 7 {
        '7'
    } else if d == 8 {
        '8'
    } else {
        '9'
    }
}

/// The decimal digits of `n`, most significant first, with no leading zero
/// except for zero itself.
pub open spec fn dec_digits(n: nat) -> Seq<char>
    decreases n,
{
    if n < 10 {
        seq![digit_char(n as int)]
    } else {
        dec_digits(n / 10).push(digit_char((n % 10) as int))
    }
}

/// The decimal rendering of a signed value: a minus sign before the digits
/// of the magnitude when the value is negative.
pub open spec fn signed_dec_digits(v: int) -> Seq<char> {
    if v < 0 {
        seq!['-'] + dec_digits((-v) as nat)
    } else {
        dec_digits(v as nat)
    }
}

fn digit_to_char(d: u64) -> (c: char)
    requires
        d < 10,
    ensures
        c == digit_char(d as int),
{
    if d == 0 {
        '0'
    } else if d == 1 {
        '1'
    } else if d == 2 {
        '2'
    } else if d == 3 {
        '3'
    } else if d == 4 {
        '4'
    } else if d == 5 {
        '5'
    } else if d == 6 {
        '6'
    } else if d == 7 {
        '7'
    } else if d == 8 {
        '8'
    } else {
        '9'
    }
}

/// Render `n` in decimal.
pub fn u64_to_decimal(n: u64) -> (s: Vec<char>)
    ensures
        s@ == dec_digits(n as nat),
{
    let mut digits: Vec<char> = Vec::new();
    let mut m: u64 = n;
    proof {
        assert(dec_digits(n as nat) =~= dec_digits(m as nat) + digits@);
    }
    while m >= 10
        invariant
            dec_digits(n as nat) == dec_digits(m as nat) + digits@,
        decreases m,
    {
        let ghost old_digits = digits@;
        let ghost old_m = m as nat;
        let d = m % 10;
        digits.insert(0, digit_to_char(d));
        m = m / 10;
        proof {
            assert(digits@ =~= seq![digit_char(d as int)] + old_digits);
            assert(dec_digits(old_m) == dec_digits(old_m / 10).push(digit_char((old_m % 10) as int)));
            assert(dec_digits(old_m) + old_digits =~= dec_digits(m as nat) + digits@);
        }
    }
    let ghost before_last = digits@;
    digits.insert(0, digit_to_char(m));
    proof {
        assert(digits@ =~= seq![digit_char(m as int)] + before_last);
        assert(dec_digits(m as nat) == seq![digit_char(m as int)]);
        assert(dec_digits(n as nat) =~= digits@);
    }
    digits
}

/// Render `n` in decimal. Query parameters are 128-bit values.
pub fn u128_to_decimal(n: u128) -> (s: Vec<char>)
    ensures
        s@ == dec_digits(n as nat),
{
    let mut digits: Vec<char> = Vec::new();
    let mut m: u128 = n;
    proof {
        assert(dec_digits(n as nat) =~= dec_digits(m as nat) + digits@);
    }
    while m >= 10
        invariant
            dec_digits(n as nat) == dec_digits(m as nat) + digits@,
        decreases m,
    {
        let ghost old_digits = digits@;
        let ghost old_m = m as nat;
        let d = (m % 10) as u64;
        digits.insert(0, digit_to_char(d));
        m = m / 10;
        proof {
            assert(digits@ =~= seq![digit_char(d as int)] + old_digits);
            assert(dec_digits(old_m) == dec_digits(old_m / 10).push(digit_char((old_m % 10) as int)));
            assert(dec_digits(old_m) + old_digits =~= dec_digits(m as nat) + digits@);
        }
    }
    let ghost before_last = digits@;
    digits.insert(0, digit_to_char(m as u64));
    proof {
        assert(digits@ =~= seq![digit_char(m as int)] + before_last);
        assert(dec_digits(m as nat) == seq![digit_char(m as int)]);
        assert(dec_digits(n as nat) =~= digits@);
    }
    digits
}

/// Render `n` in decimal, with a leading minus sign when negative.
pub fn i64_to_decimal(n: i64) -> (s: Vec<char>)
    ensures
        s@ == signed_dec_digits(n as int),
{
    if n >= 0 {
        u64_to_decimal(n as u64)
    } else {
        let wide: i128 = n as i128;
        let magnitude: u64 = (-wide) as u64;
        let mut digits = u64_to_decimal(magnitude);
        let ghost unsigned_part = digits@;
        digits.insert(0, '-');
        proof {
            assert(digits@ =~= seq!['-'] + unsigned_part);
        }
        digits
    }
}

} // verus!
