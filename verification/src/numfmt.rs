//! Decimal rendering of the integers that appear in ranking messages, with an
//! exact character-level specification.

use vstd::prelude::*;
use vstd::string::*;
use crate::text::push_char;

verus! {

/// The decimal digit character for one digit value.
pub open spec fn digit_char(d: int) -> char {
    if d == 0 {
        '0'
    } else if d == 1 {
        '1'
    } else if d == 2 {
        '2'
    } else if d == 3 {
        '3'
    } else if d == 4 {
        '4'
    } else if d == 5 {
        '5'
    } else if d == 6 {
        '6'
    } else if d == 7 {
        '7'
    } else if d == 8 {
        '8'
    } else {
        '9'
    }
}

/// Decimal digits of a non-negative integer, most significant first.
pub open spec fn dec_digits(n: int) -> Seq<char>
    recommends
        n >= 0,
    decreases n,
{
    if n < 10 {
        seq![digit_char(n)]
    } else {
        dec_digits(n / 10).push(digit_char(n % 10))
    }
}

/// Decimal rendering of any integer, with a leading minus sign when negative.
pub open spec fn int_to_dec(n: int) -> Seq<char> {
    if n < 0 {
        seq!['-'] + dec_digits(-n)
    } else {
        dec_digits(n)
    }
}

fn digit_to_char(d: u64) -> (c: char)
    requires
        d < 10,
    ensures
        c == digit_char(d as int),
{
    if d == 0 {
        '0'
    } else if d == 1 {
        '1'
    } else if d == 2 {
        '2'
    } else if d == 3 {
        '3'
    } else if d == 4 {
        '4'
    } else if d == 5 {
        '5'
    } else if d == 6 {
        '6'
    } else if d == 7 {
        '7'
    } else if d == 8 {
        '8'
    } else {
        '9'
    }
}

/// Renders a non-negative value in decimal.
pub fn u64_to_string(m: u64) -> (r: String)
    ensures
        r@ == dec_digits(m as int),
{
    let mut digits: Vec<char> = Vec::new();
    let mut v: u64 = m;
    while v >= 10
        invariant
            dec_digits(m as int) == dec_digits(v as int) + digits@.reverse(),
        decreases v,
    {
        let d = v % 10;
        digits.push(digit_to_char(d));
        v = v / 10;
        proof {
            assert(dec_digits(m as int) =~= dec_digits(v as int) + digits@.reverse());
        }
    }
    digits.push(digit_to_char(v));
    proof {
        assert(dec_digits(m as int) =~= digits@.reverse());
    }
    let ghost all = digits@;
    let mut r = String::new();
    let mut i: usize = digits.len();
    while i > 0
        invariant
            i <= all.len(),
            digits@ == all,
            r@ == all.reverse().take(all.len() - i),
        decreases i,
    {
        i = i - 1;
        let c = digits[i];
        push_char(&mut r, c);
        proof {
            assert(r@ =~= all.reverse().take(all.len() - i));
        }
    }
    proof {
        assert(all.reverse().take(all.len() as int) =~= all.reverse());
    }
    r
}

/// Renders any value in decimal, negative values with a minus sign.
pub fn i64_to_string(n: i64) -> (r: String)
    ensures
        r@ == int_to_dec(n as int),
{
    if n >= 0 {
        u64_to_string(n as u64)
    } else {
        let m: u64 = if n == i64::MIN {
            9223372036854775808u64
        } else {
            (-n) as u64
        };
        proof {
            assert(m as int == -(n as int));
        }
        let mut r = String::new();
        push_char(&mut r, '-');
        let tail = u64_to_string(m);
        r.append(tail.as_str());
        proof {
            assert(r@ =~= seq!['-'] + dec_digits(-(n as int)));
        }
        r
    }
}

/// Renders a signed 32-bit value in decimal.
pub fn i32_to_string(n: i32) -> (r: String)
    ensures
        r@ == int_to_dec(n as int),
{
    i64_to_string(n as i64)
}

/// Renders an unsigned machine-word value in decimal.
pub fn usize_to_string(n: usize) -> (r: String)
    ensures
        r@ == dec_digits(n as int),
{
    u64_to_string(n as u64)
}

} // verus!
