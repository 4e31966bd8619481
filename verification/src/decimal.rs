use vstd::prelude::*;

use crate::text::push_char;

verus! {

/// The character of the decimal digit `d` (`0 <= d < 10`).
pub open spec fn digit_char(d: int) -> char {
    (48 + d) as char
}

/// The decimal rendering of a natural number, most significant digit first,
/// without leading zeros (`0` is rendered as `"0"`).
pub open spec fn decimal_digits(n: nat) -> Seq<char>
    decreases n,
{
    if n < 10 {
        seq![digit_char(n as int)]
    } else {
        decimal_digits(n / 10).push(digit_char((n % 10) as int))
    }
}

/// The decimal rendering of an integer: a `-` before the digits of its
/// magnitude when it is negative.
pub open spec fn signed_decimal_digits(v: int) -> Seq<char> {
    if v < 0 {
        seq!['-'] + decimal_digits((-v) as nat)
    } else {
        decimal_digits(v as nat)
    }
}

fn digit_of(d: u64) -> (c: char)
    requires
        d < 10,
    ensures
        c == digit_char(d as int),
{
    let b: u8 = 48u8 + (d as u8);
    b as char
}

/// Appends the decimal rendering of `n` to `out`.
fn push_decimal(out: &mut String, n: u64)
    ensures
        final(out)@ == old(out)@ + decimal_digits(n as nat),
    decreases n,
{
    if n >= 10 {
        push_decimal(out, n / 10);
    }
    push_char(out, digit_of(n % 10));
    proof {
        assert(old(out)@ + decimal_digits(n as nat) =~= if n >= 10 {
            (old(out)@ + decimal_digits((n / 10) as nat)).push(digit_char((n % 10) as int))
        } else {
            old(out)@.push(digit_char((n % 10) as int))
        });
    }
}

/// The decimal text of an unsigned number, as `to_string` renders it.
pub fn decimal_text(n: u64) -> (res: String)
    ensures
        res@ == decimal_digits(n as nat),
{
    let mut out = String::new();
    push_decimal(&mut out, n);
    assert(out@ =~= decimal_digits(n as nat));
    out
}

/// The decimal text of a signed number, as `to_string` renders it.
pub fn signed_decimal_text(v: i32) -> (res: String)
    ensures
        res@ == signed_decimal_digits(v as int),
{
    let mut out = String::new();
    if v < 0 {
        push_char(&mut out, '-');
        let magnitude: i64 = 0i64 - (v as i64);
        push_decimal(&mut out, magnitude as u64);
    } else {
        push_decimal(&mut out, v as u64);
    }
    assert(out@ =~= signed_decimal_digits(v as int));
    out
}

} // verus!
