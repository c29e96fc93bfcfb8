//! Rendering of integers and characters as strings.

use vstd::prelude::*;

verus! {

/// True when `n` is the code point of some `char`: at most `0x10FFFF` and
/// outside the surrogate block.
pub open spec fn is_char_code(n: int) -> bool {
    0 <= n <= 0x10FFFF && !(0xD800 <= n <= 0xDFFF)
}

/// The decimal digit character for `d` in `0..10`.
pub open spec fn digit_char(d: int) -> char {
    ((48 + d) as u32) as char
}

/// Base-10 digits of a natural number, most significant first, no leading zeros.
pub open spec fn digits(n: nat) -> Seq<char>
    decreases n,
{
    if n < 10 {
        seq![digit_char(n as int)]
    } else {
        digits(n / 10) + seq![digit_char((n % 10) as int)]
    }
}

/// Base-10 rendering of an integer, with a leading `-` when negative.
pub open spec fn decimal(n: int) -> Seq<char> {
    if n < 0 {
        seq!['-'] + digits((-n) as nat)
    } else {
        digits(n as nat)
    }
}

/// Relies on `char::from_u32`: `Some` exactly for the code point of a `char`.
#[verifier::external_body]
pub(crate) fn char_from_code(n: u32) -> (r: Option<char>)
    ensures
        is_char_code(n as int) ==> r == Some(n as char),
        !is_char_code(n as int) ==> r.is_none(),
{
    char::from_u32(n)
}

/// Relies on `<char as ToString>::to_string`: the string of that one character.
#[verifier::external_body]
pub(crate) fn char_string(c: char) -> (r: String)
    ensures
        r@ == seq![c],
{
    c.to_string()
}

/// The decimal digit character of `d`.
fn digit(d: u64) -> (c: char)
    requires
        d < 10,
    ensures
        c == digit_char(d as int),
{
    let r = char_from_code(48 + d as u32);
    match r {
        Some(c) => c,
        None => {
            proof {
                assert(is_char_code(48 + d as int));
            }
            '0'
        },
    }
}

/// Renders `n` in base 10, with a leading `-` when it is negative.
pub fn decimal_string(n: i64) -> (r: String)
    ensures
        r@ == decimal(n as int),
{
    let neg = n < 0;
    let mag: u64 = if neg {
        (-(n as i128)) as u64
    } else {
        n as u64
    };
    let mut m: u64 = mag;
    let mut acc = String::new();
    assert(digits(mag as nat) == digits(m as nat) + acc@);
    loop
        invariant_except_break
            digits(mag as nat) == digits(m as nat) + acc@,
        ensures
            digits(mag as nat) == acc@,
        decreases m,
    {
        let d = m % 10;
        let c = digit(d);
        proof {
            if m >= 10 {
                assert(digits(m as nat) == digits((m / 10) as nat) + seq![c]);
                assert(digits(mag as nat) == digits((m / 10) as nat) + (seq![c] + acc@));
            } else {
                assert(digits(m as nat) == seq![c]);
                assert(digits(mag as nat) == seq![c] + acc@);
            }
        }
        acc = char_string(c).concat(acc.as_str());
        m = m / 10;
        if m == 0 {
            break;
        }
    }
    if neg {
        acc = char_string('-').concat(acc.as_str());
    }
    acc
}

} // verus!
