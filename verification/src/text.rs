//! Text as sequences of characters: the characters of a string slice,
//! comparison of string slices, and decimal numerals.

use vstd::prelude::*;
use vstd::string::StringExecFns;

verus! {

/// `String::push` of the standard library, which appends one character: the
/// string afterwards reads as the string before followed by `c`. This
/// contract is taken on trust from the documentation of `String::push`.
#[verifier::external_body]
pub(crate) fn push_char(s: &mut String, c: char)
    ensures
        final(s)@ == old(s)@.push(c),
{
    s.push(c)
}

/// The characters of `s`, in order.
pub fn chars_of(s: &str) -> (v: Vec<char>)
    ensures
        v@ == s@,
{
    let mut v: Vec<char> = Vec::new();
    for c in it: s.chars()
        invariant
            v@ == it.seq().take(it.index() as int),
    {
        v.push(c);
    }
    v
}

/// Whether two string slices hold the same characters.
pub fn same_text(a: &str, b: &str) -> (r: bool)
    ensures
        r == (a@ == b@),
{
    String::from_str(a) == String::from_str(b)
}

/// Whether `text` begins with `prefix`.
pub fn starts_with(text: &str, prefix: &str) -> (r: bool)
    ensures
        r == prefix@.is_prefix_of(text@),
{
    let n: usize = prefix.unicode_len();
    let m: usize = text.unicode_len();
    n <= m && same_text(text.substring_char(0, n), prefix)
}

/// The character that writes the digit `d`, for `d` below ten.
pub open spec fn digit(d: nat) -> char {
    ('0' as u8 + d) as char
}

/// The decimal numeral of `n`, most significant digit first, without
/// leading zeros; zero is written `0`.
pub open spec fn decimal(n: nat) -> Seq<char>
    decreases n,
{
    if n < 10 {
        seq![digit(n)]
    } else {
        decimal(n / 10).push(digit(n % 10))
    }
}

/// The number of digits in the decimal numeral of `n`.
pub open spec fn decimal_width(n: nat) -> nat {
    decimal(n).len()
}

/// A numeral has at least one digit, and a number below ten has exactly one.
pub proof fn decimal_width_positive(n: nat)
    ensures
        decimal_width(n) >= 1,
        n < 10 ==> decimal_width(n) == 1,
    decreases n,
{
    if n >= 10 {
        decimal_width_positive(n / 10);
    }
}

/// A larger number has no shorter numeral.
pub proof fn decimal_width_monotone(a: nat, b: nat)
    requires
        a <= b,
    ensures
        decimal_width(a) <= decimal_width(b),
    decreases b,
{
    if b < 10 {
    } else if a < 10 {
        decimal_width_positive(b / 10);
    } else {
        decimal_width_monotone(a / 10, b / 10);
    }
}

/// A number that fits in 128 bits has at most 39 digits.
pub proof fn decimal_width_bounded(n: nat)
    requires
        n <= u128::MAX,
    ensures
        decimal_width(n) <= 39,
{
    reveal_with_fuel(decimal, 40);
}

/// Computes the decimal numeral of `n`.
pub fn decimal_of(n: u128) -> (v: Vec<char>)
    ensures
        v@ == decimal(n as nat),
    decreases n,
{
    if n < 10 {
        let mut v: Vec<char> = Vec::new();
        v.push((48u8 + n as u8) as char);
        v
    } else {
        let mut v = decimal_of(n / 10);
        v.push((48u8 + (n % 10) as u8) as char);
        v
    }
}

} // verus!
