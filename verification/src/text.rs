use vstd::prelude::*;

verus! {

/// Whether `c` belongs to one of Unicode's numeric general categories
/// (`Nd`, `Nl`, `No`), as `char::is_numeric` decides it.
pub uninterp spec fn is_numeric_char(c: char) -> bool;

/// Whether `c` is one of the ASCII decimal digits `'0'..='9'`.
pub open spec fn is_ascii_digit(c: char) -> bool {
    '0' <= c <= '9'
}

/// Whether `char::is_numeric` holds of `c`: in the ASCII range exactly the
/// ten decimal digits; beyond it, Unicode's numeric categories.
pub open spec fn numeric_char(c: char) -> bool {
    if (c as u32) < 128 {
        is_ascii_digit(c)
    } else {
        is_numeric_char(c)
    }
}

/// Calls `char::is_numeric`. The contract names its result by
/// `is_numeric_char`, and states what the Unicode categories give for the
/// ASCII range: there, exactly the ten decimal digits are numeric. Outside
/// ASCII nothing more is stated.
#[verifier::external_body]
pub(crate) fn char_is_numeric(c: char) -> (r: bool)
    ensures
        r == is_numeric_char(c),
        r == numeric_char(c),
{
    c.is_numeric()
}

/// Compares two string slices with `==` on `str`, which is equality of
/// their character sequences.
#[verifier::external_body]
pub(crate) fn str_equals(a: &str, b: &str) -> (r: bool)
    ensures
        r == (a@ == b@),
{
    a == b
}

/// The characters of `s`, in order.
pub fn chars_of(s: &str) -> (r: Vec<char>)
    ensures
        r@ == s@,
{
    let mut r: Vec<char> = Vec::new();
    for c in it: s.chars()
        invariant
            r@ == it.seq().take(it.index() as int),
            it.seq() == s@,
    {
        r.push(c);
    }
    r
}

} // verus!
