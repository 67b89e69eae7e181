//! Decimal integers in text, as `str::parse` reads them.
use vstd::prelude::*;

verus! {

#[verifier::external_type_specification]
#[verifier::external_body]
pub struct ExParseIntError(std::num::ParseIntError);

/// An ASCII decimal digit.
pub open spec fn is_digit(c: char) -> bool {
    0x30 <= (c as u32) <= 0x39
}

/// A non-empty run of decimal digits.
pub open spec fn all_digits(d: Seq<char>) -> bool {
    d.len() > 0 && forall|i: int| 0 <= i < d.len() ==> is_digit(#[trigger] d[i])
}

/// The value of a run of decimal digits.
pub open spec fn digits_value(d: Seq<char>) -> int
    decreases d.len(),
{
    if d.len() == 0 {
        0
    } else {
        digits_value(d.drop_last()) * 10 + ((d.last() as u32) - 0x30)
    }
}

/// The number an optional `+` and decimal digits stand for.
pub open spec fn unsigned_text_value(s: Seq<char>) -> Option<int> {
    let d = if s.len() > 0 && s[0] == '+' {
        s.drop_first()
    } else {
        s
    };
    if all_digits(d) {
        Some(digits_value(d))
    } else {
        None
    }
}

/// The number an optional `+` or `-` and decimal digits stand for.
pub open spec fn signed_text_value(s: Seq<char>) -> Option<int> {
    if s.len() > 0 && s[0] == '-' {
        if all_digits(s.drop_first()) {
            Some(-digits_value(s.drop_first()))
        } else {
            None
        }
    } else {
        unsigned_text_value(s)
    }
}

/// `str::parse::<usize>`: an optional `+` followed by decimal digits whose value
/// fits in `usize` gives that value; any other text is an error.
#[verifier::external_body]
pub(crate) fn parse_usize(s: &str) -> (r: Result<usize, std::num::ParseIntError>)
    ensures
        r is Ok <==> (unsigned_text_value(s@) is Some && unsigned_text_value(s@)->0 <= usize::MAX),
        r matches Ok(v) ==> v as int == unsigned_text_value(s@)->0,
{
    s.parse::<usize>()
}

/// `str::parse::<i32>`: an optional `+` or `-` followed by decimal digits whose
/// value fits in `i32` gives that value; any other text is an error.
#[verifier::external_body]
pub(crate) fn parse_i32(s: &str) -> (r: Result<i32, std::num::ParseIntError>)
    ensures
        r is Ok <==> (signed_text_value(s@) is Some && i32::MIN <= signed_text_value(s@)->0
            <= i32::MAX),
        r matches Ok(v) ==> v as int == signed_text_value(s@)->0,
{
    s.parse::<i32>()
}

} // verus!
