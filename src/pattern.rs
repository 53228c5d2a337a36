//! Syntactic checks on email addresses and phone numbers.

use vstd::prelude::*;

verus! {

/// An email address: a local part, `@`, and a domain holding a dot, with no
/// whitespace and no further `@`.
pub const EMAIL_PATTERN: &'static str = r"^[^\s@]+@[^\s@]+\.[^\s@]+$";

/// A phone number in E.164 shape: an optional `+`, a non-zero digit, then one
/// to fourteen digits.
pub const PHONE_PATTERN: &'static str = r"^\+?[1-9]\d{1,14}$";

/// Whether `pattern` compiles as a regular expression that matches somewhere
/// in `text`.
pub uninterp spec fn regex_accepts(pattern: Seq<char>, text: Seq<char>) -> bool;

/// Relies on `regex::Regex::new` and `regex::Regex::is_match`: true when the
/// pattern compiles and matches somewhere in the text. The answer depends on
/// the two strings alone.
#[verifier::external_body]
fn pattern_accepts(pattern: &str, text: &str) -> (r: bool)
    ensures
        r == regex_accepts(pattern@, text@),
{
    match regex::Regex::new(pattern) {
        Ok(re) => re.is_match(text),
        Err(_) => false,
    }
}

pub open spec fn valid_email(s: Seq<char>) -> bool {
    regex_accepts(EMAIL_PATTERN@, s)
}

pub open spec fn valid_phone(s: Seq<char>) -> bool {
    regex_accepts(PHONE_PATTERN@, s)
}

/// Whether `email` has the shape of an email address.
pub fn validate_email(email: &str) -> (r: bool)
    ensures
        r == valid_email(email@),
{
    pattern_accepts(EMAIL_PATTERN, email)
}

/// Whether `phone_number` has the shape of a phone number.
pub fn validate_phone_number(phone_number: &str) -> (r: bool)
    ensures
        r == valid_phone(phone_number@),
{
    pattern_accepts(PHONE_PATTERN, phone_number)
}

} // verus!
