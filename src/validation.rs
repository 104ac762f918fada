//! Checks on the values that users enter.
use vstd::prelude::*;
use crate::text::{chars_of, trim, trimmed_bounds};

verus! {

/// Letters, digits and underscores only.
pub const USERNAME_PATTERN: &'static str = "^[a-zA-Z0-9_]+$";

/// Seven to twenty digits, dashes, plus signs, parentheses or spaces.
pub const PHONE_PATTERN: &'static str = "^[\\d\\-\\+\\(\\)\\s]{7,20}$";

/// Whether the regular expression `pattern` matches somewhere in `text`.
pub uninterp spec fn regex_matches(pattern: Seq<char>, text: Seq<char>) -> bool;

/// Relies on `regex::Regex::new` and `regex::Regex::is_match`: compiles
/// `pattern`, `None` when it does not compile, else whether it matches
/// somewhere in `text`.
#[verifier::external_body]
fn regex_is_match(pattern: &str, text: &str) -> (r: Option<bool>)
    ensures
        r matches Some(b) ==> b == regex_matches(pattern@, text@),
{
    match regex::Regex::new(pattern) {
        Ok(re) => Some(re.is_match(text)),
        Err(_) => None,
    }
}

/// A username is accepted when it is 3 to 50 bytes long and `matched` says
/// that it matched [`USERNAME_PATTERN`].
pub fn username_verdict(username: &str, matched: bool) -> (r: bool)
    ensures
        r == (3 <= username.len() <= 50 && matched),
{
    let n = username.len();
    3 <= n && n <= 50 && matched
}

/// Whether `username` is 3 to 50 bytes of letters, digits and underscores.
pub fn validate_username(username: &str) -> (r: bool)
    ensures
        r ==> 3 <= username.len() <= 50 && regex_matches(USERNAME_PATTERN@, username@),
        !(3 <= username.len() <= 50) ==> !r,
{
    let n = username.len();
    if n < 3 || n > 50 {
        return false;
    }
    match regex_is_match(USERNAME_PATTERN, username) {
        Some(m) => username_verdict(username, m),
        None => false,
    }
}

/// A phone number is accepted when it is empty or `matched` says that it
/// matched [`PHONE_PATTERN`].
pub fn phone_verdict(phone: &str, matched: bool) -> (r: bool)
    ensures
        r == (phone@.len() == 0 || matched),
{
    phone.is_empty() || matched
}

/// Whether `phone` is empty (the number is optional) or matches
/// [`PHONE_PATTERN`].
pub fn validate_phone(phone: &str) -> (r: bool)
    ensures
        phone@.len() == 0 ==> r,
        r && phone@.len() > 0 ==> regex_matches(PHONE_PATTERN@, phone@),
{
    if phone.is_empty() {
        return true;
    }
    match regex_is_match(PHONE_PATTERN, phone) {
        Some(m) => phone_verdict(phone, m),
        None => false,
    }
}

/// Whether `password` is at least 6 bytes long.
pub fn validate_password(password: &str) -> (r: bool)
    ensures
        r == (password.len() >= 6),
{
    password.len() >= 6
}

/// Whether `name` holds something besides whitespace and is at most 100
/// bytes long.
pub fn validate_name(name: &str) -> (r: bool)
    ensures
        r == (trim(name@).len() > 0 && name.len() <= 100),
{
    let v = chars_of(name);
    let (a, b) = trimmed_bounds(&v, 0, v.len());
    assert(v@.subrange(0, v@.len() as int) == v@);
    a < b && name.len() <= 100
}

/// Whether `rate` is between 0 and 5, inclusive.
pub fn validate_rate(rate: i32) -> (r: bool)
    ensures
        r == (0 <= rate <= 5),
{
    0 <= rate && rate <= 5
}

} // verus!
