//! The few standard-library calls whose behaviour vstd does not specify.
//! Each item here is believed, not proved; its doc comment says what is claimed.

use vstd::prelude::*;
use vstd::utf8::{decode_utf8, valid_utf8};

verus! {

/// Calls `String::from_utf8` (std) on a copy of `bytes`.
/// Claimed: it succeeds exactly when the bytes are valid UTF-8, and then the string
/// holds the decoded characters (std documents that `from_utf8` rejects invalid
/// UTF-8 and otherwise keeps the bytes as they are).
#[verifier::external_body]
pub(crate) fn utf8_decode(bytes: &[u8]) -> (r: Option<String>)
    ensures
        r is Some <==> valid_utf8(bytes@),
        r matches Some(s) ==> s@ == decode_utf8(bytes@),
{
    String::from_utf8(bytes.to_vec()).ok()
}

/// Collects the characters of `chars` into a `String` (std's `FromIterator<char>`).
/// Claimed: the string holds exactly these characters, in order.
#[verifier::external_body]
pub(crate) fn chars_to_string(chars: &Vec<char>) -> (s: String)
    ensures
        s@ == chars@,
{
    chars.iter().collect()
}

/// Collects the characters of a string slice (std's `str::chars`).
/// Claimed: the vector holds exactly the string's characters, in order.
#[verifier::external_body]
pub(crate) fn str_to_chars(s: &str) -> (chars: Vec<char>)
    ensures
        chars@ == s@,
{
    s.chars().collect()
}

} // verus!
