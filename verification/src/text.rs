//! Small conversions between byte and character data.

use vstd::prelude::*;
use vstd::utf8::{encode_utf8, valid_utf8};

verus! {

/// The characters that a byte string decodes to when every stretch of bytes
/// that is not valid UTF-8 is replaced by U+FFFD.
pub uninterp spec fn utf8_lossy(bytes: Seq<u8>) -> Seq<char>;

/// Decodes bytes as UTF-8, with replacement characters for invalid input.
///
/// Trusted: calls `String::from_utf8_lossy` of the standard library, which
/// hands valid UTF-8 on unchanged and replaces invalid sequences by U+FFFD.
/// The contract names the decoded characters `utf8_lossy` of the bytes, and
/// says that valid input keeps its bytes.
#[verifier::external_body]
pub(crate) fn lossy_text(bytes: &[u8]) -> (text: String)
    ensures
        text@ == utf8_lossy(bytes@),
        valid_utf8(bytes@) ==> encode_utf8(text@) == bytes@,
{
    String::from_utf8_lossy(bytes).into_owned()
}

/// Builds a string out of characters.
///
/// Trusted: calls `String::from_iter` of the standard library, which collects
/// the characters of an iterator, in order, into a new string.  The contract
/// says that the string's characters are those of the slice.
#[verifier::external_body]
pub(crate) fn chars_to_string(chars: &[char]) -> (s: String)
    ensures
        s@ == chars@,
{
    String::from_iter(chars.iter())
}

} // verus!
