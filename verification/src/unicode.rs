//! Trusted access to std's Unicode-table text conversions, whose results are
//! named rather than written out.
use vstd::prelude::*;
use vstd::utf8::{decode_utf8, is_ascii_chars, valid_utf8};
use crate::http::headers::ascii_lower;

verus! {

/// The text that `String::from_utf8_lossy` makes of a byte string: UTF-8
/// decoding in which every maximal invalid run becomes U+FFFD.
pub uninterp spec fn utf8_lossy(bytes: Seq<u8>) -> Seq<char>;

/// The text that `str::to_lowercase` makes of a string, by the Unicode
/// `Lowercase` mapping (with the final-sigma rule).
pub uninterp spec fn unicode_lowercase(s: Seq<char>) -> Seq<char>;

/// Two byte strings that differ only in the case of ASCII letters.
pub open spec fn same_up_to_ascii_case(b1: Seq<u8>, b2: Seq<u8>) -> bool {
    &&& b1.len() == b2.len()
    &&& forall|i: int| 0 <= i < b1.len() ==> ascii_lower(#[trigger] b1[i] as char) == ascii_lower(b2[i] as char)
}

/// Two texts that differ only in the case of ASCII letters.
pub open spec fn same_chars_up_to_ascii_case(s1: Seq<char>, s2: Seq<char>) -> bool {
    &&& s1.len() == s2.len()
    &&& forall|i: int| 0 <= i < s1.len() ==> ascii_lower(#[trigger] s1[i]) == ascii_lower(s2[i])
}

/// `String::from_utf8_lossy`, taken as an owned `String`. Claimed: the
/// result is the named decoding of the bytes, and on valid UTF-8 it is the
/// plain decoding, as std documents. Also claimed: the decoding of bytes
/// that differ from these only in the case of ASCII letters differs from
/// the result only in the case of ASCII letters. In UTF-8 a byte below 128
/// is always a character of its own and never part of a longer sequence,
/// so such bytes split the input, valid or not, in the same places whichever
/// letter they are.
#[verifier::external_body]
pub(crate) fn decode_utf8_lossy(bytes: &[u8]) -> (r: String)
    ensures
        r@ == utf8_lossy(bytes@),
        valid_utf8(bytes@) ==> r@ == decode_utf8(bytes@),
        forall|b2: Seq<u8>| same_up_to_ascii_case(bytes@, b2)
            ==> same_chars_up_to_ascii_case(r@, #[trigger] utf8_lossy(b2)),
{
    String::from_utf8_lossy(bytes).into_owned()
}

/// `str::to_lowercase`. Claimed: the result is the named lower-case mapping
/// of the text; on ASCII text it maps `A` to `Z` to `a` to `z` and keeps
/// every other character, as the Unicode `Lowercase` mapping (which std
/// documents it follows) does for ASCII; and a text that differs from this
/// one only in the case of ASCII letters has the same lower-case form. The
/// mapping works character by character, an ASCII letter and its other case
/// map to the same letter, and the one context rule (a final capital sigma)
/// looks only at whether neighbours are cased letters, which both cases of
/// an ASCII letter are.
#[verifier::external_body]
pub(crate) fn to_lowercase(s: &str) -> (r: String)
    ensures
        r@ == unicode_lowercase(s@),
        is_ascii_chars(s@) ==> r@ == s@.map_values(|c: char| ascii_lower(c)),
        forall|s2: Seq<char>| same_chars_up_to_ascii_case(s@, s2) ==> #[trigger] unicode_lowercase(s2) == r@,
{
    s.to_lowercase()
}

} // verus!
