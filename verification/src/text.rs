//! Text primitives: UTF-8 decoding, substring tests, case folding and the
//! hexadecimal rendering of binary values.

use vstd::prelude::*;
use vstd::string::StrSliceExecFns;
use vstd::utf8::{decode_utf8, encode_utf8, encode_utf8_decode_utf8, valid_utf8};

verus! {

/// The store's internal marker that may precede a text value.
pub const VALUE_MARKER: char = '\u{1}';

/// `needle` occurs in `haystack` as a contiguous run of characters.
pub open spec fn occurs_in(needle: Seq<char>, haystack: Seq<char>) -> bool {
    exists|from: int, to: int|
        0 <= from <= to <= haystack.len() && #[trigger] haystack.subrange(from, to) == needle
}

/// The sixteen lowercase hexadecimal digits, indexed by their value.
pub open spec fn hex_digits() -> Seq<char> {
    seq!['0', '1', '2', '3', '4', '5', '6', '7', '8', '9', 'a', 'b', 'c', 'd', 'e', 'f']
}

/// Lowercase hexadecimal rendering of `bytes`: two digits per byte, the high
/// nibble first.
pub open spec fn hex_text(bytes: Seq<u8>) -> Seq<char> {
    Seq::new(
        2 * bytes.len(),
        |i: int|
            if i % 2 == 0 {
                hex_digits()[bytes[i / 2] as int / 16]
            } else {
                hex_digits()[bytes[i / 2] as int % 16]
            },
    )
}

/// `value` without its leading store marker, if it has one. At most one
/// marker is removed.
pub open spec fn strip_marker(value: Seq<char>) -> Seq<char> {
    if value.len() > 0 && value[0] == VALUE_MARKER {
        value.subrange(1, value.len() as int)
    } else {
        value
    }
}

/// The Unicode lowercase form of a text, as computed by `str::to_lowercase`.
pub uninterp spec fn lowercase_text(s: Seq<char>) -> Seq<char>;

/// The text that `String::from_utf8_lossy` produces for a byte string.
pub uninterp spec fn lossy_text(bytes: Seq<u8>) -> Seq<char>;

/// Calls `str::contains` with a string pattern: the result tells whether the
/// pattern occurs in the text as a contiguous run of characters.
#[verifier::external_body]
pub(crate) fn contains_text(haystack: &str, needle: &str) -> (found: bool)
    ensures
        found == occurs_in(needle@, haystack@),
{
    haystack.contains(needle)
}

/// Calls `String::from_utf8`: the bytes are accepted exactly when they are
/// well-formed UTF-8, and the text returned is the one they encode.
#[verifier::external_body]
pub(crate) fn utf8_text(bytes: &[u8]) -> (text: Option<String>)
    ensures
        text is Some <==> valid_utf8(bytes@),
        text matches Some(s) ==> encode_utf8(s@) == bytes@,
{
    String::from_utf8(bytes.to_vec()).ok()
}

/// Calls `String::from_utf8_lossy`: the result is a function of the bytes
/// alone, and well-formed UTF-8 is decoded unchanged.
#[verifier::external_body]
pub(crate) fn utf8_text_lossy(bytes: &[u8]) -> (text: String)
    ensures
        text@ == lossy_text(bytes@),
        valid_utf8(bytes@) ==> encode_utf8(text@) == bytes@,
{
    String::from_utf8_lossy(bytes).into_owned()
}

/// Calls `str::to_lowercase`: the result is a function of the text alone.
#[verifier::external_body]
pub(crate) fn lowercase(s: &str) -> (lowered: String)
    ensures
        lowered@ == lowercase_text(s@),
{
    s.to_lowercase()
}

/// Calls `hex::encode`: every byte becomes two lowercase hexadecimal digits.
#[verifier::external_body]
pub(crate) fn hex_encode(bytes: &[u8]) -> (digits: String)
    ensures
        digits@ == hex_text(bytes@),
{
    hex::encode(bytes)
}

/// Removes the leading store marker from a text value, if it has one.
pub fn clean_value(value: &str) -> (clean: String)
    ensures
        clean@ == strip_marker(value@),
{
    if !value.is_empty() && value.get_char(0) == VALUE_MARKER {
        let n: usize = value.unicode_len();
        value.substring_char(1, n).to_owned()
    } else {
        value.to_owned()
    }
}

/// Tells whether two texts consist of the same characters, by comparing
/// their UTF-8 encodings byte by byte.
pub fn same_text(a: &str, b: &str) -> (same: bool)
    ensures
        same == (a@ == b@),
{
    let x = a.as_bytes();
    let y = b.as_bytes();
    proof {
        encode_utf8_decode_utf8(a@);
        encode_utf8_decode_utf8(b@);
    }
    if x.len() != y.len() {
        return false;
    }
    let mut i: usize = 0;
    while i < x.len()
        invariant
            i <= x.len(),
            x.len() == y.len(),
            x@ == encode_utf8(a@),
            y@ == encode_utf8(b@),
            forall|j: int| 0 <= j < i ==> x@[j] == y@[j],
        decreases x.len() - i,
    {
        if x[i] != y[i] {
            return false;
        }
        i += 1;
    }
    assert(x@ =~= y@);
    true
}

} // verus!
