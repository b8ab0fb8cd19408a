//! Calls into std functions that vstd does not specify and into outside
//! crates. Verus believes these contracts; each doc comment says what is
//! claimed of the function that is called.

use vstd::prelude::*;
use vstd::utf8::*;

verus! {

/// Builds a `String` from characters through `FromIterator<&char>`; the
/// string holds exactly those characters, in order.
#[verifier::external_body]
pub(crate) fn string_of(v: &[char]) -> (s: String)
    ensures
        s@ == v@,
{
    v.iter().collect()
}

/// What `str::to_lowercase` returns for a string that holds a character
/// outside ASCII: Unicode lowercase mapping (tables of the Unicode standard,
/// with the final-sigma rule).
pub uninterp spec fn unicode_lowercase(s: Seq<char>) -> Seq<char>;

/// Every character of the text is ASCII.
pub open spec fn is_ascii_text(s: Seq<char>) -> bool {
    forall|i: int| 0 <= i < s.len() ==> (#[trigger] s[i] as u32) < 128
}

/// An ASCII uppercase letter as its lowercase letter; any other character
/// as it is.
pub open spec fn ascii_lower(c: char) -> char {
    if 'A' <= c && c <= 'Z' {
        ((c as u32) + 32) as char
    } else {
        c
    }
}

/// What `str::to_lowercase` returns for a string: for ASCII text, each
/// uppercase letter becomes its lowercase letter and nothing else changes
/// (the Unicode lowercase mapping of ASCII); other text is named by
/// `unicode_lowercase`.
pub open spec fn lowercase_of(s: Seq<char>) -> Seq<char> {
    if is_ascii_text(s) {
        s.map_values(|c: char| ascii_lower(c))
    } else {
        unicode_lowercase(s)
    }
}

/// `str::to_lowercase`; its documentation defines it by the Unicode
/// lowercase mapping, which on ASCII lowers `A`-`Z` alone (as
/// `str::to_ascii_lowercase` does); beyond ASCII the result is named by
/// `unicode_lowercase`.
#[verifier::external_body]
pub(crate) fn lowercase(s: &str) -> (r: String)
    ensures
        r@ == lowercase_of(s@),
        !is_ascii_text(s@) ==> r@ == unicode_lowercase(s@),
{
    s.to_lowercase()
}

/// What `char::is_alphanumeric` says of a character outside ASCII: whether
/// it has the Unicode `Alphabetic` property or a numeric general category.
pub uninterp spec fn unicode_alphanumeric(c: char) -> bool;

/// What `char::is_alphanumeric` says of a character: among ASCII characters
/// exactly the letters and digits are alphanumeric (the only ASCII
/// characters with the `Alphabetic` property or a numeric category).
pub open spec fn alphanumeric(c: char) -> bool {
    if (c as u32) < 128 {
        ('0' <= c && c <= '9') || ('a' <= c && c <= 'z') || ('A' <= c && c <= 'Z')
    } else {
        unicode_alphanumeric(c)
    }
}

/// `char::is_alphanumeric`; its documentation defines it as `is_alphabetic`
/// or `is_numeric`, which for ASCII holds of the letters and digits alone.
#[verifier::external_body]
pub(crate) fn is_alphanumeric(c: char) -> (b: bool)
    ensures
        b == alphanumeric(c),
        (c as u32) >= 128 ==> b == unicode_alphanumeric(c),
{
    c.is_alphanumeric()
}

/// A byte that `urlencoding` leaves as it is: ASCII letters and digits,
/// `-`, `.`, `_` and `~`.
pub open spec fn url_safe_byte(b: u8) -> bool {
    (0x30 <= b && b <= 0x39) || (0x41 <= b && b <= 0x5a) || (0x61 <= b && b <= 0x7a) || b == 0x2d
        || b == 0x2e || b == 0x5f || b == 0x7e
}

/// An uppercase hexadecimal digit for `d < 16`.
pub open spec fn upper_hex(d: u8) -> char {
    if d < 10 {
        ((0x30 + d) as u8) as char
    } else {
        ((0x41 - 10 + d) as u8) as char
    }
}

/// The percent-encoding of a byte sequence: each safe byte stands for
/// itself, every other byte becomes `%` and two uppercase hexadecimal digits.
pub open spec fn percent_encode(b: Seq<u8>) -> Seq<char>
    decreases b.len(),
{
    if b.len() == 0 {
        seq![]
    } else {
        let x = b.last();
        percent_encode(b.drop_last()) + if url_safe_byte(x) {
            seq![x as char]
        } else {
            seq!['%', upper_hex(x / 16), upper_hex(x % 16)]
        }
    }
}

/// `urlencoding::encode`: its source percent-encodes every byte of the UTF-8
/// text except ASCII alphanumerics and `-`, `_`, `.`, `~`, with uppercase
/// hexadecimal digits.
#[verifier::external_body]
pub(crate) fn url_encode(s: &str) -> (r: String)
    ensures
        r@ == percent_encode(encode_utf8(s@)),
{
    urlencoding::encode(s).into_owned()
}

/// What `String::from_utf8_lossy` makes of a byte sequence.
pub uninterp spec fn utf8_lossy_of(b: Seq<u8>) -> Seq<char>;

/// `String::from_utf8_lossy`; its documentation says that valid UTF-8 is
/// decoded as it is (invalid sequences become U+FFFD, which is left unstated).
#[verifier::external_body]
pub(crate) fn utf8_lossy(b: &[u8]) -> (r: String)
    ensures
        r@ == utf8_lossy_of(b@),
        valid_utf8(b@) ==> r@ == decode_utf8(b@),
{
    String::from_utf8_lossy(b).into_owned()
}

} // verus!
