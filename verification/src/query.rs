//! The two query shapes of the lyrics provider, as URLs.

use vstd::prelude::*;
use vstd::string::StringExecFns;
use vstd::utf8::encode_utf8;

verus! {

/// Free-text search: one parameter.
pub const WILDCARD_QUERY: &'static str = "https://lrclib.net/api/search?q=";

/// Field search: the title first.
pub const EXACT_QUERY: &'static str = "https://lrclib.net/api/search?track_name=";

/// Field search: the artist second.
pub const ARTIST_FIELD: &'static str = "&artist_name=";

/// Bytes that stand for themselves in a query: letters, digits, `-`, `.`,
/// `_` and `~`.
pub open spec fn is_unreserved(b: u8) -> bool {
    (0x30 <= b && b <= 0x39) || (0x41 <= b && b <= 0x5A) || (0x61 <= b && b <= 0x7A) || b == 0x2D
        || b == 0x2E || b == 0x5F || b == 0x7E
}

/// The upper-case hexadecimal digit of a value below 16.
pub open spec fn hex_digit(n: u8) -> char {
    if n < 10 {
        (0x30 + n) as u8 as char
    } else {
        (0x41 + n - 10) as u8 as char
    }
}

/// One byte in a query: itself, or `%` and its two hexadecimal digits.
pub open spec fn encoded_byte(b: u8) -> Seq<char> {
    if is_unreserved(b) {
        seq![b as char]
    } else {
        seq!['%', hex_digit(b / 16), hex_digit(b % 16)]
    }
}

/// The bytes, each encoded.
pub open spec fn percent_encoded(bytes: Seq<u8>) -> Seq<char>
    decreases bytes.len(),
{
    if bytes.len() == 0 {
        Seq::empty()
    } else {
        percent_encoded(bytes.drop_last()) + encoded_byte(bytes.last())
    }
}

/// A text as it stands in a query: its UTF-8 bytes, percent-encoded.
pub open spec fn url_encoded(s: Seq<char>) -> Seq<char> {
    percent_encoded(encode_utf8(s))
}

/// The URL of a free-text search.
pub open spec fn wildcard_query(text: Seq<char>) -> Seq<char> {
    WILDCARD_QUERY@ + url_encoded(text)
}

/// The URL of a field search for a title alone.
pub open spec fn title_query(title: Seq<char>) -> Seq<char> {
    EXACT_QUERY@ + url_encoded(title)
}

/// The URL of a field search for a title and an artist.
pub open spec fn exact_query(title: Seq<char>, artist: Seq<char>) -> Seq<char> {
    title_query(title) + ARTIST_FIELD@ + url_encoded(artist)
}

/// Calls `urlencoding::encode`. Believed: the result holds the UTF-8 bytes of
/// the text in order, a letter, digit, `-`, `.`, `_` or `~` as it is and every
/// other byte as `%` with two upper-case hexadecimal digits.
#[verifier::external_body]
pub(crate) fn url_encode(s: &str) -> (r: String)
    ensures
        r@ == url_encoded(s@),
{
    urlencoding::encode(s).into_owned()
}

/// The URL of a free-text search.
pub fn wildcard_url(text: &str) -> (r: String)
    ensures
        r@ == wildcard_query(text@),
{
    String::from_str(WILDCARD_QUERY).concat(url_encode(text).as_str())
}

/// The URL of a field search for a title alone.
pub fn title_url(title: &str) -> (r: String)
    ensures
        r@ == title_query(title@),
{
    String::from_str(EXACT_QUERY).concat(url_encode(title).as_str())
}

/// The URL of a field search for a title and an artist.
pub fn exact_url(title: &str, artist: &str) -> (r: String)
    ensures
        r@ == exact_query(title@, artist@),
{
    title_url(title).concat(ARTIST_FIELD).concat(url_encode(artist).as_str())
}

} // verus!
