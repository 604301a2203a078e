//! Addresses of the remote source: percent-encoding of query values and the
//! rewriting of URLs. The functions that call into the `urlencoding` and
//! `url` crates are trusted: their contracts restate what the crates do and
//! are not proved.

use crate::text::option_text;
use vstd::prelude::*;
use vstd::string::*;

verus! {

/// The bytes that percent-encoding leaves as they are: ASCII letters and
/// digits, `-`, `.`, `_` and `~`.
pub open spec fn is_unreserved(b: u8) -> bool {
    ||| 0x30 <= b <= 0x39
    ||| 0x41 <= b <= 0x5a
    ||| 0x61 <= b <= 0x7a
    ||| b == 0x2d
    ||| b == 0x2e
    ||| b == 0x5f
    ||| b == 0x7e
}

/// The upper-case hexadecimal digit for a value below 16.
pub open spec fn hex_digit(n: u8) -> char {
    if n < 10 {
        (0x30 + n) as u8 as char
    } else {
        (0x41 + n - 10) as u8 as char
    }
}

/// One byte, percent-encoded.
pub open spec fn encoded_byte(b: u8) -> Seq<char> {
    if is_unreserved(b) {
        seq![b as char]
    } else {
        seq!['%', hex_digit(b / 16), hex_digit(b % 16)]
    }
}

/// A sequence of bytes, percent-encoded byte by byte.
pub open spec fn percent_encoded(bytes: Seq<u8>) -> Seq<char>
    decreases bytes.len(),
{
    if bytes.len() == 0 {
        Seq::empty()
    } else {
        percent_encoded(bytes.drop_last()) + encoded_byte(bytes.last())
    }
}

/// `urlencoding::encode`: percent-encodes every byte of the UTF-8 form of
/// `data` except ASCII letters and digits, `-`, `.`, `_` and `~`, with
/// upper-case hexadecimal digits.
#[verifier::external_body]
pub(crate) fn encode(data: &str) -> (r: String)
    ensures
        r@ == percent_encoded(data.spec_bytes()),
{
    urlencoding::encode(data).into_owned()
}

/// The scheme of the URL that the `url` crate reads from `text`; `None`
/// where it reads no absolute URL from it.
pub uninterp spec fn parsed_scheme(text: Seq<char>) -> Option<Seq<char>>;

/// The URL of `text` with its scheme and path replaced, as the `url` crate
/// writes it; `None` where it reads no absolute URL from `text` or refuses
/// the scheme for it.
pub uninterp spec fn rewritten_url(text: Seq<char>, scheme: Seq<char>, path: Seq<char>) -> Option<
    Seq<char>,
>;

/// `Url::parse` and `Url::scheme`: the scheme of the URL in `text`.
#[verifier::external_body]
pub(crate) fn url_scheme(text: &str) -> (r: Option<String>)
    ensures
        option_text(r) == parsed_scheme(text@),
{
    match url::Url::parse(text) {
        Ok(u) => Some(u.scheme().to_string()),
        Err(_) => None,
    }
}

/// `Url::parse`, `Url::set_scheme` and `Url::set_path`: the URL in `text`
/// with another scheme and path, written out again.
#[verifier::external_body]
pub(crate) fn url_rewrite(text: &str, scheme: &str, path: &str) -> (r: Option<String>)
    ensures
        option_text(r) == rewritten_url(text@, scheme@, path@),
{
    let mut u = url::Url::parse(text).ok()?;
    u.set_scheme(scheme).ok()?;
    u.set_path(path);
    Some(u.into())
}

} // verus!
