//! Text and byte codings that other crates and std compute.

use base64::Engine as _;
use vstd::prelude::*;

use crate::text::chars_of;

verus! {

/// The model of a decoding: the bytes, or the message of the error.
pub open spec fn decoded_bytes(r: Result<Vec<u8>, String>) -> Result<Seq<u8>, Seq<char>> {
    match r {
        Ok(bytes) => Ok(bytes@),
        Err(message) => Err(message@),
    }
}

/// The model of a text or the message of an error.
pub open spec fn text_or_error(r: Result<String, String>) -> Result<Seq<char>, Seq<char>> {
    match r {
        Ok(text) => Ok(text@),
        Err(message) => Err(message@),
    }
}

/// What a text gives as padded base64, as [`decode_padded`] returns it.
pub uninterp spec fn base64_padded(s: Seq<char>) -> Result<Seq<u8>, Seq<char>>;

/// What a text gives as unpadded base64, as [`decode_unpadded`] returns it.
pub uninterp spec fn base64_unpadded(s: Seq<char>) -> Result<Seq<u8>, Seq<char>>;

/// The text that bytes give when what is no UTF-8 is replaced, as [`lossy_text`]
/// returns it.
pub uninterp spec fn utf8_lossy(bytes: Seq<u8>) -> Seq<char>;

/// The message of the error where bytes are no UTF-8, as [`strict_text`] returns it.
pub uninterp spec fn utf8_error(bytes: Seq<u8>) -> Seq<char>;

/// Whether bytes are the UTF-8 form of a text.
pub open spec fn utf8_of(bytes: Seq<u8>, text: Seq<char>) -> bool {
    bytes == vstd::utf8::encode_utf8(text)
}

/// Whether a character is white space, as Unicode's property `White_Space` has it.
pub open spec fn white(c: char) -> bool {
    let n = c as u32;
    ||| 0x09 <= n <= 0x0D
    ||| n == 0x20 || n == 0x85 || n == 0xA0 || n == 0x1680
    ||| 0x2000 <= n <= 0x200A
    ||| n == 0x2028 || n == 0x2029 || n == 0x202F || n == 0x205F || n == 0x3000
}

/// A text without the white space at its start.
pub open spec fn trimmed_start(s: Seq<char>) -> Seq<char>
    decreases s.len(),
{
    if s.len() > 0 && white(s[0]) {
        trimmed_start(s.skip(1))
    } else {
        s
    }
}

/// A text without the white space at its end.
pub open spec fn trimmed_end(s: Seq<char>) -> Seq<char>
    decreases s.len(),
{
    if s.len() > 0 && white(s.last()) {
        trimmed_end(s.drop_last())
    } else {
        s
    }
}

/// A text without the white space at its ends.
pub open spec fn trimmed(s: Seq<char>) -> Seq<char> {
    trimmed_end(trimmed_start(s))
}

/// A URL with two query parameters, as [`url_with_params`] builds it.
pub uninterp spec fn url_with_query(
    base: Seq<char>,
    first: (Seq<char>, Seq<char>),
    second: (Seq<char>, Seq<char>),
) -> Result<Seq<char>, Seq<char>>;

/// The instant that an RFC 3339 text stands for, as [`parse_instant`] returns it.
pub uninterp spec fn instant_of(s: Seq<char>) -> Option<(i64, u32)>;

/// Decodes base64 with padding: `decode` of `base64`'s engine `STANDARD`. An error is
/// carried as its message. The result is a function of the text; the alphabet is not
/// stated here.
#[verifier::external_body]
pub(crate) fn decode_padded(s: &str) -> (r: Result<Vec<u8>, String>)
    ensures
        decoded_bytes(r) == base64_padded(s@),
{
    base64::engine::general_purpose::STANDARD.decode(s).map_err(|e| e.to_string())
}

/// Decodes base64 without padding: `decode` of `base64`'s engine `STANDARD_NO_PAD`.
/// An error is carried as its message. The result is a function of the text; the
/// alphabet is not stated here.
#[verifier::external_body]
pub(crate) fn decode_unpadded(s: &str) -> (r: Result<Vec<u8>, String>)
    ensures
        decoded_bytes(r) == base64_unpadded(s@),
{
    base64::engine::general_purpose::STANDARD_NO_PAD.decode(s).map_err(|e| e.to_string())
}

/// The text of bytes, with U+FFFD for what is no UTF-8: std's
/// `String::from_utf8_lossy`. Bytes that are UTF-8 give their text. The result is a
/// function of the bytes; where the replacements stand is not stated here.
#[verifier::external_body]
pub(crate) fn lossy_text(bytes: &[u8]) -> (r: String)
    ensures
        r@ == utf8_lossy(bytes@),
        forall|text: Seq<char>| #[trigger] utf8_of(bytes@, text) ==> r@ == text,
{
    String::from_utf8_lossy(bytes).into_owned()
}

/// The text of bytes that are UTF-8: std's `String::from_utf8`. An error, carried as
/// its message, comes exactly where the bytes are the UTF-8 form of no text; how the
/// message reads is not stated here.
#[verifier::external_body]
pub(crate) fn strict_text(bytes: Vec<u8>) -> (r: Result<String, String>)
    ensures
        match r {
            Ok(text) => utf8_of(bytes@, text@),
            Err(message) => message@ == utf8_error(bytes@) && forall|text: Seq<char>|
                !(#[trigger] utf8_of(bytes@, text)),
        },
{
    String::from_utf8(bytes).map_err(|e| e.to_string())
}

fn is_white(c: char) -> (r: bool)
    ensures
        r == white(c),
{
    let n: u32 = c as u32;
    (n >= 0x09 && n <= 0x0D) || n == 0x20 || n == 0x85 || n == 0xA0 || n == 0x1680 || (n >= 0x2000
        && n <= 0x200A) || n == 0x2028 || n == 0x2029 || n == 0x202F || n == 0x205F || n == 0x3000
}

/// A text without the white space at its ends.
pub(crate) fn trim_text(s: &str) -> (r: String)
    ensures
        r@ == trimmed(s@),
{
    let chars: Vec<char> = chars_of(s);
    let mut start: usize = 0;
    proof {
        assert(s@.skip(0) =~= s@);
    }
    while start < chars.len() && is_white(chars[start])
        invariant
            start <= chars@.len(),
            chars@ == s@,
            trimmed_start(s@.skip(start as int)) == trimmed_start(s@),
        decreases chars@.len() - start,
    {
        proof {
            assert(s@.skip(start as int).skip(1) =~= s@.skip(start + 1));
        }
        start = start + 1;
    }
    let ghost rest = s@.skip(start as int);
    proof {
        assert(trimmed_start(s@) == rest);
    }
    let mut end: usize = chars.len();
    proof {
        assert(rest.take(end - start) =~= rest);
    }
    while end > start && is_white(chars[end - 1])
        invariant
            start <= end <= chars@.len(),
            chars@ == s@,
            rest == s@.skip(start as int),
            trimmed_end(rest.take(end - start)) == trimmed_end(rest),
        decreases end,
    {
        proof {
            let here = rest.take(end - start);
            assert(here.last() == chars@[end - 1]);
            assert(here.drop_last() =~= rest.take(end - 1 - start));
        }
        end = end - 1;
    }
    proof {
        let here = rest.take(end - start);
        if here.len() > 0 {
            assert(here.last() == chars@[end - 1]);
        }
        assert(trimmed(s@) == here);
    }
    let mut text: String = String::new();
    let mut i: usize = start;
    while i < end
        invariant
            start <= i <= end <= chars@.len(),
            chars@ == s@,
            rest == s@.skip(start as int),
            text@ == rest.take(i - start),
        decreases end - i,
    {
        text.push(chars[i]);
        i = i + 1;
        proof {
            assert(text@ =~= rest.take(i - start));
        }
    }
    text
}

/// A URL with two query parameters, percent-encoded: `reqwest::Url::parse_with_params`.
/// An error is carried as its message. The result is a function of the arguments; the
/// encoding is not stated here.
#[verifier::external_body]
pub(crate) fn url_with_params(base: &str, first: (&str, &str), second: (&str, &str)) -> (r: Result<
    String,
    String,
>)
    ensures
        text_or_error(r) == url_with_query(
            base@,
            (first.0@, first.1@),
            (second.0@, second.1@),
        ),
{
    reqwest::Url::parse_with_params(base, &[first, second])
        .map(|url| url.to_string())
        .map_err(|e| e.to_string())
}

/// The instant that an RFC 3339 text stands for: `chrono::DateTime::parse_from_rfc3339`,
/// as the seconds since the Unix epoch and the nanoseconds of the second that
/// `timestamp` and `timestamp_subsec_nanos` give; `None` for any other text. The result
/// is a function of the text; the grammar is not stated here.
#[verifier::external_body]
pub(crate) fn parse_instant(s: &str) -> (r: Option<(i64, u32)>)
    ensures
        r == instant_of(s@),
{
    chrono::DateTime::parse_from_rfc3339(s)
        .ok()
        .map(|t| (t.timestamp(), t.timestamp_subsec_nanos()))
}

} // verus!
