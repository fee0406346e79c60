//! Percent-encoding of text, and the URLs that carry it.

use vstd::prelude::*;
use vstd::string::*;
use vstd::utf8::{decode_utf8, encode_utf8, is_ascii_chars, valid_utf8};

verus! {

/// An ASCII letter or digit.
pub open spec fn is_alphanumeric(b: u8) -> bool {
    48 <= b <= 57 || 65 <= b <= 90 || 97 <= b <= 122
}

/// The upper-case hexadecimal digit for `n`.
pub open spec fn hex_digit(n: int) -> u8 {
    if n < 10 {
        (48 + n) as u8
    } else {
        (55 + n) as u8
    }
}

/// The value of a hexadecimal digit of either case.
pub open spec fn hex_value(b: u8) -> Option<int> {
    if 48 <= b <= 57 {
        Some(b - 48)
    } else if 65 <= b <= 70 {
        Some(b - 55)
    } else if 97 <= b <= 102 {
        Some(b - 87)
    } else {
        None
    }
}

/// One byte, percent-encoded unless it is a letter or a digit.
pub open spec fn encoded_byte(b: u8) -> Seq<u8> {
    if is_alphanumeric(b) {
        seq![b]
    } else {
        seq![37u8, hex_digit(b as int / 16), hex_digit(b as int % 16)]
    }
}

/// The bytes, each percent-encoded unless it is a letter or a digit.
pub open spec fn encoded_bytes(bytes: Seq<u8>) -> Seq<u8>
    decreases bytes.len(),
{
    if bytes.len() == 0 {
        seq![]
    } else {
        encoded_byte(bytes[0]) + encoded_bytes(bytes.subrange(1, bytes.len() as int))
    }
}

/// The bytes with each `%` and two hexadecimal digits decoded.
pub open spec fn decoded_bytes(bytes: Seq<u8>) -> Seq<u8>
    decreases bytes.len(),
{
    if bytes.len() == 0 {
        seq![]
    } else if bytes[0] == 37 && bytes.len() >= 3 && hex_value(bytes[1]) is Some && hex_value(
        bytes[2],
    ) is Some {
        seq![(hex_value(bytes[1])->0 * 16 + hex_value(bytes[2])->0) as u8] + decoded_bytes(
            bytes.subrange(3, bytes.len() as int),
        )
    } else {
        seq![bytes[0]] + decoded_bytes(bytes.subrange(1, bytes.len() as int))
    }
}

/// ASCII bytes as text.
pub open spec fn ascii_text(bytes: Seq<u8>) -> Seq<char> {
    Seq::new(bytes.len(), |i: int| bytes[i] as char)
}

/// The percent-encoding of a text: every byte of its UTF-8 form but letters and digits.
pub open spec fn percent_encoded(s: Seq<char>) -> Seq<char> {
    ascii_text(encoded_bytes(encode_utf8(s)))
}

/// The text behind a percent-encoded text, unless what comes out is no UTF-8.
pub open spec fn percent_decoded(s: Seq<char>) -> Option<Seq<char>> {
    let bytes = decoded_bytes(encode_utf8(s));
    if valid_utf8(bytes) {
        Some(decode_utf8(bytes))
    } else {
        None
    }
}

/// `s` holds nothing but ASCII letters, digits and `%`.
pub open spec fn is_encoded_text(s: Seq<char>) -> bool {
    forall|i: int|
        0 <= i < s.len() ==> #[trigger] s[i] == '%' || '0' <= s[i] <= '9' || 'A' <= s[i] <= 'Z'
            || 'a' <= s[i] <= 'z'
}

/// Calls `percent_encoding::utf8_percent_encode` with the set `NON_ALPHANUMERIC`: each byte of
/// the UTF-8 form that is no ASCII letter or digit becomes `%` and two upper-case hexadecimal
/// digits, and the others stay.
#[verifier::external_body]
pub(crate) fn percent_encode(s: &str) -> (r: String)
    ensures
        r@ == percent_encoded(s@),
{
    percent_encoding::utf8_percent_encode(s, percent_encoding::NON_ALPHANUMERIC).to_string()
}

/// Calls `percent_encoding::percent_decode_str` and `decode_utf8`: each `%` with two hexadecimal
/// digits becomes the byte they stand for, the other bytes stay, and the result is text where it
/// is UTF-8.
#[verifier::external_body]
pub(crate) fn percent_decode(s: &str) -> (r: Option<String>)
    ensures
        match r {
            Some(t) => percent_decoded(s@) == Some(t@),
            None => percent_decoded(s@) is None,
        },
{
    percent_encoding::percent_decode_str(s).decode_utf8().ok().map(|cow| cow.into_owned())
}

/// The parts of a URL that the gateway reads.
#[derive(Debug, PartialEq, Eq)]
pub struct UrlParts {
    pub scheme: String,
    pub host: Option<String>,
    pub query: Vec<(String, String)>,
}

/// The mathematical parts of a URL.
pub struct UrlPartsView {
    pub scheme: Seq<char>,
    pub host: Option<Seq<char>>,
    pub query: Seq<(Seq<char>, Seq<char>)>,
}

impl View for UrlParts {
    type V = UrlPartsView;

    open spec fn view(&self) -> UrlPartsView {
        UrlPartsView {
            scheme: self.scheme@,
            host: crate::model::opt_str(self.host),
            query: crate::model::pairs(self.query@),
        }
    }
}

/// The mathematical outcome of parsing a URL: its parts, or the parser's message.
pub open spec fn url_outcome(r: Result<UrlParts, String>) -> Result<UrlPartsView, Seq<char>> {
    match r {
        Ok(parts) => Ok(parts@),
        Err(message) => Err(message@),
    }
}

/// What `url::Url::parse` makes of a text: scheme, host and decoded query pairs, or the text of
/// its error.
pub uninterp spec fn parsed_url(uri: Seq<char>) -> Result<UrlPartsView, Seq<char>>;

/// `ui://{host}/?u={value}`.
pub open spec fn ui_url(host: Seq<char>, value: Seq<char>) -> Seq<char> {
    "ui://"@ + host + "/?u="@ + value
}

/// Where `uri` is `ui://{host}/?u={value}`, with a host and a value of letters, digits and `%`, a
/// host that is not empty and a length that fits 32 bits, `outcome` is that host, and `u` with the
/// percent-decoded value as the only query pair, where that value is UTF-8.
pub open spec fn parses_as_ui_url(
    uri: Seq<char>,
    outcome: Result<UrlPartsView, Seq<char>>,
) -> bool {
    forall|host: Seq<char>, value: Seq<char>|
        uri == #[trigger] ui_url(host, value) && host.len() > 0 && is_encoded_text(host)
            && is_encoded_text(value) && uri.len() <= u32::MAX && percent_decoded(value) is Some
            ==> outcome == Ok::<UrlPartsView, Seq<char>>(
            UrlPartsView {
                scheme: "ui"@,
                host: Some(host),
                query: seq![("u"@, percent_decoded(value)->0)],
            },
        )
}

/// Calls `url::Url::parse` and reads `scheme`, `host_str` and `query_pairs` of the URL.
///
/// Of the URLs that [`parses_as_ui_url`] speaks of it is said besides that they parse, that the
/// host comes back as it stands, as that of a scheme without rules of its own does, and that the
/// query pair comes back decoded.
#[verifier::external_body]
pub(crate) fn parse_url(uri: &str) -> (r: Result<UrlParts, String>)
    ensures
        url_outcome(r) == parsed_url(uri@),
        parses_as_ui_url(uri@, url_outcome(r)),
{
    match url::Url::parse(uri) {
        Ok(url) => Ok(
            UrlParts {
                scheme: url.scheme().to_string(),
                host: url.host_str().map(|h| h.to_string()),
                query: url.query_pairs().into_owned().collect(),
            },
        ),
        Err(e) => Err(e.to_string()),
    }
}

proof fn lemma_hex(n: int)
    requires
        0 <= n < 16,
    ensures
        hex_value(hex_digit(n)) == Some(n),
{
}

/// Encoded bytes are ASCII, and decoding them gives the bytes back.
proof fn lemma_encoded_bytes(bytes: Seq<u8>)
    ensures
        forall|i: int|
            0 <= i < encoded_bytes(bytes).len() ==> (#[trigger] encoded_bytes(bytes)[i] == 37
                || is_alphanumeric(encoded_bytes(bytes)[i])),
        decoded_bytes(encoded_bytes(bytes)) == bytes,
        bytes.len() > 0 ==> encoded_bytes(bytes).len() > 0,
    decreases bytes.len(),
{
    if bytes.len() > 0 {
        let rest = bytes.subrange(1, bytes.len() as int);
        lemma_encoded_bytes(rest);
        let head = encoded_byte(bytes[0]);
        let all = encoded_bytes(bytes);
        assert(all == head + encoded_bytes(rest));
        lemma_hex(bytes[0] as int / 16);
        lemma_hex(bytes[0] as int % 16);
        assert forall|i: int| 0 <= i < all.len() implies (#[trigger] all[i] == 37
            || is_alphanumeric(all[i])) by {
            if i >= head.len() {
                assert(all[i] == encoded_bytes(rest)[i - head.len()]);
            }
        }
        if is_alphanumeric(bytes[0]) {
            assert(all.subrange(1, all.len() as int) =~= encoded_bytes(rest));
            assert(decoded_bytes(all) == seq![bytes[0]] + rest);
        } else {
            assert(all.subrange(3, all.len() as int) =~= encoded_bytes(rest));
            assert(all[0] == 37);
            assert(all[1] == hex_digit(bytes[0] as int / 16));
            assert(all[2] == hex_digit(bytes[0] as int % 16));
            assert(decoded_bytes(all) == seq![bytes[0]] + rest);
        }
        assert(seq![bytes[0]] + rest =~= bytes);
    }
}

/// Percent-encoding yields letters, digits and `%` only, and decoding undoes it.
pub proof fn law_percent_round_trip(s: Seq<char>)
    ensures
        is_encoded_text(percent_encoded(s)),
        percent_decoded(percent_encoded(s)) == Some(s),
        s.len() > 0 ==> percent_encoded(s).len() > 0,
{
    let bytes = encode_utf8(s);
    let encoded = encoded_bytes(bytes);
    lemma_encoded_bytes(bytes);
    let text = ascii_text(encoded);
    assert forall|i: int| 0 <= i < text.len() implies (#[trigger] text[i] == '%' || '0' <= text[i]
        <= '9' || 'A' <= text[i] <= 'Z' || 'a' <= text[i] <= 'z') by {
        assert(encoded[i] == 37 || is_alphanumeric(encoded[i]));
    }
    assert(is_ascii_chars(text));
    vstd::utf8::is_ascii_chars_encode_utf8(text);
    assert(encode_utf8(text) =~= encoded);
    vstd::utf8::encode_utf8_valid_utf8(s);
    vstd::utf8::encode_utf8_decode_utf8(s);
    if s.len() > 0 {
        assert(bytes.len() > 0);
    }
}

/// The bytes of letters and digits of ASCII stand for themselves.
proof fn lemma_alphanumerics(bytes: Seq<u8>)
    requires
        forall|i: int| 0 <= i < bytes.len() ==> is_alphanumeric(#[trigger] bytes[i]),
    ensures
        encoded_bytes(bytes) == bytes,
    decreases bytes.len(),
{
    if bytes.len() > 0 {
        let rest = bytes.subrange(1, bytes.len() as int);
        assert forall|i: int| 0 <= i < rest.len() implies is_alphanumeric(#[trigger] rest[i]) by {
            assert(rest[i] == bytes[i + 1]);
        }
        lemma_alphanumerics(rest);
        assert(is_alphanumeric(bytes[0]));
        assert(encoded_bytes(bytes) =~= bytes);
    } else {
        assert(encoded_bytes(bytes) =~= bytes);
    }
}

/// Letters and digits of ASCII are not encoded.
pub proof fn law_alphanumerics_are_kept(s: Seq<char>)
    requires
        forall|i: int|
            0 <= i < s.len() ==> '0' <= #[trigger] s[i] <= '9' || 'A' <= s[i] <= 'Z' || 'a' <= s[i]
                <= 'z',
    ensures
        percent_encoded(s) == s,
{
    assert(is_ascii_chars(s)) by {
        assert forall|i: int| 0 <= i < s.len() implies 0 <= (#[trigger] s[i]) as u32 <= 127 by {}
    }
    vstd::utf8::is_ascii_chars_encode_utf8(s);
    let bytes = encode_utf8(s);
    assert forall|i: int| 0 <= i < bytes.len() implies is_alphanumeric(#[trigger] bytes[i]) by {
        assert(s[i] as u8 == bytes[i]);
    }
    lemma_alphanumerics(bytes);
    assert(percent_encoded(s) =~= s);
}

/// Any other byte is encoded as a `%` and two hexadecimal digits, with capital letters.
pub proof fn law_other_bytes_are_encoded(b: u8)
    requires
        !is_alphanumeric(b),
    ensures
        encoded_byte(b).len() == 3,
        encoded_byte(b)[0] == 37,
        forall|i: int|
            1 <= i < 3 ==> 48 <= #[trigger] encoded_byte(b)[i] <= 57 || 65 <= encoded_byte(b)[i]
                <= 70,
        decoded_bytes(encoded_byte(b)) == seq![b],
{
    let e = encoded_byte(b);
    assert(e.subrange(3, 3) =~= Seq::<u8>::empty());
    assert(decoded_bytes(e.subrange(3, 3)) =~= Seq::<u8>::empty());
    assert(decoded_bytes(e) =~= seq![b]);
}

} // verus!
