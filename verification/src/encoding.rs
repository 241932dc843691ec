//! Encodings used in URLs and request bodies: URL component escaping,
//! `application/x-www-form-urlencoded` bodies and queries, and Base64.
use vstd::prelude::*;
use vstd::utf8::encode_utf8;
use base64::Engine;

verus! {

/// An uppercase hexadecimal digit for a value below 16.
pub open spec fn hex_upper(d: nat) -> char {
    if d < 10 {
        (48 + d) as char
    } else {
        (55 + d) as char
    }
}

/// `%XX`, the percent escape of a byte with uppercase hex digits.
pub open spec fn percent_escape(b: u8) -> Seq<char> {
    seq!['%', hex_upper((b / 16) as nat), hex_upper((b % 16) as nat)]
}

/// ASCII letters and digits.
pub open spec fn is_ascii_alphanumeric(b: u8) -> bool {
    (48 <= b <= 57) || (65 <= b <= 90) || (97 <= b <= 122)
}

/// Bytes that URL component encoding leaves as they are: letters, digits,
/// `-`, `.`, `_` and `~`.
pub open spec fn is_url_unreserved(b: u8) -> bool {
    is_ascii_alphanumeric(b) || b == 45 || b == 46 || b == 95 || b == 126
}

/// URL component encoding of a byte string: unreserved bytes are kept,
/// every other byte becomes its percent escape.
pub open spec fn url_encoded_bytes(bytes: Seq<u8>) -> Seq<char>
    decreases bytes.len(),
{
    if bytes.len() == 0 {
        seq![]
    } else {
        let head = if is_url_unreserved(bytes[0]) {
            seq![bytes[0] as char]
        } else {
            percent_escape(bytes[0])
        };
        head + url_encoded_bytes(bytes.drop_first())
    }
}

/// URL component encoding of a text, over its UTF-8 bytes.
pub open spec fn url_encoded(s: Seq<char>) -> Seq<char> {
    url_encoded_bytes(encode_utf8(s))
}

/// Bytes that the form serializer leaves as they are: letters, digits,
/// `*`, `-`, `.` and `_`.
pub open spec fn is_form_unchanged(b: u8) -> bool {
    is_ascii_alphanumeric(b) || b == 42 || b == 45 || b == 46 || b == 95
}

/// The `application/x-www-form-urlencoded` byte serializer: unchanged bytes
/// are kept, a space becomes `+`, every other byte its percent escape.
pub open spec fn form_serialized_bytes(bytes: Seq<u8>) -> Seq<char>
    decreases bytes.len(),
{
    if bytes.len() == 0 {
        seq![]
    } else {
        let head = if is_form_unchanged(bytes[0]) {
            seq![bytes[0] as char]
        } else if bytes[0] == 32 {
            seq!['+']
        } else {
            percent_escape(bytes[0])
        };
        head + form_serialized_bytes(bytes.drop_first())
    }
}

/// One `name=value` pair of a form body.
pub open spec fn form_pair(name: Seq<char>, value: Seq<char>) -> Seq<char> {
    form_serialized_bytes(encode_utf8(name)) + seq!['='] + form_serialized_bytes(
        encode_utf8(value),
    )
}

/// A form body: its pairs in order, separated by `&`.
pub open spec fn form_body(pairs: Seq<(Seq<char>, Seq<char>)>) -> Seq<char>
    decreases pairs.len(),
{
    if pairs.len() == 0 {
        seq![]
    } else if pairs.len() == 1 {
        form_pair(pairs[0].0, pairs[0].1)
    } else {
        form_body(pairs.drop_last()) + seq!['&'] + form_pair(pairs.last().0, pairs.last().1)
    }
}

/// The character of a value below 64 in the standard Base64 alphabet.
pub open spec fn base64_char(v: nat) -> char {
    if v < 26 {
        (65 + v) as char
    } else if v < 52 {
        (71 + v) as char
    } else if v < 62 {
        (v - 4) as char
    } else if v == 62 {
        '+'
    } else {
        '/'
    }
}

/// Standard Base64 with `=` padding: every three bytes become four
/// characters of six bits each; a last group of one or two bytes is padded.
pub open spec fn base64_bytes(b: Seq<u8>) -> Seq<char>
    decreases b.len(),
{
    if b.len() == 0 {
        seq![]
    } else if b.len() == 1 {
        seq![base64_char((b[0] / 4) as nat), base64_char(((b[0] % 4) * 16) as nat), '=', '=']
    } else if b.len() == 2 {
        seq![
            base64_char((b[0] / 4) as nat),
            base64_char(((b[0] % 4) * 16 + b[1] / 16) as nat),
            base64_char(((b[1] % 16) * 4) as nat),
            '=',
        ]
    } else {
        seq![
            base64_char((b[0] / 4) as nat),
            base64_char(((b[0] % 4) * 16 + b[1] / 16) as nat),
            base64_char(((b[1] % 16) * 4 + b[2] / 64) as nat),
            base64_char((b[2] % 64) as nat),
        ] + base64_bytes(b.subrange(3, b.len() as int))
    }
}

/// The views of a list of string pairs.
pub open spec fn pairs_view(v: Seq<(String, String)>) -> Seq<(Seq<char>, Seq<char>)> {
    v.map_values(|p: (String, String)| (p.0@, p.1@))
}

/// What `form_urlencoded::parse(..).into_owned()` yields for a query text:
/// the decoded `(name, value)` pairs in the order they stand.
pub uninterp spec fn form_decoded_pairs(query: Seq<char>) -> Seq<(Seq<char>, Seq<char>)>;

/// `urlencoding::encode`: percent-encodes every byte of the UTF-8 text
/// except ASCII letters, digits, `-`, `_`, `.` and `~`, with uppercase hex.
#[verifier::external_body]
pub(crate) fn url_encode(s: &str) -> (r: String)
    ensures
        r@ == url_encoded(s@),
{
    urlencoding::encode(s).into_owned()
}

/// `form_urlencoded::Serializer` started on an empty string, with each pair
/// appended by `append_pair` and then `finish`ed: the pairs in order, each
/// as serialized name, `=`, serialized value, separated by `&`.
#[verifier::external_body]
pub(crate) fn form_encode(pairs: &Vec<(String, String)>) -> (r: String)
    ensures
        r@ == form_body(pairs_view(pairs@)),
{
    let mut serializer = url::form_urlencoded::Serializer::new(String::new());
    for (name, value) in pairs.iter() {
        serializer.append_pair(name, value);
    }
    serializer.finish()
}

/// `form_urlencoded::parse` over the bytes of a query, collected as owned
/// pairs. The decoding (`+` to space, percent escapes, lossy UTF-8) is left
/// to the name `form_decoded_pairs`.
#[verifier::external_body]
pub(crate) fn form_decode(query: &str) -> (r: Vec<(String, String)>)
    ensures
        pairs_view(r@) == form_decoded_pairs(query@),
{
    url::form_urlencoded::parse(query.as_bytes()).into_owned().collect()
}

/// `base64::engine::general_purpose::STANDARD.encode` over the UTF-8 bytes
/// of a text: standard alphabet, `=` padding.
#[verifier::external_body]
pub(crate) fn base64_encode(s: &str) -> (r: String)
    ensures
        r@ == base64_bytes(encode_utf8(s@)),
{
    base64::engine::general_purpose::STANDARD.encode(s)
}

} // verus!
