use vstd::prelude::*;

use crate::json::{JsonData, JsonMember, JsonValue};
use crate::text::{
    append_chars, chars_of, chars_start_with, decimal, push_decimal, starts_with,
    string_of,
};
use vstd::utf8::{decode_utf8, valid_utf8};

verus! {

/// Where the HTTP API is reached and with which Bearer token.
#[derive(Debug, Clone)]
pub struct ApiConnectionSettings {
    pub base_url: String,
    pub access_token: Option<String>,
}

/// The text without its trailing `/` characters.
pub open spec fn without_trailing_slashes(s: Seq<char>) -> Seq<char>
    decreases s.len(),
{
    if s.len() > 0 && s.last() == '/' {
        without_trailing_slashes(s.drop_last())
    } else {
        s
    }
}

/// The URL of a request: a path that is already an `http://` or `https://` URL is
/// used as it is; a path is appended to the base URL, with a `/` between them when
/// the path lacks one.
pub open spec fn request_url_text(base: Seq<char>, path: Seq<char>) -> Seq<char> {
    if starts_with(path, "http://"@) || starts_with(path, "https://"@) {
        path
    } else if starts_with(path, seq!['/']) {
        base + path
    } else {
        base + seq!['/'] + path
    }
}

/// The base URL of a client: the configured one without trailing slashes.
pub fn normalize_base_url(base_url: &str) -> (r: String)
    ensures
        r@ == without_trailing_slashes(base_url@),
{
    let cs = chars_of(base_url);
    let mut e = cs.len();
    assert(cs@.subrange(0, cs@.len() as int) =~= cs@);
    while e > 0 && cs[e - 1] == '/'
        invariant
            e <= cs@.len(),
            without_trailing_slashes(cs@.subrange(0, e as int)) == without_trailing_slashes(cs@),
        decreases e,
    {
        assert(cs@.subrange(0, e as int).drop_last() =~= cs@.subrange(0, e - 1));
        e -= 1;
    }
    string_of_prefix(&cs, e)
}

/// A client's base URL never ends with `/`, is a prefix of the configured one, and
/// normalizing it again changes nothing.
pub proof fn law_base_url_normalization_is_stable(s: Seq<char>)
    ensures
        without_trailing_slashes(s).len() == 0 || without_trailing_slashes(s).last() != '/',
        without_trailing_slashes(s).len() <= s.len(),
        without_trailing_slashes(s) == s.subrange(0, without_trailing_slashes(s).len() as int),
        without_trailing_slashes(without_trailing_slashes(s)) == without_trailing_slashes(s),
    decreases s.len(),
{
    if s.len() > 0 && s.last() == '/' {
        law_base_url_normalization_is_stable(s.drop_last());
        let t = without_trailing_slashes(s.drop_last());
        assert(s.drop_last().subrange(0, t.len() as int) =~= s.subrange(0, t.len() as int));
    } else {
        assert(s.subrange(0, s.len() as int) =~= s);
    }
}

fn string_of_prefix(cs: &Vec<char>, e: usize) -> (r: String)
    requires
        e <= cs@.len(),
    ensures
        r@ == cs@.subrange(0, e as int),
{
    crate::text::string_of_range(cs, 0, e)
}

/// The URL of a request for `path` against `base_url`.
pub fn request_url(base_url: &str, path: &str) -> (r: String)
    ensures
        r@ == request_url_text(base_url@, path@),
{
    let p = chars_of(path);
    if chars_start_with(&p, &chars_of("http://")) || chars_start_with(&p, &chars_of("https://")) {
        return string_of(&p);
    }
    let mut out = chars_of(base_url);
    if p.len() > 0 && p[0] == '/' {
        assert(p@.subrange(0, 1) =~= seq!['/']);
    } else {
        proof {
            if starts_with(p@, seq!['/']) {
                assert(p@.subrange(0, 1)[0] == '/');
            }
        }
        out.push('/');
    }
    append_chars(&mut out, &p);
    string_of(&out)
}

/// What `String::from_utf8_lossy` makes of bytes: their text, with each invalid
/// sequence replaced by U+FFFD.
pub uninterp spec fn utf8_lossy(bytes: Seq<u8>) -> Seq<char>;

/// `String::from_utf8_lossy`: the text of the bytes. For valid UTF-8 this is the
/// decoded text; for other input the result is named by `utf8_lossy` and nothing more
/// is claimed of it.
#[verifier::external_body]
fn lossy_text(bytes: &[u8]) -> (r: String)
    ensures
        r@ == utf8_lossy(bytes@),
        valid_utf8(bytes@) ==> r@ == decode_utf8(bytes@),
{
    String::from_utf8_lossy(bytes).into_owned()
}

/// `String::from_utf8`: the decoded text when the bytes are valid UTF-8, else none.
#[verifier::external_body]
fn utf8_text(bytes: &[u8]) -> (r: Option<String>)
    ensures
        r is Some <==> valid_utf8(bytes@),
        r matches Some(t) ==> t@ == decode_utf8(bytes@),
{
    String::from_utf8(bytes.to_vec()).ok()
}

/// Whether an HTTP status code reports success: 200 to 299.
pub open spec fn is_success(status: u16) -> bool {
    200 <= status <= 299
}

/// The lower-case hexadecimal digit of a value below 16.
pub open spec fn hex_lower(d: nat) -> char {
    crate::json::hex_digit(d)
}

/// The bytes as pairs of lower-case hexadecimal digits.
pub open spec fn hex_text(bytes: Seq<u8>) -> Seq<char>
    decreases bytes.len(),
{
    if bytes.len() == 0 {
        seq![]
    } else {
        hex_text(bytes.drop_last()) + seq![
            hex_lower((bytes.last() / 16) as nat),
            hex_lower((bytes.last() % 16) as nat),
        ]
    }
}

/// The description of a body that is neither JSON nor UTF-8 text: that it is binary,
/// its length, and the hexadecimal text of its first 64 bytes.
pub open spec fn binary_summary(bytes: Seq<u8>) -> JsonData {
    JsonData::Object(
        seq![
            ("binary"@, JsonData::Bool(true)),
            ("bytes"@, JsonData::Number(decimal(bytes.len()))),
            (
                "preview_hex"@,
                JsonData::Str(
                    hex_text(
                        if bytes.len() <= 64 {
                            bytes
                        } else {
                            bytes.subrange(0, 64)
                        },
                    ),
                ),
            ),
        ],
    )
}

/// The error text of a failed request: `http <status>: <body text>`.
pub open spec fn http_error_text(status: u16, body: Seq<u8>) -> Seq<char> {
    "http "@ + decimal(status as nat) + ": "@ + utf8_lossy(body)
}

/// Appends the hexadecimal text of `bytes[0..n]`.
fn push_hex(out: &mut Vec<char>, bytes: &[u8], n: usize)
    requires
        n <= bytes@.len(),
    ensures
        final(out)@ == old(out)@ + hex_text(bytes@.subrange(0, n as int)),
{
    let ghost before = out@;
    let mut i: usize = 0;
    while i < n
        invariant
            i <= n <= bytes@.len(),
            out@ == before + hex_text(bytes@.subrange(0, i as int)),
        decreases n - i,
    {
        let b = bytes[i];
        let hi: u8 = b / 16;
        let lo: u8 = b % 16;
        let hc: char = if hi < 10 {
            (hi + 48) as char
        } else {
            (hi + 87) as char
        };
        let lc: char = if lo < 10 {
            (lo + 48) as char
        } else {
            (lo + 87) as char
        };
        out.push(hc);
        out.push(lc);
        assert(bytes@.subrange(0, i + 1).drop_last() =~= bytes@.subrange(0, i as int));
        i += 1;
        assert(out@ =~= before + hex_text(bytes@.subrange(0, i as int)));
    }
}

/// What `serde_json::from_slice::<serde_json::Value>` reads from the bytes: the JSON
/// document they hold, or none when they hold none.
pub uninterp spec fn json_document(bytes: Seq<u8>) -> Option<JsonData>;

/// `serde_json::from_slice::<serde_json::Value>`: the JSON document of the bytes,
/// named by `json_document`; none when they are not one JSON document. The parse
/// depends on the bytes alone; its grammar is left to serde_json and not stated here.
#[verifier::external_body]
fn parse_json_document(bytes: &[u8]) -> (r: Option<JsonValue>)
    ensures
        match r {
            Some(v) => json_document(bytes@) == Some(v.data()),
            None => json_document(bytes@) is None,
        },
{
    match serde_json::from_slice::<serde_json::Value>(bytes) {
        Ok(value) => Some(crate::json::json_value_of(value)),
        Err(_) => None,
    }
}

/// The result of a request from its status code and its body: an error
/// `http <status>: <body text>` for a status outside 200 to 299; else the JSON
/// document of the body; else `{"text": ...}` for a UTF-8 body; else a description of
/// the binary body.
pub fn decode_response(status: u16, body: &[u8]) -> (r: Result<JsonValue, String>)
    ensures
        !is_success(status) ==> (r matches Err(e) && e@ == http_error_text(status, body@)),
        is_success(status) && json_document(body@) is Some ==> (r matches Ok(v) && json_document(
            body@,
        ) == Some(v.data())),
        is_success(status) && json_document(body@) is None && valid_utf8(body@) ==> (r matches Ok(
            v,
        ) && v.data() == JsonData::Object(seq![("text"@, JsonData::Str(decode_utf8(body@)))])),
        is_success(status) && json_document(body@) is None && !valid_utf8(body@) ==> (r matches Ok(
            v,
        ) && v.data() == binary_summary(body@)),
{
    if !(200 <= status && status <= 299) {
        return decode_with_parsed(status, body, None);
    }
    let parsed = parse_json_document(body);
    decode_with_parsed(status, body, parsed)
}

/// The result of a request from its status code, its body, and the body read as
/// JSON (none when the body is not JSON): an error `http <status>: <body text>` for a
/// status outside 200 to 299; else the JSON value; else `{"text": ...}` for a UTF-8
/// body; else a description of the binary body.
pub fn decode_with_parsed(status: u16, body: &[u8], parsed: Option<JsonValue>) -> (r: Result<
    JsonValue,
    String,
>)
    ensures
        !is_success(status) ==> (r matches Err(e) && e@ == http_error_text(status, body@)),
        is_success(status) && parsed is Some ==> (r matches Ok(v) && v.data() == parsed->0.data()),
        is_success(status) && parsed is None && valid_utf8(body@) ==> (r matches Ok(v) && v.data()
            == JsonData::Object(seq![("text"@, JsonData::Str(decode_utf8(body@)))])),
        is_success(status) && parsed is None && !valid_utf8(body@) ==> (r matches Ok(v)
            && v.data() == binary_summary(body@)),
{
    if !(200 <= status && status <= 299) {
        let mut out = chars_of("http ");
        push_decimal(&mut out, status as u64);
        append_chars(&mut out, &chars_of(": "));
        append_chars(&mut out, &chars_of(lossy_text(body).as_str()));
        return Err(string_of(&out));
    }
    if let Some(json) = parsed {
        return Ok(json);
    }
    if let Some(text) = utf8_text(body) {
        let members = vec![JsonMember { key: crate::text::owned("text"), value: JsonValue::Str(text) }];
        let r = JsonValue::Object(members);
        proof {
            crate::json::lemma_members_data(members@);
            assert(crate::json::members_data(members@) =~= seq![("text"@, JsonData::Str(decode_utf8(body@)))]);
        }
        return Ok(r);
    }
    let n = if body.len() <= 64 {
        body.len()
    } else {
        64
    };
    let mut hex: Vec<char> = Vec::new();
    push_hex(&mut hex, body, n);
    let mut count: Vec<char> = Vec::new();
    push_decimal(&mut count, body.len() as u64);
    let members = vec![
        JsonMember { key: crate::text::owned("binary"), value: JsonValue::Bool(true) },
        JsonMember { key: crate::text::owned("bytes"), value: JsonValue::Number(string_of(&count)) },
        JsonMember { key: crate::text::owned("preview_hex"), value: JsonValue::Str(string_of(&hex)) },
    ];
    proof {
        assert(body@.subrange(0, body@.len() as int) =~= body@);
        let ms = crate::json::members_data(members@);
        crate::json::lemma_members_data(members@);
        assert(ms =~= seq![
            ("binary"@, JsonData::Bool(true)),
            ("bytes"@, JsonData::Number(decimal(body@.len()))),
            ("preview_hex"@, JsonData::Str(hex_text(if body@.len() <= 64 { body@ } else { body@.subrange(0, 64) }))),
        ]);
    }
    Ok(JsonValue::Object(members))
}

} // verus!
