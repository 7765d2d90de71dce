//! The encodings that requests are made of: form url-encoding (`url`),
//! base64 (`base64`) and JSON text (`serde_json`), each stated as a function
//! of the characters it encodes.
use vstd::prelude::*;
use vstd::utf8::encode_utf8;
use base64::Engine;

use crate::text::push_str;

verus! {

/// The upper-case hexadecimal digit for `d < 16`.
pub open spec fn hex_upper(d: nat) -> char {
    if d < 10 {
        (48 + d) as char
    } else {
        (55 + d) as char
    }
}

/// The lower-case hexadecimal digit for `d < 16`.
pub open spec fn hex_lower(d: nat) -> char {
    if d < 10 {
        (48 + d) as char
    } else {
        (87 + d) as char
    }
}

/// Bytes that the form url-encoding leaves as they are: ASCII letters and
/// digits and `*`, `-`, `.`, `_`.
pub open spec fn form_unreserved(b: u8) -> bool {
    ||| b == 0x2a
    ||| b == 0x2d
    ||| b == 0x2e
    ||| 0x30 <= b <= 0x39
    ||| 0x41 <= b <= 0x5a
    ||| b == 0x5f
    ||| 0x61 <= b <= 0x7a
}

/// The `application/x-www-form-urlencoded` form of one byte: itself when
/// unreserved, `+` for a space, `%XX` (upper-case hex) otherwise.
pub open spec fn form_encode_byte(b: u8) -> Seq<char> {
    if form_unreserved(b) {
        seq![b as char]
    } else if b == 0x20 {
        seq!['+']
    } else {
        seq!['%', hex_upper((b / 16) as nat), hex_upper((b % 16) as nat)]
    }
}

/// The form url-encoding of a byte sequence, byte by byte.
pub open spec fn form_encode_bytes(bytes: Seq<u8>) -> Seq<char>
    decreases bytes.len(),
{
    if bytes.len() == 0 {
        seq![]
    } else {
        form_encode_byte(bytes[0]) + form_encode_bytes(bytes.drop_first())
    }
}

/// The form url-encoding of a string: of the bytes of its UTF-8 encoding.
pub open spec fn form_urlencoded(s: Seq<char>) -> Seq<char> {
    form_encode_bytes(encode_utf8(s))
}

/// `url::form_urlencoded::byte_serialize`, collected into a string.
/// Trusted: the crate's source maps each byte of the input to itself when it
/// is an ASCII letter or digit or one of `*-._`, a space to `+`, and any other
/// byte to `%` and two upper-case hex digits; this contract says exactly that.
#[verifier::external_body]
fn form_urlencode(s: &str) -> (r: String)
    ensures
        r@ == form_urlencoded(s@),
{
    url::form_urlencoded::byte_serialize(s.as_bytes()).collect()
}

/// One `name=value` field of a form body, both sides encoded.
pub open spec fn form_pair(name: Seq<char>, value: Seq<char>) -> Seq<char> {
    form_urlencoded(name) + seq!['='] + form_urlencoded(value)
}

/// Appends a field to a form body, behind a `&` unless it is the first.
pub fn append_pair(form: &mut String, name: &str, value: &str)
    ensures
        final(form)@ == old(form)@ + (if old(form)@.len() == 0 {
            Seq::<char>::empty()
        } else {
            seq!['&']
        }) + form_pair(name@, value@),
{
    if !form.as_str().is_empty() {
        crate::text::push_char(form, '&');
    }
    let n = form_urlencode(name);
    push_str(form, n.as_str());
    crate::text::push_char(form, '=');
    let v = form_urlencode(value);
    push_str(form, v.as_str());
    assert(form@ =~= old(form)@ + (if old(form)@.len() == 0 {
        Seq::<char>::empty()
    } else {
        seq!['&']
    }) + form_pair(name@, value@));
}

/// A value encoded for a URL query, as a form field encodes it.
pub fn percent_encode(value: &str) -> (r: String)
    ensures
        r@ == form_urlencoded(value@),
{
    form_urlencode(value)
}

/// The character of the standard base64 alphabet for `v < 64`.
pub open spec fn base64_char(v: nat) -> char {
    if v < 26 {
        (65 + v) as char
    } else if v < 52 {
        (71 + v) as char
    } else if v < 62 {
        (v - 4) as char
    } else if v == 62 {
        '+'
    } else {
        '/'
    }
}

/// Standard base64 with `=` padding: every three bytes become four
/// characters, and a last group of one or two bytes is padded.
pub open spec fn base64_encode(b: Seq<u8>) -> Seq<char>
    decreases b.len(),
{
    if b.len() == 0 {
        seq![]
    } else if b.len() == 1 {
        seq![base64_char((b[0] / 4) as nat), base64_char(((b[0] % 4) * 16) as nat), '=', '=']
    } else if b.len() == 2 {
        seq![
            base64_char((b[0] / 4) as nat),
            base64_char(((b[0] % 4) * 16 + b[1] / 16) as nat),
            base64_char(((b[1] % 16) * 4) as nat),
            '=',
        ]
    } else {
        seq![
            base64_char((b[0] / 4) as nat),
            base64_char(((b[0] % 4) * 16 + b[1] / 16) as nat),
            base64_char(((b[1] % 16) * 4 + b[2] / 64) as nat),
            base64_char((b[2] % 64) as nat),
        ] + base64_encode(b.skip(3))
    }
}

/// `base64::engine::general_purpose::STANDARD.encode` on the UTF-8 bytes of
/// `s`. Trusted: the crate encodes with the standard alphabet
/// `A-Z a-z 0-9 + /` and pads with `=`, which is what `base64_encode`
/// states. Its size computation panics only for inputs longer than three
/// quarters of the address space, which no string reaches.
#[verifier::external_body]
pub(crate) fn base64_standard(s: &str) -> (r: String)
    ensures
        r@ == base64_encode(encode_utf8(s@)),
{
    base64::engine::general_purpose::STANDARD.encode(s)
}

/// How JSON writes one character inside a string literal.
pub open spec fn json_escape_char(c: char) -> Seq<char> {
    if c == '"' {
        seq!['\\', '"']
    } else if c == '\\' {
        seq!['\\', '\\']
    } else if c == '\u{8}' {
        seq!['\\', 'b']
    } else if c == '\t' {
        seq!['\\', 't']
    } else if c == '\n' {
        seq!['\\', 'n']
    } else if c == '\u{c}' {
        seq!['\\', 'f']
    } else if c == '\r' {
        seq!['\\', 'r']
    } else if (c as u32) < 0x20 {
        seq!['\\', 'u', '0', '0', hex_lower((c as u32 / 16) as nat), hex_lower((c as u32 % 16) as nat)]
    } else {
        seq![c]
    }
}

/// The characters of `s` as written inside a JSON string literal.
pub open spec fn json_escape(s: Seq<char>) -> Seq<char>
    decreases s.len(),
{
    if s.len() == 0 {
        seq![]
    } else {
        json_escape_char(s[0]) + json_escape(s.drop_first())
    }
}

/// A JSON string literal holding `s`.
pub open spec fn json_string(s: Seq<char>) -> Seq<char> {
    seq!['"'] + json_escape(s) + seq!['"']
}

/// The compact JSON text of an object with one string field.
pub open spec fn json_single_field_object(key: Seq<char>, value: Seq<char>) -> Seq<char> {
    seq!['{'] + json_string(key) + seq![':'] + json_string(value) + seq!['}']
}

/// The compact text (`Display`) of a `serde_json::Value::Object` holding one
/// string field. Trusted: serde_json writes `{`, the key and the value as
/// string literals separated by `:`, and `}`; in a literal it escapes `"` and
/// `\`, writes `\b \t \n \f \r` for those controls, `\u00xx` (lower-case hex)
/// for the other characters below U+0020, and keeps every other character.
#[verifier::external_body]
pub(crate) fn json_object_text(key: &str, value: &str) -> (r: String)
    ensures
        r@ == json_single_field_object(key@, value@),
{
    let mut object = serde_json::Map::new();
    object.insert(key.to_string(), serde_json::Value::String(value.to_string()));
    serde_json::Value::Object(object).to_string()
}

/// Characters that could end a form field or a URL query value: `&`, `=`,
/// `#`, `?`, `/`, and white space.
pub open spec fn is_form_delimiter(c: char) -> bool {
    c == '&' || c == '=' || c == '#' || c == '?' || c == '/' || c == ' ' || c == '\n' || c == '\r'
        || c == '\t'
}

/// A form-encoded value never holds a character that would end its field or
/// its query value, whatever the value held: every such character is
/// written as `+` or `%XX`.
pub proof fn form_encoding_has_no_delimiters(s: Seq<char>)
    ensures
        forall|i: int|
            0 <= i < form_urlencoded(s).len() ==> !is_form_delimiter(#[trigger] form_urlencoded(s)[i]),
{
    encoded_bytes_have_no_delimiters(encode_utf8(s));
}

proof fn encoded_bytes_have_no_delimiters(b: Seq<u8>)
    ensures
        forall|i: int|
            0 <= i < form_encode_bytes(b).len() ==> !is_form_delimiter(#[trigger] form_encode_bytes(b)[i]),
    decreases b.len(),
{
    if b.len() > 0 {
        encoded_bytes_have_no_delimiters(b.drop_first());
        let head = form_encode_byte(b[0]);
        let tail = form_encode_bytes(b.drop_first());
        assert forall|i: int| 0 <= i < head.len() implies !is_form_delimiter(#[trigger] head[i]) by {
            let x = b[0];
            if form_unreserved(x) {
                assert(head[i] == x as char);
            } else if x != 0x20 {
                assert(i == 0 || head[i] == hex_upper((x / 16) as nat) || head[i] == hex_upper((x % 16) as nat));
            }
        }
        assert(form_encode_bytes(b) =~= head + tail);
        assert forall|i: int| 0 <= i < form_encode_bytes(b).len() implies !is_form_delimiter(
            #[trigger] form_encode_bytes(b)[i],
        ) by {
            if i < head.len() {
                assert(form_encode_bytes(b)[i] == head[i]);
            } else {
                assert(form_encode_bytes(b)[i] == tail[i - head.len()]);
            }
        }
    }
}

/// Base64 makes four characters of every three bytes, the last group padded.
pub proof fn base64_length(b: Seq<u8>)
    ensures
        base64_encode(b).len() == 4 * ((b.len() + 2) / 3),
    decreases b.len(),
{
    if b.len() > 2 {
        base64_length(b.skip(3));
    }
}

/// A JSON string literal holds no raw control character, so a request body
/// is a single line of JSON whatever the query holds.
pub proof fn json_string_has_no_controls(s: Seq<char>)
    ensures
        forall|i: int| 0 <= i < json_string(s).len() ==> (#[trigger] json_string(s)[i]) as u32 >= 0x20,
{
    json_escape_has_no_controls(s);
    let j = json_string(s);
    assert forall|i: int| 0 <= i < j.len() implies (#[trigger] j[i]) as u32 >= 0x20 by {
        if 0 < i < j.len() - 1 {
            assert(j[i] == json_escape(s)[i - 1]);
        }
    }
}

proof fn json_escape_has_no_controls(s: Seq<char>)
    ensures
        forall|i: int| 0 <= i < json_escape(s).len() ==> (#[trigger] json_escape(s)[i]) as u32 >= 0x20,
    decreases s.len(),
{
    if s.len() > 0 {
        json_escape_has_no_controls(s.drop_first());
        let head = json_escape_char(s[0]);
        let tail = json_escape(s.drop_first());
        assert forall|i: int| 0 <= i < head.len() implies (#[trigger] head[i]) as u32 >= 0x20 by {
            let c = s[0] as u32;
            if (s[0] as u32) < 0x20 && s[0] != '\u{8}' && s[0] != '\t' && s[0] != '\n' && s[0] != '\u{c}' && s[0] != '\r' {
                assert(i < 4 || head[i] == hex_lower((c / 16) as nat) || head[i] == hex_lower((c % 16) as nat));
            }
        }
        assert(json_escape(s) =~= head + tail);
        assert forall|i: int| 0 <= i < json_escape(s).len() implies (#[trigger] json_escape(s)[i]) as u32 >= 0x20 by {
            if i < head.len() {
                assert(json_escape(s)[i] == head[i]);
            } else {
                assert(json_escape(s)[i] == tail[i - head.len()]);
            }
        }
    }
}

} // verus!
