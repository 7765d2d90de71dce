//! Reading back what the library writes: a form body or query string parsed
//! as `application/x-www-form-urlencoded`, and the JSON body of a v2 query.
//! The round-trip laws here show that the requests carry exactly the values
//! they were built from.
use vstd::prelude::*;
use vstd::utf8::{decode_utf8, encode_utf8, encode_utf8_decode_utf8, is_ascii_chars_encode_utf8};

use crate::encode::{hex_lower, json_escape, json_escape_char, json_single_field_object, json_string,
    form_encode_byte, form_encode_bytes, form_pair, form_unreserved, form_urlencoded, hex_upper};

verus! {

/// UTF-8 encodes a concatenation piece by piece.
pub proof fn encode_utf8_concat(a: Seq<char>, b: Seq<char>)
    ensures
        encode_utf8(a + b) == encode_utf8(a) + encode_utf8(b),
    decreases a.len(),
{
    if a.len() > 0 {
        encode_utf8_concat(a.drop_first(), b);
        assert((a + b).drop_first() =~= a.drop_first() + b);
        assert(encode_utf8(a + b) =~= encode_utf8(a) + encode_utf8(b));
    } else {
        assert(a + b =~= b);
    }
}

/// An ASCII character is encoded as its own code.
proof fn encode_ascii_char(c: char)
    requires
        (c as u32) < 128,
    ensures
        encode_utf8(seq![c]) == seq![c as u8],
{
    is_ascii_chars_encode_utf8(seq![c]);
    assert(encode_utf8(seq![c]) =~= seq![c as u8]);
}

/// An ASCII hexadecimal digit (either case).
pub open spec fn is_hex_byte(b: u8) -> bool {
    (0x30 <= b <= 0x39) || (0x41 <= b <= 0x46) || (0x61 <= b <= 0x66)
}

/// The value of a hexadecimal digit.
pub open spec fn hex_value(b: u8) -> nat {
    if b <= 0x39 {
        (b - 0x30) as nat
    } else if b <= 0x46 {
        (b - 0x37) as nat
    } else {
        (b - 0x57) as nat
    }
}

/// Form decoding of bytes: `+` is a space, `%` with two hexadecimal digits is
/// the byte they give, any other byte is itself.
pub open spec fn percent_decoded(x: Seq<u8>) -> Seq<u8>
    decreases x.len(),
{
    if x.len() == 0 {
        seq![]
    } else if x[0] == 0x2b {
        seq![0x20u8] + percent_decoded(x.drop_first())
    } else if x[0] == 0x25 && x.len() >= 3 && is_hex_byte(x[1]) && is_hex_byte(x[2]) {
        seq![(hex_value(x[1]) * 16 + hex_value(x[2])) as u8] + percent_decoded(x.skip(3))
    } else {
        seq![x[0]] + percent_decoded(x.drop_first())
    }
}

/// A decoded name or value: the decoded bytes read as UTF-8.
pub open spec fn form_component(x: Seq<u8>) -> Seq<char> {
    decode_utf8(percent_decoded(x))
}

/// The bytes of the form encoding of `b`.
pub open spec fn encoded_bytes(b: Seq<u8>) -> Seq<u8> {
    encode_utf8(form_encode_bytes(b))
}

/// Neither `&` nor `=` occurs in `x`.
pub open spec fn has_no_separator(x: Seq<u8>) -> bool {
    forall|i: int| 0 <= i < x.len() ==> #[trigger] x[i] != 0x26 && x[i] != 0x3d
}

proof fn hex_digit_reads_back(d: nat)
    requires
        d < 16,
    ensures
        (hex_upper(d) as u32) < 128,
        is_hex_byte(hex_upper(d) as u8),
        hex_value(hex_upper(d) as u8) == d,
{
}

/// The encoding of one byte, as bytes, decodes to that byte, and holds no
/// `&` or `=`.
proof fn one_byte_reads_back(b: u8, rest: Seq<u8>)
    ensures
        percent_decoded(encode_utf8(form_encode_byte(b)) + rest) == seq![b] + percent_decoded(rest),
        has_no_separator(encode_utf8(form_encode_byte(b))),
        encode_utf8(form_encode_byte(b)).len() > 0,
{
    let e = form_encode_byte(b);
    if form_unreserved(b) {
        encode_ascii_char(b as char);
        let x = seq![b] + rest;
        assert(encode_utf8(e) + rest =~= x);
        assert(x.drop_first() =~= rest);
    } else if b == 0x20 {
        encode_ascii_char('+');
        let x = seq![0x2bu8] + rest;
        assert(encode_utf8(e) + rest =~= x);
        assert(x.drop_first() =~= rest);
    } else {
        let h = hex_upper((b / 16) as nat);
        let l = hex_upper((b % 16) as nat);
        hex_digit_reads_back((b / 16) as nat);
        hex_digit_reads_back((b % 16) as nat);
        encode_ascii_char('%');
        encode_ascii_char(h);
        encode_ascii_char(l);
        encode_utf8_concat(seq!['%'], seq![h, l]);
        encode_utf8_concat(seq![h], seq![l]);
        assert(seq!['%'] + seq![h, l] =~= e);
        assert(seq![h] + seq![l] =~= seq![h, l]);
        let x = seq![0x25u8, h as u8, l as u8] + rest;
        assert(encode_utf8(e) =~= seq![0x25u8, h as u8, l as u8]);
        assert(encode_utf8(e) + rest =~= x);
        assert(x.skip(3) =~= rest);
    }
}

/// Decoding the encoded bytes gives the bytes back, and the encoding holds
/// no `&` or `=`.
proof fn bytes_read_back(b: Seq<u8>)
    ensures
        percent_decoded(encoded_bytes(b)) == b,
        has_no_separator(encoded_bytes(b)),
    decreases b.len(),
{
    if b.len() > 0 {
        bytes_read_back(b.drop_first());
        let head = encode_utf8(form_encode_byte(b[0]));
        let tail = encoded_bytes(b.drop_first());
        encode_utf8_concat(form_encode_byte(b[0]), form_encode_bytes(b.drop_first()));
        assert(encoded_bytes(b) == head + tail);
        one_byte_reads_back(b[0], tail);
        assert(percent_decoded(encoded_bytes(b)) =~= b);
        assert forall|i: int| 0 <= i < encoded_bytes(b).len() implies #[trigger] encoded_bytes(
            b,
        )[i] != 0x26 && encoded_bytes(b)[i] != 0x3d by {
            if i < head.len() {
                assert(encoded_bytes(b)[i] == head[i]);
            } else {
                assert(encoded_bytes(b)[i] == tail[i - head.len()]);
            }
        }
    } else {
        assert(encoded_bytes(b) =~= Seq::<u8>::empty());
    }
}

/// The form encoding of a string, as bytes, decodes to the string and holds
/// no `&` or `=`.
pub proof fn form_encoding_reads_back(s: Seq<char>)
    ensures
        form_component(encode_utf8(form_urlencoded(s))) == s,
        has_no_separator(encode_utf8(form_urlencoded(s))),
{
    bytes_read_back(encode_utf8(s));
    encode_utf8_decode_utf8(s);
}

/// The `&`-separated pieces of a form, the first of which starts with
/// `current`; empty pieces are skipped (`form_urlencoded::parse`).
pub open spec fn form_pieces(current: Seq<u8>, rest: Seq<u8>) -> Seq<Seq<u8>>
    decreases rest.len(),
{
    if rest.len() == 0 {
        if current.len() == 0 {
            seq![]
        } else {
            seq![current]
        }
    } else if rest[0] == 0x26 {
        (if current.len() == 0 {
            seq![]
        } else {
            seq![current]
        }) + form_pieces(seq![], rest.drop_first())
    } else {
        form_pieces(current.push(rest[0]), rest.drop_first())
    }
}

/// The bytes of `x` before its first `c` (all of `x` without one).
pub open spec fn before_byte(x: Seq<u8>, c: u8) -> Seq<u8>
    decreases x.len(),
{
    if x.len() == 0 || x[0] == c {
        seq![]
    } else {
        seq![x[0]] + before_byte(x.drop_first(), c)
    }
}

/// The bytes of `x` after its first `c` (none without one).
pub open spec fn after_byte(x: Seq<u8>, c: u8) -> Seq<u8>
    decreases x.len(),
{
    if x.len() == 0 {
        seq![]
    } else if x[0] == c {
        x.drop_first()
    } else {
        after_byte(x.drop_first(), c)
    }
}

/// A piece read as a name and a value, split at its first `=`.
pub open spec fn form_field(piece: Seq<u8>) -> (Seq<char>, Seq<char>) {
    (form_component(before_byte(piece, 0x3d)), form_component(after_byte(piece, 0x3d)))
}

/// The name and value pairs that `form_urlencoded::parse` reads from bytes;
/// invalid UTF-8 in a decoded part, which it replaces lossily, is left
/// unspecified.
pub open spec fn form_parse(x: Seq<u8>) -> Seq<(Seq<char>, Seq<char>)> {
    form_pieces(seq![], x).map_values(|p: Seq<u8>| form_field(p))
}

proof fn pieces_skip_plain(current: Seq<u8>, a: Seq<u8>, rest: Seq<u8>)
    requires
        forall|i: int| 0 <= i < a.len() ==> #[trigger] a[i] != 0x26,
    ensures
        form_pieces(current, a + rest) == form_pieces(current + a, rest),
    decreases a.len(),
{
    if a.len() > 0 {
        assert((a + rest)[0] == a[0]);
        assert((a + rest).drop_first() =~= a.drop_first() + rest);
        pieces_skip_plain(current.push(a[0]), a.drop_first(), rest);
        assert(current.push(a[0]) + a.drop_first() =~= current + a);
    } else {
        assert(a + rest =~= rest);
        assert(current + a =~= current);
    }
}

proof fn split_at_first(a: Seq<u8>, c: u8, b: Seq<u8>)
    requires
        forall|i: int| 0 <= i < a.len() ==> #[trigger] a[i] != c,
    ensures
        before_byte(a + seq![c] + b, c) == a,
        after_byte(a + seq![c] + b, c) == b,
    decreases a.len(),
{
    let x = a + seq![c] + b;
    if a.len() > 0 {
        assert(x[0] == a[0]);
        assert(x.drop_first() =~= a.drop_first() + seq![c] + b);
        split_at_first(a.drop_first(), c, b);
        assert(before_byte(x, c) =~= a);
    } else {
        assert(x[0] == c);
        assert(x.drop_first() =~= b);
    }
}

/// The bytes of one `name=value` field.
pub open spec fn pair_bytes(name: Seq<char>, value: Seq<char>) -> Seq<u8> {
    encode_utf8(form_pair(name, value))
}

/// A field reads back as its name and value; it is not empty and holds no `&`.
proof fn pair_reads_back(name: Seq<char>, value: Seq<char>)
    ensures
        form_field(pair_bytes(name, value)) == (name, value),
        pair_bytes(name, value).len() > 0,
        forall|i: int| 0 <= i < pair_bytes(name, value).len() ==> #[trigger] pair_bytes(name, value)[i] != 0x26,
{
    let en = encode_utf8(form_urlencoded(name));
    let ev = encode_utf8(form_urlencoded(value));
    form_encoding_reads_back(name);
    form_encoding_reads_back(value);
    encode_ascii_char('=');
    encode_utf8_concat(form_urlencoded(name), seq!['=']);
    encode_utf8_concat(form_urlencoded(name) + seq!['='], form_urlencoded(value));
    let p = pair_bytes(name, value);
    assert(p =~= en + seq![0x3du8] + ev);
    assert forall|i: int| 0 <= i < en.len() implies #[trigger] en[i] != 0x3d by {
        assert(en[i] != 0x26 && en[i] != 0x3d);
    }
    split_at_first(en, 0x3d, ev);
    assert forall|i: int| 0 <= i < p.len() implies #[trigger] p[i] != 0x26 by {
        if i < en.len() {
            assert(p[i] == en[i]);
            assert(en[i] != 0x26 && en[i] != 0x3d);
        } else if i > en.len() {
            assert(p[i] == ev[i - en.len() - 1]);
            assert(ev[i - en.len() - 1] != 0x26 && ev[i - en.len() - 1] != 0x3d);
        }
    }
}

proof fn piece_then_more(p: Seq<u8>, rest: Seq<u8>)
    requires
        p.len() > 0,
        forall|i: int| 0 <= i < p.len() ==> #[trigger] p[i] != 0x26,
    ensures
        form_pieces(seq![], p + seq![0x26u8] + rest) == seq![p] + form_pieces(seq![], rest),
{
    pieces_skip_plain(seq![], p, seq![0x26u8] + rest);
    assert(p + seq![0x26u8] + rest =~= p + (seq![0x26u8] + rest));
    assert(Seq::<u8>::empty() + p =~= p);
    assert((seq![0x26u8] + rest).drop_first() =~= rest);
}

proof fn last_piece(p: Seq<u8>)
    requires
        p.len() > 0,
        forall|i: int| 0 <= i < p.len() ==> #[trigger] p[i] != 0x26,
    ensures
        form_pieces(seq![], p) == seq![p],
{
    pieces_skip_plain(seq![], p, seq![]);
    assert(p + Seq::<u8>::empty() =~= p);
    assert(Seq::<u8>::empty() + p =~= p);
}

/// The form body of a v1 query reads back as exactly its fields: `db`, then
/// `rp` when given, then `q`, each with the value it was built from.
pub proof fn v1_form_reads_back(o: crate::options::QueryOptions, database: Seq<char>)
    ensures
        form_parse(encode_utf8(crate::request::v1_form(o, database))) == seq![("db"@, database)]
            + match o.retention_policy {
            Some(rp) => seq![("rp"@, rp@)],
            None => seq![],
        } + seq![("q"@, o.query@)],
{
    let amp = seq!['&'];
    encode_ascii_char('&');
    let pd = form_pair("db"@, database);
    let pq = form_pair("q"@, o.query@);
    pair_reads_back("db"@, database);
    pair_reads_back("q"@, o.query@);
    let tail = amp + pq;
    encode_utf8_concat(amp, pq);
    last_piece(pair_bytes("q"@, o.query@));
    match o.retention_policy {
        Some(rp) => {
            let pr = form_pair("rp"@, rp@);
            pair_reads_back("rp"@, rp@);
            let form = pd + (amp + pr) + tail;
            assert(crate::request::v1_form(o, database) =~= pd + (amp + pr + tail));
            encode_utf8_concat(amp, pr);
            encode_utf8_concat(amp + pr, tail);
            encode_utf8_concat(pd, amp + pr + tail);
            encode_utf8_concat(pr, tail);
            let bytes = pair_bytes("db"@, database) + seq![0x26u8] + (pair_bytes("rp"@, rp@)
                + seq![0x26u8] + pair_bytes("q"@, o.query@));
            assert(encode_utf8(crate::request::v1_form(o, database)) =~= bytes);
            piece_then_more(pair_bytes("db"@, database), pair_bytes("rp"@, rp@) + seq![0x26u8]
                + pair_bytes("q"@, o.query@));
            piece_then_more(pair_bytes("rp"@, rp@), pair_bytes("q"@, o.query@));
            let pieces = form_pieces(seq![], bytes);
            assert(pieces =~= seq![
                pair_bytes("db"@, database),
                pair_bytes("rp"@, rp@),
                pair_bytes("q"@, o.query@),
            ]);
            assert(form_parse(bytes) =~= seq![("db"@, database), ("rp"@, rp@), ("q"@, o.query@)]);
        },
        None => {
            assert(crate::request::v1_form(o, database) =~= pd + tail);
            encode_utf8_concat(pd, tail);
            let bytes = pair_bytes("db"@, database) + seq![0x26u8] + pair_bytes("q"@, o.query@);
            assert(encode_utf8(crate::request::v1_form(o, database)) =~= bytes);
            piece_then_more(pair_bytes("db"@, database), pair_bytes("q"@, o.query@));
            let pieces = form_pieces(seq![], bytes);
            assert(pieces =~= seq![pair_bytes("db"@, database), pair_bytes("q"@, o.query@)]);
            assert(form_parse(bytes) =~= seq![("db"@, database), ("q"@, o.query@)]);
        },
    }
}

/// The query string of a v2 URL reads back as exactly one field, `org`, with
/// the organisation it was built from.
pub proof fn v2_query_string_reads_back(o: crate::options::QueryOptions, org: Seq<char>)
    ensures
        crate::request::v2_request(o, org).url == crate::request::trimmed_base(o)
            + "/api/v2/query?"@ + form_pair("org"@, org),
        form_parse(encode_utf8(form_pair("org"@, org))) == seq![("org"@, org)],
{
    reveal_strlit("org");
    reveal_strlit("/api/v2/query?");
    reveal_strlit("/api/v2/query?org=");
    let name = "org"@;
    is_ascii_chars_encode_utf8(name);
    assert(encode_utf8(name) =~= seq![0x6fu8, 0x72u8, 0x67u8]);
    let b = encode_utf8(name);
    assert(('g' as u32) == 0x67 && ('r' as u32) == 0x72 && ('o' as u32) == 0x6f);
    assert((0x67u8 as char) == 'g' && (0x72u8 as char) == 'r' && (0x6fu8 as char) == 'o');
    assert(form_encode_bytes(b.skip(2)) =~= seq!['g']) by {
        assert(b.skip(2)[0] == 0x67u8);
        assert(b.skip(2).drop_first() =~= Seq::<u8>::empty());
        assert(form_encode_bytes(Seq::<u8>::empty()) =~= Seq::<char>::empty());
    }
    assert(form_encode_bytes(b.skip(1)) =~= seq!['r', 'g']) by {
        assert(b.skip(1).drop_first() =~= b.skip(2));
    }
    assert(form_encode_bytes(b) =~= seq!['o', 'r', 'g']) by {
        assert(b.drop_first() =~= b.skip(1));
    }
    assert(form_urlencoded(name) =~= name);
    assert(crate::request::v2_request(o, org).url =~= crate::request::trimmed_base(o)
        + "/api/v2/query?"@ + form_pair("org"@, org));
    pair_reads_back(name, org);
    last_piece(pair_bytes(name, org));
    assert(form_parse(encode_utf8(form_pair(name, org))) =~= seq![(name, org)]);
}

/// The character that a JSON escape `\x` stands for, for the escapes other
/// than `\u`.
pub open spec fn json_simple_escape(c: char) -> Option<char> {
    if c == '"' {
        Some('"')
    } else if c == '\\' {
        Some('\\')
    } else if c == '/' {
        Some('/')
    } else if c == 'b' {
        Some('\u{8}')
    } else if c == 'f' {
        Some('\u{c}')
    } else if c == 'n' {
        Some('\n')
    } else if c == 'r' {
        Some('\r')
    } else if c == 't' {
        Some('\t')
    } else {
        None
    }
}

/// The value of a hexadecimal digit character.
pub open spec fn hex_char_value(c: char) -> Option<nat> {
    if '0' <= c <= '9' {
        Some((c as u32 - 48) as nat)
    } else if 'a' <= c <= 'f' {
        Some((c as u32 - 87) as nat)
    } else if 'A' <= c <= 'F' {
        Some((c as u32 - 55) as nat)
    } else {
        None
    }
}

/// `c` in front of what was read, if anything was.
pub open spec fn prepend(c: char, r: Option<(Seq<char>, Seq<char>)>) -> Option<(Seq<char>, Seq<char>)> {
    match r {
        Some((d, t)) => Some((seq![c] + d, t)),
        None => None,
    }
}

/// Reads the inside of a JSON string literal up to its closing quote: the
/// characters it stands for and what follows the quote. A raw control
/// character is refused; `\u` escapes are read when they give a character
/// on their own (surrogate pairs are not read).
pub open spec fn json_string_rest(s: Seq<char>) -> Option<(Seq<char>, Seq<char>)>
    decreases s.len(),
{
    if s.len() == 0 {
        None
    } else if s[0] == '"' {
        Some((seq![], s.drop_first()))
    } else if s[0] == '\\' {
        if s.len() < 2 {
            None
        } else if s[1] == 'u' {
            if s.len() >= 6 && hex_char_value(s[2]) is Some && hex_char_value(s[3]) is Some
                && hex_char_value(s[4]) is Some && hex_char_value(s[5]) is Some {
                let v = hex_char_value(s[2])->Some_0 * 4096 + hex_char_value(s[3])->Some_0 * 256
                    + hex_char_value(s[4])->Some_0 * 16 + hex_char_value(s[5])->Some_0;
                if vstd::utf8::is_scalar(v as u32) {
                    prepend((v as u32) as char, json_string_rest(s.skip(6)))
                } else {
                    None
                }
            } else {
                None
            }
        } else {
            match json_simple_escape(s[1]) {
                Some(c) => prepend(c, json_string_rest(s.skip(2))),
                None => None,
            }
        }
    } else if (s[0] as u32) < 0x20 {
        None
    } else {
        prepend(s[0], json_string_rest(s.drop_first()))
    }
}

/// Reads a JSON string literal at the start of `s`: its value and what follows.
pub open spec fn read_json_string(s: Seq<char>) -> Option<(Seq<char>, Seq<char>)> {
    if s.len() > 0 && s[0] == '"' {
        json_string_rest(s.drop_first())
    } else {
        None
    }
}

/// Reads a JSON object of one string field, written without white space as
/// compact JSON is: its key and its value.
pub open spec fn read_single_field_object(t: Seq<char>) -> Option<(Seq<char>, Seq<char>)> {
    if t.len() > 0 && t[0] == '{' {
        match read_json_string(t.drop_first()) {
            Some((key, r1)) => if r1.len() > 0 && r1[0] == ':' {
                match read_json_string(r1.drop_first()) {
                    Some((value, r2)) => if r2 == seq!['}'] {
                        Some((key, value))
                    } else {
                        None
                    },
                    None => None,
                }
            } else {
                None
            },
            None => None,
        }
    } else {
        None
    }
}

proof fn lower_hex_reads_back(d: nat)
    requires
        d < 16,
    ensures
        hex_char_value(hex_lower(d)) == Some(d),
{
}

/// An escaped string followed by a quote reads back as the string, and what
/// follows the quote is left.
pub proof fn json_escape_reads_back(s: Seq<char>, rest: Seq<char>)
    ensures
        json_string_rest(json_escape(s) + seq!['"'] + rest) == Some((s, rest)),
    decreases s.len(),
{
    let x = json_escape(s) + seq!['"'] + rest;
    if s.len() == 0 {
        assert(x =~= seq!['"'] + rest);
        assert(x.drop_first() =~= rest);
        assert(s =~= Seq::<char>::empty());
    } else {
        let c = s[0];
        let y = json_escape(s.drop_first()) + seq!['"'] + rest;
        json_escape_reads_back(s.drop_first(), rest);
        let e = json_escape_char(c);
        assert(x =~= e + y);
        assert(s =~= seq![c] + s.drop_first());
        if e.len() == 2 {
            assert(x.skip(2) =~= y);
        } else if e.len() == 6 {
            let u = c as u32;
            lower_hex_reads_back((u / 16) as nat);
            lower_hex_reads_back((u % 16) as nat);
            assert(x.skip(6) =~= y);
            assert(x[2] == '0' && x[3] == '0');
            vstd::utf8::char_u32_cast(c, u);
            assert(hex_char_value(x[2])->Some_0 * 4096 + hex_char_value(x[3])->Some_0 * 256
                + hex_char_value(x[4])->Some_0 * 16 + hex_char_value(x[5])->Some_0 == u as nat);
        } else {
            assert(x.drop_first() =~= y);
        }
    }
}

/// The JSON body of a v2 query reads back as an object whose one field,
/// `query`, holds the query.
pub proof fn v2_body_reads_back(o: crate::options::QueryOptions, org: Seq<char>)
    ensures
        crate::request::v2_request(o, org).body == Some(json_single_field_object("query"@, o.query@)),
        read_single_field_object(json_single_field_object("query"@, o.query@)) == Some(
            ("query"@, o.query@),
        ),
{
    let k = "query"@;
    let v = o.query@;
    let t = json_single_field_object(k, v);
    let after_value = seq!['}'];
    let after_key = seq![':'] + json_string(v) + after_value;
    json_escape_reads_back(k, after_key);
    json_escape_reads_back(v, after_value);
    assert(t.drop_first() =~= seq!['"'] + (json_escape(k) + seq!['"'] + after_key));
    assert((seq!['"'] + (json_escape(k) + seq!['"'] + after_key)).drop_first() =~= json_escape(k)
        + seq!['"'] + after_key);
    assert(after_key.drop_first() =~= seq!['"'] + (json_escape(v) + seq!['"'] + after_value));
    assert((seq!['"'] + (json_escape(v) + seq!['"'] + after_value)).drop_first() =~= json_escape(v)
        + seq!['"'] + after_value);
}

} // verus!
