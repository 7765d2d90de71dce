//! The `--debug` report of a request and of a response, with credentials
//! redacted.
use vstd::prelude::*;

use crate::request::{auth_headers, expected_request, BuiltRequest, RequestModel};
use crate::text::{
    collect_chars, decimal, eq_ignore_ascii_case, equal_ignoring_ascii_case, push_char,
    push_decimal, push_str, string_from_chars, trim_end, trim_end_white_space,
};

verus! {

/// The characters of `v` before its first space (all of `v` if it has none).
pub open spec fn before_space(v: Seq<char>) -> Seq<char>
    decreases v.len(),
{
    if v.len() == 0 || v[0] == ' ' {
        seq![]
    } else {
        seq![v[0]] + before_space(v.drop_first())
    }
}

/// An `Authorization` value with its credential hidden: the scheme (what
/// comes before the first space) is kept when a credential follows it.
pub open spec fn redacted(v: Seq<char>) -> Seq<char> {
    if v.contains(' ') {
        before_space(v) + " <redacted>"@
    } else {
        "<redacted>"@
    }
}

proof fn before_space_is_prefix(v: Seq<char>, i: int)
    requires
        0 <= i <= v.len(),
        i == v.len() || v[i] == ' ',
        forall|j: int| 0 <= j < i ==> v[j] != ' ',
    ensures
        before_space(v) == v.take(i),
    decreases i,
{
    if i > 0 {
        before_space_is_prefix(v.drop_first(), i - 1);
        assert(v.take(i) =~= seq![v[0]] + v.drop_first().take(i - 1));
    } else {
        assert(v.take(i) =~= Seq::<char>::empty());
    }
}

/// Hides the credential of an `Authorization` header value.
pub fn redact_auth_header(value: &str) -> (r: String)
    ensures
        r@ == redacted(value@),
{
    let v = collect_chars(value);
    let mut i: usize = 0;
    while i < v.len() && v[i] != ' '
        invariant
            i <= v.len(),
            v@ == value@,
            forall|j: int| 0 <= j < i ==> v@[j] != ' ',
        decreases v.len() - i,
    {
        i = i + 1;
    }
    proof {
        before_space_is_prefix(v@, i as int);
        reveal_strlit(" <redacted>");
        reveal_strlit("<redacted>");
    }
    if i < v.len() {
        let mut r = string_from_chars(&v, 0, i);
        push_str(&mut r, " <redacted>");
        assert(v@.subrange(0, i as int) =~= v@.take(i as int));
        assert(value@.contains(' ')) by {
            assert(value@[i as int] == ' ');
        }
        r
    } else {
        assert(!value@.contains(' '));
        "<redacted>".to_owned()
    }
}

/// Redaction keeps nothing of a value past its first space: the result is
/// `<redacted>` alone, or the scheme before the first space followed by
/// ` <redacted>`.
pub proof fn redaction_keeps_only_the_scheme(v: Seq<char>)
    ensures
        !v.contains(' ') ==> redacted(v) == "<redacted>"@,
        v.contains(' ') ==> exists|k: int|
            0 <= k < v.len() && v[k] == ' ' && (forall|j: int| 0 <= j < k ==> v[j] != ' ')
                && redacted(v) == v.take(k) + " <redacted>"@,
{
    if v.contains(' ') {
        let w = choose|w: int| 0 <= w < v.len() && v[w] == ' ';
        let k = first_space(v, w);
        before_space_is_prefix(v, k);
    }
}

proof fn first_space(v: Seq<char>, w: int) -> (k: int)
    requires
        0 <= w < v.len(),
        v[w] == ' ',
    ensures
        0 <= k <= w,
        v[k] == ' ',
        forall|j: int| 0 <= j < k ==> v[j] != ' ',
    decreases w,
{
    if exists|j: int| 0 <= j < w && v[j] == ' ' {
        let j = choose|j: int| 0 <= j < w && v[j] == ' ';
        first_space(v, j)
    } else {
        w
    }
}

/// How a header value is shown: redacted for `Authorization` (in any case).
pub open spec fn shown_value(name: Seq<char>, value: Seq<char>) -> Seq<char> {
    if equal_ignoring_ascii_case(name, "Authorization"@) {
        redacted(value)
    } else {
        value
    }
}

/// The report lines of the first `k` headers.
pub open spec fn header_lines(headers: Seq<(Seq<char>, Seq<char>)>, k: int) -> Seq<char>
    decreases k,
{
    if k <= 0 {
        seq![]
    } else {
        header_lines(headers, k - 1) + "[debug] header "@ + headers[k - 1].0 + ": "@ + shown_value(
            headers[k - 1].0,
            headers[k - 1].1,
        ) + seq!['\n']
    }
}

/// The report of a request, before trailing white space is trimmed.
pub open spec fn request_report(req: RequestModel) -> Seq<char> {
    "[debug] request "@ + req.method + seq![' '] + req.url + seq!['\n'] + header_lines(
        req.headers,
        req.headers.len() as int,
    ) + match req.body {
        Some(body) => "[debug] body "@ + body + seq!['\n'],
        None => seq![],
    }
}

/// Reports a request line by line: method and URL, each header (credentials
/// redacted), and the body; trailing white space is trimmed.
pub fn format_debug_request(request: &BuiltRequest) -> (r: String)
    ensures
        r@ == trim_end(request_report(request@)),
{
    let ghost model = request@;
    let mut out = String::new();
    push_str(&mut out, "[debug] request ");
    push_str(&mut out, request.method);
    push_char(&mut out, ' ');
    push_str(&mut out, request.url.as_str());
    push_char(&mut out, '\n');
    let ghost head = out@;
    let mut i: usize = 0;
    while i < request.headers.len()
        invariant
            i <= request.headers.len(),
            model == request@,
            out@ == head + header_lines(model.headers, i as int),
        decreases request.headers.len() - i,
    {
        let name = request.headers[i].0.as_str();
        let value = request.headers[i].1.as_str();
        assert(model.headers[i as int] == (name@, value@));
        push_str(&mut out, "[debug] header ");
        push_str(&mut out, name);
        push_str(&mut out, ": ");
        if eq_ignore_ascii_case(name, "Authorization") {
            let hidden = redact_auth_header(value);
            push_str(&mut out, hidden.as_str());
        } else {
            push_str(&mut out, value);
        }
        push_char(&mut out, '\n');
        assert(out@ =~= head + header_lines(model.headers, i + 1));
        i = i + 1;
    }
    let ghost with_headers = out@;
    match &request.body {
        Some(body) => {
            push_str(&mut out, "[debug] body ");
            push_str(&mut out, body.as_str());
            push_char(&mut out, '\n');
        },
        None => {},
    }
    assert(out@ =~= request_report(model));
    trim_end_white_space(out.as_str())
}

/// The report of a response: its status and its body.
pub open spec fn response_report(status: u16, body: Seq<char>) -> Seq<char> {
    "[debug] response status "@ + decimal(status as nat) + "\n[debug] response body "@ + body
}

/// Reports a response's status and body.
pub fn format_debug_response(status: u16, body: &str) -> (r: String)
    ensures
        r@ == response_report(status, body@),
{
    let mut out = String::new();
    push_str(&mut out, "[debug] response status ");
    push_decimal(&mut out, status as u64);
    push_str(&mut out, "\n[debug] response body ");
    push_str(&mut out, body);
    assert(out@ =~= response_report(status, body@));
    out
}

/// The debug report of a request built from any options shows no credential:
/// every header it shows as `Authorization` is shown as `Token <redacted>` or
/// `Basic <redacted>`.
pub proof fn built_requests_show_no_credentials(o: crate::options::QueryOptions)
    ensures
        expected_request(o) matches Ok(m) ==> forall|i: int|
            0 <= i < m.headers.len() && equal_ignoring_ascii_case(
                #[trigger] m.headers[i].0,
                "Authorization"@,
            ) ==> shown_value(m.headers[i].0, m.headers[i].1) == "Token <redacted>"@
                || shown_value(m.headers[i].0, m.headers[i].1) == "Basic <redacted>"@,
{
    reveal_strlit("Authorization");
    reveal_strlit("Content-Type");
    reveal_strlit("Accept");
    reveal_strlit("Token ");
    reveal_strlit("Basic ");
    reveal_strlit("Token");
    reveal_strlit("Basic");
    reveal_strlit(" <redacted>");
    reveal_strlit("Token <redacted>");
    reveal_strlit("Basic <redacted>");
    let auth = auth_headers(o);
    assert forall|i: int| 0 <= i < auth.len() implies shown_value(auth[i].0, auth[i].1)
        == "Token <redacted>"@ || shown_value(auth[i].0, auth[i].1) == "Basic <redacted>"@ by {
        let v = auth[i].1;
        let scheme = if o.token is Some { "Token"@ } else { "Basic"@ };
        assert(v.take(5) =~= scheme);
        assert(v[5] == ' ');
        assert(v.contains(' '));
        before_space_is_prefix(v, 5);
        assert(redacted(v) =~= scheme + " <redacted>"@);
        assert(equal_ignoring_ascii_case(auth[i].0, "Authorization"@));
    }
    if let Ok(m) = expected_request(o) {
        assert forall|i: int|
            0 <= i < m.headers.len() && equal_ignoring_ascii_case(
                #[trigger] m.headers[i].0,
                "Authorization"@,
            ) implies shown_value(m.headers[i].0, m.headers[i].1) == "Token <redacted>"@
            || shown_value(m.headers[i].0, m.headers[i].1) == "Basic <redacted>"@ by {
            let fixed = m.headers.len() - auth.len();
            if i < fixed {
                assert(m.headers[i].0.len() != "Authorization"@.len());
            } else {
                assert(m.headers[i] == auth[i - fixed]);
            }
        }
    }
}

/// The debug report of a response starts with its status line and always ends
/// with the whole body, whatever the status.
pub proof fn response_report_ends_with_body(status: u16, body: Seq<char>)
    ensures
        ({
            let r = response_report(status, body);
            let head = "[debug] response status "@ + decimal(status as nat) + seq!['\n'];
            &&& r.len() >= head.len() + body.len()
            &&& r.take(head.len() as int) == head
            &&& r.skip(r.len() - body.len()) == body
        }),
{
    reveal_strlit("\n[debug] response body ");
    let r = response_report(status, body);
    let head = "[debug] response status "@ + decimal(status as nat) + seq!['\n'];
    let tail = "\n[debug] response body "@;
    assert(tail[0] == '\n');
    assert(r =~= "[debug] response status "@ + decimal(status as nat) + tail + body);
    assert(r.take(head.len() as int) =~= head);
    assert(r.skip(r.len() - body.len()) =~= body);
}

} // verus!
