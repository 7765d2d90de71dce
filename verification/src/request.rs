//! Building the HTTP request for a query, and judging the answer's status.
use vstd::prelude::*;
use vstd::utf8::encode_utf8;

use crate::encode::{
    append_pair, base64_encode, base64_standard, form_pair, form_urlencoded, json_object_text,
    json_single_field_object, percent_encode,
};
use crate::options::{ApiVersion, OutputFormat, QueryError, QueryOptions};
use crate::text::{push_char, push_str, strip_trailing, trim_end_char};

verus! {

/// An HTTP request, ready to be sent.
#[derive(Debug, Clone, PartialEq, Eq)]
pub struct BuiltRequest {
    pub method: &'static str,
    pub url: String,
    pub headers: Vec<(String, String)>,
    pub body: Option<String>,
}

/// A request as characters: method, URL, headers in order, and body.
pub struct RequestModel {
    pub method: Seq<char>,
    pub url: Seq<char>,
    pub headers: Seq<(Seq<char>, Seq<char>)>,
    pub body: Option<Seq<char>>,
}

/// Header pairs as characters.
pub open spec fn headers_view(headers: Seq<(String, String)>) -> Seq<(Seq<char>, Seq<char>)> {
    headers.map_values(|h: (String, String)| (h.0@, h.1@))
}

/// An optional string as characters.
pub open spec fn option_view(o: Option<String>) -> Option<Seq<char>> {
    match o {
        Some(s) => Some(s@),
        None => None,
    }
}

impl View for BuiltRequest {
    type V = RequestModel;

    open spec fn view(&self) -> RequestModel {
        RequestModel {
            method: self.method@,
            url: self.url@,
            headers: headers_view(self.headers@),
            body: option_view(self.body),
        }
    }
}

/// The base URL without its trailing slashes.
pub open spec fn trimmed_base(o: QueryOptions) -> Seq<char> {
    strip_trailing(o.base_url@, '/')
}

/// The `Authorization` header a query carries: a token wins; else a user
/// name with a password gives basic authentication; else there is none.
pub open spec fn auth_headers(o: QueryOptions) -> Seq<(Seq<char>, Seq<char>)> {
    match o.token {
        Some(token) => seq![("Authorization"@, "Token "@ + token@)],
        None => match (o.username, o.password) {
            (Some(user), Some(password)) => seq![
                (
                    "Authorization"@,
                    "Basic "@ + base64_encode(encode_utf8(user@ + seq![':'] + password@)),
                ),
            ],
            _ => seq![],
        },
    }
}

/// The form body of a v1 query: `db`, then `rp` when given, then `q`.
pub open spec fn v1_form(o: QueryOptions, database: Seq<char>) -> Seq<char> {
    form_pair("db"@, database) + match o.retention_policy {
        Some(rp) => seq!['&'] + form_pair("rp"@, rp@),
        None => seq![],
    } + seq!['&'] + form_pair("q"@, o.query@)
}

/// A v1 query: a form posted to `/query`.
pub open spec fn v1_request(o: QueryOptions, database: Seq<char>) -> RequestModel {
    RequestModel {
        method: "POST"@,
        url: trimmed_base(o) + "/query"@,
        headers: seq![("Content-Type"@, "application/x-www-form-urlencoded"@)] + auth_headers(o),
        body: Some(v1_form(o, database)),
    }
}

/// The media type a v2 query accepts: JSON for JSON output, CSV otherwise.
pub open spec fn accept_for(output: OutputFormat) -> Seq<char> {
    match output {
        OutputFormat::Json => "application/json"@,
        _ => "application/csv"@,
    }
}

/// A v2 query: Flux as JSON posted to `/api/v2/query` with the organisation
/// in the query string.
pub open spec fn v2_request(o: QueryOptions, org: Seq<char>) -> RequestModel {
    RequestModel {
        method: "POST"@,
        url: trimmed_base(o) + "/api/v2/query?org="@ + form_urlencoded(org),
        headers: seq![
            ("Content-Type"@, "application/json"@),
            ("Accept"@, accept_for(o.output)),
        ] + auth_headers(o),
        body: Some(json_single_field_object("query"@, o.query@)),
    }
}

/// The request that a query's options call for, or why there is none.
pub open spec fn expected_request(o: QueryOptions) -> Result<RequestModel, QueryError> {
    match o.api_version {
        ApiVersion::V1 => match o.database {
            Some(db) => Ok(v1_request(o, db@)),
            None => Err(QueryError::MissingDatabase),
        },
        ApiVersion::V2 => match o.org {
            Some(org) => Ok(v2_request(o, org@)),
            None => Err(QueryError::MissingOrg),
        },
    }
}

/// A request result with the request as characters.
pub open spec fn request_result_view(r: Result<BuiltRequest, QueryError>) -> Result<
    RequestModel,
    QueryError,
> {
    match r {
        Ok(req) => Ok(req@),
        Err(e) => Err(e),
    }
}

/// A string holding the characters of `s`.
fn owned(s: &str) -> (r: String)
    ensures
        r@ == s@,
{
    s.to_owned()
}

/// A string holding `a` then `b`.
fn concat(a: &str, b: &str) -> (r: String)
    ensures
        r@ == a@ + b@,
{
    let mut r = owned(a);
    push_str(&mut r, b);
    r
}

/// Builds the request for a query: v1 posts a form to `/query`, v2 posts
/// JSON to `/api/v2/query`.
pub fn build_request(options: &QueryOptions) -> (r: Result<BuiltRequest, QueryError>)
    ensures
        request_result_view(r) == expected_request(*options),
{
    match options.api_version {
        ApiVersion::V1 => build_v1_request(options),
        ApiVersion::V2 => build_v2_request(options),
    }
}

/// The v1 request: the form names the database, the retention policy if
/// any, and the query.
fn build_v1_request(options: &QueryOptions) -> (r: Result<BuiltRequest, QueryError>)
    ensures
        match options.database {
            Some(db) => request_result_view(r) == Ok::<RequestModel, QueryError>(
                v1_request(*options, db@),
            ),
            None => r == Err::<BuiltRequest, QueryError>(QueryError::MissingDatabase),
        },
{
    let database = match &options.database {
        Some(db) => db,
        None => {
            return Err(QueryError::MissingDatabase);
        },
    };
    let mut form = String::new();
    append_pair(&mut form, "db", database.as_str());
    let ghost after_db = form@;
    proof {
        reveal_strlit("=");
        assert(form_pair("db"@, database@).len() > 0) by {
            assert(form_pair("db"@, database@)[form_urlencoded("db"@).len() as int] == '=');
        }
    }
    match &options.retention_policy {
        Some(rp) => append_pair(&mut form, "rp", rp.as_str()),
        None => {},
    }
    let ghost after_rp = form@;
    append_pair(&mut form, "q", options.query.as_str());
    proof {
        assert(after_rp.len() >= after_db.len());
        assert(form@ =~= v1_form(*options, database@));
    }
    let mut headers: Vec<(String, String)> = Vec::new();
    headers.push((owned("Content-Type"), owned("application/x-www-form-urlencoded")));
    let ghost first = headers@;
    maybe_push_auth_headers(options, &mut headers)?;
    let base = trim_base_url(options.base_url.as_str());
    let url = concat(base.as_str(), "/query");
    let request = BuiltRequest { method: "POST", url, headers, body: Some(form) };
    proof {
        assert(headers_view(first) =~= seq![
            ("Content-Type"@, "application/x-www-form-urlencoded"@),
        ]);
        assert(request@.headers =~= v1_request(*options, database@).headers);
    }
    Ok(request)
}

/// The v2 request: the organisation goes in the URL, the query in a JSON body.
fn build_v2_request(options: &QueryOptions) -> (r: Result<BuiltRequest, QueryError>)
    ensures
        match options.org {
            Some(org) => request_result_view(r) == Ok::<RequestModel, QueryError>(
                v2_request(*options, org@),
            ),
            None => r == Err::<BuiltRequest, QueryError>(QueryError::MissingOrg),
        },
{
    let org = match &options.org {
        Some(org) => org,
        None => {
            return Err(QueryError::MissingOrg);
        },
    };
    let accept = match options.output {
        OutputFormat::Json => owned("application/json"),
        _ => owned("application/csv"),
    };
    let mut headers: Vec<(String, String)> = Vec::new();
    headers.push((owned("Content-Type"), owned("application/json")));
    headers.push((owned("Accept"), accept));
    let ghost first = headers@;
    maybe_push_auth_headers(options, &mut headers)?;
    let base = trim_base_url(options.base_url.as_str());
    let mut url = concat(base.as_str(), "/api/v2/query?org=");
    let encoded_org = percent_encode(org.as_str());
    push_str(&mut url, encoded_org.as_str());
    let body = json_object_text("query", options.query.as_str());
    let request = BuiltRequest { method: "POST", url, headers, body: Some(body) };
    proof {
        assert(headers_view(first) =~= seq![
            ("Content-Type"@, "application/json"@),
            ("Accept"@, accept_for(options.output)),
        ]);
        assert(request@.headers =~= v2_request(*options, org@).headers);
    }
    Ok(request)
}

/// Adds the `Authorization` header that the options call for, if any.
fn maybe_push_auth_headers(options: &QueryOptions, headers: &mut Vec<(String, String)>) -> (r:
    Result<(), QueryError>)
    ensures
        r is Ok,
        headers_view(final(headers)@) == headers_view(old(headers)@) + auth_headers(*options),
{
    match &options.token {
        Some(token) => {
            let value = concat("Token ", token.as_str());
            headers.push((owned("Authorization"), value));
            assert(headers_view(headers@) =~= headers_view(old(headers)@) + auth_headers(
                *options,
            ));
            return Ok(());
        },
        None => {},
    }
    match (&options.username, &options.password) {
        (Some(username), Some(password)) => {
            let mut credentials = owned(username.as_str());
            push_char(&mut credentials, ':');
            push_str(&mut credentials, password.as_str());
            assert(credentials@ =~= username@ + seq![':'] + password@);
            let encoded = base64_standard(credentials.as_str());
            let value = concat("Basic ", encoded.as_str());
            headers.push((owned("Authorization"), value));
            assert(headers_view(headers@) =~= headers_view(old(headers)@) + auth_headers(
                *options,
            ));
        },
        _ => {
            assert(headers_view(headers@) =~= headers_view(old(headers)@) + auth_headers(
                *options,
            ));
        },
    }
    Ok(())
}

/// The base URL without trailing slashes (`trim_end_matches('/')`).
pub fn trim_base_url(base_url: &str) -> (r: String)
    ensures
        r@ == strip_trailing(base_url@, '/'),
{
    trim_end_char(base_url, '/')
}

/// What a successful HTTP status is: one in `200..=299`.
pub open spec fn is_success(status: u16) -> bool {
    200 <= status <= 299
}

/// Judges an answer by its status: a success hands the body on, anything
/// else is an error that carries the status and the body.
pub fn check_status(status: u16, body: String) -> (r: Result<String, QueryError>)
    ensures
        is_success(status) ==> r == Ok::<String, QueryError>(body),
        !is_success(status) ==> r == Err::<String, QueryError>(QueryError::Status { status, body }),
{
    if 200 <= status && status <= 299 {
        Ok(body)
    } else {
        Err(QueryError::Status { status, body })
    }
}

/// Trailing slashes of a base URL do not matter: the URL that is built from
/// `s` followed by any number of slashes is the one built from `s`, and it
/// never ends in a slash.
pub proof fn base_url_slashes_do_not_matter(s: Seq<char>, n: nat)
    ensures
        strip_trailing(s + crate::text::repeat_char('/', n), '/') == strip_trailing(s, '/'),
        strip_trailing(s, '/').len() == 0 || strip_trailing(s, '/').last() != '/',
    decreases n,
{
    no_trailing_slash(s);
    if n > 0 {
        let longer = s + crate::text::repeat_char('/', n);
        assert(longer.drop_last() =~= s + crate::text::repeat_char('/', (n - 1) as nat));
        base_url_slashes_do_not_matter(s, (n - 1) as nat);
    } else {
        assert(s + crate::text::repeat_char('/', n) =~= s);
    }
}

proof fn no_trailing_slash(s: Seq<char>)
    ensures
        strip_trailing(s, '/').len() == 0 || strip_trailing(s, '/').last() != '/',
    decreases s.len(),
{
    if s.len() > 0 && s.last() == '/' {
        no_trailing_slash(s.drop_last());
    }
}

/// A v2 request declares a JSON body and asks the server for CSV, unless the
/// answer is to be printed as JSON, when it asks for JSON; at most the
/// `Authorization` header follows.
pub proof fn v2_headers_ask_for_csv_unless_json(o: QueryOptions)
    requires
        o.api_version == ApiVersion::V2,
        o.org is Some,
    ensures
        expected_request(o) matches Ok(m) && m.headers.len() >= 2 && m.headers.len() <= 3
            && m.headers[0] == ("Content-Type"@, "application/json"@) && m.headers[1] == (
            "Accept"@,
            if o.output == OutputFormat::Json {
                "application/json"@
            } else {
                "application/csv"@
            },
        ),
        o.output != OutputFormat::Json ==> (expected_request(o) matches Ok(m) && m.headers[1].1
            == "application/csv"@),
{
}

/// Success is exactly a status in `200..=299`: every informational,
/// redirection, client-error and server-error status is a failure.
pub proof fn success_is_exactly_2xx(status: u16)
    ensures
        is_success(status) <==> 200 <= status && status <= 299,
        status < 200 ==> !is_success(status),
        status >= 300 ==> !is_success(status),
{
}

/// Authentication: a token gives the one `Authorization` header `Token <token>`
/// and wins over a user name and password; without a token, a user name with
/// a password gives one `Basic` header; otherwise there is none. Either way
/// it is the last header.
pub proof fn authorization_follows_the_credentials(o: QueryOptions)
    ensures
        expected_request(o) matches Ok(m) ==> {
            let n = m.headers.len();
            &&& (o.token matches Some(t) ==> n >= 1 && m.headers[n - 1] == (
                "Authorization"@,
                "Token "@ + t@,
            ))
            &&& (o.token is None && o.username is Some && o.password is Some) ==> n >= 1
                && m.headers[n - 1].0 == "Authorization"@ && m.headers[n - 1].1.take(6) == "Basic "@
            &&& (o.token is None && (o.username is None || o.password is None)) ==> forall|i: int|
                0 <= i < n ==> m.headers[i].0 != "Authorization"@
        },
{
    reveal_strlit("Basic ");
    reveal_strlit("Authorization");
    reveal_strlit("Content-Type");
    reveal_strlit("Accept");
    if let Ok(m) = expected_request(o) {
        let n = m.headers.len();
        if o.token is None && o.username is Some && o.password is Some {
            let v = m.headers[n - 1].1;
            assert(v.take(6) =~= "Basic "@);
        }
        if o.token is None && (o.username is None || o.password is None) {
            assert forall|i: int| 0 <= i < n implies m.headers[i].0 != "Authorization"@ by {
                assert(m.headers[i].0.len() != "Authorization"@.len());
            }
        }
    }
}

/// Every request is a POST to the base URL, stripped of its trailing slashes,
/// followed by the API's path: `/query` for v1, `/api/v2/query?` and the
/// organisation for v2; the base URL is that prefix with only slashes after it.
pub proof fn requests_post_to_the_api_path(o: QueryOptions)
    ensures
        expected_request(o) matches Ok(m) ==> {
            &&& m.method == "POST"@
            &&& o.api_version == ApiVersion::V1 ==> m.url == strip_trailing(o.base_url@, '/')
                + "/query"@
            &&& o.api_version == ApiVersion::V2 ==> m.url.take(
                (strip_trailing(o.base_url@, '/') + "/api/v2/query?"@).len() as int,
            ) == strip_trailing(o.base_url@, '/') + "/api/v2/query?"@
        },
        exists|k: nat| strip_trailing(o.base_url@, '/') + crate::text::repeat_char('/', k)
            == o.base_url@,
{
    if let Ok(m) = expected_request(o) {
        if o.api_version == ApiVersion::V2 {
            let org = o.org->Some_0@;
            crate::decode::v2_query_string_reads_back(o, org);
            let p = strip_trailing(o.base_url@, '/') + "/api/v2/query?"@;
            assert(m.url.take(p.len() as int) =~= p);
        }
    }
    let k = stripped_slashes(o.base_url@);
    assert(strip_trailing(o.base_url@, '/') + crate::text::repeat_char('/', k) == o.base_url@);
}

proof fn stripped_slashes(s: Seq<char>) -> (k: nat)
    ensures
        strip_trailing(s, '/') + crate::text::repeat_char('/', k) == s,
    decreases s.len(),
{
    if s.len() > 0 && s.last() == '/' {
        let k = stripped_slashes(s.drop_last());
        assert(strip_trailing(s, '/') == strip_trailing(s.drop_last(), '/'));
        assert(crate::text::repeat_char('/', k + 1) =~= crate::text::repeat_char('/', k).push('/'));
        assert(s =~= s.drop_last().push('/'));
        assert(strip_trailing(s, '/') + crate::text::repeat_char('/', k + 1) =~= (strip_trailing(
            s.drop_last(),
            '/',
        ) + crate::text::repeat_char('/', k)).push('/'));
        k + 1
    } else {
        assert(strip_trailing(s, '/') + crate::text::repeat_char('/', 0) =~= s);
        0
    }
}

} // verus!
