use influx_query::{
    build_request, check_status, drop_comment_lines, check_target, format_debug_request, format_debug_response,
    format_records, format_response, format_v1_response, format_v2_response,
    json_value_to_string, no_rows_message, percent_encode, redact_auth_header, render_table,
    trim_base_url, ApiVersion, BuiltRequest, CsvStage, JsonCell, OutputFormat, QueryError,
    QueryOptions, V1Response, V1Result, V1Series,
};

fn options(api_version: ApiVersion, output: OutputFormat) -> QueryOptions {
    QueryOptions {
        api_version,
        base_url: "http://localhost:8086".to_string(),
        query: "select 1".to_string(),
        database: None,
        retention_policy: None,
        org: None,
        token: None,
        username: None,
        password: None,
        output,
        debug: false,
    }
}

fn strings(items: &[&str]) -> Vec<String> {
    items.iter().map(|s| s.to_string()).collect()
}

fn header_pairs(request: &BuiltRequest) -> Vec<(&str, &str)> {
    request.headers.iter().map(|(n, v)| (n.as_str(), v.as_str())).collect()
}

#[test]
fn v1_request_is_exact() {
    let mut o = options(ApiVersion::V1, OutputFormat::Table);
    o.base_url = "http://localhost:8086/".to_string();
    o.query = "select * from cpu".to_string();
    o.database = Some("metrics".to_string());
    o.retention_policy = Some("autogen".to_string());
    o.username = Some("alice".to_string());
    o.password = Some("secret".to_string());
    let request = build_request(&o).expect("v1 request");
    assert_eq!(request.method, "POST");
    assert_eq!(request.url, "http://localhost:8086/query");
    assert_eq!(request.body.as_deref(), Some("db=metrics&rp=autogen&q=select+*+from+cpu"));
    assert_eq!(
        header_pairs(&request),
        vec![
            ("Content-Type", "application/x-www-form-urlencoded"),
            ("Authorization", "Basic YWxpY2U6c2VjcmV0"),
        ]
    );
}

#[test]
fn v1_request_without_retention_policy_or_credentials() {
    let mut o = options(ApiVersion::V1, OutputFormat::Table);
    o.database = Some("my db".to_string());
    o.username = Some("alice".to_string());
    let request = build_request(&o).expect("v1 request");
    assert_eq!(request.body.as_deref(), Some("db=my+db&q=select+1"));
    assert_eq!(
        header_pairs(&request),
        vec![("Content-Type", "application/x-www-form-urlencoded")]
    );
}

#[test]
fn basic_auth_encodes_utf8_credentials() {
    let mut o = options(ApiVersion::V1, OutputFormat::Table);
    o.database = Some("d".to_string());
    o.username = Some("é".to_string());
    o.password = Some("ü".to_string());
    let request = build_request(&o).expect("v1 request");
    assert_eq!(request.headers[1].1, "Basic w6k6w7w=");
}

#[test]
fn token_wins_over_basic_auth() {
    let mut o = options(ApiVersion::V1, OutputFormat::Table);
    o.database = Some("d".to_string());
    o.token = Some("t".to_string());
    o.username = Some("alice".to_string());
    o.password = Some("secret".to_string());
    let request = build_request(&o).expect("v1 request");
    let auth: Vec<_> = request.headers.iter().filter(|(n, _)| n == "Authorization").collect();
    assert_eq!(auth.len(), 1);
    assert_eq!(auth[0].1, "Token t");
}

#[test]
fn missing_database_and_org_are_refused() {
    assert_eq!(
        build_request(&options(ApiVersion::V1, OutputFormat::Table)),
        Err(QueryError::MissingDatabase)
    );
    assert_eq!(
        build_request(&options(ApiVersion::V2, OutputFormat::Table)),
        Err(QueryError::MissingOrg)
    );
    assert_eq!(check_target(ApiVersion::V1, &None, &Some("o".to_string())), Err(QueryError::MissingDatabase));
    assert_eq!(check_target(ApiVersion::V2, &Some("d".to_string()), &None), Err(QueryError::MissingOrg));
    assert_eq!(check_target(ApiVersion::V1, &Some("d".to_string()), &None), Ok(()));
    assert_eq!(check_target(ApiVersion::V2, &None, &Some("o".to_string())), Ok(()));
}

#[test]
fn v2_request_is_exact() {
    let mut o = options(ApiVersion::V2, OutputFormat::Json);
    o.base_url = "https://h//".to_string();
    o.org = Some("a b&c".to_string());
    o.query = "a\"b\\c\nd\u{1}/é".to_string();
    let request = build_request(&o).expect("v2 request");
    assert_eq!(request.url, "https://h/api/v2/query?org=a+b%26c");
    assert_eq!(
        header_pairs(&request),
        vec![("Content-Type", "application/json"), ("Accept", "application/json")]
    );
    assert_eq!(
        request.body.as_deref(),
        Some("{\"query\":\"a\\\"b\\\\c\\nd\\u0001/é\"}")
    );
}

#[test]
fn base_url_slashes_do_not_matter() {
    let mut a = options(ApiVersion::V2, OutputFormat::Csv);
    a.org = Some("o".to_string());
    let mut b = a.clone();
    b.base_url = "http://localhost:8086///".to_string();
    assert_eq!(build_request(&a).unwrap().url, build_request(&b).unwrap().url);
    assert_eq!(trim_base_url("http://h///"), "http://h");
    assert_eq!(trim_base_url("///"), "");
    assert_eq!(trim_base_url("http://h/x"), "http://h/x");
}

#[test]
fn percent_encoding_hides_delimiters() {
    assert_eq!(percent_encode("a b&c=d/é"), "a+b%26c%3Dd%2F%C3%A9");
    assert_eq!(percent_encode("A-z_0.9*"), "A-z_0.9*");
    assert_eq!(percent_encode(""), "");
}

#[test]
fn table_pads_by_characters_to_byte_widths() {
    assert_eq!(render_table(&strings(&["é"]), &[strings(&["a"])]), "é \n--\na ");
    assert_eq!(render_table(&strings(&["a"]), &[strings(&["b", "cc"])]), "a\n-\nb cc");
    assert_eq!(render_table(&strings(&["aa", "b"]), &[strings(&["x"])]), "aa b\n-- -\nx ");
    assert_eq!(render_table(&[], &[]), "\n");
}

#[test]
fn ascii_table_lines_have_equal_length() {
    let rendered = render_table(
        &strings(&["host", "v"]),
        &[strings(&["a", "1000"]), strings(&["server-01", "2"])],
    );
    let lengths: Vec<usize> = rendered.split('\n').map(|l| l.len()).collect();
    assert_eq!(lengths, vec![14, 14, 14, 14]);
}

#[test]
fn debug_request_is_exact_and_redacted() {
    let rendered = format_debug_request(&BuiltRequest {
        method: "POST",
        url: "http://h/query".to_string(),
        headers: vec![
            ("authorization".to_string(), "Token abc".to_string()),
            ("AUTHORIZATION".to_string(), "secret".to_string()),
            ("Accept".to_string(), "application/csv ".to_string()),
        ],
        body: None,
    });
    assert_eq!(
        rendered,
        "[debug] request POST http://h/query\n[debug] header authorization: Token <redacted>\n[debug] header AUTHORIZATION: <redacted>\n[debug] header Accept: application/csv"
    );
}

#[test]
fn redaction_keeps_only_the_scheme() {
    assert_eq!(redact_auth_header("Basic abc def"), "Basic <redacted>");
    assert_eq!(redact_auth_header(" x"), " <redacted>");
    assert_eq!(redact_auth_header(""), "<redacted>");
    assert_eq!(redact_auth_header("abc"), "<redacted>");
}

#[test]
fn debug_response_is_exact() {
    assert_eq!(
        format_debug_response(404, "nope"),
        "[debug] response status 404\n[debug] response body nope"
    );
    assert_eq!(format_debug_response(0, ""), "[debug] response status 0\n[debug] response body ");
}

#[test]
fn status_decides_success() {
    assert_eq!(check_status(200, "a".to_string()), Ok("a".to_string()));
    assert_eq!(check_status(299, "b".to_string()), Ok("b".to_string()));
    assert_eq!(
        check_status(199, "c".to_string()),
        Err(QueryError::Status { status: 199, body: "c".to_string() })
    );
    assert_eq!(
        check_status(300, "d".to_string()),
        Err(QueryError::Status { status: 300, body: "d".to_string() })
    );
}

#[test]
fn no_rows_messages() {
    assert_eq!(no_rows_message(OutputFormat::Json), "[]");
    assert_eq!(no_rows_message(OutputFormat::Csv), "");
    assert_eq!(no_rows_message(OutputFormat::Table), "(no rows)");
    assert_eq!(no_rows_message(OutputFormat::Raw), "(no rows)");
}

#[test]
fn json_cells_as_text() {
    assert_eq!(json_value_to_string(&JsonCell::Null), "");
    assert_eq!(json_value_to_string(&JsonCell::Str("x y".to_string())), "x y");
    assert_eq!(json_value_to_string(&JsonCell::Other("1.5".to_string())), "1.5");
}

fn sample_v1() -> V1Response {
    V1Response {
        results: Some(vec![
            V1Result { series: None },
            V1Result {
                series: Some(vec![V1Series {
                    columns: strings(&["time", "value"]),
                    values: Some(vec![
                        vec![JsonCell::Other("1".to_string()), JsonCell::Null],
                        vec![JsonCell::Str("a".to_string()), JsonCell::Other("true".to_string())],
                    ]),
                }]),
            },
            V1Result {
                series: Some(vec![
                    V1Series { columns: strings(&["other"]), values: None },
                    V1Series {
                        columns: strings(&["x"]),
                        values: Some(vec![vec![
                            JsonCell::Str("z".to_string()),
                            JsonCell::Str("y".to_string()),
                        ]]),
                    },
                ]),
            },
        ]),
    }
}

#[test]
fn v1_rows_of_all_series_under_the_first_columns() {
    assert_eq!(
        format_v1_response(OutputFormat::Table, &sample_v1()).unwrap(),
        "time value\n---- -----\n1         \na    true \nz    y    "
    );
    assert_eq!(
        format_v1_response(OutputFormat::Csv, &sample_v1()).unwrap(),
        "time,value\n1,\na,true\nz,y\n"
    );
    assert_eq!(format_v1_response(OutputFormat::Raw, &sample_v1()).unwrap(), "");
}

#[test]
fn v1_without_series_prints_no_rows() {
    let none = V1Response { results: None };
    let empty = V1Response { results: Some(vec![V1Result { series: Some(vec![]) }]) };
    assert_eq!(format_v1_response(OutputFormat::Table, &none).unwrap(), "(no rows)");
    assert_eq!(format_v1_response(OutputFormat::Json, &empty).unwrap(), "[]");
    assert_eq!(format_v1_response(OutputFormat::Csv, &empty).unwrap(), "");
}

#[test]
fn json_records_sorted_deduplicated_and_zipped() {
    assert_eq!(
        format_records(OutputFormat::Json, &strings(&["z", "a"]), &[strings(&["1", "2"])]).unwrap(),
        "[\n  {\n    \"a\": \"2\",\n    \"z\": \"1\"\n  }\n]"
    );
    assert_eq!(
        format_records(OutputFormat::Json, &strings(&["a", "a", "b"]), &[strings(&["1", "2"])]).unwrap(),
        "[\n  {\n    \"a\": \"2\"\n  }\n]"
    );
    assert_eq!(format_records(OutputFormat::Json, &strings(&["a"]), &[]).unwrap(), "[]");
}

#[test]
fn csv_records_quote_and_check_lengths() {
    assert_eq!(
        format_records(OutputFormat::Csv, &strings(&["name", "value"]), &[strings(&["cpu0", "4,2"])]).unwrap(),
        "name,value\ncpu0,\"4,2\"\n"
    );
    match format_records(OutputFormat::Csv, &strings(&["a", "b"]), &[strings(&["1"])]) {
        Err(QueryError::Csv(CsvStage::WriteRow, _)) => {}
        other => panic!("expected a row error, got {:?}", other),
    }
    assert_eq!(format_records(OutputFormat::Raw, &strings(&["a"]), &[strings(&["1"])]).unwrap(), "");
}

#[test]
fn v2_drops_comments_and_reads_csv() {
    let body = "#datatype,string\n,result,table,_value\r\n,_result,0,42\n\n";
    assert_eq!(
        format_v2_response(OutputFormat::Table, body).unwrap(),
        " result  table _value\n ------- ----- ------\n _result 0     42    "
    );
}

#[test]
fn v2_blank_answers_print_no_rows() {
    assert_eq!(format_v2_response(OutputFormat::Table, "#a\n#b\n  \n").unwrap(), "(no rows)");
    assert_eq!(format_v2_response(OutputFormat::Json, "").unwrap(), "[]");
    assert_eq!(format_v2_response(OutputFormat::Csv, "\r\n").unwrap(), "");
}

#[test]
fn v2_uneven_records_are_refused() {
    match format_v2_response(OutputFormat::Table, "a,b\n1\n") {
        Err(QueryError::Csv(CsvStage::ReadRecord, _)) => {}
        other => panic!("expected a record error, got {:?}", other),
    }
}

#[test]
fn raw_output_is_the_body() {
    let o = options(ApiVersion::V1, OutputFormat::Raw);
    assert_eq!(format_response(&o, "{not json", &Err("bad".to_string())).unwrap(), "{not json");
    let o = options(ApiVersion::V1, OutputFormat::Table);
    assert_eq!(
        format_response(&o, "{not json", &Err("bad".to_string())),
        Err(QueryError::V1Json("bad".to_string()))
    );
    let o = options(ApiVersion::V2, OutputFormat::Json);
    assert_eq!(
        format_response(&o, "x,y\n1,2\n", &Err("unused".to_string())).unwrap(),
        "[\n  {\n    \"x\": \"1\",\n    \"y\": \"2\"\n  }\n]"
    );
}

#[test]
fn comment_lines_split_like_str_lines() {
    for body in [
        "", "\n", "a", "a\n", "a\r\n", "a\r", "#x\nb\r\r\nc\rd\n\n#y", "\r\n\r\n", "##\n#\n", " #a\nb",
    ] {
        let expected = body.lines().filter(|l| !l.starts_with('#')).collect::<Vec<_>>().join("\n");
        assert_eq!(drop_comment_lines(body), expected, "body {:?}", body);
    }
}

#[test]
fn padding_counts_characters_like_format() {
    let rendered = render_table(&strings(&["ab"]), &[strings(&["é"]), strings(&["日本"])]);
    let width = 6; // the byte length of "日本"
    let expected = format!(
        "{:<w$}\n{}\n{:<w$}\n{:<w$}",
        "ab",
        "-".repeat(width),
        "é",
        "日本",
        w = width
    );
    assert_eq!(rendered, expected);
}

#[test]
fn trailing_white_space_is_trimmed_like_trim_end() {
    let rendered = format_debug_request(&BuiltRequest {
        method: "GET",
        url: "u".to_string(),
        headers: vec![],
        body: Some("x \u{3000}\u{a0}\t".to_string()),
    });
    assert_eq!(rendered, "[debug] request GET u\n[debug] body x \u{3000}\u{a0}\t\n".trim_end());
    assert_eq!(rendered, "[debug] request GET u\n[debug] body x");
}

#[test]
fn json_records_in_byte_order_with_escaping() {
    assert_eq!(
        format_records(
            OutputFormat::Json,
            &strings(&["b", "é", "a", "ab"]),
            &[strings(&["1", "2", "3", "4\"x"])]
        )
        .unwrap(),
        "[\n  {\n    \"a\": \"3\",\n    \"ab\": \"4\\\"x\",\n    \"b\": \"1\",\n    \"é\": \"2\"\n  }\n]"
    );
    assert_eq!(
        format_records(OutputFormat::Json, &strings(&["k"]), &[strings(&["v"]), strings(&[])]).unwrap(),
        "[\n  {\n    \"k\": \"v\"\n  },\n  {}\n]"
    );
}

#[test]
fn csv_records_exact() {
    assert_eq!(
        format_records(
            OutputFormat::Csv,
            &strings(&["a", "b"]),
            &[strings(&["x\"y", "1\n2"]), strings(&["", ""]), strings(&["c\rd", "e f"])]
        )
        .unwrap(),
        "a,b\n\"x\"\"y\",\"1\n2\"\n,\n\"c\rd\",e f\n"
    );
    assert_eq!(format_records(OutputFormat::Csv, &strings(&[""]), &[strings(&[""])]).unwrap(), "\"\"\n\"\"\n");
    assert_eq!(format_records(OutputFormat::Csv, &[], &[]).unwrap(), "\"\"\n");
    assert_eq!(
        format_records(OutputFormat::Csv, &strings(&["a", "b"]), &[strings(&["1", "2"]), strings(&["1"]), strings(&[])]),
        Err(QueryError::Csv(
            CsvStage::WriteRow,
            "CSV error: found record with 1 fields, but the previous record has 2 fields".to_string()
        ))
    );
}

#[test]
fn error_messages() {
    assert_eq!(QueryError::MissingDatabase.message(), "--db is required for --api v1");
    assert_eq!(QueryError::MissingOrg.message(), "--org is required for --api v2");
    assert_eq!(
        QueryError::Status { status: 404, body: "no".to_string() }.message(),
        "request failed with status 404: no"
    );
    assert_eq!(
        QueryError::V1Json("eof".to_string()).message(),
        "failed to parse v1 JSON response: eof"
    );
    assert_eq!(
        QueryError::Csv(CsvStage::ReadRecord, "bad".to_string()).message(),
        "failed to parse CSV record: bad"
    );
    assert_eq!(
        QueryError::JsonEncode("x".to_string()).message(),
        "failed to encode JSON output: x"
    );
}

#[test]
fn v1_form_reads_back_with_form_urlencoded() {
    let mut o = options(ApiVersion::V1, OutputFormat::Table);
    o.database = Some("my db&x=1".to_string());
    o.retention_policy = Some("ré+tention".to_string());
    o.query = "select * from \"cpu\" where a='%20'".to_string();
    let request = build_request(&o).expect("v1 request");
    let pairs: Vec<(String, String)> = url::form_urlencoded::parse(request.body.unwrap().as_bytes())
        .into_owned()
        .collect();
    assert_eq!(
        pairs,
        vec![
            ("db".to_string(), "my db&x=1".to_string()),
            ("rp".to_string(), "ré+tention".to_string()),
            ("q".to_string(), "select * from \"cpu\" where a='%20'".to_string()),
        ]
    );
}

#[test]
fn v2_url_and_body_read_back() {
    let mut o = options(ApiVersion::V2, OutputFormat::Csv);
    o.org = Some("a&b=c é".to_string());
    o.query = "x\"\\\n\u{1f}é".to_string();
    let request = build_request(&o).expect("v2 request");
    let (prefix, query) = request.url.split_once('?').unwrap();
    assert_eq!(prefix, "http://localhost:8086/api/v2/query");
    let pairs: Vec<(String, String)> = url::form_urlencoded::parse(query.as_bytes()).into_owned().collect();
    assert_eq!(pairs, vec![("org".to_string(), "a&b=c é".to_string())]);
    let body: serde_json::Value = serde_json::from_str(request.body.as_deref().unwrap()).unwrap();
    let mut expected = serde_json::Map::new();
    expected.insert("query".to_string(), serde_json::Value::String(o.query.clone()));
    assert_eq!(body, serde_json::Value::Object(expected));
}
