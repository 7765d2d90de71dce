use influx_query::{
    build_request, format_debug_request, format_response, render_table, ApiVersion,
    BuiltRequest, OutputFormat, QueryOptions, V1Response, V1Result,
};

#[test]
fn builds_v1_request_with_query_string_and_basic_auth() {
    let options = QueryOptions {
        api_version: ApiVersion::V1,
        base_url: "http://localhost:8086/".to_string(),
        query: "select * from cpu".to_string(),
        database: Some("metrics".to_string()),
        retention_policy: Some("autogen".to_string()),
        org: None,
        token: None,
        username: Some("alice".to_string()),
        password: Some("secret".to_string()),
        output: OutputFormat::Json,
        debug: false,
    };

    let request = build_request(&options).expect("request should build");

    assert_eq!(request.method, "POST");
    assert_eq!(request.url, "http://localhost:8086/query");
    assert!(request
        .body
        .as_deref()
        .is_some_and(|body| body.contains("db=metrics")));
    assert!(request
        .body
        .as_deref()
        .is_some_and(|body| body.contains("rp=autogen")));
    assert!(request
        .body
        .as_deref()
        .is_some_and(|body| body.contains("q=select+*+from+cpu")));
    assert!(request.headers.iter().any(|(name, value)| {
        name == "Authorization" && value.starts_with("Basic ")
    }));
}

#[test]
fn builds_v2_request_with_flux_and_token_auth() {
    let options = QueryOptions {
        api_version: ApiVersion::V2,
        base_url: "https://influx.example.com".to_string(),
        query: "from(bucket:\"prod\") |> range(start: -1h)".to_string(),
        database: None,
        retention_policy: None,
        org: Some("acme".to_string()),
        token: Some("token-123".to_string()),
        username: None,
        password: None,
        output: OutputFormat::Csv,
        debug: false,
    };

    let request = build_request(&options).expect("request should build");

    assert_eq!(request.method, "POST");
    assert_eq!(request.url, "https://influx.example.com/api/v2/query?org=acme");
    assert!(request.headers.iter().any(|(name, value)| {
        name == "Authorization" && value == "Token token-123"
    }));
    assert!(request.headers.iter().any(|(name, value)| {
        name == "Accept" && value == "application/csv"
    }));
    assert_eq!(
        request.body.as_deref(),
        Some("{\"query\":\"from(bucket:\\\"prod\\\") |> range(start: -1h)\"}")
    );
}

#[test]
fn renders_table_with_header_and_rows() {
    let rendered = render_table(
        &["name".to_string(), "value".to_string()],
        &[
            vec!["cpu0".to_string(), "42".to_string()],
            vec!["cpu1".to_string(), "43".to_string()],
        ],
    );

    assert_eq!(rendered, "name value\n---- -----\ncpu0 42   \ncpu1 43   ");
}

#[test]
fn v1_empty_results_are_not_silent() {
    let rendered = format_response(
        &QueryOptions {
            api_version: ApiVersion::V1,
            base_url: "http://localhost:8086".to_string(),
            query: "select * from cpu".to_string(),
            database: Some("metrics".to_string()),
            retention_policy: None,
            org: None,
            token: None,
            username: None,
            password: None,
            output: OutputFormat::Table,
            debug: false,
        },
        r#"{"results":[{"statement_id":0}]}"#,
        &Ok(V1Response {
            results: Some(vec![V1Result { series: None }]),
        }),
    )
    .expect("formatting should succeed");

    assert_eq!(rendered, "(no rows)");
}

#[test]
fn formats_debug_output_with_redacted_auth() {
    let rendered = format_debug_request(&BuiltRequest {
        method: "POST",
        url: "http://localhost:8086/query".to_string(),
        headers: vec![
            ("Authorization".to_string(), "Basic abc123".to_string()),
            ("Content-Type".to_string(), "application/x-www-form-urlencoded".to_string()),
        ],
        body: Some("db=metrics&q=select+1".to_string()),
    });

    assert!(rendered.contains("[debug] request POST http://localhost:8086/query"));
    assert!(rendered.contains("[debug] header Authorization: Basic <redacted>"));
    assert!(rendered.contains("[debug] body db=metrics&q=select+1"));
}
