use pup_commands::json::{get, str_field, Json};
use pup_commands::profiling::{
    check_flamegraph_scope, explore_flamegraph_body, parse_extra_headers, FlamegraphRequest,
    FlamegraphScopeError, HeaderError,
};

fn flamegraph_request() -> FlamegraphRequest {
    FlamegraphRequest {
        profile_type: "cpu-time".to_string(),
        query: "service:web".to_string(),
        from: "2024-01-01T00:00:00+00:00".to_string(),
        to: "2024-01-01T01:00:00+00:00".to_string(),
        trace_id: None,
        span_id: None,
        profile_id: None,
        event_id: None,
        attribute: None,
        percent_cutoff: "0.5".to_string(),
        limit_top_stacktraces: 10,
        max_stack_trace_size: -1,
        frame_regex_filter: None,
        endpoint_regex_filter: None,
        attribute_values_regex_filter: None,
        frame_format: "full".to_string(),
        frame_grouping: "method".to_string(),
        bypass_kind_truncation: false,
    }
}

fn number(j: Option<&Json>) -> String {
    match j {
        Some(Json::Number(n)) => n.clone(),
        other => panic!("number expected, got {:?}", other),
    }
}

#[test]
fn test_parse_extra_headers_ok() {
    let parsed = parse_extra_headers(&[
        "test-drive-hummer-aurora: 1".to_string(),
        "test-drive-service-abc123=1".to_string(),
    ])
    .expect("should parse");
    assert_eq!(
        parsed,
        vec![
            ("test-drive-hummer-aurora".to_string(), "1".to_string()),
            ("test-drive-service-abc123".to_string(), "1".to_string()),
        ]
    );
}

#[test]
fn test_parse_extra_headers_empty() {
    let parsed = parse_extra_headers(&[]).expect("should parse");
    assert!(parsed.is_empty());
}

#[test]
fn test_parse_extra_headers_missing_separator() {
    let result = parse_extra_headers(&["no-separator-here".to_string()]);
    assert!(
        result.is_err(),
        "expected error but got ok: {:?}",
        result.ok()
    );
}

#[test]
fn test_parse_extra_headers_empty_name() {
    let result = parse_extra_headers(&[": value".to_string()]);
    assert!(
        result.is_err(),
        "expected error but got ok: {:?}",
        result.ok()
    );
}

#[test]
fn parse_extra_headers_prefers_colon_over_equals() {
    let parsed = parse_extra_headers(&["a=b: c=d".to_string()]).unwrap();
    assert_eq!(parsed, vec![("a=b".to_string(), "c=d".to_string())]);
}

#[test]
fn parse_extra_headers_reports_first_bad_value() {
    let err = parse_extra_headers(&[
        "ok: 1".to_string(),
        "  = 2".to_string(),
        "nothing".to_string(),
    ])
    .unwrap_err();
    assert_eq!(err, HeaderError::EmptyName("  = 2".to_string()));
    assert_eq!(
        err.to_string(),
        "invalid --header '  = 2': header name cannot be empty"
    );
    let err = parse_extra_headers(&["nothing".to_string()]).unwrap_err();
    assert_eq!(
        err.to_string(),
        "invalid --header 'nothing': expected 'Name: Value' or 'Name=Value'"
    );
}

#[test]
fn parse_extra_headers_trims_unicode_whitespace() {
    let parsed = parse_extra_headers(&["\u{3000}x-name\u{a0}:\t v \n".to_string()]).unwrap();
    assert_eq!(parsed, vec![("x-name".to_string(), "v".to_string())]);
}

#[test]
fn flamegraph_needs_a_scope() {
    let mut req = flamegraph_request();
    req.query = "   ".to_string();
    let err = explore_flamegraph_body(&req).unwrap_err();
    assert_eq!(err, FlamegraphScopeError::MissingScope);
    assert_eq!(
        err.to_string(),
        "one of --query, --trace-id, or --profile-id is required to scope the flame graph"
    );
    req.trace_id = Some("123".to_string());
    assert!(check_flamegraph_scope(&req).is_ok());
}

#[test]
fn flamegraph_profile_and_event_go_together() {
    let mut req = flamegraph_request();
    req.profile_id = Some("p1".to_string());
    let err = check_flamegraph_scope(&req).unwrap_err();
    assert_eq!(err, FlamegraphScopeError::UnpairedProfile);
    assert_eq!(err.to_string(), "--profile-id and --event-id must be used together");
    req.profile_id = None;
    req.event_id = Some("e1".to_string());
    assert_eq!(check_flamegraph_scope(&req).unwrap_err(), FlamegraphScopeError::UnpairedProfile);
}

#[test]
fn flamegraph_body_members() {
    let body = explore_flamegraph_body(&flamegraph_request()).unwrap();
    let keys: Vec<String> = match &body {
        Json::Object(es) => es.iter().map(|(k, _)| k.clone()).collect(),
        _ => panic!("object expected"),
    };
    assert_eq!(
        keys,
        vec![
            "filter",
            "profileType",
            "attribute",
            "percentCutoff",
            "limitTopStacktraces",
            "maxStackTraceSize",
            "frameRegexFilter",
            "endpointRegexFilter",
            "attributeValuesRegexFilter",
            "frameFormat",
            "frameGrouping",
            "bypassKindTruncation"
        ]
    );
    let filter = get(&body, "filter").unwrap();
    assert_eq!(str_field(filter, "query"), Some("service:web".to_string()));
    assert_eq!(str_field(filter, "from"), Some("2024-01-01T00:00:00+00:00".to_string()));
    assert_eq!(str_field(&body, "frameFormat"), Some("FULL".to_string()));
    assert_eq!(str_field(&body, "frameGrouping"), Some("METHOD".to_string()));
    assert_eq!(number(get(&body, "limitTopStacktraces")), "10");
    assert_eq!(number(get(&body, "maxStackTraceSize")), "-1");
    assert_eq!(number(get(&body, "percentCutoff")), "0.5");
    assert!(matches!(get(&body, "attribute"), Some(Json::Null)));
    assert!(matches!(get(&body, "bypassKindTruncation"), Some(Json::Bool(false))));
}

#[test]
fn flamegraph_body_contexts() {
    let mut req = flamegraph_request();
    req.query = String::new();
    req.trace_id = Some("t1".to_string());
    req.span_id = Some("s1".to_string());
    req.profile_id = Some("p1".to_string());
    req.event_id = Some("e1".to_string());
    req.frame_format = "simple".to_string();
    req.frame_grouping = "line".to_string();
    let body = explore_flamegraph_body(&req).unwrap();
    let trace = get(&body, "traceContext").unwrap();
    assert_eq!(str_field(trace, "traceId"), Some("t1".to_string()));
    assert_eq!(str_field(trace, "spanId"), Some("s1".to_string()));
    assert!(matches!(get(trace, "timeHint"), Some(Json::Null)));
    let profile = get(&body, "profileContext").unwrap();
    assert_eq!(str_field(profile, "profileId"), Some("p1".to_string()));
    assert_eq!(str_field(profile, "eventId"), Some("e1".to_string()));
    assert_eq!(str_field(&body, "frameFormat"), Some("SIMPLE_STRING".to_string()));
    assert_eq!(str_field(&body, "frameGrouping"), Some("LINE".to_string()));
}
