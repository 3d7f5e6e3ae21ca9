use pup_commands::idp::entity_query::QueryError;
use pup_commands::idp::entity_summary::{
    aggregate_attributes, facet_params, required_names, response_metadata, summarize_response,
    summary_output,
    EntityAggregateOptions, SummaryCommand,
};
use pup_commands::json::{arr_field, get, str_field, Json};

fn options() -> EntityAggregateOptions {
    EntityAggregateOptions {
        query: "kind:service".into(),
        group_by: vec!["owner".into()],
        counts: vec![],
        order_by: vec![],
        limit: 25,
        cursor: None,
        raw: false,
    }
}

#[test]
fn aggregate_supports_filtered_counts_and_ordered_pages() {
    let mut input = options();
    input.counts = vec!["unowned=_missing_:owner".into()];
    input.order_by = vec!["unowned:desc".into()];
    input.cursor = Some("opaque".into());
    let body = aggregate_attributes(&input).unwrap();
    assert_eq!(body.metrics[0].filter, "*");
    assert_eq!(body.metrics[1].filter, "_missing_:owner");
    assert_eq!(body.cursor, "opaque");
    assert_eq!(body.order_by, vec!["unowned:desc".to_string()]);
}

#[test]
fn aggregate_rejects_missing_groups_bad_metrics_and_limits() {
    let mut input = options();
    input.group_by.clear();
    assert!(aggregate_attributes(&input).is_err());
    for count in ["broken", "=state:active", "count=*", "bad-name=*", "empty="] {
        let mut input = options();
        input.counts = vec![count.into()];
        assert!(aggregate_attributes(&input).is_err(), "{count}");
    }
    let mut input = options();
    input.limit = 0;
    assert!(aggregate_attributes(&input).is_err());
    assert!(required_names(vec!["".into()], "facet").is_err());
}

#[test]
fn aggregate_defaults_and_metric_errors() {
    let mut input = options();
    input.query = "  kind:service  ".into();
    input.group_by = vec![" owner ".into(), "owner".into(), "team".into()];
    let body = aggregate_attributes(&input).unwrap();
    assert_eq!(body.query, "kind:service");
    assert_eq!(body.group_by, vec!["owner".to_string(), "team".to_string()]);
    assert_eq!(body.metrics.len(), 1);
    assert_eq!(body.metrics[0].name, "count");
    assert_eq!(body.cursor, "");
    let mut input = options();
    input.counts = vec!["a=x".into(), "a=y".into()];
    assert_eq!(
        aggregate_attributes(&input).err(),
        Some(QueryError::DuplicateCount("a".into()))
    );
    let mut input = options();
    input.counts = vec!["broken".into()];
    assert_eq!(
        aggregate_attributes(&input).err().unwrap().to_string(),
        "invalid --count \"broken\": use <name>=<filter>"
    );
    assert_eq!(
        required_names(vec![], "group-by").err().unwrap().to_string(),
        "at least one --group-by is required"
    );
}

#[test]
fn facet_params_keep_query_and_skip_blank_cursor() {
    let params = facet_params(
        "kind:service",
        vec!["owner".into(), "team".into()],
        10,
        Some("  ".into()),
    )
    .unwrap();
    assert_eq!(
        params,
        vec![
            ("query".to_string(), "kind:service".to_string()),
            ("facets".to_string(), "owner,team".to_string()),
            ("page[limit]".to_string(), "10".to_string()),
        ]
    );
    let params = facet_params("kind:service", vec!["owner".into()], 10, Some("c1".into())).unwrap();
    assert_eq!(params[3], ("page[cursor]".to_string(), "c1".to_string()));
    assert!(facet_params("kind:service", vec![], 10, None).is_err());
}

#[test]
fn response_metadata_hints_the_next_page() {
    let (count, truncated, hint) = response_metadata(Some(3), Some("next".into()));
    assert_eq!(count, Some(3));
    assert!(truncated);
    assert_eq!(hint.as_deref(), Some("Fetch the next page with --cursor next"));
    let (_, truncated, hint) = response_metadata(None, Some(String::new()));
    assert!(!truncated);
    assert!(hint.is_none());
    assert_eq!(SummaryCommand::Facets.name(), "pup idp entities facets");
}

fn conv(v: &serde_json::Value) -> Json {
    match v {
        serde_json::Value::Null => Json::Null,
        serde_json::Value::Bool(b) => Json::Bool(*b),
        serde_json::Value::Number(n) => Json::Number(n.to_string()),
        serde_json::Value::String(s) => Json::Str(s.clone()),
        serde_json::Value::Array(a) => Json::Array(a.iter().map(conv).collect()),
        serde_json::Value::Object(m) => {
            Json::Object(m.iter().map(|(k, x)| (k.clone(), conv(x))).collect())
        }
    }
}

fn summary_json(text: &str) -> Json {
    conv(&serde_json::from_str::<serde_json::Value>(text).unwrap())
}

#[test]
fn facet_values_are_sampled_to_the_limit() {
    let response = summary_json(
        r#"{"data": [{"attributes": {"facet": "owner", "values": [1, 2, 3]}},
                     {"attributes": {"facet": "tier", "values": [1]}}]}"#,
    );
    let (results, sampled) = summarize_response(&response, 2, true).unwrap();
    assert!(sampled);
    let first = &results[0];
    let get = |k: &str| first.iter().find(|(key, _)| key == k).map(|(_, v)| v);
    assert!(matches!(get("values"), Some(Json::Array(v)) if v.len() == 2));
    assert!(matches!(get("values_returned"), Some(Json::Number(n)) if n == "3"));
    assert!(matches!(get("values_truncated"), Some(Json::Bool(true))));
    let (_, sampled) = summarize_response(&response, 5, true).unwrap();
    assert!(!sampled);
    let (results, sampled) = summarize_response(&response, 1, false).unwrap();
    assert!(!sampled);
    assert_eq!(results[0].len(), 2);
    assert_eq!(
        summarize_response(&summary_json(r#"{"data": [{"attributes": {"facet": "x"}}]}"#), 1, true).unwrap_err(),
        "failed to decode entity facet response: expected a values array"
    );
    assert_eq!(
        summarize_response(&summary_json(r#"{"data": [{}]}"#), 1, true).unwrap_err(),
        "failed to decode entity summary response"
    );
}

#[test]
fn summary_display_of_sampled_facets() {
    let response = summary_json(
        r#"{"data": [{"attributes": {"facet": "owner", "values": [1, 2, 3]}}],
            "meta": {"page": {"next_cursor": "c2"}, "warnings": ["slow"]}}"#,
    );
    let query = Json::Str("kind:service".to_string());
    let shown = summary_output(&response, query, 2, false, true).unwrap();
    assert_eq!(shown.count, Some(1));
    assert!(shown.truncated);
    assert!(shown.next_action.unwrap().starts_with("Facet values were sampled locally"));
    assert_eq!(str_field(&shown.output, "query"), Some("kind:service".to_string()));
    assert_eq!(arr_field(&shown.output, "results").len(), 1);
    assert_eq!(arr_field(&shown.output, "warnings").len(), 1);
    let page = get(&shown.output, "page").unwrap();
    assert_eq!(str_field(page, "next_cursor"), Some("c2".to_string()));
    assert!(matches!(get(page, "truncated"), Some(Json::Bool(true))));
    assert!(matches!(get(page, "limit"), Some(Json::Number(n)) if n == "2"));
    assert_eq!(arr_field(&shown.output, "server_warnings").len(), 1);
}

#[test]
fn summary_display_raw_and_plain() {
    let response = summary_json(r#"{"data": [{"attributes": {"owner": "a", "count": 3}}], "meta": {"page": {"next_cursor": ""}}}"#);
    let shown = summary_output(&response, Json::Null, 10, true, false).unwrap();
    assert_eq!((shown.count, shown.truncated, shown.next_action), (Some(1), false, None));
    assert!(matches!(get(&shown.output, "data"), Some(Json::Array(_))));
    let shown = summary_output(&response, Json::Null, 10, false, false).unwrap();
    assert!(!shown.truncated);
    assert!(matches!(get(get(&shown.output, "page").unwrap(), "next_cursor"), Some(Json::Null)));
    assert!(matches!(get(&shown.output, "server_warnings"), Some(Json::Null)));
    assert_eq!(arr_field(&shown.output, "warnings").len(), 0);
    assert_eq!(
        summary_output(&summary_json(r#"{"data": 3}"#), Json::Null, 10, false, false).err(),
        Some("failed to decode entity summary response".to_string())
    );
}
