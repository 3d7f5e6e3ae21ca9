use pup_commands::idp::entities::{
    continuation_request, decode_response_exec, normalize_entities_response, page_params,
    page_step, raw_response_metadata, start_paging, PageStep, StopReason,
};
use pup_commands::idp::entity_query::{normalize_options, EntityQueryOptions, NormalizedQueryOptions};
use pup_commands::json::{get, Json};

fn to_json(v: &serde_json::Value) -> Json {
    match v {
        serde_json::Value::Null => Json::Null,
        serde_json::Value::Bool(b) => Json::Bool(*b),
        serde_json::Value::Number(n) => Json::Number(n.to_string()),
        serde_json::Value::String(s) => Json::Str(s.clone()),
        serde_json::Value::Array(a) => Json::Array(a.iter().map(to_json).collect()),
        serde_json::Value::Object(m) => {
            Json::Object(m.iter().map(|(k, x)| (k.clone(), to_json(x))).collect())
        }
    }
}

fn json(text: &str) -> Json {
    to_json(&serde_json::from_str::<serde_json::Value>(text).unwrap())
}

fn options(query: &str) -> EntityQueryOptions {
    EntityQueryOptions {
        query: query.into(),
        fields: Vec::new(),
        fields_by_kind: Vec::new(),
        edge_fields: Vec::new(),
        includes: Vec::new(),
        order_by: Vec::new(),
        limit: 25,
        max_results: None,
        cursor: None,
        free_text_match: None,
        include_total_count: false,
        timeseries_interval: None,
        from: None,
        to: None,
        scopes: Vec::new(),
        relation_limit: 25,
        raw: false,
    }
}

fn normalize_page(o: &NormalizedQueryOptions, raw: &Json) -> pup_commands::idp::entities::NormalizedEntities {
    let response = decode_response_exec(raw).unwrap();
    normalize_entities_response(o.limit, o.max_results, &o.includes, o.relation_limit, response)
}

fn relation<'a>(
    e: &'a pup_commands::idp::entities::NormalizedEntity,
    name: &str,
) -> Option<&'a pup_commands::idp::entities::RelationshipSummary> {
    e.relationships.iter().find(|(k, _)| k == name).map(|(_, v)| v)
}

fn member<'a>(es: &'a [(String, Json)], key: &str) -> Option<&'a Json> {
    es.iter().find(|(k, _)| k == key).map(|(_, v)| v)
}

#[test]
fn normalizes_relationships_and_pagination() {
    let normalized_options = normalize_options(options("kind:service")).unwrap();
    let raw = json(
        r#"{
            "data": [{
                "type": "service",
                "id": "checkout",
                "attributes": {"name": "checkout", "owner": "payments", "ref": "ref:service:checkout"},
                "relationships": {"owner_teams": {"data": [{"type": "team", "id": "payments"}]}}
            }],
            "included": [{
                "type": "team",
                "id": "payments",
                "attributes": {"name": "Payments", "handle": "payments"}
            }],
            "meta": {"total_count": 3, "page": {"next_cursor": "next"}}
        }"#,
    );
    let normalized = normalize_page(&normalized_options, &raw);
    assert_eq!(normalized.count, 1);
    assert_eq!(normalized.total_count, Some(3));
    assert!(normalized.truncated);
    assert_eq!(
        relation(&normalized.results[0], "owner_teams").unwrap().sample[0]
            .entity
            .display_name
            .as_deref(),
        Some("Payments")
    );
}

#[test]
fn normalizes_single_null_malformed_and_truncated_relations() {
    let mut input = options("kind:service");
    input.relation_limit = 1;
    let normalized_options = normalize_options(input).unwrap();
    let raw = json(
        r#"{
            "data": [{
                "type": "service",
                "id": "checkout",
                "attributes": {},
                "relationships": {
                    "single": {"data": {"type": "team", "id": "payments"}},
                    "many": {"data": [
                        {"type": "system", "id": "store"},
                        {"type": "system", "id": "billing"}
                    ]},
                    "empty": {"data": null},
                    "malformed": {"data": "not-an-identifier"}
                }
            }],
            "meta": {"page": {"next_cursor": ""}}
        }"#,
    );

    let normalized = normalize_page(&normalized_options, &raw);

    let entity = &normalized.results[0];
    assert_eq!(entity.entity.entity_ref, "ref:service:checkout");
    assert_eq!(relation(entity, "single").unwrap().count, 1);
    assert_eq!(relation(entity, "many").unwrap().count, 2);
    assert!(relation(entity, "many").unwrap().truncated);
    assert_eq!(relation(entity, "empty").unwrap().count, 0);
    assert!(relation(entity, "malformed").is_none());
    assert!(normalized
        .warnings
        .iter()
        .any(|warning| warning.contains("could not be decoded")));
    assert!(normalized
        .warnings
        .iter()
        .any(|warning| warning.contains("sample limited to 1")));
}

#[test]
fn preserves_selected_attributes_edge_values_and_server_warnings() {
    let mut input = options("kind:service");
    input.includes = vec!["runtime_downstream_services".into(), "owner_teams".into()];
    let opts = normalize_options(input).unwrap();
    let raw = json(
        r#"{
            "data": [{"type": "service", "id": "ref:service:checkout", "attributes": {
                "name": "checkout", "display_name": "Checkout API", "active_incidents_count": null
            }, "relationships": {"runtime_downstream_services": {"data": [{
                "type": "service", "id": "ref:service:payments",
                "meta": {"requests_count": 42, "error_rate": null}
            }]}}}],
            "meta": {"warnings": {"omitted_relations": [{"relation": "owner_teams", "reason": "access denied"}]}}
        }"#,
    );
    let result = normalize_page(&opts, &raw);
    let fields = &result.results[0].fields;
    assert!(matches!(member(fields, "name"), Some(Json::Str(s)) if s == "checkout"));
    assert!(matches!(member(fields, "display_name"), Some(Json::Str(s)) if s == "Checkout API"));
    assert!(matches!(member(fields, "active_incidents_count"), Some(Json::Null)));
    let edge = &relation(&result.results[0], "runtime_downstream_services").unwrap().sample[0];
    assert_eq!(edge.entity.entity_ref, "ref:service:payments");
    assert!(matches!(member(&edge.edge_fields, "requests_count"), Some(Json::Number(n)) if n == "42"));
    assert!(matches!(member(&edge.edge_fields, "error_rate"), Some(Json::Null)));
    assert!(result.server_warnings.is_some());
    assert!(result
        .warnings
        .iter()
        .any(|warning| warning.contains("owner_teams")));
}

#[test]
fn rejects_missing_entity_list_instead_of_reporting_empty_results() {
    assert!(decode_response_exec(&json(r#"{"unexpected": true}"#)).is_none());
    // A relationship without linkage data is unknown, not an empty relation.
    assert!(decode_response_exec(&json(
        r#"{
            "data": [{"type": "service", "id": "checkout", "relationships": {
                "owner_teams": {"links": {"related": "/teams"}}
            }}]
        }"#
    ))
    .is_none());
}

#[test]
fn bounded_paging_gathers_pages_until_the_budget() {
    let mut input = options("kind:service");
    input.limit = 2;
    input.max_results = Some(3);
    let o = normalize_options(input).unwrap();
    let paging = start_paging(o.limit, o.max_results, &o.cursor, &o.includes, o.relation_limit);
    let params = vec![
        ("query".to_string(), "kind:service".to_string()),
        ("page[limit]".to_string(), "2".to_string()),
    ];
    let first = page_params(&params, &paging);
    assert_eq!(
        first,
        vec![
            ("query".to_string(), "kind:service".to_string()),
            ("page[limit]".to_string(), "2".to_string())
        ]
    );
    let page1 = json(
        r#"{"data": [{"type": "service", "id": "a"}, {"type": "service", "id": "b"}],
            "meta": {"total_count": 5, "page": {"next_cursor": "c1"}}}"#,
    );
    let paging = match page_step(paging, &page1) {
        PageStep::Next(p) => p,
        _ => panic!("expected another page"),
    };
    let second = page_params(&params, &paging);
    assert_eq!(
        second,
        vec![
            ("query".to_string(), "kind:service".to_string()),
            ("page[limit]".to_string(), "1".to_string()),
            ("page[cursor]".to_string(), "c1".to_string())
        ]
    );
    let page2 = json(
        r#"{"data": [{"type": "service", "id": "c"}],
            "meta": {"total_count": 6, "warnings": ["slow"], "page": {"next_cursor": "c2"}}}"#,
    );
    match page_step(paging, &page2) {
        PageStep::Done(r) => {
            assert_eq!(r.count, 3);
            assert_eq!(r.pages_fetched, 2);
            assert!(matches!(r.stop_reason, StopReason::ResultLimit));
            assert_eq!(r.stop_reason.as_str(), "result_limit");
            assert_eq!(r.next_cursor.as_deref(), Some("c2"));
            assert_eq!(r.additional_page_warnings.len(), 1);
            assert_eq!(r.additional_page_warnings[0].page, 2);
            assert!(r.warnings.iter().any(|w| w.contains("total count changed")));
        }
        _ => panic!("expected the query to finish"),
    }
}

#[test]
fn bounded_paging_refuses_repeated_cursors_and_empty_pages() {
    let mut input = options("kind:service");
    input.limit = 1;
    input.max_results = Some(5);
    input.cursor = Some("start".into());
    let o = normalize_options(input).unwrap();
    let paging = start_paging(o.limit, o.max_results, &o.cursor, &o.includes, o.relation_limit);
    let repeated = json(r#"{"data": [{"type": "service", "id": "a"}], "meta": {"page": {"next_cursor": "start"}}}"#);
    assert!(matches!(page_step(paging, &repeated), PageStep::Failed(e) if e.contains("repeated a pagination cursor")));
    let paging = start_paging(o.limit, o.max_results, &None, &o.includes, o.relation_limit);
    let empty = json(r#"{"data": [], "meta": {"page": {"next_cursor": "x"}}}"#);
    assert!(matches!(page_step(paging, &empty), PageStep::Failed(e) if e.contains("empty page")));
    let paging = start_paging(o.limit, o.max_results, &None, &o.includes, o.relation_limit);
    let too_many = json(r#"{"data": [{"type": "service", "id": "a"}, {"type": "service", "id": "b"}]}"#);
    assert!(matches!(page_step(paging, &too_many), PageStep::Failed(e) if e.contains("more entities than")));
    let paging = start_paging(o.limit, o.max_results, &None, &o.includes, o.relation_limit);
    assert!(matches!(page_step(paging, &json("[]")), PageStep::Failed(e) if e == "failed to decode Datadog entity response"));
}

#[test]
fn unbounded_paging_stops_after_one_page() {
    let o = normalize_options(options("kind:service")).unwrap();
    let paging = start_paging(o.limit, o.max_results, &o.cursor, &o.includes, o.relation_limit);
    let page = json(r#"{"data": [{"type": "service", "id": "a"}], "meta": {"page": {"next_cursor": "n"}}}"#);
    match page_step(paging, &page) {
        PageStep::Done(r) => assert_eq!(r.stop_reason.as_str(), "page_limit"),
        _ => panic!("expected one page"),
    }
}

#[test]
fn continuation_repeats_the_query_with_the_cursor() {
    let mut input = options("kind:service");
    input.includes = vec!["owner_teams".into()];
    input.order_by = vec!["name".into()];
    let o = normalize_options(input).unwrap();
    let params = vec![("fields[team]".to_string(), "name".to_string())];
    let request = continuation_request(&Some("org1".into()), &o, &params, "next").unwrap();
    assert_eq!(&request.args[..3], &["--read-only", "--org", "org1"]);
    assert!(request.args.windows(2).any(|w| w[0] == "--cursor" && w[1] == "next"));
    assert!(request.args.windows(2).any(|w| w[0] == "--fields" && w[1] == "team=name"));
    assert!(request.args.windows(2).any(|w| w[0] == "--include" && w[1] == "owner_teams"));
    assert!(request.args.windows(2).any(|w| w[0] == "--order-by" && w[1] == "name:asc"));
}

#[test]
fn raw_metadata_reports_count_and_cursor() {
    let (count, truncated, next) =
        raw_response_metadata(&json(r#"{"data": [1, 2], "meta": {"page": {"next_cursor": "abc"}}}"#));
    assert_eq!(count, Some(2));
    assert!(truncated);
    assert_eq!(next.as_deref(), Some("Fetch the next page with --cursor abc"));
    let (count, truncated, next) = raw_response_metadata(&json(r#"{"data": {}}"#));
    assert_eq!(count, None);
    assert!(!truncated);
    assert!(next.is_none());
    assert!(get(&json(r#"{"a": 1}"#), "a").is_some());
}
