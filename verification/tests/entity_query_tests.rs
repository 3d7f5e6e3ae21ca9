use std::collections::BTreeMap;

use pup_commands::idp::entity_query::{
    entity_query_params, normalize_options, normalize_options_in_scope, normalize_scopes,
    parse_field_selections, scope_decision, validate_query_scope, EntityQueryOptions, QueryError,
};
use pup_commands::idp::kind_fields::default_fields_for_kind;
use pup_commands::idp::query_syntax::{has_semantic_top_level_or, is_valid_go_duration};

fn options(query: &str) -> EntityQueryOptions {
    EntityQueryOptions {
        query: query.into(),
        fields: Vec::new(),
        fields_by_kind: Vec::new(),
        edge_fields: Vec::new(),
        includes: Vec::new(),
        order_by: Vec::new(),
        limit: 25,
        max_results: None,
        cursor: None,
        free_text_match: None,
        include_total_count: false,
        timeseries_interval: None,
        from: None,
        to: None,
        scopes: Vec::new(),
        relation_limit: 25,
        raw: false,
    }
}

#[test]
fn normalizes_valid_query_and_defaults() {
    let normalized =
        normalize_options(options("kind:service AND (owner:idp OR team:idp)")).unwrap();
    assert_eq!(normalized.kind, "service");
    assert!(normalized.fields.contains(&"owner".into()));
    assert_eq!(normalized.limit, 25);
    assert_eq!(normalized.relation_limit, 25);
}

#[test]
fn rejects_query_without_concrete_kind() {
    let error = normalize_options(options("name:*catalog*")).unwrap_err();
    assert!(error.to_string().contains("must include kind:<kind>"));
    let error = normalize_options(options(r#"kind:"service""#)).unwrap_err();
    assert!(error.to_string().contains("quoted kind filters"));
    let normalized = normalize_options(options(r#"ref:"ref:team:idp""#)).unwrap();
    assert_eq!(normalized.kind, "team");
}

#[test]
fn rejects_semantic_top_level_or_but_allows_grouped_filters() {
    let error = normalize_options(options("kind:service OR kind:team")).unwrap_err();
    assert!(error.to_string().contains("top-level OR"));
    let error = normalize_options(options("(kind:service OR kind:team)")).unwrap_err();
    assert!(error.to_string().contains("top-level OR"));
    assert!(normalize_options(options("kind:service AND (owner:idp OR team:idp)")).is_ok());
}

#[test]
fn validates_modes_limits_ordering_and_duration() {
    let mut invalid = options("kind:service");
    invalid.free_text_match = Some("contains".into());
    assert!(normalize_options(invalid).is_err());

    let mut invalid = options("kind:service");
    invalid.limit = 101;
    assert!(normalize_options(invalid).is_err());

    let mut invalid = options("kind:service");
    invalid.relation_limit = 0;
    assert!(normalize_options(invalid).is_err());

    let mut invalid = options("kind:service");
    invalid.order_by = vec!["name:sideways".into()];
    assert!(normalize_options(invalid).is_err());

    let mut invalid = options("kind:service");
    invalid.timeseries_interval = Some("0h".into());
    assert!(normalize_options(invalid).is_err());

    let error = normalize_options(options("kind:service AND free_text:catalog")).unwrap_err();
    assert!(error
        .to_string()
        .contains("free_text is not an entity field"));

    assert!(is_valid_go_duration("1h30m"));
    assert!(is_valid_go_duration("1.5h"));
}

#[test]
fn absolute_windows_and_day_lookbacks_map_to_api_parameters() {
    let mut input = options("kind:service");
    input.from = Some("2026-09-17T10:00:00Z".into());
    input.to = Some("2026-09-17T11:00:00Z".into());
    input.scopes = vec!["env=prod".into()];
    let normalized = normalize_options(input).unwrap();
    let params: BTreeMap<_, _> = entity_query_params(&normalized, &[]).into_iter().collect();
    assert!(!params.contains_key("time[past]"));
    assert_eq!(params["time[start]"], "1789639200000");
    assert_eq!(params["time[end]"], "1789642800000");
    assert_eq!(params["properties[service][scope][*][env]"], "prod");
    let mut input = options("kind:service");
    input.timeseries_interval = Some("7d".into());
    assert_eq!(
        normalize_options(input).unwrap().time.past.as_deref(),
        Some("604800000ms")
    );
}

#[test]
fn rejects_incomplete_reversed_conflicting_windows_and_bad_scopes() {
    let mut input = options("kind:service");
    input.from = Some("2026-09-17T11:00:00Z".into());
    assert!(normalize_options(input.clone()).is_err());
    input.to = Some("2026-09-17T10:00:00Z".into());
    assert!(normalize_options(input.clone()).is_err());
    input.to = Some("2026-09-17T12:00:00Z".into());
    input.timeseries_interval = Some("1h".into());
    assert!(normalize_options(input).is_err());
    let mut input = options("kind:service");
    input.timeseries_interval = Some("-7d".into());
    assert!(normalize_options(input).is_err());
    for bad in ["env", "env=", "env=prod*", "env=prod OR test"] {
        assert!(normalize_scopes(vec![bad.into()], "service").is_err());
    }
    assert!(normalize_scopes(vec!["env=prod".into(), "env=dev".into()], "service").is_err());
    assert!(normalize_scopes(vec!["env=prod".into()], "integration.test").is_err());
}

#[test]
fn builds_entity_query_parameters() {
    let mut input = options("kind:integration.github.repository AND name:api");
    input.includes = vec!["pull_requests".into()];
    input.order_by = vec![" updated_at:DESC ".into(), "name".into()];
    input.cursor = Some("cursor value".into());
    input.include_total_count = true;
    let normalized = normalize_options(input).unwrap();
    let params: BTreeMap<_, _> = entity_query_params(&normalized, &[]).into_iter().collect();
    assert_eq!(params["page[cursor]"], "cursor value");
    assert_eq!(params["order_by"], "updated_at:desc,name:asc");
    assert_eq!(params["meta[fields]"], "total_count");
    assert!(params.contains_key("fields[integration.github.pull_request]"));
}

#[test]
fn projects_related_kinds_and_edges_without_overwriting_root_fields() {
    let mut input = options("kind:service");
    input.fields = vec!["name".into()];
    input.includes = vec!["owner_teams".into(), "runtime_downstream_services".into()];
    input.fields_by_kind = vec!["team=name,handle".into(), "team=handle,user_count".into()];
    input.edge_fields = vec!["runtime_downstream_services=requests_count,error_rate".into()];
    let normalized = normalize_options(input).unwrap();
    let params: BTreeMap<_, _> =
        entity_query_params(&normalized, &["team".into(), "service".into()])
            .into_iter()
            .collect();
    assert_eq!(params["fields[service]"], "name");
    assert_eq!(params["fields[team]"], "name,handle,user_count");
    assert_eq!(
        params["fields[service.runtime_downstream_services]"],
        "requests_count,error_rate"
    );
}

#[test]
fn rejects_ambiguous_or_unused_field_selections() {
    for bad in ["team", "=name", "team=", "team=name,", "team=name=owner"] {
        assert!(
            parse_field_selections(vec![bad.into()], "fields").is_err(),
            "{bad}"
        );
    }
    let mut input = options("kind:service");
    input.fields = vec!["name".into()];
    input.fields_by_kind = vec!["service=owner".into()];
    assert!(normalize_options(input)
        .unwrap_err()
        .to_string()
        .contains("either --field"));
    let mut input = options("kind:service");
    input.edge_fields = vec!["runtime_downstream_services=error_rate".into()];
    assert!(normalize_options(input)
        .unwrap_err()
        .to_string()
        .contains("requires --include"));
    let mut input = options("kind:service");
    input.fields_by_kind = vec!["team=name".into()];
    assert!(normalize_options(input).is_err());
}

#[test]
fn query_error_messages_quote_values_as_debug_does() {
    let error = QueryError::DuplicateScope("env".into());
    assert_eq!(error.to_string(), "duplicate --scope \"env\"");
    let error = QueryError::LimitOutOfRange { name: "limit".into(), maximum: 100, value: 101 };
    assert_eq!(error.to_string(), "--limit must be between 1 and 100, got 101");
    let error = QueryError::InvalidOrderBy("a\"b".into());
    assert_eq!(
        error.to_string(),
        "invalid --order-by \"a\\\"b\": use <field> or <field>:<asc|desc>"
    );
}

#[test]
fn default_lookback_is_one_hour_and_params_keep_their_order() {
    let normalized = normalize_options(options("  kind:service  ")).unwrap();
    assert_eq!(normalized.query, "kind:service");
    assert_eq!(normalized.time.past.as_deref(), Some("1h"));
    let params = entity_query_params(&normalized, &[]);
    assert_eq!(params[0], ("query".to_string(), "kind:service".to_string()));
    assert_eq!(params[1], ("page[limit]".to_string(), "25".to_string()));
    assert_eq!(params[2], ("time[past]".to_string(), "1h".to_string()));
    assert_eq!(params[3].0, "fields[service]");
    assert_eq!(params[3].1, default_fields_for_kind("service").join(","));
    assert_eq!(params.len(), 4);
}

#[test]
fn empty_query_and_raw_budget_are_refused() {
    assert_eq!(normalize_options(options("   ")).unwrap_err(), QueryError::QueryRequired);
    let mut input = options("kind:service");
    input.max_results = Some(50);
    input.raw = true;
    assert_eq!(normalize_options(input).unwrap_err(), QueryError::MaxResultsWithRaw);
    let mut input = options("kind:service");
    input.from = Some("2026-09-17T10:00:00Z".into());
    input.to = Some("2026-09-17T09:00:00Z".into());
    assert_eq!(normalize_options(input).unwrap_err(), QueryError::RangeReversed);
}

#[test]
fn default_field_lists_are_distinct_and_specific() {
    let generic = default_fields_for_kind("no_such_kind");
    for kind in ["service", "team", "integration.jira.issue", "secret", "iac_misconfiguration", "no_such_kind"] {
        let fields = default_fields_for_kind(kind);
        assert!(!fields.is_empty());
        let mut sorted = fields.clone();
        sorted.sort();
        sorted.dedup();
        assert_eq!(sorted.len(), fields.len(), "{kind} repeats a field");
        assert_eq!(fields == generic, kind == "no_such_kind");
    }
}

#[test]
fn kind_check_from_what_was_found() {
    assert_eq!(scope_decision(None, true, true).unwrap_err(), QueryError::MissingKind);
    assert_eq!(scope_decision(Some("service".into()), true, true).unwrap_err(), QueryError::TopLevelOr);
    assert_eq!(scope_decision(Some("service".into()), false, true).unwrap_err(), QueryError::FreeTextField);
    assert_eq!(scope_decision(Some("service".into()), false, false).unwrap(), "service");
    assert_eq!(validate_query_scope("kind:team AND name:x").unwrap(), "team");
    let n = normalize_options_in_scope(options("kind:service"), Ok("service".into())).unwrap();
    assert_eq!(n.kind, "service");
    assert_eq!(
        normalize_options_in_scope(options("kind:service"), Err(QueryError::TopLevelOr)).unwrap_err(),
        QueryError::TopLevelOr
    );
}

#[test]
fn top_level_or_is_one_at_the_shallowest_term_depth() {
    assert!(has_semantic_top_level_or("kind:service OR kind:team"));
    assert!(!has_semantic_top_level_or("kind:service (a OR b)"));
    assert!(has_semantic_top_level_or("(kind:service) OR (kind:team)"));
    assert!(!has_semantic_top_level_or("kind:service name:\"a OR b\""));
}
