use pup_commands::logs::{
    build_aggregate_body, normalize_storage_tier, parse_aggregate_sort, parse_compute,
    parse_logs_sort, search_truncation_hint, split_compute_args, Compute, GroupBy, LogsError,
    LogsSort, build_search_body, SearchArgs,
};

const VALID_SORT_AGGREGATIONS: &[&str] = &[
    "count",
    "cardinality",
    "pc75",
    "pc90",
    "pc95",
    "pc98",
    "pc99",
    "sum",
    "min",
    "max",
];

fn compute(aggregation: &str, metric: Option<&str>, interval: Option<&str>) -> Compute {
    Compute {
        aggregation: aggregation.into(),
        metric: metric.map(String::from),
        interval: interval.map(String::from),
    }
}

fn group(facet: &str, limit: Option<i32>, sort: &str) -> GroupBy {
    GroupBy {
        facet: facet.into(),
        limit,
        sort: sort.into(),
    }
}

#[test]
fn test_normalize_storage_tier_alias() {
    let tier = normalize_storage_tier(Some("online_archives".into())).unwrap();
    assert_eq!(tier.unwrap(), "online-archives");
}

#[test]
fn test_build_aggregate_body_includes_compute_group_by_limit_and_storage() {
    let body = build_aggregate_body(
        "service:web".into(),
        1,
        2,
        vec!["avg(@duration)".into()],
        vec!["service".into()],
        3,
        vec![],
        Some("flex".into()),
        "count",
        None,
    )
    .unwrap();
    assert_eq!(body.query, "service:web");
    assert_eq!(body.from, "1");
    assert_eq!(body.to, "2");
    assert_eq!(body.storage_tier.as_deref(), Some("flex"));
    assert!(body.indexes.is_empty());
    assert_eq!(body.compute, vec![compute("avg", Some("@duration"), None)]);
    assert_eq!(body.group_by, vec![group("service", Some(3), "count")]);
}

#[test]
fn test_build_aggregate_body_omits_group_by_for_plain_count() {
    let body = build_aggregate_body(
        "*".into(),
        1,
        2,
        vec!["count".into()],
        vec![],
        10,
        vec![],
        None,
        "count",
        None,
    )
    .unwrap();
    assert_eq!(body.query, "*");
    assert_eq!(body.storage_tier, None);
    assert_eq!(body.compute, vec![compute("count", None, None)]);
    assert!(body.group_by.is_empty());
}

#[test]
fn test_build_aggregate_body_multiple_computes() {
    let body = build_aggregate_body(
        "*".into(),
        1,
        2,
        vec![
            "count".into(),
            "avg(@duration)".into(),
            "percentile(@duration, 95)".into(),
        ],
        vec![],
        10,
        vec![],
        None,
        "count",
        None,
    )
    .unwrap();
    assert_eq!(
        body.compute,
        vec![
            compute("count", None, None),
            compute("avg", Some("@duration"), None),
            compute("pc95", Some("@duration"), None),
        ]
    );
}

#[test]
fn test_build_aggregate_body_multiple_group_bys() {
    let body = build_aggregate_body(
        "*".into(),
        1,
        2,
        vec!["count".into()],
        vec!["service".into(), "status".into()],
        5,
        vec![],
        None,
        "count",
        None,
    )
    .unwrap();
    assert_eq!(
        body.group_by,
        vec![group("service", Some(5), "count"), group("status", Some(5), "count")]
    );
}

#[test]
fn test_parse_aggregate_sort_valid_values() {
    for agg in VALID_SORT_AGGREGATIONS {
        let sort = parse_aggregate_sort(agg).unwrap();
        assert_eq!(sort, *agg);
    }
}

#[test]
fn test_parse_aggregate_sort_case_insensitive() {
    let sort = parse_aggregate_sort("PC95").unwrap();
    assert_eq!(sort, "pc95");
}

#[test]
fn test_parse_aggregate_sort_trims_whitespace() {
    let sort = parse_aggregate_sort("  sum  ").unwrap();
    assert_eq!(sort, "sum");
}

#[test]
fn test_parse_aggregate_sort_invalid() {
    let err = parse_aggregate_sort("invalid").unwrap_err();
    assert!(err.to_string().contains("unknown sort aggregation"));
}

#[test]
fn test_build_aggregate_body_sort_pc95() {
    let body = build_aggregate_body(
        "*".into(),
        1,
        2,
        vec!["count".into()],
        vec!["host".into()],
        10,
        vec![],
        None,
        "pc95",
        None,
    )
    .unwrap();
    assert_eq!(body.group_by[0].sort, "pc95");
}

#[test]
fn test_build_aggregate_body_sort_not_included_without_group_by() {
    let body = build_aggregate_body(
        "*".into(),
        1,
        2,
        vec!["count".into()],
        vec![],
        10,
        vec![],
        None,
        "pc95",
        None,
    )
    .unwrap();
    assert!(body.group_by.is_empty());
}

#[test]
fn test_build_aggregate_body_omits_empty_indexes() {
    let body = build_aggregate_body(
        "*".into(),
        1,
        2,
        vec!["count".into()],
        vec![],
        10,
        vec![],
        None,
        "count",
        None,
    )
    .unwrap();
    assert!(body.indexes.is_empty());
}

#[test]
fn test_build_aggregate_body_includes_indexes() {
    let body = build_aggregate_body(
        "*".into(),
        1,
        2,
        vec!["count".into()],
        vec![],
        10,
        vec!["main".into(), "web".into()],
        None,
        "count",
        None,
    )
    .unwrap();
    assert_eq!(body.indexes, vec!["main".to_string(), "web".to_string()]);
}

#[test]
fn test_build_aggregate_body_timeseries_interval() {
    let body = build_aggregate_body(
        "*".into(),
        1,
        2,
        vec!["count".into(), "avg(@duration)".into()],
        vec![],
        10,
        vec![],
        None,
        "count",
        Some("5m".into()),
    )
    .unwrap();
    assert_eq!(
        body.compute,
        vec![
            compute("count", None, Some("300000")),
            compute("avg", Some("@duration"), Some("300000")),
        ]
    );
}

#[test]
fn test_build_aggregate_body_invalid_interval() {
    let err = build_aggregate_body(
        "*".into(),
        1,
        2,
        vec!["count".into()],
        vec![],
        10,
        vec![],
        None,
        "count",
        Some("bogus".into()),
    )
    .unwrap_err();
    assert!(err.to_string().contains("unable to parse duration"));
}

#[test]
fn test_split_compute_args_single() {
    assert_eq!(split_compute_args("count"), vec!["count"]);
}

#[test]
fn test_split_compute_args_multiple() {
    assert_eq!(
        split_compute_args("count,avg(@duration),max(@duration)"),
        vec!["count", "avg(@duration)", "max(@duration)"]
    );
}

#[test]
fn test_split_compute_args_preserves_parens_with_comma() {
    assert_eq!(
        split_compute_args("count,percentile(@duration, 95)"),
        vec!["count", "percentile(@duration, 95)"]
    );
}

#[test]
fn test_split_compute_args_trims_whitespace() {
    assert_eq!(
        split_compute_args(" count , avg(@duration) "),
        vec!["count", "avg(@duration)"]
    );
}

#[test]
fn test_split_compute_args_empty() {
    assert!(split_compute_args("").is_empty());
}

#[test]
fn storage_tiers_and_errors() {
    assert_eq!(normalize_storage_tier(None).unwrap(), None);
    assert_eq!(
        normalize_storage_tier(Some("FLEX".into())).unwrap().as_deref(),
        Some("flex")
    );
    let err = normalize_storage_tier(Some("Cold".into())).unwrap_err();
    assert_eq!(err, LogsError::UnknownStorageTier("cold".into()));
    assert_eq!(
        err.to_string(),
        "unknown storage tier \"cold\"; valid values are: indexes, online-archives, flex"
    );
}

#[test]
fn compute_expressions_and_sorts() {
    assert_eq!(parse_compute(" max( @duration ) ").unwrap(), ("max".to_string(), Some("@duration".to_string())));
    assert!(parse_compute("avg(@duration").is_err());
    assert!(parse_compute("   ").is_err());
    assert!(parse_compute("percentile(@duration)").is_err());
    assert_eq!(parse_logs_sort("asc"), LogsSort::TimestampAscending);
    assert_eq!(parse_logs_sort("-timestamp"), LogsSort::TimestampDescending);
    let (truncated, hint) = search_truncation_hint(Some(10), 10);
    assert!(truncated);
    assert_eq!(
        hint.as_deref(),
        Some("Results may be truncated at 10. Use --limit=11 or narrow the --query")
    );
    assert_eq!(search_truncation_hint(Some(3), 10), (false, None));
    assert_eq!(search_truncation_hint(None, 10), (false, None));
}

fn search_args(storage: Option<&str>, index: Vec<&str>) -> SearchArgs {
    SearchArgs {
        query: "service:web".to_string(),
        from: "1h".to_string(),
        to: "now".to_string(),
        limit: 50,
        sort: "asc".to_string(),
        storage: storage.map(|s| s.to_string()),
        index: index.into_iter().map(|s| s.to_string()).collect(),
    }
}

#[test]
fn search_body_carries_filter_page_and_sort() {
    let body = build_search_body(search_args(Some("Flex"), vec!["main"]), 1_000, -5).unwrap();
    assert_eq!(body.query, "service:web");
    assert_eq!(body.from, "1000");
    assert_eq!(body.to, "-5");
    assert_eq!(body.indexes, Some(vec!["main".to_string()]));
    assert_eq!(body.storage_tier.as_deref(), Some("flex"));
    assert_eq!(body.limit, 50);
    assert_eq!(body.sort, LogsSort::TimestampAscending);
    let body = build_search_body(search_args(None, vec![]), 0, 0).unwrap();
    assert_eq!(body.indexes, None);
    assert_eq!(body.storage_tier, None);
    assert!(matches!(
        build_search_body(search_args(Some("cold"), vec![]), 0, 0),
        Err(LogsError::UnknownStorageTier(_))
    ));
}

#[test]
fn compute_pieces_are_trimmed_and_split_at_top_level_commas() {
    assert_eq!(
        split_compute_args(" count , , avg(@duration) ,"),
        vec!["count".to_string(), "avg(@duration)".to_string()]
    );
    assert_eq!(
        split_compute_args("percentile(@duration, 95), count"),
        vec!["percentile(@duration, 95)".to_string(), "count".to_string()]
    );
}
