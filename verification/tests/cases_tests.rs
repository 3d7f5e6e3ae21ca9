use pup_commands::cases::{comment_cells, parse_priority, parse_status, CasePriority, CaseStatus};
use pup_commands::json::Json;
use pup_commands::model_lab::{
    parse_facet_type, parse_run_status, runs_list_params, FacetType, RunStatus, RunsListOptions,
};

#[test]
fn test_parse_priority_valid() {
    for (input, expected) in [
        ("P1", CasePriority::P1),
        ("p2", CasePriority::P2),
        ("P3", CasePriority::P3),
        ("P4", CasePriority::P4),
        ("P5", CasePriority::P5),
        ("NOT_DEFINED", CasePriority::NotDefined),
        ("not_defined", CasePriority::NotDefined),
    ] {
        let got = parse_priority(input).expect("valid priority should parse");
        assert_eq!(got, expected, "priority {input} should parse to {expected:?}");
    }
}

#[test]
fn test_parse_priority_invalid() {
    let err = parse_priority("P9").unwrap_err();
    assert!(
        err.contains("invalid priority"),
        "expected 'invalid priority' in error, got: {err}"
    );
}

#[test]
fn statuses_parse_case_insensitively() {
    assert_eq!(parse_status("in_progress").unwrap(), CaseStatus::InProgress);
    assert_eq!(parse_status("Open").unwrap(), CaseStatus::Open);
    assert_eq!(
        parse_status("done").unwrap_err(),
        "invalid status: done (use OPEN, IN_PROGRESS, CLOSED)"
    );
}

#[test]
fn comments_are_the_comment_cells() {
    let cell = |t: &str| {
        Json::Object(vec![(
            "attributes".to_string(),
            Json::Object(vec![("type".to_string(), Json::Str(t.to_string()))]),
        )])
    };
    let resp = Json::Object(vec![(
        "data".to_string(),
        Json::Array(vec![cell("COMMENT"), cell("STATUS_CHANGE"), cell("COMMENT")]),
    )]);
    assert_eq!(comment_cells(&resp).len(), 2);
    assert!(comment_cells(&Json::Null).is_empty());
}

#[test]
fn model_lab_filters_parse_exact_names() {
    assert_eq!(parse_run_status("paused").unwrap(), RunStatus::Paused);
    assert_eq!(
        parse_run_status("Paused").unwrap_err(),
        "unknown status 'Paused'; valid values: pending, running, completed, failed, killed, unresponsive, paused"
    );
    assert_eq!(parse_facet_type("metric").unwrap(), FacetType::Metric);
    assert!(parse_facet_type("label").unwrap_err().starts_with("unknown facet type 'label'"));
}

fn runs_options() -> RunsListOptions {
    RunsListOptions {
        filter: Some("loss<0.1".to_string()),
        filter_project_id: Some(7),
        filter_status: Some("running".to_string()),
        filter_tags: None,
        filter_params: None,
        filter_parent_run_id: None,
        pinned_first: true,
        include_pinned: false,
        sort: Some("-created_at".to_string()),
        page_size: Some(50),
        page_number: None,
    }
}

#[test]
fn runs_list_params_carry_each_option() {
    let p = runs_list_params(runs_options()).unwrap();
    assert_eq!(p.filter_status, Some(RunStatus::Running));
    assert_eq!(p.filter_project_id, Some(7));
    assert_eq!(p.pinned_first, Some(true));
    assert_eq!(p.include_pinned, None);
    assert_eq!(p.sort.as_deref(), Some("-created_at"));
    assert_eq!(p.page_size, Some(50));
    let mut o = runs_options();
    o.filter_status = Some("done".to_string());
    assert_eq!(
        runs_list_params(o).err().unwrap(),
        "unknown status 'done'; valid values: pending, running, completed, failed, killed, unresponsive, paused"
    );
}
