use pup_commands::dashboards::{
    dashboard_url_with_time, locate_widget_index, widget_layout_for_add, widget_schema,
    time_window_pairs, widget_rows, widget_template, widget_type_description, widget_types, DashboardError,
    WidgetSummary,
};
use pup_commands::json::{get, str_field, Json};

#[test]
fn test_dashboard_url_with_time_adds_live_window() {
    let url = dashboard_url_with_time(
        "https://app.datadoghq.com/dashboard/abc-123/test-dashboard?tpl_var_env=prod",
        "now-1w",
        "now",
        true,
    )
    .expect("dashboard URL should be valid");

    assert_eq!(
        url,
        "https://app.datadoghq.com/dashboard/abc-123/test-dashboard?tpl_var_env=prod&from_ts=now-1w&to_ts=now&live=true"
    );
}

#[test]
fn test_dashboard_url_with_time_replaces_existing_time_params() {
    let url = dashboard_url_with_time(
        "https://app.datadoghq.com/dashboard/abc-123/test-dashboard?from_ts=old&to_ts=old&live=false",
        "now-1w",
        "now",
        true,
    )
    .expect("dashboard URL should be valid");

    assert_eq!(
        url,
        "https://app.datadoghq.com/dashboard/abc-123/test-dashboard?from_ts=now-1w&to_ts=now&live=true"
    );
}

#[test]
fn test_widget_types_list_not_empty() {
    let types = widget_types();
    assert!(
        types.len() >= 20,
        "expected at least 20 widget types, got {}",
        types.len()
    );
    assert!(types.iter().any(|(t, _)| *t == "timeseries"));
    assert!(types.iter().any(|(t, _)| *t == "query_value"));
    assert!(types.iter().any(|(t, _)| *t == "note"));
}

#[test]
fn test_widget_template_returns_known_skeleton() {
    let tmpl = widget_template("timeseries").expect("timeseries should have a template");
    let definition = get(&tmpl, "definition").expect("template must have definition");
    let ty = str_field(definition, "type").expect("template must have definition.type");
    assert_eq!(ty, "timeseries");
    assert!(get(definition, "requests").is_some(), "timeseries template must include requests");
}

#[test]
fn test_widget_template_generic_fallback() {
    let tmpl = widget_template("geomap").expect("geomap should have a fallback");
    assert_eq!(str_field(get(&tmpl, "definition").unwrap(), "type"), Some("geomap".to_string()));
    match &tmpl {
        Json::Object(es) => {
            assert_eq!(es.len(), 1);
            assert!(matches!(&es[0].1, Json::Object(d) if d.len() == 1));
        }
        _ => panic!("object expected"),
    }
}

#[test]
fn test_widget_template_unknown_type_returns_none() {
    assert!(
        widget_template("not_a_real_widget_type").is_none(),
        "unknown type must return None"
    );
}

#[test]
fn dashboard_url_reports_invalid_urls() {
    let err = dashboard_url_with_time("not a url", "a", "b", false).unwrap_err();
    assert!(matches!(err, DashboardError::InvalidUrl { .. }));
    assert!(err
        .to_string()
        .starts_with("dashboard response included invalid url \"not a url\": "));
    let url = dashboard_url_with_time("https://x.example/d?a=1&live=true", "1", "2", false).unwrap();
    assert_eq!(url, "https://x.example/d?a=1&from_ts=1&to_ts=2&live=false");
}

#[test]
fn widgets_are_located_by_index_or_unique_id() {
    let ids = vec![Some(10), None, Some(7), Some(10)];
    assert_eq!(locate_widget_index(&ids, None, Some(1)), Ok(1));
    assert_eq!(
        locate_widget_index(&ids, None, Some(4)).unwrap_err().to_string(),
        "index 4 out of range; dashboard has 4 widget(s)"
    );
    assert_eq!(locate_widget_index(&ids, Some(7), None), Ok(2));
    assert_eq!(
        locate_widget_index(&ids, Some(10), None),
        Err(DashboardError::WidgetAmbiguous { id: 10, matches: 2 })
    );
    assert_eq!(
        locate_widget_index(&ids, Some(3), None).unwrap_err().to_string(),
        "no widget with id 3 found in dashboard"
    );
    assert_eq!(locate_widget_index(&ids, None, None), Err(DashboardError::SelectorMissing));
}

#[test]
fn widget_schemas_and_layouts() {
    let (description, template) = widget_schema("note").unwrap();
    assert!(description.starts_with("The notes and links widget"));
    let definition = get(&template, "definition").unwrap();
    assert_eq!(str_field(definition, "content"), Some(String::new()));
    assert_eq!(str_field(definition, "type"), Some("note".to_string()));
    assert_eq!(
        widget_schema("bogus").unwrap_err().to_string(),
        "unknown widget type \"bogus\"; run `pup dashboards widgets types` to see supported types"
    );
    assert!(widget_type_description("slo").is_some());
    assert_eq!(widget_layout_for_add(true, false), Err(DashboardError::FreeLayoutNeedsLayout));
    assert_eq!(widget_layout_for_add(true, true), Ok(true));
    assert_eq!(widget_layout_for_add(false, true), Ok(false));
}

#[test]
fn test_locate_by_index_ok() {
    let widgets = vec![None, None];
    assert_eq!(locate_widget_index(&widgets, None, Some(1)).unwrap(), 1);
}

#[test]
fn test_locate_by_index_out_of_range() {
    let widgets = vec![None];
    assert!(locate_widget_index(&widgets, None, Some(5)).is_err());
}

#[test]
fn test_locate_by_id_found() {
    let widgets = vec![Some(1), Some(2)];
    assert_eq!(locate_widget_index(&widgets, Some(2), None).unwrap(), 1);
}

#[test]
fn test_locate_by_id_not_found() {
    let widgets = vec![Some(1)];
    assert!(locate_widget_index(&widgets, Some(99), None).is_err());
}

#[test]
fn test_locate_by_id_ambiguous() {
    let widgets = vec![Some(7), Some(7)];
    let err = locate_widget_index(&widgets, Some(7), None).unwrap_err();
    assert!(
        err.to_string().contains("ambiguous"),
        "expected ambiguous error, got: {:?}",
        err
    );
}

#[test]
fn widget_rows_report_type_title_and_position() {
    let definition = Json::Object(vec![
        ("title".to_string(), Json::Str("CPU".to_string())),
        ("type".to_string(), Json::Str("timeseries".to_string())),
    ]);
    let rows = widget_rows(&[
        WidgetSummary { id: Some(42), definition, layout: Json::Null },
        WidgetSummary { id: None, definition: Json::Object(vec![]), layout: Json::Null },
    ]);
    assert_eq!(rows.len(), 2);
    assert!(matches!(get(&rows[0], "index"), Some(Json::Number(n)) if n == "0"));
    assert!(matches!(get(&rows[0], "id"), Some(Json::Number(n)) if n == "42"));
    assert_eq!(str_field(&rows[0], "type"), Some("timeseries".to_string()));
    assert_eq!(str_field(&rows[0], "title"), Some("CPU".to_string()));
    assert!(matches!(get(&rows[1], "index"), Some(Json::Number(n)) if n == "1"));
    assert!(matches!(get(&rows[1], "id"), Some(Json::Null)));
    assert_eq!(str_field(&rows[1], "type"), Some("unknown".to_string()));
    assert!(matches!(get(&rows[1], "title"), Some(Json::Null)));
}

#[test]
fn time_window_pairs_keep_the_others_first() {
    let pairs = vec![
        ("tpl_var_env".to_string(), "prod".to_string()),
        ("from_ts".to_string(), "1".to_string()),
        ("live".to_string(), "false".to_string()),
    ];
    assert_eq!(
        time_window_pairs(&pairs, "10", "20", true),
        vec![
            ("tpl_var_env".to_string(), "prod".to_string()),
            ("from_ts".to_string(), "10".to_string()),
            ("to_ts".to_string(), "20".to_string()),
            ("live".to_string(), "true".to_string()),
        ]
    );
}
