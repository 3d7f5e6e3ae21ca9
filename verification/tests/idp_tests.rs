use pup_commands::idp::assist::{
    compute_metadata_gaps, compute_next_actions, escape_ueg_glob_literal, find_query,
    has_link_type, service_names, LinkEntry,
};
use pup_commands::idp::migrate::remap_link_type;

fn link(t: &str) -> LinkEntry {
    LinkEntry {
        name: "n".into(),
        link_type: t.into(),
        url: "https://example.com".into(),
    }
}

#[test]
fn test_find_query_defaults_to_service_name_search() {
    assert_eq!(
        find_query("  catalog  ").unwrap(),
        "kind:service AND name:*catalog*"
    );
}

#[test]
fn test_find_query_escapes_literal_text_from_ueg_syntax() {
    assert_eq!(
        find_query("catalog OR api").unwrap(),
        r"kind:service AND name:*catalog\ OR\ api*"
    );
    assert_eq!(
        find_query(r#"payments:(api)*\v2"#).unwrap(),
        r#"kind:service AND name:*payments\:\(api\)\*\\v2*"#
    );
}

#[test]
fn test_find_query_preserves_explicit_kind_or_ref() {
    assert_eq!(
        find_query("kind:team AND name:*platform*").unwrap(),
        "kind:team AND name:*platform*"
    );
    assert_eq!(
        find_query(r#"ref:"ref:service:catalog-http""#).unwrap(),
        r#"ref:"ref:service:catalog-http""#
    );
}

#[test]
fn test_find_query_rejects_empty_or_invalid_scope() {
    assert!(find_query("   ").unwrap_err().to_string().contains("empty"));
    assert!(find_query(r#"kind:"service""#)
        .unwrap_err()
        .to_string()
        .contains("query must include kind:<kind>"));
    assert!(find_query("kind:service OR kind:team")
        .unwrap_err()
        .to_string()
        .contains("top-level OR is invalid"));
    assert!(find_query("kind:service AND free_text:catalog")
        .unwrap_err()
        .to_string()
        .contains("free_text is not an entity field"));
}

#[test]
fn test_link_type_remap() {
    assert_eq!(remap_link_type("wiki"), "doc");
    assert_eq!(remap_link_type("code"), "repo");
    assert_eq!(remap_link_type("url"), "other");
    assert_eq!(remap_link_type("oncall"), "other");
    assert_eq!(remap_link_type("link"), "other");
    assert_eq!(remap_link_type("doc"), "doc");
    assert_eq!(remap_link_type("repo"), "repo");
    assert_eq!(remap_link_type("dashboard"), "dashboard");
    assert_eq!(remap_link_type("runbook"), "runbook");
    assert_eq!(remap_link_type("other"), "other");
    assert_eq!(remap_link_type("custom-type"), "custom-type");
}

#[test]
fn escaping_covers_unicode_whitespace() {
    assert_eq!(escape_ueg_glob_literal("a\u{00a0}b"), "a\\\u{00a0}b");
    assert_eq!(escape_ueg_glob_literal("plain"), "plain");
}

#[test]
fn metadata_gaps_and_next_actions() {
    let links = vec![link("runbook"), link("docs")];
    assert!(has_link_type(&links, "docs"));
    assert!(!has_link_type(&links, "doc"));
    let gaps = compute_metadata_gaps(&None, &Some("production".into()), &None, &links);
    assert_eq!(gaps, vec!["description not set".to_string(), "tier not set".to_string()]);
    let gaps = compute_metadata_gaps(&None, &None, &None, &[]);
    assert_eq!(gaps.len(), 5);
    let actions = compute_next_actions("checkout", 1, 0, 2, &gaps);
    assert_eq!(
        actions,
        vec![
            "Investigate active alerts: `pup monitors list --tag=\"service:checkout\"`".to_string(),
            "Review breached SLOs: `pup slos list` and filter for checkout".to_string(),
            "Fill metadata gaps: description not set, lifecycle not set, tier not set".to_string(),
            "View dependencies: `pup idp deps checkout`".to_string(),
            "Get owner details: `pup idp owner checkout`".to_string(),
        ]
    );
    let actions = compute_next_actions("web", 0, 0, 0, &vec![]);
    assert_eq!(actions.len(), 2);
}

#[test]
fn dependency_names_are_sorted_services_without_ref_prefix() {
    let ids = vec![
        ("service".to_string(), "ref:service:payments".to_string()),
        ("team".to_string(), "ref:team:web".to_string()),
        ("service".to_string(), "api".to_string()),
        ("service".to_string(), "payments".to_string()),
    ];
    assert_eq!(
        service_names(&ids),
        vec!["api".to_string(), "payments".to_string()]
    );
}
