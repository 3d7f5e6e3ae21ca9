use pup_commands::idp::entity_context::{
    assist_metadata, assist_report, extract_health, extract_owner, extract_runtime_dependencies,
    extract_team_id, first_entity, included_list, on_call_from_response, registration_metadata,
};
use pup_commands::json::{get, Json};

fn to_json(v: &serde_json::Value) -> Json {
    match v {
        serde_json::Value::Null => Json::Null,
        serde_json::Value::Bool(b) => Json::Bool(*b),
        serde_json::Value::Number(n) => Json::Number(n.to_string()),
        serde_json::Value::String(s) => Json::Str(s.clone()),
        serde_json::Value::Array(a) => Json::Array(a.iter().map(to_json).collect()),
        serde_json::Value::Object(m) => {
            Json::Object(m.iter().map(|(k, x)| (k.clone(), to_json(x))).collect())
        }
    }
}

fn json(text: &str) -> Json {
    to_json(&serde_json::from_str::<serde_json::Value>(text).unwrap())
}

fn service_with_runtime_dependencies() -> Json {
    json(
        r#"{
            "type": "service",
            "id": "ref:service:catalog-http",
            "attributes": {
                "name": "catalog-http",
                "owner": "idp"
            },
            "relationships": {
                "runtime_upstream_services": {
                    "data": [
                        {"type": "service", "id": "ref:service:web"},
                        {"type": "service", "id": "api"},
                        {"type": "team", "id": "ref:team:idp"},
                        {"type": "service", "id": "ref:service:web"}
                    ]
                },
                "runtime_downstream_services": {
                    "data": [
                        {"type": "service", "id": "ref:service:database"},
                        {"type": "service", "id": "ref:service:cache"}
                    ]
                }
            }
        }"#,
    )
}

#[test]
fn test_registration_metadata_uses_response_count_and_first_ref() {
    let response = json(
        r#"{
            "data": [{
                "attributes": {
                    "kind": "datastore",
                    "name": "orders",
                    "namespace": "payments"
                }
            }],
            "meta": {"count": 2}
        }"#,
    );

    let metadata = registration_metadata(&response, "entities.yaml");

    assert_eq!(metadata.count, Some(2));
    assert_eq!(
        metadata.next_action.as_deref(),
        Some(
            "Use `pup --read-only software-catalog entities list --filter-ref 'datastore:payments/orders'` to verify the first registered entity"
        )
    );
}

#[test]
fn test_extract_runtime_dependencies_normalizes_service_refs() {
    let dependencies = extract_runtime_dependencies(&service_with_runtime_dependencies());

    assert_eq!(dependencies.upstream, vec!["api".to_string(), "web".to_string()]);
    assert_eq!(dependencies.downstream, vec!["cache".to_string(), "database".to_string()]);
}

#[test]
fn test_registration_metadata_surfaces_schema_warnings() {
    let response = json(
        r#"{
            "data": [{
                "attributes": {
                    "kind": "service",
                    "name": "checkout",
                    "namespace": "default"
                }
            }],
            "included": [{
                "attributes": {
                    "schema": {
                        "metadata": {
                            "managed": {
                                "status": {
                                    "warnings": [
                                        {"message": "first warning"},
                                        {"message": "second warning"}
                                    ]
                                }
                            }
                        }
                    }
                }
            }],
            "meta": {"count": 1}
        }"#,
    );

    let metadata = registration_metadata(&response, "service.datadog.yaml");

    assert_eq!(
        metadata.next_action.as_deref(),
        Some(
            "Review 2 schema warning(s) in `included[].attributes.schema.metadata.managed.status.warnings`; then use `pup --read-only software-catalog entities list --filter-ref 'service:default/checkout'` to verify the registered entity"
        )
    );
}

#[test]
fn test_extract_runtime_dependencies_handles_missing_relationships() {
    let dependencies = extract_runtime_dependencies(&json("{}"));

    assert!(dependencies.upstream.is_empty());
    assert!(dependencies.downstream.is_empty());
}

#[test]
fn test_first_entity_rejects_malformed_response() {
    let error = first_entity(&json(r#"{"data": {}}"#), "catalog-http").err().unwrap();

    assert!(error.contains("entity graph response did not contain an entity list"));
}

#[test]
fn first_entity_reports_an_empty_list() {
    let error = first_entity(&json(r#"{"data": []}"#), "svc").err().unwrap();
    assert_eq!(error, "no entity found matching 'svc'");
}

#[test]
fn registration_metadata_without_warnings_or_ref() {
    let m = registration_metadata(&json(r#"{"data": [{}, {}]}"#), "f.yaml");
    assert_eq!(m.count, Some(2));
    assert!(m.next_action.is_none());
    assert_eq!(m.command.as_deref(), Some("idp register f.yaml"));
    let m = registration_metadata(
        &json(r#"{"data": [{"attributes": {"kind": "service", "name": "a"}}], "meta": {"count": 1}}"#),
        "f.yaml",
    );
    assert_eq!(
        m.next_action.as_deref(),
        Some("Use `pup --read-only software-catalog entities list --filter-ref 'service:default/a'` to verify the registered entity")
    );
}

#[test]
fn on_call_lists_primary_then_escalation_responders() {
    let data = json(
        r#"{
            "data": {"relationships": {
                "responders": {"data": [{"id": "u1"}]},
                "escalations": {"data": [{"id": "step1"}]}
            }},
            "included": [
                {"type": "users", "id": "u1", "attributes": {"name": "Ann", "email": "ann@x"}},
                {"type": "users", "id": "u2", "attributes": {"name": "Bob"}},
                {"type": "escalation", "id": "step1", "relationships": {"responders": {"data": [{"id": "u1"}, {"id": "u2"}]}}}
            ]
        }"#,
    );
    let info = on_call_from_response(&data).unwrap();
    assert_eq!(info.responders.len(), 2);
    assert_eq!(info.responders[0].name, "Ann");
    assert_eq!(info.responders[0].level.as_deref(), Some("primary"));
    assert_eq!(info.responders[1].name, "Bob");
    assert_eq!(info.responders[1].email, "");
    assert_eq!(info.responders[1].level.as_deref(), Some("escalation"));
    assert!(on_call_from_response(&json(r#"{"data": {}}"#)).is_none());
    assert!(on_call_from_response(&json(r#"{"included": []}"#)).is_none());
}

#[test]
fn owner_and_team_come_from_the_first_team_included() {
    let included = json(
        r#"[{"type": "service"}, {"type": "team", "attributes": {"handle": "idp", "summary": "Portal", "user_count": 7, "id": "t-1"}}]"#,
    );
    let owner = extract_owner(&included, Vec::new()).unwrap();
    assert_eq!(owner.team_handle, "idp");
    assert_eq!(owner.description.as_deref(), Some("Portal"));
    assert_eq!(owner.member_count, 7);
    assert!(owner.team_name.is_none());
    assert_eq!(extract_team_id(&included).as_deref(), Some("t-1"));
    assert!(extract_owner(&json("{}"), Vec::new()).is_none());
}

#[test]
fn health_counts_default_to_zero() {
    let attrs = json(r#"{"alert_monitors_count": 2, "ok_slos_count": 1.5, "breached_slos_count": -1}"#);
    let h = extract_health(Some(&attrs));
    assert_eq!(h.status, "unknown");
    assert_eq!(h.monitors.alert, 2);
    assert_eq!(h.monitors.ok, 0);
    assert_eq!(h.slos.ok, 0);
    assert_eq!(h.slos.breached, -1);
}

#[test]
fn assist_reports_context_and_next_steps() {
    let data = json(
        r#"{"data": [{"type": "service", "attributes": {"name": "checkout", "alert_monitors_count": 1,
            "links": [{"name": "RB", "type": "runbook", "url": "http://rb"}]}}]}"#,
    );
    let report = assist_report("checkout", &data, None).ok().unwrap();
    assert_eq!(report.entity.entity_ref, "service:checkout");
    assert!(report.owner.is_none());
    assert_eq!(report.links.len(), 1);
    assert_eq!(
        report.metadata_gaps,
        vec!["description not set", "lifecycle not set", "tier not set", "no documentation link"]
    );
    assert!(report.suggested_next_actions[0].starts_with("Investigate active alerts"));
    assert!(matches!(included_list(&data), Json::Array(a) if a.is_empty()));
    assert!(assist_report("x", &json("{}"), None).is_err());
    assert_eq!(
        assist_metadata("checkout").next_action.as_deref(),
        Some("Use `pup idp owner checkout` for full ownership details, or `pup idp deps checkout` for dependency graph")
    );
    assert!(get(&data, "data").is_some());
}
