use pup_commands::idp::migrate::detect_version;
use pup_commands::idp::migrate_docs::{merge_companion_systems, migrate_all, migrate_document};
use pup_commands::idp::migrate_v1::migrate_v1;
use pup_commands::idp::migrate_v2::{migrate_v2, migrate_v2_1, migrate_v2_2};
use pup_commands::json::{get, Json};

fn to_json(v: &serde_json::Value) -> Json {
    match v {
        serde_json::Value::Null => Json::Null,
        serde_json::Value::Bool(b) => Json::Bool(*b),
        serde_json::Value::Number(n) => Json::Number(n.to_string()),
        serde_json::Value::String(s) => Json::Str(s.clone()),
        serde_json::Value::Array(a) => Json::Array(a.iter().map(to_json).collect()),
        serde_json::Value::Object(m) => {
            Json::Object(m.iter().map(|(k, x)| (k.clone(), to_json(x))).collect())
        }
    }
}

fn parse(yaml: &str) -> Json {
    let v: serde_json::Value = serde_norway::from_str(yaml).expect("invalid yaml in test");
    to_json(&v)
}

fn at<'a>(j: &'a Json, path: &[&str]) -> Option<&'a Json> {
    let mut cur = j;
    for k in path {
        cur = get(cur, k)?;
    }
    Some(cur)
}

fn text<'a>(j: &'a Json, path: &[&str]) -> Option<&'a str> {
    match at(j, path) {
        Some(Json::Str(s)) => Some(s.as_str()),
        _ => None,
    }
}

fn arr<'a>(j: &'a Json, path: &[&str]) -> &'a [Json] {
    match at(j, path) {
        Some(Json::Array(a)) => a.as_slice(),
        _ => &[],
    }
}

fn str_item(j: &Json) -> Option<&str> {
    match j {
        Json::Str(s) => Some(s.as_str()),
        _ => None,
    }
}

// --- multi-document handling ---

#[test]
fn test_v3_passthrough() {
    let input = "apiVersion: v3\nkind: service\nmetadata:\n  name: already-v3-service\n";
    let docs = migrate_all(input).unwrap().documents;
    assert_eq!(docs.len(), 1);
    assert_eq!(text(&docs[0], &["metadata", "name"]), Some("already-v3-service"));
    assert_eq!(text(&docs[0], &["apiVersion"]), Some("v3"));
}

#[test]
fn test_migrate_all_single_doc() {
    let input = "schema-version: v2\ndd-service: my-svc\nteam: my-team\n";
    let docs = migrate_all(input).unwrap().documents;
    assert_eq!(docs.len(), 1);
    assert_eq!(text(&docs[0], &["metadata", "name"]), Some("my-svc"));
}

#[test]
fn test_companion_deduplication() {
    let input = [
        "---\nschema-version: v2.1\ndd-service: buildbarn-frontend\nteam: ci-team\napplication: Buildbarn\n",
        "---\nschema-version: v2.1\ndd-service: buildbarn-storage\nteam: ci-team\napplication: Buildbarn\n",
    ]
    .concat();
    let docs = migrate_all(&input).unwrap().documents;
    // 2 service entities + 1 merged system entity
    assert_eq!(docs.len(), 3);
    let system = docs.iter().find(|d| text(d, &["kind"]) == Some("system")).unwrap();
    assert_eq!(text(system, &["metadata", "name"]), Some("Buildbarn"));
    let components = arr(system, &["spec", "components"]);
    assert_eq!(components.len(), 2);
    assert!(components
        .iter()
        .any(|c| str_item(c).unwrap_or("").contains("buildbarn-frontend")));
    assert!(components
        .iter()
        .any(|c| str_item(c).unwrap_or("").contains("buildbarn-storage")));
}

#[test]
fn test_unknown_fields_in_extensions() {
    let input = "schema-version: v2\ndd-service: svc\nteam: t\ncustom-field: hello\n";
    let docs = migrate_all(input).unwrap().documents;
    assert_eq!(text(&docs[0], &["extensions", "x-migrated/custom-field"]), Some("hello"));
}

// --- v1 migration ---

#[test]
fn test_migrate_v1_full() {
    let input = r##"
schema-version: v1
info:
  dd-service: payment-service
  display-name: Payment Service
  description: Handles payment processing
  service-tier: Tier 1
org:
  team: payments-team
  application: checkout-platform
contact:
  email: payments@example.com
  slack: "#payments-oncall"
tags:
  - "env:production"
  - "team:payments"
external-resources:
  - name: Runbook
    type: wiki
    url: https://wiki.example.com/payments/runbook
  - name: Source Code
    type: code
    url: https://github.com/example/payment-service
integrations:
  pagerduty: https://events.pagerduty.com/integration/abc123/enqueue
  github: https://github.com/example/payment-service
extensions:
  datadoghq.com/slo:
    - id: slo-payment-availability
"##;
    let doc = parse(input);
    let m = migrate_v1(&doc);
    let (entity, companions) = (m.entity, m.companions);
    assert_eq!(text(&entity, &["apiVersion"]), Some("v3"));
    assert_eq!(text(&entity, &["kind"]), Some("service"));
    assert_eq!(text(&entity, &["metadata", "name"]), Some("payment-service"));
    assert_eq!(text(&entity, &["metadata", "displayName"]), Some("Payment Service"));
    assert_eq!(
        text(&entity, &["metadata", "description"]),
        Some("Handles payment processing")
    );
    assert_eq!(text(&entity, &["metadata", "owner"]), Some("payments-team"));
    let tags = arr(&entity, &["metadata", "tags"]);
    assert!(tags.iter().any(|t| str_item(t) == Some("env:production")));
    let contacts = arr(&entity, &["metadata", "contacts"]);
    assert!(contacts.iter().any(|c| text(c, &["type"]) == Some("email")
        && text(c, &["contact"]) == Some("payments@example.com")));
    assert!(contacts.iter().any(|c| text(c, &["type"]) == Some("slack")));
    let links = arr(&entity, &["metadata", "links"]);
    let runbook = links.iter().find(|l| text(l, &["name"]) == Some("Runbook")).unwrap();
    assert_eq!(text(runbook, &["type"]), Some("doc")); // wiki → doc
    let code = links.iter().find(|l| text(l, &["name"]) == Some("Source Code")).unwrap();
    assert_eq!(text(code, &["type"]), Some("repo")); // code → repo
    assert!(links
        .iter()
        .any(|l| text(l, &["name"]) == Some("GitHub") && text(l, &["type"]) == Some("repo")));
    assert_eq!(text(&entity, &["spec", "tier"]), Some("Tier 1"));
    assert_eq!(
        str_item(&arr(&entity, &["spec", "componentOf"])[0]),
        Some("system:checkout-platform")
    );
    assert_eq!(
        text(&entity, &["integrations", "pagerduty", "serviceURL"]),
        Some("https://events.pagerduty.com/integration/abc123/enqueue")
    );
    assert!(matches!(at(&entity, &["extensions", "datadoghq.com/slo"]), Some(Json::Array(_))));
    assert_eq!(companions.len(), 1);
    assert_eq!(text(&companions[0], &["kind"]), Some("system"));
    assert_eq!(text(&companions[0], &["metadata", "name"]), Some("checkout-platform"));
    assert_eq!(
        str_item(&arr(&companions[0], &["spec", "components"])[0]),
        Some("service:payment-service")
    );
}

#[test]
fn test_migrate_v1_minimal() {
    let doc = parse("schema-version: v1\ninfo:\n  dd-service: my-minimal-service\n");
    let m = migrate_v1(&doc);
    let (entity, companions) = (m.entity, m.companions);
    assert_eq!(text(&entity, &["apiVersion"]), Some("v3"));
    assert_eq!(text(&entity, &["kind"]), Some("service"));
    assert_eq!(text(&entity, &["metadata", "name"]), Some("my-minimal-service"));
    assert!(match at(&entity, &["spec"]) {
        None => true,
        Some(Json::Object(m)) => m.is_empty(),
        Some(_) => true,
    });
    assert!(companions.is_empty());
}

// --- v2 migration ---

#[test]
fn test_migrate_v2_minimal() {
    let doc = parse("schema-version: v2\ndd-service: my-v2-service\nteam: my-team\n");
    let m = migrate_v2(&doc);
    let (entity, companions) = (m.entity, m.companions);
    assert_eq!(text(&entity, &["apiVersion"]), Some("v3"));
    assert_eq!(text(&entity, &["metadata", "name"]), Some("my-v2-service"));
    assert_eq!(text(&entity, &["metadata", "owner"]), Some("my-team"));
    assert!(companions.is_empty());
}

#[test]
fn test_migrate_v2_full() {
    let input = r##"
schema-version: v2
dd-service: inventory-service
team: inventory-team
contacts:
  - name: On-Call
    type: slack
    contact: "#inventory-oncall"
links:
  - name: Dashboard
    type: dashboard
    url: https://app.datadoghq.com/dashboard/abc-123
  - name: Old Wiki
    type: wiki
    url: https://wiki.example.com/inventory
repos:
  - name: Main Repo
    provider: Github
    url: https://github.com/example/inventory-service
docs:
  - name: API Docs
    provider: Confluence
    url: https://confluence.example.com/inventory/api
tags:
  - "env:production"
integrations:
  pagerduty: https://events.pagerduty.com/integration/def456/enqueue
  opsgenie:
    service-url: https://api.opsgenie.com/v2/alerts/inventory
    region: US
extensions:
  datadoghq.com/feature-flags:
    enabled: true
"##;
    let doc = parse(input);
    let m = migrate_v2(&doc);
    let (entity, companions) = (m.entity, m.companions);
    assert_eq!(text(&entity, &["metadata", "name"]), Some("inventory-service"));
    let links = arr(&entity, &["metadata", "links"]);
    assert!(links
        .iter()
        .any(|l| text(l, &["name"]) == Some("Old Wiki") && text(l, &["type"]) == Some("doc")));
    assert!(links.iter().any(|l| text(l, &["type"]) == Some("repo")
        && text(l, &["url"]) == Some("https://github.com/example/inventory-service")));
    assert!(links.iter().any(|l| text(l, &["type"]) == Some("doc")
        && text(l, &["url"]) == Some("https://confluence.example.com/inventory/api")));
    assert_eq!(
        text(&entity, &["integrations", "pagerduty", "serviceURL"]),
        Some("https://events.pagerduty.com/integration/def456/enqueue")
    );
    assert_eq!(
        text(&entity, &["integrations", "opsgenie", "serviceURL"]),
        Some("https://api.opsgenie.com/v2/alerts/inventory")
    );
    assert_eq!(text(&entity, &["integrations", "opsgenie", "region"]), Some("US"));
    assert!(matches!(
        at(&entity, &["extensions", "datadoghq.com/feature-flags", "enabled"]),
        Some(Json::Bool(true))
    ));
    assert!(companions.is_empty());
}

#[test]
fn test_migrate_v2_link_types() {
    let input = "schema-version: v2\ndd-service: svc\nlinks:\n  - { name: A, type: wiki,    url: http://a }\n  - { name: B, type: code,    url: http://b }\n  - { name: C, type: url,     url: http://c }\n  - { name: D, type: oncall,  url: http://d }\n  - { name: E, type: runbook, url: http://e }\n";
    let doc = parse(input);
    let entity = migrate_v2(&doc).entity;
    let links = arr(&entity, &["metadata", "links"]);
    let t = |name: &str| {
        text(links.iter().find(|l| text(l, &["name"]) == Some(name)).unwrap(), &["type"])
            .unwrap()
            .to_string()
    };
    assert_eq!(t("A"), "doc");
    assert_eq!(t("B"), "repo");
    assert_eq!(t("C"), "other");
    assert_eq!(t("D"), "other");
    assert_eq!(t("E"), "runbook");
}

// --- v2.1 migration ---

#[test]
fn test_migrate_v2_1_full() {
    let input = r##"
schema-version: v2.1
dd-service: order-service
team: orders-team
description: Manages order lifecycle
application: commerce-platform
tier: High
lifecycle: production
contacts:
  - name: Orders On-Call
    type: slack
    contact: "#orders-oncall"
repos:
  - name: Orders Service
    provider: Github
    url: https://github.com/example/order-service
integrations:
  pagerduty:
    service-url: https://events.pagerduty.com/integration/ghi789/enqueue
  opsgenie:
    service-url: https://api.opsgenie.com/v2/alerts/orders
    region: EU
"##;
    let doc = parse(input);
    let m = migrate_v2_1(&doc);
    let (entity, companions) = (m.entity, m.companions);
    assert_eq!(text(&entity, &["metadata", "name"]), Some("order-service"));
    assert_eq!(text(&entity, &["metadata", "owner"]), Some("orders-team"));
    assert_eq!(text(&entity, &["metadata", "description"]), Some("Manages order lifecycle"));
    assert_eq!(text(&entity, &["spec", "lifecycle"]), Some("production"));
    assert_eq!(text(&entity, &["spec", "tier"]), Some("High"));
    assert_eq!(
        str_item(&arr(&entity, &["spec", "componentOf"])[0]),
        Some("system:commerce-platform")
    );
    assert_eq!(
        text(&entity, &["integrations", "pagerduty", "serviceURL"]),
        Some("https://events.pagerduty.com/integration/ghi789/enqueue")
    );
    assert_eq!(text(&entity, &["integrations", "opsgenie", "region"]), Some("EU"));
    let links = arr(&entity, &["metadata", "links"]);
    assert!(links.iter().any(|l| text(l, &["type"]) == Some("repo")
        && text(l, &["url"]) == Some("https://github.com/example/order-service")));
    assert_eq!(companions.len(), 1);
    assert_eq!(text(&companions[0], &["metadata", "name"]), Some("commerce-platform"));
}

#[test]
fn test_migrate_v2_1_companion() {
    let doc = parse(
        "schema-version: v2.1\ndd-service: buildbarn-frontend\nteam: ci-team\napplication: Buildbarn\n",
    );
    let m = migrate_v2_1(&doc);
    let (entity, companions) = (m.entity, m.companions);
    assert_eq!(str_item(&arr(&entity, &["spec", "componentOf"])[0]), Some("system:Buildbarn"));
    assert_eq!(text(&companions[0], &["metadata", "name"]), Some("Buildbarn"));
}

// --- v2.2 migration ---

#[test]
fn test_migrate_v2_2_full() {
    let input = r#"
schema-version: v2.2
dd-service: shipping-service
team: logistics-team
description: Manages shipping operations
application: fulfillment-platform
tier: High
lifecycle: production
type: web
languages:
  - go
  - python
ci-pipeline-fingerprints:
  - abc123def456
links:
  - name: Internal Wiki
    type: wiki
    url: https://wiki.example.com/shipping
  - name: Oncall Docs
    type: oncall
    url: https://oncall.example.com/shipping
integrations:
  pagerduty:
    service-url: https://events.pagerduty.com/integration/jkl012/enqueue
"#;
    let doc = parse(input);
    let m = migrate_v2_2(&doc);
    let (entity, companions) = (m.entity, m.companions);
    assert_eq!(text(&entity, &["metadata", "name"]), Some("shipping-service"));
    assert_eq!(text(&entity, &["spec", "type"]), Some("web"));
    assert_eq!(text(&entity, &["spec", "lifecycle"]), Some("production"));
    let langs = arr(&entity, &["spec", "languages"]);
    assert!(langs.iter().any(|l| str_item(l) == Some("go")));
    assert_eq!(
        str_item(&arr(&entity, &["datadog", "pipelines", "fingerprints"])[0]),
        Some("abc123def456")
    );
    let links = arr(&entity, &["metadata", "links"]);
    assert!(links
        .iter()
        .any(|l| text(l, &["name"]) == Some("Internal Wiki") && text(l, &["type"]) == Some("doc")));
    assert!(links
        .iter()
        .any(|l| text(l, &["name"]) == Some("Oncall Docs") && text(l, &["type"]) == Some("other")));
    assert_eq!(
        text(&entity, &["integrations", "pagerduty", "serviceURL"]),
        Some("https://events.pagerduty.com/integration/jkl012/enqueue")
    );
    assert_eq!(companions.len(), 1);
    assert_eq!(text(&companions[0], &["metadata", "name"]), Some("fulfillment-platform"));
}

#[test]
fn test_migrate_v2_2_unknown_fields_in_extensions() {
    let doc = parse("schema-version: v2.2\ndd-service: svc\nteam: t\ncustom-field: hello\n");
    let entity = migrate_v2_2(&doc).entity;
    assert_eq!(text(&entity, &["extensions", "x-migrated/custom-field"]), Some("hello"));
}

// --- version detection ---

#[test]
fn test_detect_v3() {
    let doc = parse("apiVersion: v3\nkind: service\nmetadata:\n  name: foo\n");
    assert_eq!(detect_version(&doc), "v3");
}

#[test]
fn test_detect_v2_2() {
    let doc = parse("schema-version: v2.2\ndd-service: foo\n");
    assert_eq!(detect_version(&doc), "v2.2");
}

#[test]
fn test_detect_v2_1() {
    let doc = parse("schema-version: v2.1\ndd-service: foo\n");
    assert_eq!(detect_version(&doc), "v2.1");
}

#[test]
fn test_detect_v2() {
    let doc = parse("schema-version: v2\ndd-service: foo\n");
    assert_eq!(detect_version(&doc), "v2");
}

#[test]
fn test_detect_v1_explicit() {
    let doc = parse("schema-version: v1\nkind: service\ninfo:\n  dd-service: foo\n");
    assert_eq!(detect_version(&doc), "v1");
}

#[test]
fn test_detect_v1_implicit() {
    let doc = parse("info:\n  dd-service: my-service\n");
    assert_eq!(detect_version(&doc), "v1");
}

#[test]
fn test_detect_v1_noncatalog() {
    let doc = parse("schema-version: v1\nkind: mergequeue\nname: foo\n");
    assert_eq!(detect_version(&doc), "v1-noncatalog");
}

#[test]
fn test_detect_unknown() {
    let doc = parse("schema-version: v99\ndd-service: foo\n");
    assert_eq!(detect_version(&doc), "unknown");
}

#[test]
fn test_detect_no_version_no_info() {
    let doc = parse("some-key: some-value\n");
    assert_eq!(detect_version(&doc), "unknown");
}

// --- further cases ---

#[test]
fn migrated_entity_members_come_in_canonical_order() {
    let doc = parse(
        "schema-version: v2.2\ndd-service: svc\nteam: t\ntier: High\nlifecycle: production\ncustom: 1\nci-pipeline-fingerprints: [fp]\n",
    );
    let entity = migrate_v2_2(&doc).entity;
    let keys: Vec<&str> = match &entity {
        Json::Object(es) => es.iter().map(|(k, _)| k.as_str()).collect(),
        _ => vec![],
    };
    assert_eq!(keys, vec!["apiVersion", "kind", "metadata", "spec", "datadog", "extensions"]);
    let spec_keys: Vec<&str> = match at(&entity, &["spec"]) {
        Some(Json::Object(es)) => es.iter().map(|(k, _)| k.as_str()).collect(),
        _ => vec![],
    };
    assert_eq!(spec_keys, vec!["lifecycle", "tier"]);
}

#[test]
fn v2_1_does_not_know_type_and_languages() {
    let doc = parse("schema-version: v2.1\ndd-service: svc\ntype: web\nlanguages: [go]\n");
    let entity = migrate_v2_1(&doc).entity;
    assert_eq!(at(&entity, &["spec", "type"]).is_none(), true);
    assert_eq!(text(&entity, &["extensions", "x-migrated/type"]), Some("web"));
    assert_eq!(arr(&entity, &["extensions", "x-migrated/languages"]).len(), 1);
}

#[test]
fn opsgenie_without_service_url_is_kept_in_extensions() {
    let doc = parse("schema-version: v2\ndd-service: svc\nintegrations:\n  opsgenie:\n    region: EU\n");
    let m = migrate_v2(&doc);
    assert!(at(&m.entity, &["integrations"]).is_none());
    assert_eq!(
        text(&m.entity, &["extensions", "x-migrated/opsgenie", "region"]),
        Some("EU")
    );
    assert_eq!(
        m.messages,
        vec![
            "WARNING: 'integrations.opsgenie' has no 'service-url'. Preserving in extensions['x-migrated/opsgenie']."
                .to_string()
        ]
    );
}

#[test]
fn v1_dependencies_take_the_entity_kind() {
    let doc = parse(
        "schema-version: v1\ninfo:\n  dd-queue: jobs\ndependencies: [db, \"service:api\", 3]\n",
    );
    let entity = migrate_v1(&doc).entity;
    assert_eq!(text(&entity, &["kind"]), Some("queue"));
    let deps: Vec<&str> = arr(&entity, &["spec", "dependsOn"]).iter().filter_map(str_item).collect();
    assert_eq!(deps, vec!["queue:db", "service:api"]);
}

#[test]
fn v1_application_gives_a_warning() {
    let doc = parse("schema-version: v1\ninfo:\n  dd-service: s\norg:\n  application: app\n");
    let m = migrate_v1(&doc);
    assert_eq!(
        m.messages,
        vec!["WARNING: 'org.application' field found (value: 'app'). A companion 'kind: system' entity will be generated.".to_string()]
    );
}

#[test]
fn noncatalog_and_unknown_documents_pass_through() {
    let doc = parse("schema-version: v1\nkind: mergequeue\nname: foo\n");
    let m = migrate_document(&doc);
    assert_eq!(text(&m.entity, &["name"]), Some("foo"));
    assert_eq!(
        m.messages,
        vec!["WARNING: schema-version=v1, kind='mergequeue' is not a catalog entity. Passing through.".to_string()]
    );
    let doc = parse("some-key: some-value\n");
    let m = migrate_document(&doc);
    assert_eq!(text(&m.entity, &["some-key"]), Some("some-value"));
    assert!(m.companions.is_empty());
    let v3 = migrate_document(&parse("apiVersion: v3\nkind: service\n"));
    assert_eq!(
        v3.messages,
        vec!["INFO: '(unknown)' is already v3, passing through unchanged.".to_string()]
    );
}

#[test]
fn migrate_all_skips_blank_and_non_mapping_documents() {
    let r = migrate_all("---\n\n---\n- a\n- b\n---\nschema-version: v2\ndd-service: s\n").unwrap();
    assert_eq!(r.documents.len(), 1);
    assert_eq!(r.messages, vec!["WARNING: Skipping non-mapping YAML document.".to_string()]);
    assert!(migrate_all("").unwrap().documents.is_empty());
}

#[test]
fn migrate_all_reports_a_parse_error() {
    let e = migrate_all("a: [unclosed\n").err().unwrap();
    assert!(e.starts_with("failed to parse YAML document: "));
}

#[test]
fn merged_systems_keep_each_component_once() {
    let mk = |name: &str, comp: &str| {
        parse(&format!(
            "apiVersion: v3\nkind: system\nmetadata:\n  name: {name}\nspec:\n  components: [\"{comp}\"]\n"
        ))
    };
    let merged = merge_companion_systems(vec![
        mk("A", "service:x"),
        mk("B", "service:y"),
        mk("A", "service:x"),
        mk("A", "service:z"),
    ]);
    assert_eq!(merged.len(), 2);
    let comps: Vec<&str> = arr(&merged[0], &["spec", "components"]).iter().filter_map(str_item).collect();
    assert_eq!(comps, vec!["service:x", "service:z"]);
    assert_eq!(text(&merged[1], &["metadata", "name"]), Some("B"));
}
