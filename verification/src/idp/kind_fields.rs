//! Default field lists of entity kinds.
use vstd::prelude::*;

use crate::text::{chars_eq, to_chars};

verus! {

/// The views of a sequence of string slices.
pub open spec fn str_views(s: Seq<&str>) -> Seq<Seq<char>> {
    s.map_values(|x: &str| x@)
}

/// The fields requested by default for results of a kind.
pub open spec fn default_fields(kind: Seq<char>) -> Seq<Seq<char>> {
    if kind == "service"@ {
        seq!["name"@, "display_name"@, "owner"@, "team"@, "tier"@, "lifecycle"@, "service_health_status"@, "description"@, "contacts"@, "links"@, "additional_owners"@, "html_url"@, "ref"@]
    } else if kind == "team"@ {
        seq!["name"@, "handle"@, "description"@, "user_count"@, "html_url"@, "ref"@]
    } else if kind == "user"@ {
        seq!["name"@, "email"@, "handle"@, "title"@, "status"@, "ref"@]
    } else if kind == "system"@ {
        seq!["name"@, "display_name"@, "owner"@, "description"@, "html_url"@, "ref"@]
    } else if kind == "repository"@ {
        seq!["name"@, "display_name"@, "owner"@, "default_branch"@, "definition_github_url"@, "ref"@]
    } else if kind == "github.repository"@ {
        seq!["name"@, "name_with_owner"@, "url"@, "visibility"@, "open_pull_requests_count"@, "ref"@]
    } else if kind == "integration.github.repository"@ {
        seq!["name"@, "display_name"@, "full_name"@, "owner"@, "html_url"@, "ref"@]
    } else if kind == "code_location"@ {
        seq!["name"@, "repository_id"@, "path_pattern"@, "source"@, "entity_ref"@, "ref"@]
    } else if kind == "ai_skill"@ {
        seq!["name"@, "description"@, "owner"@, "team"@, "scope"@, "source_repo"@, "source_path"@, "source_url"@, "tags"@, "updated_at"@, "ref"@]
    } else if kind == "scorecard_outcome"@ {
        seq!["entity_reference"@, "entity_kind"@, "entity_owner"@, "rule_name"@, "rule_id"@, "state"@, "level"@, "ref"@]
    } else if kind == "scorecard_rule"@ {
        seq!["name"@, "description"@, "level"@, "ref"@]
    } else if kind == "incident"@ {
        seq!["public_id"@, "title"@, "state"@, "severity"@, "service_names"@, "teams"@, "visibility"@]
    } else if kind == "monitor"@ {
        seq!["name"@, "status"@, "monitor_id"@, "service_tags"@, "host_tags"@, "env"@, "timestamp"@, "muted"@]
    } else if kind == "slo"@ {
        seq!["name"@, "state"@, "target_threshold"@, "sli"@, "service_names"@, "team_names"@, "error_budget_remaining"@]
    } else if kind == "current_oncall"@ {
        seq!["current_oncall_id"@, "oncall_service_id"@, "provider"@, "user_name"@, "user_email"@, "escalation_level"@]
    } else if kind == "integration.github.pull_request"@ {
        seq!["title"@, "state"@, "updated_at"@, "mergeable"@, "changed_files"@, "html_url"@, "ref"@]
    } else if kind == "github.pull_request"@ {
        seq!["title"@, "state"@, "updated_at"@, "mergeable"@, "review_decision"@, "url"@, "ref"@]
    } else if kind == "integration.jira.issue"@ {
        seq!["key"@, "summary"@, "status"@, "status_category"@, "priority"@, "assignee_name"@, "due_date"@, "html_url"@, "ref"@]
    } else if kind == "api_endpoint"@ {
        seq!["resource_name"@, "http_method"@, "http_route"@, "http_hosts"@, "endpoint_is_public"@, "endpoint_authenticated"@, "endpoint_is_rate_limited"@, "service_name"@, "team_names"@, "last_seen_traffic_at"@, "ref"@]
    } else if kind == "library_vulnerability"@ {
        seq!["severity"@, "repository_id"@, "services"@, "package_normalized_name"@, "package_version"@, "advisory_id"@]
    } else if kind == "source_code_vulnerability"@ {
        seq!["severity"@, "repository_id"@, "service_name"@, "package_decl_filename"@, "code_location_filename"@, "finding_type"@]
    } else if kind == "secret"@ || kind == "iac_misconfiguration"@ {
        seq!["severity"@, "repository_id"@]
    } else if kind == "source_code_vulnerability_secfinding"@ {
        seq!["severity"@, "finding_type"@, "repository_id"@, "service_name"@, "code_location_filename"@, "package_decl_filename"@]
    } else if kind == "integration.k8s.deployment"@ {
        seq!["name"@, "team"@, "service"@, "cluster_name"@, "namespace"@, "available_replicas"@, "ready_replicas"@, "replicas_desired"@, "unavailable_replicas"@, "status"@, "html_url"@]
    } else if kind == "recommended_system"@ {
        seq!["name"@, "display_name"@, "status"@, "owners"@, "components"@, "description"@, "html_url"@, "created_at"@]
    } else if kind == "code_violation"@ {
        seq!["status"@, "k9_severity"@, "associated_service"@, "repository_id"@, "category"@, "message"@]
    } else {
        generic_fields()
    }
}

/// The kinds that have their own default field list.
pub open spec fn specific_kind(kind: Seq<char>) -> bool {
    kind == "service"@
        || kind == "team"@
        || kind == "user"@
        || kind == "system"@
        || kind == "repository"@
        || kind == "github.repository"@
        || kind == "integration.github.repository"@
        || kind == "code_location"@
        || kind == "ai_skill"@
        || kind == "scorecard_outcome"@
        || kind == "scorecard_rule"@
        || kind == "incident"@
        || kind == "monitor"@
        || kind == "slo"@
        || kind == "current_oncall"@
        || kind == "integration.github.pull_request"@
        || kind == "github.pull_request"@
        || kind == "integration.jira.issue"@
        || kind == "api_endpoint"@
        || kind == "library_vulnerability"@
        || kind == "source_code_vulnerability"@
        || kind == "secret"@
        || kind == "iac_misconfiguration"@
        || kind == "source_code_vulnerability_secfinding"@
        || kind == "integration.k8s.deployment"@
        || kind == "recommended_system"@
        || kind == "code_violation"@
}

/// The fields requested by default for results of a kind (see [`default_fields`]).
pub fn default_fields_for_kind(kind: &str) -> (r: Vec<&'static str>)
    ensures
        str_views(r@) == default_fields(kind@),
{
    let k = to_chars(kind);
    if chars_eq(&k, &to_chars("service")) {
        let r = vec!["name", "display_name", "owner", "team", "tier", "lifecycle", "service_health_status", "description", "contacts", "links", "additional_owners", "html_url", "ref"];
        assert(str_views(r@) =~= seq!["name"@, "display_name"@, "owner"@, "team"@, "tier"@, "lifecycle"@, "service_health_status"@, "description"@, "contacts"@, "links"@, "additional_owners"@, "html_url"@, "ref"@]);
        r
    } else if chars_eq(&k, &to_chars("team")) {
        let r = vec!["name", "handle", "description", "user_count", "html_url", "ref"];
        assert(str_views(r@) =~= seq!["name"@, "handle"@, "description"@, "user_count"@, "html_url"@, "ref"@]);
        r
    } else if chars_eq(&k, &to_chars("user")) {
        let r = vec!["name", "email", "handle", "title", "status", "ref"];
        assert(str_views(r@) =~= seq!["name"@, "email"@, "handle"@, "title"@, "status"@, "ref"@]);
        r
    } else if chars_eq(&k, &to_chars("system")) {
        let r = vec!["name", "display_name", "owner", "description", "html_url", "ref"];
        assert(str_views(r@) =~= seq!["name"@, "display_name"@, "owner"@, "description"@, "html_url"@, "ref"@]);
        r
    } else if chars_eq(&k, &to_chars("repository")) {
        let r = vec!["name", "display_name", "owner", "default_branch", "definition_github_url", "ref"];
        assert(str_views(r@) =~= seq!["name"@, "display_name"@, "owner"@, "default_branch"@, "definition_github_url"@, "ref"@]);
        r
    } else if chars_eq(&k, &to_chars("github.repository")) {
        let r = vec!["name", "name_with_owner", "url", "visibility", "open_pull_requests_count", "ref"];
        assert(str_views(r@) =~= seq!["name"@, "name_with_owner"@, "url"@, "visibility"@, "open_pull_requests_count"@, "ref"@]);
        r
    } else if chars_eq(&k, &to_chars("integration.github.repository")) {
        let r = vec!["name", "display_name", "full_name", "owner", "html_url", "ref"];
        assert(str_views(r@) =~= seq!["name"@, "display_name"@, "full_name"@, "owner"@, "html_url"@, "ref"@]);
        r
    } else if chars_eq(&k, &to_chars("code_location")) {
        let r = vec!["name", "repository_id", "path_pattern", "source", "entity_ref", "ref"];
        assert(str_views(r@) =~= seq!["name"@, "repository_id"@, "path_pattern"@, "source"@, "entity_ref"@, "ref"@]);
        r
    } else if chars_eq(&k, &to_chars("ai_skill")) {
        let r = vec!["name", "description", "owner", "team", "scope", "source_repo", "source_path", "source_url", "tags", "updated_at", "ref"];
        assert(str_views(r@) =~= seq!["name"@, "description"@, "owner"@, "team"@, "scope"@, "source_repo"@, "source_path"@, "source_url"@, "tags"@, "updated_at"@, "ref"@]);
        r
    } else if chars_eq(&k, &to_chars("scorecard_outcome")) {
        let r = vec!["entity_reference", "entity_kind", "entity_owner", "rule_name", "rule_id", "state", "level", "ref"];
        assert(str_views(r@) =~= seq!["entity_reference"@, "entity_kind"@, "entity_owner"@, "rule_name"@, "rule_id"@, "state"@, "level"@, "ref"@]);
        r
    } else if chars_eq(&k, &to_chars("scorecard_rule")) {
        let r = vec!["name", "description", "level", "ref"];
        assert(str_views(r@) =~= seq!["name"@, "description"@, "level"@, "ref"@]);
        r
    } else if chars_eq(&k, &to_chars("incident")) {
        let r = vec!["public_id", "title", "state", "severity", "service_names", "teams", "visibility"];
        assert(str_views(r@) =~= seq!["public_id"@, "title"@, "state"@, "severity"@, "service_names"@, "teams"@, "visibility"@]);
        r
    } else if chars_eq(&k, &to_chars("monitor")) {
        let r = vec!["name", "status", "monitor_id", "service_tags", "host_tags", "env", "timestamp", "muted"];
        assert(str_views(r@) =~= seq!["name"@, "status"@, "monitor_id"@, "service_tags"@, "host_tags"@, "env"@, "timestamp"@, "muted"@]);
        r
    } else if chars_eq(&k, &to_chars("slo")) {
        let r = vec!["name", "state", "target_threshold", "sli", "service_names", "team_names", "error_budget_remaining"];
        assert(str_views(r@) =~= seq!["name"@, "state"@, "target_threshold"@, "sli"@, "service_names"@, "team_names"@, "error_budget_remaining"@]);
        r
    } else if chars_eq(&k, &to_chars("current_oncall")) {
        let r = vec!["current_oncall_id", "oncall_service_id", "provider", "user_name", "user_email", "escalation_level"];
        assert(str_views(r@) =~= seq!["current_oncall_id"@, "oncall_service_id"@, "provider"@, "user_name"@, "user_email"@, "escalation_level"@]);
        r
    } else if chars_eq(&k, &to_chars("integration.github.pull_request")) {
        let r = vec!["title", "state", "updated_at", "mergeable", "changed_files", "html_url", "ref"];
        assert(str_views(r@) =~= seq!["title"@, "state"@, "updated_at"@, "mergeable"@, "changed_files"@, "html_url"@, "ref"@]);
        r
    } else if chars_eq(&k, &to_chars("github.pull_request")) {
        let r = vec!["title", "state", "updated_at", "mergeable", "review_decision", "url", "ref"];
        assert(str_views(r@) =~= seq!["title"@, "state"@, "updated_at"@, "mergeable"@, "review_decision"@, "url"@, "ref"@]);
        r
    } else if chars_eq(&k, &to_chars("integration.jira.issue")) {
        let r = vec!["key", "summary", "status", "status_category", "priority", "assignee_name", "due_date", "html_url", "ref"];
        assert(str_views(r@) =~= seq!["key"@, "summary"@, "status"@, "status_category"@, "priority"@, "assignee_name"@, "due_date"@, "html_url"@, "ref"@]);
        r
    } else if chars_eq(&k, &to_chars("api_endpoint")) {
        let r = vec!["resource_name", "http_method", "http_route", "http_hosts", "endpoint_is_public", "endpoint_authenticated", "endpoint_is_rate_limited", "service_name", "team_names", "last_seen_traffic_at", "ref"];
        assert(str_views(r@) =~= seq!["resource_name"@, "http_method"@, "http_route"@, "http_hosts"@, "endpoint_is_public"@, "endpoint_authenticated"@, "endpoint_is_rate_limited"@, "service_name"@, "team_names"@, "last_seen_traffic_at"@, "ref"@]);
        r
    } else if chars_eq(&k, &to_chars("library_vulnerability")) {
        let r = vec!["severity", "repository_id", "services", "package_normalized_name", "package_version", "advisory_id"];
        assert(str_views(r@) =~= seq!["severity"@, "repository_id"@, "services"@, "package_normalized_name"@, "package_version"@, "advisory_id"@]);
        r
    } else if chars_eq(&k, &to_chars("source_code_vulnerability")) {
        let r = vec!["severity", "repository_id", "service_name", "package_decl_filename", "code_location_filename", "finding_type"];
        assert(str_views(r@) =~= seq!["severity"@, "repository_id"@, "service_name"@, "package_decl_filename"@, "code_location_filename"@, "finding_type"@]);
        r
    } else if chars_eq(&k, &to_chars("secret")) || chars_eq(&k, &to_chars("iac_misconfiguration")) {
        let r = vec!["severity", "repository_id"];
        assert(str_views(r@) =~= seq!["severity"@, "repository_id"@]);
        r
    } else if chars_eq(&k, &to_chars("source_code_vulnerability_secfinding")) {
        let r = vec!["severity", "finding_type", "repository_id", "service_name", "code_location_filename", "package_decl_filename"];
        assert(str_views(r@) =~= seq!["severity"@, "finding_type"@, "repository_id"@, "service_name"@, "code_location_filename"@, "package_decl_filename"@]);
        r
    } else if chars_eq(&k, &to_chars("integration.k8s.deployment")) {
        let r = vec!["name", "team", "service", "cluster_name", "namespace", "available_replicas", "ready_replicas", "replicas_desired", "unavailable_replicas", "status", "html_url"];
        assert(str_views(r@) =~= seq!["name"@, "team"@, "service"@, "cluster_name"@, "namespace"@, "available_replicas"@, "ready_replicas"@, "replicas_desired"@, "unavailable_replicas"@, "status"@, "html_url"@]);
        r
    } else if chars_eq(&k, &to_chars("recommended_system")) {
        let r = vec!["name", "display_name", "status", "owners", "components", "description", "html_url", "created_at"];
        assert(str_views(r@) =~= seq!["name"@, "display_name"@, "status"@, "owners"@, "components"@, "description"@, "html_url"@, "created_at"@]);
        r
    } else if chars_eq(&k, &to_chars("code_violation")) {
        let r = vec!["status", "k9_severity", "associated_service", "repository_id", "category", "message"];
        assert(str_views(r@) =~= seq!["status"@, "k9_severity"@, "associated_service"@, "repository_id"@, "category"@, "message"@]);
        r
    } else {
        let r = vec!["name", "display_name", "title", "owner", "team", "status", "state", "html_url", "ref"];
        assert(str_views(r@) =~= seq!["name"@, "display_name"@, "title"@, "owner"@, "team"@, "status"@, "state"@, "html_url"@, "ref"@]);
        r
    }
}

/// Whether a kind has its own default field list (see [`specific_kind`]).
pub fn has_specific_default_fields(kind: &str) -> (r: bool)
    ensures
        r == specific_kind(kind@),
{
    let k = to_chars(kind);
    chars_eq(&k, &to_chars("service"))
        || chars_eq(&k, &to_chars("team"))
        || chars_eq(&k, &to_chars("user"))
        || chars_eq(&k, &to_chars("system"))
        || chars_eq(&k, &to_chars("repository"))
        || chars_eq(&k, &to_chars("github.repository"))
        || chars_eq(&k, &to_chars("integration.github.repository"))
        || chars_eq(&k, &to_chars("code_location"))
        || chars_eq(&k, &to_chars("ai_skill"))
        || chars_eq(&k, &to_chars("scorecard_outcome"))
        || chars_eq(&k, &to_chars("scorecard_rule"))
        || chars_eq(&k, &to_chars("incident"))
        || chars_eq(&k, &to_chars("monitor"))
        || chars_eq(&k, &to_chars("slo"))
        || chars_eq(&k, &to_chars("current_oncall"))
        || chars_eq(&k, &to_chars("integration.github.pull_request"))
        || chars_eq(&k, &to_chars("github.pull_request"))
        || chars_eq(&k, &to_chars("integration.jira.issue"))
        || chars_eq(&k, &to_chars("api_endpoint"))
        || chars_eq(&k, &to_chars("library_vulnerability"))
        || chars_eq(&k, &to_chars("source_code_vulnerability"))
        || chars_eq(&k, &to_chars("secret"))
        || chars_eq(&k, &to_chars("iac_misconfiguration"))
        || chars_eq(&k, &to_chars("source_code_vulnerability_secfinding"))
        || chars_eq(&k, &to_chars("integration.k8s.deployment"))
        || chars_eq(&k, &to_chars("recommended_system"))
        || chars_eq(&k, &to_chars("code_violation"))
}


/// The fields requested for a kind without a list of its own.
pub open spec fn generic_fields() -> Seq<Seq<char>> {
    seq!["name"@, "display_name"@, "title"@, "owner"@, "team"@, "status"@, "state"@, "html_url"@, "ref"@]
}

/// No field occurs twice.
pub open spec fn distinct_fields(s: Seq<Seq<char>>) -> bool {
    forall|i: int, j: int| 0 <= i < j < s.len() ==> s[i] != s[j]
}

proof fn lemma_generic_fields_distinct()
    ensures
        distinct_fields(seq!["name"@, "display_name"@, "title"@, "owner"@, "team"@, "status"@, "state"@, "html_url"@, "ref"@]),
{
    reveal_strlit("name");
    assert("name"@.len() == 4);
    reveal_strlit("display_name");
    assert("display_name"@.len() == 12);
    reveal_strlit("title");
    assert("title"@.len() == 5);
    reveal_strlit("owner");
    assert("owner"@.len() == 5);
    reveal_strlit("team");
    assert("team"@.len() == 4);
    reveal_strlit("status");
    assert("status"@.len() == 6);
    reveal_strlit("state");
    assert("state"@.len() == 5);
    reveal_strlit("html_url");
    assert("html_url"@.len() == 8);
    reveal_strlit("ref");
    assert("ref"@.len() == 3);
    let s = seq!["name"@, "display_name"@, "title"@, "owner"@, "team"@, "status"@, "state"@, "html_url"@, "ref"@];
    assert forall|i: int, j: int| 0 <= i < j < s.len() implies s[i] != s[j] by {
        assert(i == 0 || i == 1 || i == 2 || i == 3 || i == 4 || i == 5 || i == 6 || i == 7 || i == 8);
        assert(j == 0 || j == 1 || j == 2 || j == 3 || j == 4 || j == 5 || j == 6 || j == 7 || j == 8);
        if i == 0 && j == 4 {
            assert("name"@[0] != "team"@[0]);
        }
        if i == 2 && j == 3 {
            assert("title"@[0] != "owner"@[0]);
        }
        if i == 2 && j == 6 {
            assert("title"@[0] != "state"@[0]);
        }
        if i == 3 && j == 6 {
            assert("owner"@[0] != "state"@[0]);
        }
    }
}

proof fn lemma_kind_fields_0()
    ensures
        distinct_fields(seq!["name"@, "display_name"@, "owner"@, "team"@, "tier"@, "lifecycle"@, "service_health_status"@, "description"@, "contacts"@, "links"@, "additional_owners"@, "html_url"@, "ref"@]),
        seq!["name"@, "display_name"@, "owner"@, "team"@, "tier"@, "lifecycle"@, "service_health_status"@, "description"@, "contacts"@, "links"@, "additional_owners"@, "html_url"@, "ref"@] != generic_fields(),
{
    reveal_strlit("name");
    assert("name"@.len() == 4);
    reveal_strlit("display_name");
    assert("display_name"@.len() == 12);
    reveal_strlit("owner");
    assert("owner"@.len() == 5);
    reveal_strlit("team");
    assert("team"@.len() == 4);
    reveal_strlit("tier");
    assert("tier"@.len() == 4);
    reveal_strlit("lifecycle");
    assert("lifecycle"@.len() == 9);
    reveal_strlit("service_health_status");
    assert("service_health_status"@.len() == 21);
    reveal_strlit("description");
    assert("description"@.len() == 11);
    reveal_strlit("contacts");
    assert("contacts"@.len() == 8);
    reveal_strlit("links");
    assert("links"@.len() == 5);
    reveal_strlit("additional_owners");
    assert("additional_owners"@.len() == 17);
    reveal_strlit("html_url");
    assert("html_url"@.len() == 8);
    reveal_strlit("ref");
    assert("ref"@.len() == 3);
    let s = seq!["name"@, "display_name"@, "owner"@, "team"@, "tier"@, "lifecycle"@, "service_health_status"@, "description"@, "contacts"@, "links"@, "additional_owners"@, "html_url"@, "ref"@];
    assert forall|i: int, j: int| 0 <= i < j < s.len() implies s[i] != s[j] by {
        assert(i == 0 || i == 1 || i == 2 || i == 3 || i == 4 || i == 5 || i == 6 || i == 7 || i == 8 || i == 9 || i == 10 || i == 11 || i == 12);
        assert(j == 0 || j == 1 || j == 2 || j == 3 || j == 4 || j == 5 || j == 6 || j == 7 || j == 8 || j == 9 || j == 10 || j == 11 || j == 12);
        if i == 0 && j == 3 {
            assert("name"@[0] != "team"@[0]);
        }
        if i == 0 && j == 4 {
            assert("name"@[0] != "tier"@[0]);
        }
        if i == 2 && j == 9 {
            assert("owner"@[0] != "links"@[0]);
        }
        if i == 3 && j == 4 {
            assert("team"@[1] != "tier"@[1]);
        }
        if i == 8 && j == 11 {
            assert("contacts"@[0] != "html_url"@[0]);
        }
    }
    assert(seq!["name"@, "display_name"@, "owner"@, "team"@, "tier"@, "lifecycle"@, "service_health_status"@, "description"@, "contacts"@, "links"@, "additional_owners"@, "html_url"@, "ref"@].len() != generic_fields().len());
}

proof fn lemma_kind_fields_1()
    ensures
        distinct_fields(seq!["name"@, "handle"@, "description"@, "user_count"@, "html_url"@, "ref"@]),
        seq!["name"@, "handle"@, "description"@, "user_count"@, "html_url"@, "ref"@] != generic_fields(),
{
    reveal_strlit("name");
    assert("name"@.len() == 4);
    reveal_strlit("handle");
    assert("handle"@.len() == 6);
    reveal_strlit("description");
    assert("description"@.len() == 11);
    reveal_strlit("user_count");
    assert("user_count"@.len() == 10);
    reveal_strlit("html_url");
    assert("html_url"@.len() == 8);
    reveal_strlit("ref");
    assert("ref"@.len() == 3);
    let s = seq!["name"@, "handle"@, "description"@, "user_count"@, "html_url"@, "ref"@];
    assert forall|i: int, j: int| 0 <= i < j < s.len() implies s[i] != s[j] by {
        assert(i == 0 || i == 1 || i == 2 || i == 3 || i == 4 || i == 5);
        assert(j == 0 || j == 1 || j == 2 || j == 3 || j == 4 || j == 5);
    }
    assert(seq!["name"@, "handle"@, "description"@, "user_count"@, "html_url"@, "ref"@].len() != generic_fields().len());
}

proof fn lemma_kind_fields_2()
    ensures
        distinct_fields(seq!["name"@, "email"@, "handle"@, "title"@, "status"@, "ref"@]),
        seq!["name"@, "email"@, "handle"@, "title"@, "status"@, "ref"@] != generic_fields(),
{
    reveal_strlit("name");
    assert("name"@.len() == 4);
    reveal_strlit("email");
    assert("email"@.len() == 5);
    reveal_strlit("handle");
    assert("handle"@.len() == 6);
    reveal_strlit("title");
    assert("title"@.len() == 5);
    reveal_strlit("status");
    assert("status"@.len() == 6);
    reveal_strlit("ref");
    assert("ref"@.len() == 3);
    let s = seq!["name"@, "email"@, "handle"@, "title"@, "status"@, "ref"@];
    assert forall|i: int, j: int| 0 <= i < j < s.len() implies s[i] != s[j] by {
        assert(i == 0 || i == 1 || i == 2 || i == 3 || i == 4 || i == 5);
        assert(j == 0 || j == 1 || j == 2 || j == 3 || j == 4 || j == 5);
        if i == 1 && j == 3 {
            assert("email"@[0] != "title"@[0]);
        }
        if i == 2 && j == 4 {
            assert("handle"@[0] != "status"@[0]);
        }
    }
    assert(seq!["name"@, "email"@, "handle"@, "title"@, "status"@, "ref"@].len() != generic_fields().len());
}

proof fn lemma_kind_fields_3()
    ensures
        distinct_fields(seq!["name"@, "display_name"@, "owner"@, "description"@, "html_url"@, "ref"@]),
        seq!["name"@, "display_name"@, "owner"@, "description"@, "html_url"@, "ref"@] != generic_fields(),
{
    reveal_strlit("name");
    assert("name"@.len() == 4);
    reveal_strlit("display_name");
    assert("display_name"@.len() == 12);
    reveal_strlit("owner");
    assert("owner"@.len() == 5);
    reveal_strlit("description");
    assert("description"@.len() == 11);
    reveal_strlit("html_url");
    assert("html_url"@.len() == 8);
    reveal_strlit("ref");
    assert("ref"@.len() == 3);
    let s = seq!["name"@, "display_name"@, "owner"@, "description"@, "html_url"@, "ref"@];
    assert forall|i: int, j: int| 0 <= i < j < s.len() implies s[i] != s[j] by {
        assert(i == 0 || i == 1 || i == 2 || i == 3 || i == 4 || i == 5);
        assert(j == 0 || j == 1 || j == 2 || j == 3 || j == 4 || j == 5);
    }
    assert(seq!["name"@, "display_name"@, "owner"@, "description"@, "html_url"@, "ref"@].len() != generic_fields().len());
}

proof fn lemma_kind_fields_4()
    ensures
        distinct_fields(seq!["name"@, "display_name"@, "owner"@, "default_branch"@, "definition_github_url"@, "ref"@]),
        seq!["name"@, "display_name"@, "owner"@, "default_branch"@, "definition_github_url"@, "ref"@] != generic_fields(),
{
    reveal_strlit("name");
    assert("name"@.len() == 4);
    reveal_strlit("display_name");
    assert("display_name"@.len() == 12);
    reveal_strlit("owner");
    assert("owner"@.len() == 5);
    reveal_strlit("default_branch");
    assert("default_branch"@.len() == 14);
    reveal_strlit("definition_github_url");
    assert("definition_github_url"@.len() == 21);
    reveal_strlit("ref");
    assert("ref"@.len() == 3);
    let s = seq!["name"@, "display_name"@, "owner"@, "default_branch"@, "definition_github_url"@, "ref"@];
    assert forall|i: int, j: int| 0 <= i < j < s.len() implies s[i] != s[j] by {
        assert(i == 0 || i == 1 || i == 2 || i == 3 || i == 4 || i == 5);
        assert(j == 0 || j == 1 || j == 2 || j == 3 || j == 4 || j == 5);
    }
    assert(seq!["name"@, "display_name"@, "owner"@, "default_branch"@, "definition_github_url"@, "ref"@].len() != generic_fields().len());
}

proof fn lemma_kind_fields_5()
    ensures
        distinct_fields(seq!["name"@, "name_with_owner"@, "url"@, "visibility"@, "open_pull_requests_count"@, "ref"@]),
        seq!["name"@, "name_with_owner"@, "url"@, "visibility"@, "open_pull_requests_count"@, "ref"@] != generic_fields(),
{
    reveal_strlit("name");
    assert("name"@.len() == 4);
    reveal_strlit("name_with_owner");
    assert("name_with_owner"@.len() == 15);
    reveal_strlit("url");
    assert("url"@.len() == 3);
    reveal_strlit("visibility");
    assert("visibility"@.len() == 10);
    reveal_strlit("open_pull_requests_count");
    assert("open_pull_requests_count"@.len() == 24);
    reveal_strlit("ref");
    assert("ref"@.len() == 3);
    let s = seq!["name"@, "name_with_owner"@, "url"@, "visibility"@, "open_pull_requests_count"@, "ref"@];
    assert forall|i: int, j: int| 0 <= i < j < s.len() implies s[i] != s[j] by {
        assert(i == 0 || i == 1 || i == 2 || i == 3 || i == 4 || i == 5);
        assert(j == 0 || j == 1 || j == 2 || j == 3 || j == 4 || j == 5);
        if i == 2 && j == 5 {
            assert("url"@[0] != "ref"@[0]);
        }
    }
    assert(seq!["name"@, "name_with_owner"@, "url"@, "visibility"@, "open_pull_requests_count"@, "ref"@].len() != generic_fields().len());
}

proof fn lemma_kind_fields_6()
    ensures
        distinct_fields(seq!["name"@, "display_name"@, "full_name"@, "owner"@, "html_url"@, "ref"@]),
        seq!["name"@, "display_name"@, "full_name"@, "owner"@, "html_url"@, "ref"@] != generic_fields(),
{
    reveal_strlit("name");
    assert("name"@.len() == 4);
    reveal_strlit("display_name");
    assert("display_name"@.len() == 12);
    reveal_strlit("full_name");
    assert("full_name"@.len() == 9);
    reveal_strlit("owner");
    assert("owner"@.len() == 5);
    reveal_strlit("html_url");
    assert("html_url"@.len() == 8);
    reveal_strlit("ref");
    assert("ref"@.len() == 3);
    let s = seq!["name"@, "display_name"@, "full_name"@, "owner"@, "html_url"@, "ref"@];
    assert forall|i: int, j: int| 0 <= i < j < s.len() implies s[i] != s[j] by {
        assert(i == 0 || i == 1 || i == 2 || i == 3 || i == 4 || i == 5);
        assert(j == 0 || j == 1 || j == 2 || j == 3 || j == 4 || j == 5);
    }
    assert(seq!["name"@, "display_name"@, "full_name"@, "owner"@, "html_url"@, "ref"@].len() != generic_fields().len());
}

proof fn lemma_kind_fields_7()
    ensures
        distinct_fields(seq!["name"@, "repository_id"@, "path_pattern"@, "source"@, "entity_ref"@, "ref"@]),
        seq!["name"@, "repository_id"@, "path_pattern"@, "source"@, "entity_ref"@, "ref"@] != generic_fields(),
{
    reveal_strlit("name");
    assert("name"@.len() == 4);
    reveal_strlit("repository_id");
    assert("repository_id"@.len() == 13);
    reveal_strlit("path_pattern");
    assert("path_pattern"@.len() == 12);
    reveal_strlit("source");
    assert("source"@.len() == 6);
    reveal_strlit("entity_ref");
    assert("entity_ref"@.len() == 10);
    reveal_strlit("ref");
    assert("ref"@.len() == 3);
    let s = seq!["name"@, "repository_id"@, "path_pattern"@, "source"@, "entity_ref"@, "ref"@];
    assert forall|i: int, j: int| 0 <= i < j < s.len() implies s[i] != s[j] by {
        assert(i == 0 || i == 1 || i == 2 || i == 3 || i == 4 || i == 5);
        assert(j == 0 || j == 1 || j == 2 || j == 3 || j == 4 || j == 5);
    }
    assert(seq!["name"@, "repository_id"@, "path_pattern"@, "source"@, "entity_ref"@, "ref"@].len() != generic_fields().len());
}

proof fn lemma_kind_fields_8()
    ensures
        distinct_fields(seq!["name"@, "description"@, "owner"@, "team"@, "scope"@, "source_repo"@, "source_path"@, "source_url"@, "tags"@, "updated_at"@, "ref"@]),
        seq!["name"@, "description"@, "owner"@, "team"@, "scope"@, "source_repo"@, "source_path"@, "source_url"@, "tags"@, "updated_at"@, "ref"@] != generic_fields(),
{
    reveal_strlit("name");
    assert("name"@.len() == 4);
    reveal_strlit("description");
    assert("description"@.len() == 11);
    reveal_strlit("owner");
    assert("owner"@.len() == 5);
    reveal_strlit("team");
    assert("team"@.len() == 4);
    reveal_strlit("scope");
    assert("scope"@.len() == 5);
    reveal_strlit("source_repo");
    assert("source_repo"@.len() == 11);
    reveal_strlit("source_path");
    assert("source_path"@.len() == 11);
    reveal_strlit("source_url");
    assert("source_url"@.len() == 10);
    reveal_strlit("tags");
    assert("tags"@.len() == 4);
    reveal_strlit("updated_at");
    assert("updated_at"@.len() == 10);
    reveal_strlit("ref");
    assert("ref"@.len() == 3);
    let s = seq!["name"@, "description"@, "owner"@, "team"@, "scope"@, "source_repo"@, "source_path"@, "source_url"@, "tags"@, "updated_at"@, "ref"@];
    assert forall|i: int, j: int| 0 <= i < j < s.len() implies s[i] != s[j] by {
        assert(i == 0 || i == 1 || i == 2 || i == 3 || i == 4 || i == 5 || i == 6 || i == 7 || i == 8 || i == 9 || i == 10);
        assert(j == 0 || j == 1 || j == 2 || j == 3 || j == 4 || j == 5 || j == 6 || j == 7 || j == 8 || j == 9 || j == 10);
        if i == 0 && j == 3 {
            assert("name"@[0] != "team"@[0]);
        }
        if i == 0 && j == 8 {
            assert("name"@[0] != "tags"@[0]);
        }
        if i == 1 && j == 5 {
            assert("description"@[0] != "source_repo"@[0]);
        }
        if i == 1 && j == 6 {
            assert("description"@[0] != "source_path"@[0]);
        }
        if i == 2 && j == 4 {
            assert("owner"@[0] != "scope"@[0]);
        }
        if i == 3 && j == 8 {
            assert("team"@[1] != "tags"@[1]);
        }
        if i == 5 && j == 6 {
            assert("source_repo"@[7] != "source_path"@[7]);
        }
        if i == 7 && j == 9 {
            assert("source_url"@[0] != "updated_at"@[0]);
        }
    }
    assert(seq!["name"@, "description"@, "owner"@, "team"@, "scope"@, "source_repo"@, "source_path"@, "source_url"@, "tags"@, "updated_at"@, "ref"@].len() != generic_fields().len());
}

proof fn lemma_kind_fields_9()
    ensures
        distinct_fields(seq!["entity_reference"@, "entity_kind"@, "entity_owner"@, "rule_name"@, "rule_id"@, "state"@, "level"@, "ref"@]),
        seq!["entity_reference"@, "entity_kind"@, "entity_owner"@, "rule_name"@, "rule_id"@, "state"@, "level"@, "ref"@] != generic_fields(),
{
    reveal_strlit("entity_reference");
    assert("entity_reference"@.len() == 16);
    reveal_strlit("entity_kind");
    assert("entity_kind"@.len() == 11);
    reveal_strlit("entity_owner");
    assert("entity_owner"@.len() == 12);
    reveal_strlit("rule_name");
    assert("rule_name"@.len() == 9);
    reveal_strlit("rule_id");
    assert("rule_id"@.len() == 7);
    reveal_strlit("state");
    assert("state"@.len() == 5);
    reveal_strlit("level");
    assert("level"@.len() == 5);
    reveal_strlit("ref");
    assert("ref"@.len() == 3);
    let s = seq!["entity_reference"@, "entity_kind"@, "entity_owner"@, "rule_name"@, "rule_id"@, "state"@, "level"@, "ref"@];
    assert forall|i: int, j: int| 0 <= i < j < s.len() implies s[i] != s[j] by {
        assert(i == 0 || i == 1 || i == 2 || i == 3 || i == 4 || i == 5 || i == 6 || i == 7);
        assert(j == 0 || j == 1 || j == 2 || j == 3 || j == 4 || j == 5 || j == 6 || j == 7);
        if i == 5 && j == 6 {
            assert("state"@[0] != "level"@[0]);
        }
    }
    assert(seq!["entity_reference"@, "entity_kind"@, "entity_owner"@, "rule_name"@, "rule_id"@, "state"@, "level"@, "ref"@].len() != generic_fields().len());
}

proof fn lemma_kind_fields_10()
    ensures
        distinct_fields(seq!["name"@, "description"@, "level"@, "ref"@]),
        seq!["name"@, "description"@, "level"@, "ref"@] != generic_fields(),
{
    reveal_strlit("name");
    assert("name"@.len() == 4);
    reveal_strlit("description");
    assert("description"@.len() == 11);
    reveal_strlit("level");
    assert("level"@.len() == 5);
    reveal_strlit("ref");
    assert("ref"@.len() == 3);
    let s = seq!["name"@, "description"@, "level"@, "ref"@];
    assert forall|i: int, j: int| 0 <= i < j < s.len() implies s[i] != s[j] by {
        assert(i == 0 || i == 1 || i == 2 || i == 3);
        assert(j == 0 || j == 1 || j == 2 || j == 3);
    }
    assert(seq!["name"@, "description"@, "level"@, "ref"@].len() != generic_fields().len());
}

proof fn lemma_kind_fields_11()
    ensures
        distinct_fields(seq!["public_id"@, "title"@, "state"@, "severity"@, "service_names"@, "teams"@, "visibility"@]),
        seq!["public_id"@, "title"@, "state"@, "severity"@, "service_names"@, "teams"@, "visibility"@] != generic_fields(),
{
    reveal_strlit("public_id");
    assert("public_id"@.len() == 9);
    reveal_strlit("title");
    assert("title"@.len() == 5);
    reveal_strlit("state");
    assert("state"@.len() == 5);
    reveal_strlit("severity");
    assert("severity"@.len() == 8);
    reveal_strlit("service_names");
    assert("service_names"@.len() == 13);
    reveal_strlit("teams");
    assert("teams"@.len() == 5);
    reveal_strlit("visibility");
    assert("visibility"@.len() == 10);
    let s = seq!["public_id"@, "title"@, "state"@, "severity"@, "service_names"@, "teams"@, "visibility"@];
    assert forall|i: int, j: int| 0 <= i < j < s.len() implies s[i] != s[j] by {
        assert(i == 0 || i == 1 || i == 2 || i == 3 || i == 4 || i == 5 || i == 6);
        assert(j == 0 || j == 1 || j == 2 || j == 3 || j == 4 || j == 5 || j == 6);
        if i == 1 && j == 2 {
            assert("title"@[0] != "state"@[0]);
        }
        if i == 1 && j == 5 {
            assert("title"@[1] != "teams"@[1]);
        }
        if i == 2 && j == 5 {
            assert("state"@[0] != "teams"@[0]);
        }
    }
    assert(seq!["public_id"@, "title"@, "state"@, "severity"@, "service_names"@, "teams"@, "visibility"@].len() != generic_fields().len());
}

proof fn lemma_kind_fields_12()
    ensures
        distinct_fields(seq!["name"@, "status"@, "monitor_id"@, "service_tags"@, "host_tags"@, "env"@, "timestamp"@, "muted"@]),
        seq!["name"@, "status"@, "monitor_id"@, "service_tags"@, "host_tags"@, "env"@, "timestamp"@, "muted"@] != generic_fields(),
{
    reveal_strlit("name");
    assert("name"@.len() == 4);
    reveal_strlit("status");
    assert("status"@.len() == 6);
    reveal_strlit("monitor_id");
    assert("monitor_id"@.len() == 10);
    reveal_strlit("service_tags");
    assert("service_tags"@.len() == 12);
    reveal_strlit("host_tags");
    assert("host_tags"@.len() == 9);
    reveal_strlit("env");
    assert("env"@.len() == 3);
    reveal_strlit("timestamp");
    assert("timestamp"@.len() == 9);
    reveal_strlit("muted");
    assert("muted"@.len() == 5);
    let s = seq!["name"@, "status"@, "monitor_id"@, "service_tags"@, "host_tags"@, "env"@, "timestamp"@, "muted"@];
    assert forall|i: int, j: int| 0 <= i < j < s.len() implies s[i] != s[j] by {
        assert(i == 0 || i == 1 || i == 2 || i == 3 || i == 4 || i == 5 || i == 6 || i == 7);
        assert(j == 0 || j == 1 || j == 2 || j == 3 || j == 4 || j == 5 || j == 6 || j == 7);
        if i == 4 && j == 6 {
            assert("host_tags"@[0] != "timestamp"@[0]);
        }
    }
    assert(seq!["name"@, "status"@, "monitor_id"@, "service_tags"@, "host_tags"@, "env"@, "timestamp"@, "muted"@].len() != generic_fields().len());
}

proof fn lemma_kind_fields_13()
    ensures
        distinct_fields(seq!["name"@, "state"@, "target_threshold"@, "sli"@, "service_names"@, "team_names"@, "error_budget_remaining"@]),
        seq!["name"@, "state"@, "target_threshold"@, "sli"@, "service_names"@, "team_names"@, "error_budget_remaining"@] != generic_fields(),
{
    reveal_strlit("name");
    assert("name"@.len() == 4);
    reveal_strlit("state");
    assert("state"@.len() == 5);
    reveal_strlit("target_threshold");
    assert("target_threshold"@.len() == 16);
    reveal_strlit("sli");
    assert("sli"@.len() == 3);
    reveal_strlit("service_names");
    assert("service_names"@.len() == 13);
    reveal_strlit("team_names");
    assert("team_names"@.len() == 10);
    reveal_strlit("error_budget_remaining");
    assert("error_budget_remaining"@.len() == 22);
    let s = seq!["name"@, "state"@, "target_threshold"@, "sli"@, "service_names"@, "team_names"@, "error_budget_remaining"@];
    assert forall|i: int, j: int| 0 <= i < j < s.len() implies s[i] != s[j] by {
        assert(i == 0 || i == 1 || i == 2 || i == 3 || i == 4 || i == 5 || i == 6);
        assert(j == 0 || j == 1 || j == 2 || j == 3 || j == 4 || j == 5 || j == 6);
    }
    assert(seq!["name"@, "state"@, "target_threshold"@, "sli"@, "service_names"@, "team_names"@, "error_budget_remaining"@].len() != generic_fields().len());
}

proof fn lemma_kind_fields_14()
    ensures
        distinct_fields(seq!["current_oncall_id"@, "oncall_service_id"@, "provider"@, "user_name"@, "user_email"@, "escalation_level"@]),
        seq!["current_oncall_id"@, "oncall_service_id"@, "provider"@, "user_name"@, "user_email"@, "escalation_level"@] != generic_fields(),
{
    reveal_strlit("current_oncall_id");
    assert("current_oncall_id"@.len() == 17);
    reveal_strlit("oncall_service_id");
    assert("oncall_service_id"@.len() == 17);
    reveal_strlit("provider");
    assert("provider"@.len() == 8);
    reveal_strlit("user_name");
    assert("user_name"@.len() == 9);
    reveal_strlit("user_email");
    assert("user_email"@.len() == 10);
    reveal_strlit("escalation_level");
    assert("escalation_level"@.len() == 16);
    let s = seq!["current_oncall_id"@, "oncall_service_id"@, "provider"@, "user_name"@, "user_email"@, "escalation_level"@];
    assert forall|i: int, j: int| 0 <= i < j < s.len() implies s[i] != s[j] by {
        assert(i == 0 || i == 1 || i == 2 || i == 3 || i == 4 || i == 5);
        assert(j == 0 || j == 1 || j == 2 || j == 3 || j == 4 || j == 5);
        if i == 0 && j == 1 {
            assert("current_oncall_id"@[0] != "oncall_service_id"@[0]);
        }
    }
    assert(seq!["current_oncall_id"@, "oncall_service_id"@, "provider"@, "user_name"@, "user_email"@, "escalation_level"@].len() != generic_fields().len());
}

proof fn lemma_kind_fields_15()
    ensures
        distinct_fields(seq!["title"@, "state"@, "updated_at"@, "mergeable"@, "changed_files"@, "html_url"@, "ref"@]),
        seq!["title"@, "state"@, "updated_at"@, "mergeable"@, "changed_files"@, "html_url"@, "ref"@] != generic_fields(),
{
    reveal_strlit("title");
    assert("title"@.len() == 5);
    reveal_strlit("state");
    assert("state"@.len() == 5);
    reveal_strlit("updated_at");
    assert("updated_at"@.len() == 10);
    reveal_strlit("mergeable");
    assert("mergeable"@.len() == 9);
    reveal_strlit("changed_files");
    assert("changed_files"@.len() == 13);
    reveal_strlit("html_url");
    assert("html_url"@.len() == 8);
    reveal_strlit("ref");
    assert("ref"@.len() == 3);
    let s = seq!["title"@, "state"@, "updated_at"@, "mergeable"@, "changed_files"@, "html_url"@, "ref"@];
    assert forall|i: int, j: int| 0 <= i < j < s.len() implies s[i] != s[j] by {
        assert(i == 0 || i == 1 || i == 2 || i == 3 || i == 4 || i == 5 || i == 6);
        assert(j == 0 || j == 1 || j == 2 || j == 3 || j == 4 || j == 5 || j == 6);
        if i == 0 && j == 1 {
            assert("title"@[0] != "state"@[0]);
        }
    }
    assert(seq!["title"@, "state"@, "updated_at"@, "mergeable"@, "changed_files"@, "html_url"@, "ref"@].len() != generic_fields().len());
}

proof fn lemma_kind_fields_16()
    ensures
        distinct_fields(seq!["title"@, "state"@, "updated_at"@, "mergeable"@, "review_decision"@, "url"@, "ref"@]),
        seq!["title"@, "state"@, "updated_at"@, "mergeable"@, "review_decision"@, "url"@, "ref"@] != generic_fields(),
{
    reveal_strlit("title");
    assert("title"@.len() == 5);
    reveal_strlit("state");
    assert("state"@.len() == 5);
    reveal_strlit("updated_at");
    assert("updated_at"@.len() == 10);
    reveal_strlit("mergeable");
    assert("mergeable"@.len() == 9);
    reveal_strlit("review_decision");
    assert("review_decision"@.len() == 15);
    reveal_strlit("url");
    assert("url"@.len() == 3);
    reveal_strlit("ref");
    assert("ref"@.len() == 3);
    let s = seq!["title"@, "state"@, "updated_at"@, "mergeable"@, "review_decision"@, "url"@, "ref"@];
    assert forall|i: int, j: int| 0 <= i < j < s.len() implies s[i] != s[j] by {
        assert(i == 0 || i == 1 || i == 2 || i == 3 || i == 4 || i == 5 || i == 6);
        assert(j == 0 || j == 1 || j == 2 || j == 3 || j == 4 || j == 5 || j == 6);
        if i == 0 && j == 1 {
            assert("title"@[0] != "state"@[0]);
        }
        if i == 5 && j == 6 {
            assert("url"@[0] != "ref"@[0]);
        }
    }
    assert(seq!["title"@, "state"@, "updated_at"@, "mergeable"@, "review_decision"@, "url"@, "ref"@].len() != generic_fields().len());
}

proof fn lemma_kind_fields_17()
    ensures
        distinct_fields(seq!["key"@, "summary"@, "status"@, "status_category"@, "priority"@, "assignee_name"@, "due_date"@, "html_url"@, "ref"@]),
        seq!["key"@, "summary"@, "status"@, "status_category"@, "priority"@, "assignee_name"@, "due_date"@, "html_url"@, "ref"@] != generic_fields(),
{
    reveal_strlit("key");
    assert("key"@.len() == 3);
    reveal_strlit("summary");
    assert("summary"@.len() == 7);
    reveal_strlit("status");
    assert("status"@.len() == 6);
    reveal_strlit("status_category");
    assert("status_category"@.len() == 15);
    reveal_strlit("priority");
    assert("priority"@.len() == 8);
    reveal_strlit("assignee_name");
    assert("assignee_name"@.len() == 13);
    reveal_strlit("due_date");
    assert("due_date"@.len() == 8);
    reveal_strlit("html_url");
    assert("html_url"@.len() == 8);
    reveal_strlit("ref");
    assert("ref"@.len() == 3);
    let s = seq!["key"@, "summary"@, "status"@, "status_category"@, "priority"@, "assignee_name"@, "due_date"@, "html_url"@, "ref"@];
    assert forall|i: int, j: int| 0 <= i < j < s.len() implies s[i] != s[j] by {
        assert(i == 0 || i == 1 || i == 2 || i == 3 || i == 4 || i == 5 || i == 6 || i == 7 || i == 8);
        assert(j == 0 || j == 1 || j == 2 || j == 3 || j == 4 || j == 5 || j == 6 || j == 7 || j == 8);
        if i == 0 && j == 8 {
            assert("key"@[0] != "ref"@[0]);
        }
        if i == 4 && j == 6 {
            assert("priority"@[0] != "due_date"@[0]);
        }
        if i == 4 && j == 7 {
            assert("priority"@[0] != "html_url"@[0]);
        }
        if i == 6 && j == 7 {
            assert("due_date"@[0] != "html_url"@[0]);
        }
    }
    reveal_strlit("name");
    assert("name"@.len() == 4);
    assert(seq!["key"@, "summary"@, "status"@, "status_category"@, "priority"@, "assignee_name"@, "due_date"@, "html_url"@, "ref"@][0] != generic_fields()[0]);
}

proof fn lemma_kind_fields_18()
    ensures
        distinct_fields(seq!["resource_name"@, "http_method"@, "http_route"@, "http_hosts"@, "endpoint_is_public"@, "endpoint_authenticated"@, "endpoint_is_rate_limited"@, "service_name"@, "team_names"@, "last_seen_traffic_at"@, "ref"@]),
        seq!["resource_name"@, "http_method"@, "http_route"@, "http_hosts"@, "endpoint_is_public"@, "endpoint_authenticated"@, "endpoint_is_rate_limited"@, "service_name"@, "team_names"@, "last_seen_traffic_at"@, "ref"@] != generic_fields(),
{
    reveal_strlit("resource_name");
    assert("resource_name"@.len() == 13);
    reveal_strlit("http_method");
    assert("http_method"@.len() == 11);
    reveal_strlit("http_route");
    assert("http_route"@.len() == 10);
    reveal_strlit("http_hosts");
    assert("http_hosts"@.len() == 10);
    reveal_strlit("endpoint_is_public");
    assert("endpoint_is_public"@.len() == 18);
    reveal_strlit("endpoint_authenticated");
    assert("endpoint_authenticated"@.len() == 22);
    reveal_strlit("endpoint_is_rate_limited");
    assert("endpoint_is_rate_limited"@.len() == 24);
    reveal_strlit("service_name");
    assert("service_name"@.len() == 12);
    reveal_strlit("team_names");
    assert("team_names"@.len() == 10);
    reveal_strlit("last_seen_traffic_at");
    assert("last_seen_traffic_at"@.len() == 20);
    reveal_strlit("ref");
    assert("ref"@.len() == 3);
    let s = seq!["resource_name"@, "http_method"@, "http_route"@, "http_hosts"@, "endpoint_is_public"@, "endpoint_authenticated"@, "endpoint_is_rate_limited"@, "service_name"@, "team_names"@, "last_seen_traffic_at"@, "ref"@];
    assert forall|i: int, j: int| 0 <= i < j < s.len() implies s[i] != s[j] by {
        assert(i == 0 || i == 1 || i == 2 || i == 3 || i == 4 || i == 5 || i == 6 || i == 7 || i == 8 || i == 9 || i == 10);
        assert(j == 0 || j == 1 || j == 2 || j == 3 || j == 4 || j == 5 || j == 6 || j == 7 || j == 8 || j == 9 || j == 10);
        if i == 2 && j == 3 {
            assert("http_route"@[5] != "http_hosts"@[5]);
        }
        if i == 2 && j == 8 {
            assert("http_route"@[0] != "team_names"@[0]);
        }
        if i == 3 && j == 8 {
            assert("http_hosts"@[0] != "team_names"@[0]);
        }
    }
    assert(seq!["resource_name"@, "http_method"@, "http_route"@, "http_hosts"@, "endpoint_is_public"@, "endpoint_authenticated"@, "endpoint_is_rate_limited"@, "service_name"@, "team_names"@, "last_seen_traffic_at"@, "ref"@].len() != generic_fields().len());
}

proof fn lemma_kind_fields_19()
    ensures
        distinct_fields(seq!["severity"@, "repository_id"@, "services"@, "package_normalized_name"@, "package_version"@, "advisory_id"@]),
        seq!["severity"@, "repository_id"@, "services"@, "package_normalized_name"@, "package_version"@, "advisory_id"@] != generic_fields(),
{
    reveal_strlit("severity");
    assert("severity"@.len() == 8);
    reveal_strlit("repository_id");
    assert("repository_id"@.len() == 13);
    reveal_strlit("services");
    assert("services"@.len() == 8);
    reveal_strlit("package_normalized_name");
    assert("package_normalized_name"@.len() == 23);
    reveal_strlit("package_version");
    assert("package_version"@.len() == 15);
    reveal_strlit("advisory_id");
    assert("advisory_id"@.len() == 11);
    let s = seq!["severity"@, "repository_id"@, "services"@, "package_normalized_name"@, "package_version"@, "advisory_id"@];
    assert forall|i: int, j: int| 0 <= i < j < s.len() implies s[i] != s[j] by {
        assert(i == 0 || i == 1 || i == 2 || i == 3 || i == 4 || i == 5);
        assert(j == 0 || j == 1 || j == 2 || j == 3 || j == 4 || j == 5);
        if i == 0 && j == 2 {
            assert("severity"@[2] != "services"@[2]);
        }
    }
    assert(seq!["severity"@, "repository_id"@, "services"@, "package_normalized_name"@, "package_version"@, "advisory_id"@].len() != generic_fields().len());
}

proof fn lemma_kind_fields_20()
    ensures
        distinct_fields(seq!["severity"@, "repository_id"@, "service_name"@, "package_decl_filename"@, "code_location_filename"@, "finding_type"@]),
        seq!["severity"@, "repository_id"@, "service_name"@, "package_decl_filename"@, "code_location_filename"@, "finding_type"@] != generic_fields(),
{
    reveal_strlit("severity");
    assert("severity"@.len() == 8);
    reveal_strlit("repository_id");
    assert("repository_id"@.len() == 13);
    reveal_strlit("service_name");
    assert("service_name"@.len() == 12);
    reveal_strlit("package_decl_filename");
    assert("package_decl_filename"@.len() == 21);
    reveal_strlit("code_location_filename");
    assert("code_location_filename"@.len() == 22);
    reveal_strlit("finding_type");
    assert("finding_type"@.len() == 12);
    let s = seq!["severity"@, "repository_id"@, "service_name"@, "package_decl_filename"@, "code_location_filename"@, "finding_type"@];
    assert forall|i: int, j: int| 0 <= i < j < s.len() implies s[i] != s[j] by {
        assert(i == 0 || i == 1 || i == 2 || i == 3 || i == 4 || i == 5);
        assert(j == 0 || j == 1 || j == 2 || j == 3 || j == 4 || j == 5);
        if i == 2 && j == 5 {
            assert("service_name"@[0] != "finding_type"@[0]);
        }
    }
    assert(seq!["severity"@, "repository_id"@, "service_name"@, "package_decl_filename"@, "code_location_filename"@, "finding_type"@].len() != generic_fields().len());
}

proof fn lemma_kind_fields_21()
    ensures
        distinct_fields(seq!["severity"@, "repository_id"@]),
        seq!["severity"@, "repository_id"@] != generic_fields(),
{
    reveal_strlit("severity");
    assert("severity"@.len() == 8);
    reveal_strlit("repository_id");
    assert("repository_id"@.len() == 13);
    let s = seq!["severity"@, "repository_id"@];
    assert forall|i: int, j: int| 0 <= i < j < s.len() implies s[i] != s[j] by {
        assert(i == 0 || i == 1);
        assert(j == 0 || j == 1);
    }
    assert(seq!["severity"@, "repository_id"@].len() != generic_fields().len());
}

proof fn lemma_kind_fields_22()
    ensures
        distinct_fields(seq!["severity"@, "finding_type"@, "repository_id"@, "service_name"@, "code_location_filename"@, "package_decl_filename"@]),
        seq!["severity"@, "finding_type"@, "repository_id"@, "service_name"@, "code_location_filename"@, "package_decl_filename"@] != generic_fields(),
{
    reveal_strlit("severity");
    assert("severity"@.len() == 8);
    reveal_strlit("finding_type");
    assert("finding_type"@.len() == 12);
    reveal_strlit("repository_id");
    assert("repository_id"@.len() == 13);
    reveal_strlit("service_name");
    assert("service_name"@.len() == 12);
    reveal_strlit("code_location_filename");
    assert("code_location_filename"@.len() == 22);
    reveal_strlit("package_decl_filename");
    assert("package_decl_filename"@.len() == 21);
    let s = seq!["severity"@, "finding_type"@, "repository_id"@, "service_name"@, "code_location_filename"@, "package_decl_filename"@];
    assert forall|i: int, j: int| 0 <= i < j < s.len() implies s[i] != s[j] by {
        assert(i == 0 || i == 1 || i == 2 || i == 3 || i == 4 || i == 5);
        assert(j == 0 || j == 1 || j == 2 || j == 3 || j == 4 || j == 5);
        if i == 1 && j == 3 {
            assert("finding_type"@[0] != "service_name"@[0]);
        }
    }
    assert(seq!["severity"@, "finding_type"@, "repository_id"@, "service_name"@, "code_location_filename"@, "package_decl_filename"@].len() != generic_fields().len());
}

proof fn lemma_kind_fields_23()
    ensures
        distinct_fields(seq!["name"@, "team"@, "service"@, "cluster_name"@, "namespace"@, "available_replicas"@, "ready_replicas"@, "replicas_desired"@, "unavailable_replicas"@, "status"@, "html_url"@]),
        seq!["name"@, "team"@, "service"@, "cluster_name"@, "namespace"@, "available_replicas"@, "ready_replicas"@, "replicas_desired"@, "unavailable_replicas"@, "status"@, "html_url"@] != generic_fields(),
{
    reveal_strlit("name");
    assert("name"@.len() == 4);
    reveal_strlit("team");
    assert("team"@.len() == 4);
    reveal_strlit("service");
    assert("service"@.len() == 7);
    reveal_strlit("cluster_name");
    assert("cluster_name"@.len() == 12);
    reveal_strlit("namespace");
    assert("namespace"@.len() == 9);
    reveal_strlit("available_replicas");
    assert("available_replicas"@.len() == 18);
    reveal_strlit("ready_replicas");
    assert("ready_replicas"@.len() == 14);
    reveal_strlit("replicas_desired");
    assert("replicas_desired"@.len() == 16);
    reveal_strlit("unavailable_replicas");
    assert("unavailable_replicas"@.len() == 20);
    reveal_strlit("status");
    assert("status"@.len() == 6);
    reveal_strlit("html_url");
    assert("html_url"@.len() == 8);
    let s = seq!["name"@, "team"@, "service"@, "cluster_name"@, "namespace"@, "available_replicas"@, "ready_replicas"@, "replicas_desired"@, "unavailable_replicas"@, "status"@, "html_url"@];
    assert forall|i: int, j: int| 0 <= i < j < s.len() implies s[i] != s[j] by {
        assert(i == 0 || i == 1 || i == 2 || i == 3 || i == 4 || i == 5 || i == 6 || i == 7 || i == 8 || i == 9 || i == 10);
        assert(j == 0 || j == 1 || j == 2 || j == 3 || j == 4 || j == 5 || j == 6 || j == 7 || j == 8 || j == 9 || j == 10);
        if i == 0 && j == 1 {
            assert("name"@[0] != "team"@[0]);
        }
    }
    assert(seq!["name"@, "team"@, "service"@, "cluster_name"@, "namespace"@, "available_replicas"@, "ready_replicas"@, "replicas_desired"@, "unavailable_replicas"@, "status"@, "html_url"@].len() != generic_fields().len());
}

proof fn lemma_kind_fields_24()
    ensures
        distinct_fields(seq!["name"@, "display_name"@, "status"@, "owners"@, "components"@, "description"@, "html_url"@, "created_at"@]),
        seq!["name"@, "display_name"@, "status"@, "owners"@, "components"@, "description"@, "html_url"@, "created_at"@] != generic_fields(),
{
    reveal_strlit("name");
    assert("name"@.len() == 4);
    reveal_strlit("display_name");
    assert("display_name"@.len() == 12);
    reveal_strlit("status");
    assert("status"@.len() == 6);
    reveal_strlit("owners");
    assert("owners"@.len() == 6);
    reveal_strlit("components");
    assert("components"@.len() == 10);
    reveal_strlit("description");
    assert("description"@.len() == 11);
    reveal_strlit("html_url");
    assert("html_url"@.len() == 8);
    reveal_strlit("created_at");
    assert("created_at"@.len() == 10);
    let s = seq!["name"@, "display_name"@, "status"@, "owners"@, "components"@, "description"@, "html_url"@, "created_at"@];
    assert forall|i: int, j: int| 0 <= i < j < s.len() implies s[i] != s[j] by {
        assert(i == 0 || i == 1 || i == 2 || i == 3 || i == 4 || i == 5 || i == 6 || i == 7);
        assert(j == 0 || j == 1 || j == 2 || j == 3 || j == 4 || j == 5 || j == 6 || j == 7);
        if i == 2 && j == 3 {
            assert("status"@[0] != "owners"@[0]);
        }
        if i == 4 && j == 7 {
            assert("components"@[1] != "created_at"@[1]);
        }
    }
    assert(seq!["name"@, "display_name"@, "status"@, "owners"@, "components"@, "description"@, "html_url"@, "created_at"@].len() != generic_fields().len());
}

proof fn lemma_kind_fields_25()
    ensures
        distinct_fields(seq!["status"@, "k9_severity"@, "associated_service"@, "repository_id"@, "category"@, "message"@]),
        seq!["status"@, "k9_severity"@, "associated_service"@, "repository_id"@, "category"@, "message"@] != generic_fields(),
{
    reveal_strlit("status");
    assert("status"@.len() == 6);
    reveal_strlit("k9_severity");
    assert("k9_severity"@.len() == 11);
    reveal_strlit("associated_service");
    assert("associated_service"@.len() == 18);
    reveal_strlit("repository_id");
    assert("repository_id"@.len() == 13);
    reveal_strlit("category");
    assert("category"@.len() == 8);
    reveal_strlit("message");
    assert("message"@.len() == 7);
    let s = seq!["status"@, "k9_severity"@, "associated_service"@, "repository_id"@, "category"@, "message"@];
    assert forall|i: int, j: int| 0 <= i < j < s.len() implies s[i] != s[j] by {
        assert(i == 0 || i == 1 || i == 2 || i == 3 || i == 4 || i == 5);
        assert(j == 0 || j == 1 || j == 2 || j == 3 || j == 4 || j == 5);
    }
    assert(seq!["status"@, "k9_severity"@, "associated_service"@, "repository_id"@, "category"@, "message"@].len() != generic_fields().len());
}

/// Every kind's default field list is non-empty and names no field twice, and
/// it differs from the generic list exactly for the kinds that have their own.
pub proof fn law_default_fields(kind: Seq<char>)
    ensures
        default_fields(kind).len() > 0,
        distinct_fields(default_fields(kind)),
        specific_kind(kind) <==> default_fields(kind) != generic_fields(),
{
    reveal_strlit("service");
    assert("service"@.len() == 7);
    reveal_strlit("team");
    assert("team"@.len() == 4);
    reveal_strlit("user");
    assert("user"@.len() == 4);
    reveal_strlit("system");
    assert("system"@.len() == 6);
    reveal_strlit("repository");
    assert("repository"@.len() == 10);
    reveal_strlit("github.repository");
    assert("github.repository"@.len() == 17);
    reveal_strlit("integration.github.repository");
    assert("integration.github.repository"@.len() == 29);
    reveal_strlit("code_location");
    assert("code_location"@.len() == 13);
    reveal_strlit("ai_skill");
    assert("ai_skill"@.len() == 8);
    reveal_strlit("scorecard_outcome");
    assert("scorecard_outcome"@.len() == 17);
    reveal_strlit("scorecard_rule");
    assert("scorecard_rule"@.len() == 14);
    reveal_strlit("incident");
    assert("incident"@.len() == 8);
    reveal_strlit("monitor");
    assert("monitor"@.len() == 7);
    reveal_strlit("slo");
    assert("slo"@.len() == 3);
    reveal_strlit("current_oncall");
    assert("current_oncall"@.len() == 14);
    reveal_strlit("integration.github.pull_request");
    assert("integration.github.pull_request"@.len() == 31);
    reveal_strlit("github.pull_request");
    assert("github.pull_request"@.len() == 19);
    reveal_strlit("integration.jira.issue");
    assert("integration.jira.issue"@.len() == 22);
    reveal_strlit("api_endpoint");
    assert("api_endpoint"@.len() == 12);
    reveal_strlit("library_vulnerability");
    assert("library_vulnerability"@.len() == 21);
    reveal_strlit("source_code_vulnerability");
    assert("source_code_vulnerability"@.len() == 25);
    reveal_strlit("secret");
    assert("secret"@.len() == 6);
    reveal_strlit("iac_misconfiguration");
    assert("iac_misconfiguration"@.len() == 20);
    reveal_strlit("source_code_vulnerability_secfinding");
    assert("source_code_vulnerability_secfinding"@.len() == 36);
    reveal_strlit("integration.k8s.deployment");
    assert("integration.k8s.deployment"@.len() == 26);
    reveal_strlit("recommended_system");
    assert("recommended_system"@.len() == 18);
    reveal_strlit("code_violation");
    assert("code_violation"@.len() == 14);
    assert("service"@[0] != "monitor"@[0]);
    assert("team"@[0] != "user"@[0]);
    assert("system"@[1] != "secret"@[1]);
    assert("github.repository"@[0] != "scorecard_outcome"@[0]);
    assert("ai_skill"@[0] != "incident"@[0]);
    assert("scorecard_rule"@[0] != "current_oncall"@[0]);
    assert("scorecard_rule"@[0] != "code_violation"@[0]);
    assert("current_oncall"@[1] != "code_violation"@[1]);
    lemma_generic_fields_distinct();
    if kind == "service"@ {
        lemma_kind_fields_0();
    } else if kind == "team"@ {
        lemma_kind_fields_1();
    } else if kind == "user"@ {
        lemma_kind_fields_2();
    } else if kind == "system"@ {
        lemma_kind_fields_3();
    } else if kind == "repository"@ {
        lemma_kind_fields_4();
    } else if kind == "github.repository"@ {
        lemma_kind_fields_5();
    } else if kind == "integration.github.repository"@ {
        lemma_kind_fields_6();
    } else if kind == "code_location"@ {
        lemma_kind_fields_7();
    } else if kind == "ai_skill"@ {
        lemma_kind_fields_8();
    } else if kind == "scorecard_outcome"@ {
        lemma_kind_fields_9();
    } else if kind == "scorecard_rule"@ {
        lemma_kind_fields_10();
    } else if kind == "incident"@ {
        lemma_kind_fields_11();
    } else if kind == "monitor"@ {
        lemma_kind_fields_12();
    } else if kind == "slo"@ {
        lemma_kind_fields_13();
    } else if kind == "current_oncall"@ {
        lemma_kind_fields_14();
    } else if kind == "integration.github.pull_request"@ {
        lemma_kind_fields_15();
    } else if kind == "github.pull_request"@ {
        lemma_kind_fields_16();
    } else if kind == "integration.jira.issue"@ {
        lemma_kind_fields_17();
    } else if kind == "api_endpoint"@ {
        lemma_kind_fields_18();
    } else if kind == "library_vulnerability"@ {
        lemma_kind_fields_19();
    } else if kind == "source_code_vulnerability"@ {
        lemma_kind_fields_20();
    } else if kind == "secret"@ || kind == "iac_misconfiguration"@ {
        lemma_kind_fields_21();
    } else if kind == "source_code_vulnerability_secfinding"@ {
        lemma_kind_fields_22();
    } else if kind == "integration.k8s.deployment"@ {
        lemma_kind_fields_23();
    } else if kind == "recommended_system"@ {
        lemma_kind_fields_24();
    } else if kind == "code_violation"@ {
        lemma_kind_fields_25();
    }
}

} // verus!
