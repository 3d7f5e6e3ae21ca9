use pup_commands::auth::{
    check_callback, check_refresh, client_registration, effective_org_uuid, list, logout_outcome,
    looks_like_uuid, org_suffix, reassign_warning, resolve_save_target, saved_org_uuid,
    scope_message, status_report, token_to_print, validated_org_id, Registration, SaveTarget,
    SessionInfo, StoredToken, TokenInfo,
};
use pup_commands::json::{arr_field, get, str_field, Json};

#[test]
fn resolve_save_target_no_hint_keeps_requested_org() {
    let t = resolve_save_target(Some("prod-child"), None, None, None);
    assert!(matches!(t, SaveTarget::Requested(Some(s)) if s == "prod-child"));
}

#[test]
fn resolve_save_target_hint_matches_keeps_requested_org() {
    let uuid = "00000000-1111-2222-3333-444444444444";
    let t = resolve_save_target(
        Some("prod-child"),
        Some(uuid),
        Some(uuid),
        Some("Mos Eisley Cantina"),
    );
    assert!(matches!(t, SaveTarget::Requested(Some(s)) if s == "prod-child"));
}

#[test]
fn resolve_save_target_hint_matches_case_insensitive() {
    let upper = "AABBCCDD-1111-2222-3333-EEFFAABBCCDD";
    let lower = "aabbccdd-1111-2222-3333-eeffaabbccdd";
    let t = resolve_save_target(Some("prod-child"), Some(upper), Some(lower), None);
    assert!(matches!(t, SaveTarget::Requested(Some(s)) if s == "prod-child"));
}

#[test]
fn resolve_save_target_mismatch_combines_name_and_uuid_prefix() {
    let req = "00000000-1111-2222-3333-444444444444";
    let act = "11111111-2222-3333-4444-555555555555";
    let t = resolve_save_target(Some("prod-child"), Some(req), Some(act), Some("Other Org"));
    match t {
        SaveTarget::Reassigned {
            label,
            requested_uuid,
            actual_uuid,
            actual_name,
        } => {
            assert_eq!(label, "Other Org [11111111]");
            assert_eq!(requested_uuid, req);
            assert_eq!(actual_uuid, act);
            assert_eq!(actual_name.as_deref(), Some("Other Org"));
        }
        other => panic!("expected Reassigned, got {other:?}"),
    }
}

#[test]
fn resolve_save_target_mismatch_falls_back_to_uuid_prefix_only() {
    let req = "00000000-1111-2222-3333-444444444444";
    let act = "11111111-2222-3333-4444-555555555555";
    let t = resolve_save_target(Some("prod-child"), Some(req), Some(act), None);
    match t {
        SaveTarget::Reassigned {
            label, actual_name, ..
        } => {
            assert_eq!(label, "11111111");
            assert!(actual_name.is_none());
        }
        other => panic!("expected Reassigned, got {other:?}"),
    }
}

#[test]
fn resolve_save_target_mismatch_treats_empty_org_name_as_missing() {
    let req = "00000000-1111-2222-3333-444444444444";
    let act = "11111111-2222-3333-4444-555555555555";
    let t = resolve_save_target(Some("prod-child"), Some(req), Some(act), Some(""));
    match t {
        SaveTarget::Reassigned { label, .. } => {
            assert_eq!(label, "11111111");
        }
        other => panic!("expected Reassigned, got {other:?}"),
    }
}

#[test]
fn resolve_save_target_actual_uuid_missing_keeps_requested() {
    let req = "00000000-1111-2222-3333-444444444444";
    let t = resolve_save_target(Some("prod-child"), Some(req), None, None);
    assert!(matches!(t, SaveTarget::Requested(Some(s)) if s == "prod-child"));
}

#[test]
fn resolve_save_target_default_org_mismatch_stays_default() {
    let req = "00000000-1111-2222-3333-444444444444";
    let act = "11111111-2222-3333-4444-555555555555";
    let t = resolve_save_target(None, Some(req), Some(act), Some("Other Org"));
    assert!(matches!(t, SaveTarget::Requested(None)));
}

#[test]
fn looks_like_uuid_accepts_canonical_form() {
    assert!(looks_like_uuid("00000000-1111-2222-3333-444444444444"));
    assert!(looks_like_uuid("aabbccdd-1111-2222-3333-eeffaabbccdd"));
    assert!(looks_like_uuid("AABBCCDD-1111-2222-3333-EEFFAABBCCDD"));
}

#[test]
fn looks_like_uuid_rejects_garbage() {
    assert!(!looks_like_uuid(""));
    assert!(!looks_like_uuid("not-a-uuid"));
    assert!(!looks_like_uuid("00000000-1111-2222-3333-44444444444"));
    assert!(!looks_like_uuid("0000000g-1111-2222-3333-444444444444"));
    assert!(!looks_like_uuid("000000001111-2222-3333-44444444444444"));
    assert!(!looks_like_uuid("<script>alert(1)</script>            "));
}

#[test]
fn looks_like_uuid_rejects_non_ascii_of_the_same_byte_length() {
    assert!(!looks_like_uuid("0000000é-1111-2222-3333-44444444444"));
}

#[test]
fn org_suffix_is_empty_for_the_default_org() {
    assert_eq!(org_suffix(None), "");
    assert_eq!(org_suffix(Some("prod")), " (org: prod)");
}

#[test]
fn list_rows_report_token_status() {
    let sessions = vec![
        SessionInfo {
            site: "datadoghq.com".into(),
            org: None,
            token: Some(TokenInfo {
                expired: false,
                expires_at: "2026-01-01T00:00:00+00:00".into(),
                has_refresh: true,
                scope: " dashboards_read  monitors_read ".into(),
            }),
        },
        SessionInfo {
            site: "datadoghq.eu".into(),
            org: Some("child".into()),
            token: None,
        },
    ];
    let rows = list(&sessions);
    assert_eq!(rows.len(), 2);
    assert_eq!(rows[0].status, "valid");
    assert_eq!(rows[0].scopes, vec!["dashboards_read".to_string(), "monitors_read".to_string()]);
    assert!(rows[0].has_refresh);
    assert_eq!(rows[1].status, "no token");
    assert_eq!(rows[1].org.as_deref(), Some("child"));
    assert!(rows[1].expires_at.is_none());
}

#[test]
fn login_decisions() {
    assert_eq!(effective_org_uuid(Some("a"), Some("b".into())).as_deref(), Some("a"));
    assert_eq!(effective_org_uuid(None, Some("b".into())).as_deref(), Some("b"));
    assert_eq!(
        scope_message(&vec!["x".into(), "y".into()]),
        "🔑 Requesting 2 scope(s): x, y"
    );
    let many: Vec<String> = (0..11).map(|i| format!("s{i}")).collect();
    assert_eq!(scope_message(&many), "🔑 Requesting 11 scope(s) (use --scopes to customize)");
    assert!(matches!(client_registration(Some("pup"), "pup"), Registration::Reuse));
    assert!(matches!(client_registration(Some("old"), "pup"), Registration::Replace));
    assert!(matches!(client_registration(None, "pup"), Registration::RegisterNew));
    assert_eq!(
        check_callback(Some("access_denied"), None, "s", "s").unwrap_err(),
        "OAuth error: access_denied: "
    );
    assert_eq!(
        check_callback(None, None, "x", "s").unwrap_err(),
        "OAuth state mismatch (possible CSRF attack)"
    );
    assert!(check_callback(None, None, "s", "s").is_ok());
    assert!(validated_org_id(Some("not-a-uuid")).is_none());
    let uuid = "123e4567-e89b-12d3-a456-426614174000";
    assert_eq!(validated_org_id(Some(uuid)).as_deref(), Some(uuid));
    assert_eq!(saved_org_uuid(&None, &Some("e".into())).as_deref(), Some("e"));
    assert_eq!(
        reassign_warning(Some("prod"), "acme-123e4567", "r", "a", Some("Acme")),
        "⚠️  Requested org UUID r but OAuth returned a (Acme). Saving token under \"acme-123e4567\" instead of the requested label.\n   Your existing 'prod' session is unchanged. Run `pup auth logout --org prod` to clear it if it's stale."
    );
}

#[test]
fn logout_token_and_refresh_decisions() {
    assert_eq!(
        logout_outcome("datadoghq.com", None),
        (true, "Logged out from datadoghq.com. Tokens removed.".to_string())
    );
    assert_eq!(
        logout_outcome("datadoghq.com", Some("prod")),
        (false, "Logged out from datadoghq.com (org: prod). Tokens removed.".to_string())
    );
    assert_eq!(token_to_print(&Some("env".into()), None).unwrap(), "env");
    assert_eq!(token_to_print(&None, Some(("t".into(), false))).unwrap(), "t");
    assert!(token_to_print(&None, Some(("t".into(), true))).unwrap_err().starts_with("token is expired"));
    assert!(token_to_print(&None, None).unwrap_err().starts_with("no token available"));
    assert_eq!(
        check_refresh("s", None, true).unwrap_err(),
        "no tokens found for site s — run 'pup auth login' first"
    );
    assert!(check_refresh("s", Some(""), true).unwrap_err().starts_with("no refresh token available"));
    assert!(check_refresh("s", Some("r"), false).unwrap_err().starts_with("no client credentials"));
    assert!(check_refresh("s", Some("r"), true).is_ok());
}

#[test]
fn test_token_prints_access_token_from_config() {
    let configured = Some("oauth-access-token-from-cfg".to_string());
    assert!(token_to_print(&configured, None).is_ok());
}

#[test]
fn test_token_empty_string_still_bypasses_storage() {
    let configured = Some(String::new());
    assert!(token_to_print(&configured, Some(("saved".to_string(), true))).is_ok());
}

#[test]
fn status_report_of_a_valid_token() {
    let token = StoredToken {
        issued_at: 1_000,
        expires_in: 3_600,
        expired: false,
        scope: "dashboards_read  monitors_read".to_string(),
        refresh_token: "r".to_string(),
        token_type: "Bearer".to_string(),
    };
    let (lines, doc) = status_report("datadoghq.com", Some("prod"), Some(&token), 1_125, "2024-01-01T01:16:40+00:00");
    assert_eq!(
        lines,
        vec![
            "✅ Authenticated for site: datadoghq.com (org: prod)".to_string(),
            "   Token expires in: 57m55s".to_string()
        ]
    );
    assert_eq!(str_field(&doc, "status"), Some("valid".to_string()));
    assert_eq!(str_field(&doc, "org"), Some("prod".to_string()));
    assert_eq!(arr_field(&doc, "scopes").len(), 2);
    assert!(matches!(get(&doc, "has_refresh"), Some(Json::Bool(true))));
    assert!(matches!(get(&doc, "authenticated"), Some(Json::Bool(true))));
}

#[test]
fn status_report_of_expired_and_missing_tokens() {
    let token = StoredToken {
        issued_at: 0,
        expires_in: 10,
        expired: true,
        scope: String::new(),
        refresh_token: String::new(),
        token_type: "Bearer".to_string(),
    };
    let (lines, doc) = status_report("datadoghq.eu", None, Some(&token), 100, "");
    assert_eq!(lines, vec!["⚠️  Token expired for site: datadoghq.eu".to_string()]);
    assert_eq!(str_field(&doc, "status"), Some("expired".to_string()));
    assert!(matches!(get(&doc, "org"), Some(Json::Null)));
    assert!(matches!(get(&doc, "has_refresh"), Some(Json::Bool(false))));
    let (lines, doc) = status_report("datadoghq.eu", None, None, 100, "");
    assert_eq!(lines, vec!["❌ Not authenticated for site: datadoghq.eu".to_string()]);
    assert_eq!(str_field(&doc, "status"), Some("no token".to_string()));
}

#[test]
fn status_report_remaining_time_truncates_toward_zero() {
    let token = StoredToken {
        issued_at: 0,
        expires_in: 10,
        expired: false,
        scope: String::new(),
        refresh_token: String::new(),
        token_type: "Bearer".to_string(),
    };
    let (lines, _) = status_report("datadoghq.com", None, Some(&token), 75, "");
    assert_eq!(lines[1], "   Token expires in: -1m-5s");
}
