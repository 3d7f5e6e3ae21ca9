use pup_commands::events::{
    build_post_request, check_title, hostname_from, resolve_host_with, resolve_message,
    validate_post_request, EventAlertTypeArg, EventError, EventPriorityArg, PostOptions,
    MAX_AGGREGATION_KEY_CHARS, MAX_EVENT_AGE_SECONDS, MAX_EVENT_TEXT_CHARS,
};

fn post_options() -> PostOptions {
    PostOptions {
        title: "Test title".into(),
        message: Some("Test message".into()),
        date_happened: None,
        handle: Some("test-user".into()),
        priority: EventPriorityArg::Low,
        related_event_id: Some(42),
        tags: Some("test:first, test:second".into()),
        host: None,
        device: Some("test-device".into()),
        event_type: Some("test-source".into()),
        aggregation_key: Some("test-group".into()),
        alert_type: Some(EventAlertTypeArg::Warning),
    }
}

fn stdin(text: &str) -> impl FnOnce() -> Result<String, String> {
    let text = text.to_string();
    move || Ok(text)
}

#[test]
fn test_events_post_reads_message_from_stdin() {
    let message = resolve_message(None, false, stdin("Message from stdin")).unwrap();
    assert_eq!(message, "Message from stdin");
}

#[test]
fn test_events_post_errors_on_tty_without_message() {
    let result = resolve_message(None, true, || -> Result<String, String> {
        panic!("an interactive terminal must not be read")
    });
    assert!(result.is_err(), "TTY stdin with no message should error");
}

#[test]
fn test_events_post_rejects_empty_message() {
    let from_stdin = resolve_message(None, false, stdin("   \n"));
    assert!(from_stdin.is_err(), "blank stdin message should be rejected");
    let from_arg = resolve_message(Some(String::new()), false, stdin(""));
    assert!(from_arg.is_err(), "empty message argument should be rejected");
}

#[test]
fn test_events_post_trims_trailing_newline_from_stdin() {
    let message = resolve_message(None, false, stdin("Message from stdin\n")).unwrap();
    assert_eq!(message, "Message from stdin");
}

#[test]
fn test_events_post_filters_empty_tags() {
    let mut options = post_options();
    options.tags = Some("a,, b ,".into());
    let body = build_post_request(options, "msg".into());
    assert_eq!(body.tags, Some(vec!["a".to_string(), "b".to_string()]));
}

#[test]
fn test_events_post_serializes_openapi_alert_types() {
    for (alert_type, expected) in [
        (EventAlertTypeArg::Error, "error"),
        (EventAlertTypeArg::Warning, "warning"),
        (EventAlertTypeArg::Info, "info"),
        (EventAlertTypeArg::Success, "success"),
        (EventAlertTypeArg::UserUpdate, "user_update"),
        (EventAlertTypeArg::Recommendation, "recommendation"),
        (EventAlertTypeArg::Snapshot, "snapshot"),
    ] {
        let mut options = post_options();
        options.alert_type = Some(alert_type);
        let body = build_post_request(options, "msg".into());
        assert_eq!(body.alert_type.unwrap().api_name(), expected);
    }
}

#[test]
fn test_events_post_accepts_openapi_request_limits() {
    let now = 1_700_000_000;
    let mut options = post_options();
    options.aggregation_key = Some("a".repeat(MAX_AGGREGATION_KEY_CHARS));
    options.date_happened = Some(now - MAX_EVENT_AGE_SECONDS);
    let message = "m".repeat(MAX_EVENT_TEXT_CHARS);

    assert!(validate_post_request(&options, &message, now).is_ok());
}

#[test]
fn test_events_post_rejects_aggregation_key_over_openapi_limit() {
    let mut options = post_options();
    options.aggregation_key = Some("a".repeat(MAX_AGGREGATION_KEY_CHARS + 1));

    let err = validate_post_request(&options, "message", 0).unwrap_err();
    assert!(err.to_string().contains("aggregation key"));
}

#[test]
fn test_events_post_rejects_text_over_openapi_limit() {
    let options = post_options();
    let message = "m".repeat(MAX_EVENT_TEXT_CHARS + 1);

    let err = validate_post_request(&options, &message, 0).unwrap_err();
    assert!(err.to_string().contains("event text"));
}

#[test]
fn test_events_post_rejects_date_older_than_openapi_limit() {
    let now = 1_700_000_000;
    let mut options = post_options();
    options.date_happened = Some(now - MAX_EVENT_AGE_SECONDS - 1);

    let err = validate_post_request(&options, "message", now).unwrap_err();
    assert!(err.to_string().contains("18 hours"));
}

#[test]
fn test_events_post_no_host_overrides_host() {
    assert_eq!(
        resolve_host_with("test-host".into(), true, || -> Result<String, EventError> {
            panic!("hostname lookup must not run")
        })
        .host,
        None
    );
    assert_eq!(
        resolve_host_with("test-host".into(), false, || -> Result<String, EventError> {
            panic!("hostname lookup must not run")
        })
        .host,
        Some("test-host".into())
    );
}

#[test]
fn test_events_post_defaults_to_local_host() {
    assert_eq!(
        resolve_host_with(String::new(), false, || Ok("local-host".into())).host,
        Some("local-host".into())
    );
}

#[test]
fn test_events_post_falls_back_to_no_host_when_lookup_fails() {
    let choice = resolve_host_with(String::new(), false, || Err(EventError::HostnameEmpty));
    assert_eq!(choice.host, None);
    assert_eq!(
        choice.warning.as_deref(),
        Some("warning: could not determine local hostname (local hostname is empty); posting event without a host (use --host to set one or --no_host to silence this)")
    );
}

#[test]
fn post_body_carries_every_option() {
    let body = build_post_request(post_options(), "msg".into());
    assert_eq!(body.text, "msg");
    assert_eq!(body.title, "Test title");
    assert_eq!(body.priority.api_name(), "low");
    assert_eq!(body.tags, Some(vec!["test:first".to_string(), "test:second".to_string()]));
    assert_eq!(body.handle.as_deref(), Some("test-user"));
    assert_eq!(body.related_event_id, Some(42));
    assert_eq!(body.device_name.as_deref(), Some("test-device"));
    assert_eq!(body.source_type_name.as_deref(), Some("test-source"));
    assert_eq!(body.aggregation_key.as_deref(), Some("test-group"));
}

#[test]
fn titles_hostnames_and_read_failures() {
    assert_eq!(check_title("   "), Err(EventError::EmptyTitle));
    assert_eq!(check_title("t"), Ok(()));
    assert_eq!(hostname_from(Some("  box \n".into())), Ok("box".to_string()));
    assert_eq!(hostname_from(Some("  ".into())), Err(EventError::HostnameEmpty));
    assert_eq!(hostname_from(None), Err(EventError::HostnameNotUtf8));
    let err = resolve_message(None, false, || Err("broken pipe".to_string())).unwrap_err();
    assert_eq!(err.to_string(), "failed to read event message from stdin: broken pipe");
}

#[test]
fn test_events_post_accepts_openapi_alert_types() {
    for alert_type in ["error", "warning", "info", "success", "user_update", "recommendation", "snapshot"] {
        let result = EventAlertTypeArg::from_name(alert_type);
        assert!(result.is_some(), "alert type {alert_type:?} should be accepted");
        assert_eq!(result.unwrap().api_name(), alert_type);
    }
}

#[test]
fn test_events_post_rejects_non_openapi_alert_type() {
    assert!(EventAlertTypeArg::from_name("custom_alert").is_none(), "non-OpenAPI alert type should be rejected");
}

#[test]
fn test_events_post_rejects_invalid_priority() {
    assert!(EventPriorityArg::from_name("urgent").is_none(), "invalid priority should be rejected");
    assert_eq!(EventPriorityArg::from_name("low"), Some(EventPriorityArg::Low));
    assert_eq!(EventPriorityArg::from_name("normal"), Some(EventPriorityArg::Normal));
}
