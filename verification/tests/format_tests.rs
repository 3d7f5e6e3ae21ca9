use pup_commands::format::render_input;
use pup_commands::json::Json;

#[test]
fn test_render_stdin_table() {
    let raw = "[{\"id\":1}]";
    let result = render_input(raw, None, None, None);
    assert!(result.is_ok(), "stdin render failed: {:?}", result.err());
    let (value, meta) = result.unwrap();
    assert!(matches!(value, Json::Array(ref a) if a.len() == 1));
    assert!(meta.is_none());
}

#[test]
fn render_builds_the_envelope_only_when_asked() {
    let (_, meta) = render_input("{\"data\":[]}", Some(0), Some("format".to_string()), None).unwrap();
    let meta = meta.unwrap();
    assert_eq!(meta.count, Some(0));
    assert_eq!(meta.command.as_deref(), Some("format"));
    assert!(!meta.truncated);
    assert!(meta.next_action.is_none());
}

#[test]
fn render_refuses_blank_and_invalid_input() {
    let err = render_input("   \n", None, None, None).unwrap_err();
    assert_eq!(err.to_string(), "no JSON input provided (pipe JSON to stdin or pass --input FILE)");
    let err = render_input("{not json", None, None, None).unwrap_err();
    assert_eq!(err.to_string(), "input is not valid JSON");
    assert!(err.alternate().starts_with("input is not valid JSON: key must be a string"));
}
