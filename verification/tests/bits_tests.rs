use pup_commands::bits::{
    accept_for, auth_headers, choose_agent, collect_reply, create_agent_body, created_agent_id,
    extract_text, messages_url, turn_request_body, AgentChoice, SseDecoder,
    check_ask, given_agent, session_input, turn_error, SessionInput,
};
use pup_commands::json::Json;

fn to_json(v: &serde_json::Value) -> Json {
    match v {
        serde_json::Value::Null => Json::Null,
        serde_json::Value::Bool(b) => Json::Bool(*b),
        serde_json::Value::Number(n) => Json::Number(n.to_string()),
        serde_json::Value::String(s) => Json::Str(s.clone()),
        serde_json::Value::Array(a) => Json::Array(a.iter().map(to_json).collect()),
        serde_json::Value::Object(m) => {
            Json::Object(m.iter().map(|(k, x)| (k.clone(), to_json(x))).collect())
        }
    }
}

fn json(text: &str) -> Json {
    to_json(&serde_json::from_str::<serde_json::Value>(text).unwrap())
}

#[test]
fn auth_prefers_the_access_token() {
    let h = auth_headers(Some("tok"), Some("a"), Some("b")).unwrap();
    assert_eq!(h, vec![("Authorization".to_string(), "Bearer tok".to_string())]);
    let h = auth_headers(None, Some("a"), Some("b")).unwrap();
    assert_eq!(
        h,
        vec![
            ("DD-API-KEY".to_string(), "a".to_string()),
            ("DD-APPLICATION-KEY".to_string(), "b".to_string())
        ]
    );
    assert_eq!(auth_headers(None, Some("a"), None).unwrap_err(), "no authentication configured");
}

#[test]
fn turn_body_and_url() {
    assert_eq!(
        messages_url("https://app.datadoghq.com", "agent-1"),
        "https://app.datadoghq.com/api/unstable/lassie-ng/v1/agents/agent-1/messages"
    );
    let body = turn_request_body("hi", &Some("s1".into()), true);
    match body {
        Json::Object(es) => {
            let keys: Vec<&str> = es.iter().map(|(k, _)| k.as_str()).collect();
            assert_eq!(keys, vec!["input", "stream", "session_id"]);
        }
        _ => panic!("object expected"),
    }
    assert_eq!(accept_for(true), "text/event-stream");
    assert_eq!(accept_for(false), "application/json");
}

#[test]
fn extracts_assistant_text() {
    let val = json(
        r#"{"run_id": "r1", "messages": [
            {"role": "user", "content": "q"},
            {"role": "assistant", "content": "first"},
            {"role": "assistant", "content": ""},
            {"message_type": "assistant_message", "assistant_message": {"content": "second"}}
        ]}"#,
    );
    assert_eq!(extract_text(&val), "first\nsecond");
    let (session, text) = collect_reply(&val);
    assert_eq!(session.as_deref(), Some("r1"));
    assert_eq!(text, "first\nsecond");
    assert_eq!(extract_text(&json(r#"{"messages": {}}"#)), "");
}

#[test]
fn chooses_the_first_agent() {
    assert!(matches!(choose_agent(&json(r#"[{"id": "a1"}, {"id": "a2"}]"#), false), AgentChoice::Use(id) if id == "a1"));
    assert!(matches!(choose_agent(&json("[]"), true), AgentChoice::Create));
    assert!(matches!(choose_agent(&json("[]"), false), AgentChoice::Fail(m) if m.starts_with("No Bits AI agents found")));
    assert!(matches!(choose_agent(&json("[{}]"), false), AgentChoice::Fail(m) if m == "Agent missing 'id' field"));
    assert!(matches!(choose_agent(&json("{}"), false), AgentChoice::NotAList));
    assert_eq!(created_agent_id(&json(r#"{"id": "new"}"#)).unwrap(), "new");
    assert!(created_agent_id(&json("{}")).is_err());
    assert!(matches!(create_agent_body(), Json::Object(es) if es.len() == 2));
}

#[test]
fn stream_events_are_read_by_complete_blocks() {
    let mut d = SseDecoder::new();
    let (out, done) = d.feed("data: {\"run_id\": \"r1\", \"message_type\": \"assistant_message\", \"content\": \"Hel");
    assert!(out.is_empty());
    assert!(!done);
    let (out, done) = d.feed("lo\"}\n\ndata: not json\n\ndata: {\"run_id\": \"r2\", \"message_type\": \"assistant_message\", \"content\": \"!\"}\n\n");
    assert_eq!(out, vec!["Hello".to_string(), "!".to_string()]);
    assert!(!done);
    assert_eq!(d.session_id().as_deref(), Some("r1"));
    let (out, done) = d.feed("event: x\ndata: [DONE] \n\ndata: {\"message_type\": \"assistant_message\", \"content\": \"late\"}\n\n");
    assert!(out.is_empty());
    assert!(done);
}

#[test]
fn conversation_checks_and_session_lines() {
    assert_eq!(
        check_ask(None, false).unwrap_err(),
        "a query is required (or use --interactive for a conversation)"
    );
    assert!(check_ask(None, true).is_ok());
    assert!(check_ask(Some("hi"), false).is_ok());
    assert_eq!(given_agent(Some("a1".to_string())), Some("a1".to_string()));
    assert_eq!(given_agent(Some(String::new())), None);
    assert_eq!(given_agent(None), None);
    assert_eq!(session_input("   \n"), SessionInput::Skip);
    assert_eq!(session_input(" exit\n"), SessionInput::Quit);
    assert_eq!(session_input("quit"), SessionInput::Quit);
    assert_eq!(session_input("  why is p99 up?\n"), SessionInput::Send("why is p99 up?".to_string()));
    assert_eq!(turn_error("500 Internal Server Error", "boom"), "Bits AI error (HTTP 500 Internal Server Error): boom");
}
