use pup_commands::chain::ErrorChain;
use pup_commands::notebooks::{
    applied_write_context, check_markdown_content, compact_validation_details,
    created_notebook_id, decode_markdown_response, media_type_of, notebook_response_error,
    page_summary, parse_filters, search_params, translate_markdown_error,
    append_cells, search_payload, HttpResponse,
};
use pup_commands::json::{arr_field, get, str_field, Json};

fn to_json(v: &serde_json::Value) -> Json {
    match v {
        serde_json::Value::Null => Json::Null,
        serde_json::Value::Bool(b) => Json::Bool(*b),
        serde_json::Value::Number(n) => Json::Number(n.to_string()),
        serde_json::Value::String(s) => Json::Str(s.clone()),
        serde_json::Value::Array(a) => Json::Array(a.iter().map(to_json).collect()),
        serde_json::Value::Object(m) => {
            Json::Object(m.iter().map(|(k, x)| (k.clone(), to_json(x))).collect())
        }
    }
}

fn json(text: &str) -> Json {
    to_json(&serde_json::from_str::<serde_json::Value>(text).unwrap())
}

fn markdown_response(content_type: &str, body: &str) -> HttpResponse {
    HttpResponse {
        content_type: content_type.to_string(),
        bytes: body.as_bytes().to_vec(),
    }
}

fn error(message: String) -> ErrorChain {
    ErrorChain::new(message)
}

#[test]
fn test_decode_markdown_response_returns_body() {
    let resp = markdown_response("text/markdown; charset=utf-8", "## hi\n");
    assert_eq!(decode_markdown_response(resp).unwrap(), "## hi\n");
}

#[test]
fn test_decode_markdown_response_rejects_json() {
    let resp = markdown_response("application/vnd.api+json", r#"{"data":{}}"#);
    let err = decode_markdown_response(resp).unwrap_err().to_string();
    assert!(err.contains("expected a Markdown response"), "got: {err}");
}

#[test]
fn test_decode_markdown_response_rejects_empty_body() {
    let resp = markdown_response("text/markdown", "  \n ");
    let err = decode_markdown_response(resp).unwrap_err().to_string();
    assert!(err.contains("empty Markdown document"), "got: {err}");
}

#[test]
fn test_decode_markdown_response_rejects_absent_content_type() {
    let resp = markdown_response("", "## hi");
    let err = decode_markdown_response(resp).unwrap_err().to_string();
    assert!(err.contains("expected a Markdown response"), "got: {err}");
}

#[test]
fn test_translate_markdown_error_warns_write_outcome_is_unknown() {
    for method in ["POST", "PATCH"] {
        let raw = error(format!(
            "{method} /api/unstable/notebooks/1 failed (HTTP 500): \
             Unable to render the notebook as Markdown."
        ));
        let translated = translate_markdown_error(raw, method).to_string();
        assert!(
            translated.contains("unknown whether the change was applied"),
            "{method} not warned: {translated}"
        );
    }
}

#[test]
fn test_created_notebook_id_extracts_id() {
    let resp = HttpResponse {
        content_type: "application/vnd.api+json".to_string(),
        bytes: br###"{"data":{"id":"987654","attributes":{"markdown":"## created\n"}}}"###.to_vec(),
    };
    assert_eq!(created_notebook_id(resp).unwrap(), "987654");
}

#[test]
fn test_applied_write_context_warns_the_change_may_have_landed() {
    let wrapped = applied_write_context(error("bad body".to_string()), "create");
    assert!(
        wrapped.to_string().contains("check it before retrying"),
        "got: {}",
        wrapped.to_string()
    );
    assert!(wrapped.alternate().contains("bad body"), "source lost");
}

#[test]
fn test_created_notebook_id_rejects_neighbouring_json_media_type() {
    let resp = markdown_response("text/json-garbage", r#"{"data":{"id":"1"}}"#);
    let err = created_notebook_id(resp).unwrap_err().to_string();
    assert!(err.contains("expected a JSON:API response"), "got: {err}");
}

#[test]
fn test_created_notebook_id_rejects_markdown_response() {
    let resp = markdown_response("text/markdown", "## created\n");
    let err = created_notebook_id(resp).unwrap_err().to_string();
    assert!(err.contains("expected a JSON:API response"), "got: {err}");
}

#[test]
fn test_created_notebook_id_reports_missing_id() {
    for (body, want) in [
        (br#"{}"#.to_vec(), "did not contain data"),
        (
            br#"{"data":{"attributes":{"markdown":"x"}}}"#.to_vec(),
            "data.id",
        ),
    ] {
        let resp = HttpResponse {
            content_type: "application/vnd.api+json".to_string(),
            bytes: body,
        };
        let err = created_notebook_id(resp).unwrap_err().to_string();
        assert!(err.contains(want), "expected {want:?}, got: {err}");
    }
}

#[test]
fn test_decode_markdown_response_rejects_neighbouring_media_type() {
    let resp = markdown_response("text/markdown-json", "## hi");
    let err = decode_markdown_response(resp).unwrap_err().to_string();
    assert!(err.contains("expected a Markdown response"), "got: {err}");
}

#[test]
fn test_read_markdown_file_rejects_bom_prefixed_json() {
    let err = check_markdown_content("pup_nb_bom_json.json", "\u{feff}{\"data\":{\"id\":\"1\"}}".into())
        .unwrap_err()
        .to_string();
    assert!(err.contains("contains JSON, not Markdown"), "got: {err}");
}

#[test]
fn test_decode_markdown_response_accepts_uppercase_content_type() {
    let resp = markdown_response("Text/Markdown; charset=utf-8", "## hi\n");
    assert_eq!(decode_markdown_response(resp).unwrap(), "## hi\n");
}

#[test]
fn test_translate_markdown_error_preserves_original_on_chain() {
    let raw = error(
        "GET /api/unstable/notebooks/1 failed (HTTP 500): \
         Unable to render the notebook as Markdown."
            .to_string(),
    );
    let translated = translate_markdown_error(raw, "GET");
    assert!(translated
        .to_string()
        .contains("no Markdown representation"));
    let chain = translated.alternate();
    assert!(chain.contains("HTTP 500"), "source lost: {chain}");
}

#[test]
fn test_decode_markdown_response_rejects_invalid_utf8() {
    let resp = HttpResponse {
        content_type: "text/markdown".to_string(),
        bytes: vec![0xff, 0xfe],
    };
    let err = decode_markdown_response(resp).unwrap_err().to_string();
    assert!(err.contains("not valid UTF-8"), "got: {err}");
}

#[test]
fn test_translate_markdown_error_explains_unprojectable_notebook() {
    for status in ["500", "502"] {
        let raw = error(format!(
            "GET https://api.datadoghq.com/api/unstable/notebooks/1 failed (HTTP {status}): \
             {{\"errors\":[{{\"detail\":\"Unable to render the notebook as Markdown.\"}}]}}"
        ));
        let translated = translate_markdown_error(raw, "GET").to_string();
        assert!(
            translated.contains("no Markdown representation"),
            "status {status} not translated: {translated}"
        );
    }
}

#[test]
fn test_translate_markdown_error_passes_other_errors_through() {
    let raw = error("HTTP 404 not found".to_string());
    assert_eq!(
        translate_markdown_error(raw, "GET").to_string(),
        "HTTP 404 not found"
    );
}

#[test]
fn test_read_markdown_file_rejects_json_document() {
    let err = check_markdown_content("pup_nb_md_rejects_json.json", r#"{"data":{"id":"1"}}"#.into())
        .unwrap_err()
        .to_string();
    assert!(err.contains("contains JSON, not Markdown"), "got: {err}");
}

#[test]
fn test_read_markdown_file_allows_bare_scalar_markdown() {
    let content = check_markdown_content("pup_nb_md_bare_scalar.md", "42".into()).unwrap();
    assert_eq!(content, "42");
}

#[test]
fn test_read_markdown_file_rejects_empty() {
    let err = check_markdown_content("pup_nb_md_empty.md", "   \n".into())
        .unwrap_err()
        .to_string();
    assert!(err.contains("is empty"), "got: {err}");
}

#[test]
fn test_parse_filters_rejects_missing_separator() {
    let err = parse_filters(&["tags".into()]).unwrap_err();
    assert!(err.to_string().contains("expected FIELD:VALUE"));
}

#[test]
fn test_parse_filters_preserves_colons_in_values() {
    let filters = parse_filters(&["tags:pup-eval:abc".into()]).unwrap();
    assert_eq!(
        filters,
        vec![("filter[tags]".to_string(), "pup-eval:abc".to_string())]
    );
}

#[test]
fn filters_split_on_whitespace_and_reject_empty_parts() {
    let filters = parse_filters(&["tags:a  author:me".into(), " type:x ".into()]).unwrap();
    assert_eq!(
        filters,
        vec![
            ("filter[tags]".to_string(), "a".to_string()),
            ("filter[author]".to_string(), "me".to_string()),
            ("filter[type]".to_string(), "x".to_string()),
        ]
    );
    let err = parse_filters(&[":x".into()]).unwrap_err().to_string();
    assert_eq!(err, "invalid filter ':x': both FIELD and VALUE must be non-empty");
}

#[test]
fn media_types_params_and_pages() {
    assert_eq!(media_type_of(" Text/Markdown ; charset=utf-8"), "text/markdown");
    assert_eq!(media_type_of(""), "");
    let params = search_params("q", &vec![("filter[tags]".into(), "x".into())], "-modified", 5).unwrap();
    assert_eq!(params[2], ("page[size]".to_string(), "5".to_string()));
    assert_eq!(params[3], ("page[number]".to_string(), "0".to_string()));
    assert_eq!(params[4], ("filter[tags]".to_string(), "x".to_string()));
    assert_eq!(
        search_params("q", &vec![], "s", 0).unwrap_err().to_string(),
        "--limit must be between 1 and 1000, got 0"
    );
    assert_eq!(page_summary(10, Some(20), 5), (5, true));
    assert_eq!(page_summary(3, Some(3), 5), (3, false));
    assert_eq!(page_summary(3, None, 5), (3, false));
}

#[test]
fn validation_details_are_compacted() {
    let body = r#"{"errors": ["[{'detail': 'a'}, {'detail': 'b'}, {'detail': 'c'}, {'detail': 'd'}]", "plain"]}"#;
    assert_eq!(compact_validation_details(body).as_deref(), Some("abcd; plain"));
    assert_eq!(compact_validation_details("not json"), None);
    assert_eq!(compact_validation_details(r#"{"errors": []}"#), None);
    assert_eq!(
        notebook_response_error("create", 400, "  oops \n"),
        "failed to create notebook (HTTP 400): oops"
    );
}

fn errors_body(messages: &[&str]) -> String {
    let items: Vec<String> = messages.iter().map(|m| serde_json::to_string(m).unwrap()).collect();
    format!("{{\"errors\":[{}]}}", items.join(","))
}

#[test]
fn test_compact_validation_details_reassembles_character_errors() {
    let content = errors_body(&[concat_message()]);
    assert_eq!(compact_validation_details(&content).as_deref(), Some("bad!"));
}

fn concat_message() -> &'static str {
    "API input validation failed: {'cells': {3: {'errors': [\
     {'detail': 'b', 'source': {'pointer': '/data/attributes/definition/requests'}}, \
     {'detail': 'a', 'source': {'pointer': '/data/attributes/definition/requests'}}, \
     {'detail': 'd', 'source': {'pointer': '/data/attributes/definition/requests'}}, \
     {'detail': '!', 'source': {'pointer': '/data/attributes/definition/requests'}}]}}}"
}

#[test]
fn test_compact_validation_details_preserves_normal_error() {
    let content = errors_body(&["Invalid notebook type"]);
    assert_eq!(compact_validation_details(&content).as_deref(), Some("Invalid notebook type"));
}

#[test]
fn search_payload_takes_at_most_the_limit() {
    let resp = json(r#"{"data":[{"id":1},{"id":2},{"id":3}],"meta":{"total":10}}"#);
    let (payload, count, truncated) = search_payload(&resp, 2).unwrap();
    assert_eq!(count, 2);
    assert!(truncated);
    assert_eq!(arr_field(&payload, "data").len(), 2);
    let meta = get(&payload, "meta").unwrap();
    assert!(matches!(get(meta, "returned"), Some(Json::Number(n)) if n == "2"));
    assert!(matches!(get(meta, "truncated"), Some(Json::Bool(true))));
    assert!(matches!(get(meta, "total"), Some(Json::Number(n)) if n == "10"));
}

#[test]
fn search_payload_without_meta_counts_what_it_has() {
    let resp = json(r#"{"data":[{"id":1}]}"#);
    let (payload, count, truncated) = search_payload(&resp, 50).unwrap();
    assert_eq!((count, truncated), (1, false));
    let meta = get(&payload, "meta").unwrap();
    assert!(matches!(get(meta, "total"), Some(Json::Number(n)) if n == "1"));
    assert!(matches!(get(meta, "returned"), Some(Json::Number(n)) if n == "1"));
    let err = search_payload(&json(r#"{"meta":{}}"#), 5).unwrap_err();
    assert_eq!(err.to_string(), "notebook search response did not contain data[]");
}

#[test]
fn edit_appends_cells_after_existing_ones() {
    let nb = json(r#"{"data":{"id":7,"attributes":{"name":"nb","cells":[{"id":"a"}]}}}"#);
    let added = json(r#"[{"attributes":{"definition":{"type":"markdown"}}}]"#);
    let body = append_cells(&nb, &added).unwrap();
    let data = get(&body, "data").unwrap();
    let attributes = get(data, "attributes").unwrap();
    assert_eq!(str_field(attributes, "name"), Some("nb".to_string()));
    let cells = arr_field(attributes, "cells");
    assert_eq!(cells.len(), 2);
    assert_eq!(str_field(&cells[0], "id"), Some("a".to_string()));
    let err = append_cells(&nb, &json(r#"{"cells":[]}"#)).unwrap_err();
    assert_eq!(err.to_string(), "--file must contain a JSON array of cell objects");
    let err = append_cells(&json(r#"{"data":{}}"#), &added).unwrap_err();
    assert_eq!(err.to_string(), "could not locate cells array in notebook response");
}
