use pup_commands::alias::{
    alias_lines, aliases_from_yaml, apply_expansion, delete_aliases, expand, import_aliases,
    set_alias, splice_expansion, AliasError, AliasMap,
};

fn args(s: &str) -> Vec<String> {
    s.split_whitespace().map(String::from).collect()
}

fn map(pairs: &[(&str, &str)]) -> AliasMap {
    AliasMap::from_pairs(
        pairs
            .iter()
            .map(|(k, v)| (k.to_string(), v.to_string()))
            .collect(),
    )
}

#[test]
fn test_apply_expansion_no_match() {
    let aliases = map(&[]);
    let result = apply_expansion(&args("pup infra-list"), "infra-list", &aliases);
    assert_eq!(result, args("pup infra-list"));
}

#[test]
fn test_apply_expansion_simple() {
    let aliases = map(&[("infra-list", "infrastructure hosts list")]);
    let result = apply_expansion(&args("pup infra-list"), "infra-list", &aliases);
    assert_eq!(result, args("pup infrastructure hosts list"));
}

#[test]
fn test_apply_expansion_preserves_trailing_args() {
    let aliases = map(&[("infra-list", "infrastructure hosts list")]);
    let result = apply_expansion(
        &args("pup infra-list --filter env:prod"),
        "infra-list",
        &aliases,
    );
    assert_eq!(
        result,
        args("pup infrastructure hosts list --filter env:prod")
    );
}

#[test]
fn test_apply_expansion_preserves_leading_flags() {
    let aliases = map(&[("infra-list", "infrastructure hosts list")]);
    let result = apply_expansion(
        &args("pup --output json infra-list"),
        "infra-list",
        &aliases,
    );
    assert_eq!(result, args("pup --output json infrastructure hosts list"));
}

#[test]
fn test_apply_expansion_preserves_quoted_spaces() {
    let aliases = map(&[(
        "host-count",
        r#"ddsql table --query "SELECT COUNT(*) FROM dd.hosts""#,
    )]);
    let result = apply_expansion(&args("pup host-count"), "host-count", &aliases);
    assert_eq!(
        result,
        vec![
            "pup",
            "ddsql",
            "table",
            "--query",
            "SELECT COUNT(*) FROM dd.hosts"
        ]
        .into_iter()
        .map(String::from)
        .collect::<Vec<_>>()
    );
}

#[test]
fn test_apply_expansion_preserves_multiline_quoted_query() {
    let aliases = map(&[(
        "host-count",
        "ddsql table --query \"SELECT COUNT(*)\nFROM dd.hosts\"",
    )]);
    let result = apply_expansion(&args("pup host-count"), "host-count", &aliases);
    assert_eq!(
        result,
        vec![
            "pup",
            "ddsql",
            "table",
            "--query",
            "SELECT COUNT(*)\nFROM dd.hosts",
        ]
        .into_iter()
        .map(String::from)
        .collect::<Vec<_>>()
    );
}

#[test]
fn test_apply_expansion_unclosed_quote_returns_unchanged() {
    let aliases = map(&[("bad-alias", "ddsql table --query \"unclosed")]);
    let result = apply_expansion(&args("pup bad-alias"), "bad-alias", &aliases);
    assert_eq!(result, args("pup bad-alias"));
}

#[test]
fn test_set_rejects_builtin_name() {
    let mut aliases = map(&[]);
    let result = set_alias(
        &mut aliases,
        "infrastructure".to_string(),
        "infrastructure hosts list".to_string(),
        true,
    );
    assert!(result.is_err());
    assert!(result.unwrap_err().to_string().contains("built-in command"));
    assert!(aliases.is_empty());
}

#[test]
fn expand_reads_stored_yaml_and_skips_builtins() {
    let stored = "infra-list: infrastructure hosts list\nlogs-err: logs search --query status:error\n";
    let result = expand(&args("pup infra-list -o json"), "infra-list", false, Some(stored));
    assert_eq!(result, args("pup infrastructure hosts list -o json"));
    let result = expand(&args("pup infra-list"), "infra-list", true, Some(stored));
    assert_eq!(result, args("pup infra-list"));
    let result = expand(&args("pup infra-list"), "infra-list", false, None);
    assert_eq!(result, args("pup infra-list"));
    let result = expand(&args("pup infra-list"), "infra-list", false, Some("not: [a map"));
    assert_eq!(result, args("pup infra-list"));
}

#[test]
fn only_first_occurrence_is_replaced() {
    let result = splice_expansion(
        &args("pup x y x"),
        "x",
        vec!["a".to_string(), "b".to_string()],
    );
    assert_eq!(result, args("pup a b y x"));
    let result = splice_expansion(&args("pup y"), "x", vec!["a".to_string()]);
    assert_eq!(result, args("pup y"));
}

#[test]
fn set_get_delete_round_trip() {
    let mut aliases = map(&[("b", "two"), ("a", "one")]);
    assert_eq!(aliases.get("a"), Some("one".to_string()));
    set_alias(&mut aliases, "a".to_string(), "uno".to_string(), false).unwrap();
    assert_eq!(aliases.get("a"), Some("uno".to_string()));
    assert_eq!(
        alias_lines(&aliases),
        vec!["a = uno".to_string(), "b = two".to_string()]
    );
    delete_aliases(&mut aliases, &["a".to_string()]).unwrap();
    assert_eq!(aliases.get("a"), None);
    assert_eq!(aliases.get("b"), Some("two".to_string()));
    let error = delete_aliases(&mut aliases, &["b".to_string(), "b".to_string()]).unwrap_err();
    assert_eq!(error, AliasError::NotFound("b".to_string()));
    assert_eq!(error.to_string(), "alias not found: b");
    assert_eq!(alias_lines(&map(&[])), vec!["No aliases configured.".to_string()]);
}

#[test]
fn import_merges_json_or_yaml_and_refuses_empty_files() {
    let mut aliases = aliases_from_yaml("a: one\n");
    let count = import_aliases(&mut aliases, "more.json", r#"{"b": "two", "a": "uno"}"#).unwrap();
    assert_eq!(count, 2);
    assert_eq!(aliases.get("a"), Some("uno".to_string()));
    assert_eq!(aliases.get("b"), Some("two".to_string()));
    let error = import_aliases(&mut aliases, "more.json", "a: one").unwrap_err();
    assert_eq!(error.to_string(), "failed to parse JSON from more.json");
    let error = import_aliases(&mut aliases, "more.yaml", "{}").unwrap_err();
    assert_eq!(error.to_string(), "no aliases found in more.yaml");
    let error = import_aliases(&mut aliases, "more.yaml", "- a\n- b\n").unwrap_err();
    assert_eq!(error, AliasError::InvalidYaml("more.yaml".to_string()));
}
