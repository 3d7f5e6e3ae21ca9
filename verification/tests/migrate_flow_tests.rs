use pup_commands::idp::migrate_flow::{
    choose_catalog_files, confirm_overwrite, entities_line, kind_counts, output_choice,
    summary_lines, write_despite_warnings, FileChoice, MigrateOutcome, MigrateStatus, OutputChoice,
};
use pup_commands::json::Json;

fn doc(kind: &str) -> Json {
    Json::Object(vec![("kind".to_string(), Json::Str(kind.to_string()))])
}

#[test]
fn catalog_file_choice() {
    assert_eq!(choose_catalog_files(3, "ALL"), Ok(FileChoice::All));
    assert_eq!(choose_catalog_files(3, "2"), Ok(FileChoice::One(1)));
    assert_eq!(choose_catalog_files(3, "+3"), Ok(FileChoice::One(2)));
    assert_eq!(choose_catalog_files(3, "0"), Err("choice 0 out of range (1–3)".to_string()));
    assert_eq!(choose_catalog_files(3, "4"), Err("choice 4 out of range (1–3)".to_string()));
    assert_eq!(choose_catalog_files(3, "two"), Err("invalid choice 'two'".to_string()));
    assert_eq!(choose_catalog_files(3, ""), Err("invalid choice ''".to_string()));
    assert_eq!(choose_catalog_files(3, "-1"), Err("invalid choice '-1'".to_string()));
}

#[test]
fn prompts_answers() {
    assert!(confirm_overwrite("Y"));
    assert!(confirm_overwrite("yes"));
    assert!(!confirm_overwrite("no"));
    assert!(!confirm_overwrite(""));
    assert!(write_despite_warnings(" 2 "));
    assert!(!write_despite_warnings("1"));
    assert_eq!(output_choice("1"), OutputChoice::Replace);
    assert_eq!(output_choice("2"), OutputChoice::Custom);
    assert_eq!(output_choice("3"), OutputChoice::Stdout);
}

#[test]
fn kinds_are_counted() {
    let docs = vec![doc("service"), doc("system"), doc("service"), doc("datastore")];
    assert_eq!(kind_counts(&docs), (2, 1));
    assert_eq!(entities_line(2, 1), "  2 service entities, 1 companion system entity");
    assert_eq!(entities_line(1, 0), "  1 service entity, 0 companion system entities");
}

#[test]
fn summary_counts_each_outcome() {
    let outcomes = vec![
        MigrateOutcome {
            path: "a/service.datadog.yaml".to_string(),
            status: MigrateStatus::Migrated { warnings: vec![] },
            services: 1,
            systems: 1,
        },
        MigrateOutcome {
            path: "b/service.datadog.yaml".to_string(),
            status: MigrateStatus::Migrated { warnings: vec!["missing owner".to_string()] },
            services: 2,
            systems: 0,
        },
        MigrateOutcome {
            path: "c/service.datadog.yaml".to_string(),
            status: MigrateStatus::Failed("bad yaml".to_string()),
            services: 0,
            systems: 0,
        },
        MigrateOutcome {
            path: "d/service.datadog.yaml".to_string(),
            status: MigrateStatus::Skipped,
            services: 0,
            systems: 0,
        },
    ];
    let lines = summary_lines(&outcomes, "0.25");
    assert_eq!(
        lines,
        vec![
            "".to_string(),
            "\x1b[1mMigration complete\x1b[0m in 0.25s".to_string(),
            "  \x1b[32m\x1b[1m\u{2714}\x1b[0m  2 migrated".to_string(),
            "  \x1b[33m\u{26a0}\x1b[0m  1 written with validation warnings".to_string(),
            "     \x1b[33mb/service.datadog.yaml\x1b[0m".to_string(),
            "       \x1b[2mmissing owner\x1b[0m".to_string(),
            "  \x1b[31m\u{2717}\x1b[0m  1 failed".to_string(),
            "     \x1b[31mc/service.datadog.yaml\x1b[0m: bad yaml".to_string(),
            "  \x1b[2m\u{2500}  1 skipped\x1b[0m".to_string(),
            "  \x1b[2m\u{21b3}  3 services, 1 system total\x1b[0m".to_string(),
        ]
    );
}
