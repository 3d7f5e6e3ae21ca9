use pup_commands::install::{ssi_linux, LinuxSsiPlan};

#[test]
fn dry_run_returns_ok_and_does_not_bail() {
    let result = ssi_linux(
        "bastion.example.com".to_string(),
        "ec2-user".to_string(),
        Some("~/.ssh/id_ed25519".to_string()),
        22,
        true,
    );
    assert!(result.is_ok(), "dry-run should succeed; got {:?}", result.err());
}

#[test]
fn non_dry_run_bails_with_actionable_message() {
    let msg = ssi_linux("host.example.com".to_string(), "root".to_string(), None, 22, false)
        .expect_err("non-dry-run should bail until the real impl lands");
    assert!(msg.contains("--dry-run"), "error should point at --dry-run as the working flow, got: {msg}");
    assert!(msg.contains("docs/INSTALL.md"), "error should reference the design doc, got: {msg}");
    assert!(msg.contains("root@host.example.com:22"), "got: {msg}");
}

#[test]
fn plan_names_the_target_and_key() {
    let plan = LinuxSsiPlan {
        host: "bastion.example.com".to_string(),
        user: "ec2-user".to_string(),
        key: Some("~/.ssh/id_ed25519".to_string()),
        port: 2222,
    };
    let lines = plan.print();
    assert_eq!(lines.len(), 21);
    assert_eq!(lines[0], "# Planned `pup install ssi linux` steps");
    assert_eq!(lines[2], "# Target: ec2-user@bastion.example.com:2222  (key: ~/.ssh/id_ed25519)");
    assert_eq!(lines[4], "# 1. Open an SSH session via russh client.");
    let plan = LinuxSsiPlan { key: None, ..plan };
    assert_eq!(
        plan.print()[2],
        "# Target: ec2-user@bastion.example.com:2222  (key: SSH agent / default identity)"
    );
}
