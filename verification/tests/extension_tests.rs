use pup_commands::extension::{
    github_install_message, installed_items, installed_lines, local_extension_name, plan_install,
    remote_items, remote_lines, upgrade_target, ExtensionError, InstallOptions, InstallPlan,
    InstalledExtension, RemoteExtension, UpgradeTarget,
};
use pup_commands::json::{get, str_field, Json};

fn opts(source: &str, local: bool) -> InstallOptions {
    InstallOptions {
        source: source.into(),
        extension: None,
        all: false,
        tag: None,
        local,
        link: false,
        name: None,
        force: false,
        description: None,
    }
}

#[test]
fn local_names_drop_prefix_and_exe_suffix() {
    assert_eq!(local_extension_name(Some("pup-foo.exe"), "x").unwrap(), "foo");
    assert_eq!(local_extension_name(Some("bar"), "x").unwrap(), "bar");
    assert_eq!(local_extension_name(Some("pup-pup-baz"), "x").unwrap(), "pup-baz");
    let error = local_extension_name(Some("pup-.exe"), "./pup-.exe").unwrap_err();
    assert_eq!(
        error.to_string(),
        "could not derive extension name from './pup-.exe', use --name to specify it"
    );
    assert_eq!(
        local_extension_name(None, "/").unwrap_err(),
        ExtensionError::NoName("/".into())
    );
}

#[test]
fn local_install_plans_use_the_file_name() {
    let plan = plan_install(opts("./bin/pup-hello", true)).unwrap();
    assert_eq!(
        plan,
        InstallPlan::Local {
            source: "./bin/pup-hello".into(),
            name: "hello".into(),
            link: false,
            force: false,
            description: None,
        }
    );
    let mut o = opts("./bin/pup-hello", true);
    o.all = true;
    assert_eq!(plan_install(o).unwrap_err(), ExtensionError::GitHubOnlyOptions);
    let mut o = opts("./bin/tool", true);
    o.name = Some("custom".into());
    assert!(matches!(plan_install(o).unwrap(), InstallPlan::Local { name, .. } if name == "custom"));
}

#[test]
fn github_installs_pass_options_through() {
    let mut o = opts("owner/repo", false);
    o.tag = Some("v1.2.0".into());
    o.all = true;
    match plan_install(o).unwrap() {
        InstallPlan::GitHub { source, tag, all, .. } => {
            assert_eq!(source, "owner/repo");
            assert_eq!(tag.as_deref(), Some("v1.2.0"));
            assert!(all);
        }
        other => panic!("expected a GitHub install, got {other:?}"),
    }
}

#[test]
fn install_messages_and_upgrade_targets() {
    assert_eq!(
        github_install_message(&vec!["a".into()], "o/r"),
        "Installed extension 'a' from github:o/r"
    );
    assert_eq!(
        github_install_message(&vec!["a".into(), "b".into()], "o/r"),
        "Installed 2 extensions from github:o/r: a, b"
    );
    assert_eq!(upgrade_target(None, true).unwrap(), UpgradeTarget::All);
    assert_eq!(upgrade_target(Some("x".into()), false).unwrap(), UpgradeTarget::One("x".into()));
    assert!(upgrade_target(None, false)
        .unwrap_err()
        .to_string()
        .starts_with("specify an extension name to upgrade"));
}

fn installed(name: &str, description: &str) -> InstalledExtension {
    InstalledExtension {
        name: name.to_string(),
        version: "1.2.0".to_string(),
        source: "github:acme/pup-ext".to_string(),
        description: description.to_string(),
        installed_at: "2024-05-01T00:00:00Z".to_string(),
    }
}

#[test]
fn installed_listing_lines() {
    assert_eq!(
        installed_lines(&[]),
        vec![
            "No extensions installed.".to_string(),
            String::new(),
            "Install one with: pup extension install <source>".to_string()
        ]
    );
    let lines = installed_lines(&[installed("hello", ""), installed("deploy", "ship it")]);
    assert_eq!(lines, vec!["hello v1.2.0".to_string(), "deploy v1.2.0 - ship it".to_string()]);
}

#[test]
fn remote_listing_lines_and_items() {
    assert_eq!(remote_lines(&[]), vec!["No remote extensions found.".to_string()]);
    let item = RemoteExtension {
        name: "hello".to_string(),
        version: "0.3.1".to_string(),
        tag: "v0.3.1".to_string(),
        source: "acme/pup-ext".to_string(),
        asset: "pup-hello-linux-amd64".to_string(),
        inferred_from_archive: true,
    };
    assert_eq!(remote_lines(std::slice::from_ref(&item)), vec!["hello v0.3.1 (v0.3.1)".to_string()]);
    let values = remote_items(std::slice::from_ref(&item));
    assert_eq!(values.len(), 1);
    assert_eq!(str_field(&values[0], "asset"), Some("pup-hello-linux-amd64".to_string()));
    assert!(matches!(get(&values[0], "inferred_from_archive"), Some(Json::Bool(true))));
    let values = installed_items(&[installed("hello", "")]);
    assert_eq!(str_field(&values[0], "installed_at"), Some("2024-05-01T00:00:00Z".to_string()));
    assert_eq!(str_field(&values[0], "description"), Some(String::new()));
}

#[test]
fn local_name_comes_from_the_file_name() {
    match plan_install(opts("tools/v1.0/pup-deploy.exe", true)).unwrap() {
        InstallPlan::Local { name, .. } => assert_eq!(name, "deploy"),
        other => panic!("local plan expected, got {other:?}"),
    }
    assert_eq!(
        plan_install(opts("tools/pup-", true)).unwrap_err(),
        ExtensionError::NoName("tools/pup-".to_string())
    );
}
