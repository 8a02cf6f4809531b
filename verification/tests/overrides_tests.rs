use melos_rs::overrides::{build_pubspec_overrides_content, local_override_deps, plan_pubspec_overrides, OverrideAction};
use melos_rs::package::Package;

fn make_package(name: &str, path: &str, deps: Vec<&str>) -> Package {
    Package {
        name: name.to_string(),
        path: path.to_string(),
        version: Some("1.0.0".to_string()),
        is_flutter: false,
        publish_to: None,
        dependencies: deps.into_iter().map(String::from).collect(),
        dev_dependencies: vec![],
        dependency_versions: vec![],
        resolution: None,
    }
}

#[test]
fn test_build_pubspec_overrides_content() {
    let core = make_package("core", "/workspace/packages/core", vec![]);
    let utils = make_package("utils", "/workspace/packages/utils", vec![]);
    let app_path = "/workspace/packages/app";

    let deps: Vec<&Package> = vec![&core, &utils];
    let content = build_pubspec_overrides_content(&deps, app_path);

    assert!(content.contains("# Generated by melos-rs"));
    assert!(content.contains("dependency_overrides:"));
    assert!(content.contains("  core:"));
    assert!(content.contains("    path: ../core"));
    assert!(content.contains("  utils:"));
    assert!(content.contains("    path: ../utils"));
}

#[test]
fn test_build_pubspec_overrides_sorted() {
    let zebra = make_package("zebra", "/workspace/packages/zebra", vec![]);
    let alpha = make_package("alpha", "/workspace/packages/alpha", vec![]);
    let app_path = "/workspace/packages/app";

    let deps: Vec<&Package> = vec![&zebra, &alpha];
    let content = build_pubspec_overrides_content(&deps, app_path);

    let alpha_pos = content.find("alpha:").unwrap();
    let zebra_pos = content.find("zebra:").unwrap();
    assert!(alpha_pos < zebra_pos, "Dependencies should be sorted by name");
}

#[test]
fn test_build_pubspec_overrides_exact_text() {
    let shared = make_package("shared", "/workspace/shared/utils", vec![]);
    let deps: Vec<&Package> = vec![&shared];
    let content = build_pubspec_overrides_content(&deps, "/workspace/packages/app");
    assert_eq!(
        content,
        "# Generated by melos-rs. Do not edit.\ndependency_overrides:\n  shared:\n    path: ../../shared/utils\n"
    );
}

#[test]
fn test_local_override_deps_first_source_per_name() {
    let mut app = make_package("app", "/w/app", vec!["core", "http"]);
    app.dev_dependencies = vec!["core_test".to_string()];
    let sources = vec![
        make_package("core_test", "/w/core_test", vec![]),
        make_package("core", "/w/core", vec![]),
        make_package("core", "/ext/core", vec![]),
    ];
    assert_eq!(local_override_deps(&app, &sources), vec![1, 0]);
}

#[test]
fn test_plan_overrides_skip_remove_write() {
    let mut ws_app = make_package("app", "/w/packages/app", vec!["core"]);
    ws_app.resolution = Some("workspace".to_string());
    let lone = make_package("lone", "/w/packages/lone", vec!["http"]);
    let legacy = make_package("legacy_app", "/w/packages/legacy_app", vec!["core"]);
    let sources = vec![make_package("core", "/w/packages/core", vec![])];
    let actions = plan_pubspec_overrides(&[ws_app, lone, legacy], &sources);
    assert_eq!(actions.len(), 3);
    assert!(matches!(actions[0], OverrideAction::Skip));
    assert!(matches!(actions[1], OverrideAction::Remove));
    match &actions[2] {
        OverrideAction::Write(text) => {
            assert!(text.contains("  core:\n    path: ../core\n"));
        },
        _ => panic!("expected a file to write"),
    }
}
