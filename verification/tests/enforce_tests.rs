use melos_rs::enforce::{enforce_versions, version_violations};
use melos_rs::package::Package;

fn make_versioned_package(name: &str, version: &str, deps: Vec<&str>, dep_versions: Vec<(&str, &str)>) -> Package {
    Package {
        name: name.to_string(),
        path: format!("/workspace/packages/{}", name),
        version: Some(version.to_string()),
        is_flutter: false,
        publish_to: None,
        dependencies: deps.into_iter().map(String::from).collect(),
        dev_dependencies: vec![],
        dependency_versions: dep_versions.into_iter().map(|(k, v)| (k.to_string(), v.to_string())).collect(),
        resolution: None,
    }
}

#[test]
fn test_enforce_versions_all_satisfied() {
    let core = make_versioned_package("core", "1.2.3", vec![], vec![]);
    let app = make_versioned_package("app", "1.0.0", vec!["core"], vec![("core", "^1.0.0")]);
    let all = vec![core.clone(), app.clone()];
    assert!(enforce_versions(&[app], &all).is_ok());
}

#[test]
fn test_enforce_versions_violation() {
    let core = make_versioned_package("core", "2.0.0", vec![], vec![]);
    let app = make_versioned_package("app", "1.0.0", vec!["core"], vec![("core", "^1.0.0")]);
    let all = vec![core.clone(), app.clone()];
    let result = enforce_versions(&[app], &all);
    assert!(result.is_err());
    let err = result.unwrap_err().to_string();
    assert!(err.contains("app"));
    assert!(err.contains("core"));
    assert!(err.contains("^1.0.0"));
    assert!(err.contains("2.0.0"));
}

#[test]
fn test_enforce_versions_no_constraint_skipped() {
    let core = make_versioned_package("core", "2.0.0", vec![], vec![]);
    let app = make_versioned_package("app", "1.0.0", vec!["core"], vec![]);
    let all = vec![core.clone(), app.clone()];
    assert!(enforce_versions(&[app], &all).is_ok());
}

#[test]
fn test_enforce_versions_non_workspace_dep_skipped() {
    let app = make_versioned_package("app", "1.0.0", vec!["http"], vec![("http", "^0.13.0")]);
    let all = vec![app.clone()];
    assert!(enforce_versions(&[app], &all).is_ok());
}

#[test]
fn test_version_violations_lines_and_message() {
    let core = make_versioned_package("core", "2.0.0+9", vec![], vec![]);
    let mut app = make_versioned_package("app", "1.0.0", vec!["core"], vec![("core", "^1.0.0")]);
    app.dev_dependencies = vec!["core".to_string()];
    let all = vec![core.clone(), app.clone()];
    let lines = version_violations(&[app.clone()], &all);
    assert_eq!(
        lines,
        vec![
            "  app depends on core ^1.0.0 but workspace has 2.0.0+9".to_string(),
            "  app depends on core ^1.0.0 but workspace has 2.0.0+9".to_string(),
        ]
    );
    let err = enforce_versions(&[app], &all).unwrap_err();
    assert!(err.starts_with("Version constraint violations found (2 issues):\n  app depends on core"));
}

#[test]
fn test_enforce_versions_unreadable_constraint_skipped() {
    let core = make_versioned_package("core", "2.0.0", vec![], vec![]);
    let app = make_versioned_package("app", "1.0.0", vec!["core"], vec![("core", "not a constraint")]);
    let all = vec![core.clone(), app.clone()];
    assert!(enforce_versions(&[app], &all).is_ok());
}
