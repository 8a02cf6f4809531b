use melos_rs::commands::HealthArgs;
use melos_rs::config::PackageFilters;
use melos_rs::health::{
    missing_fields, missing_fields_issues, sdk_consistency, sdk_issue_count, selected_checks, version_drift,
    PubspecHealthFields, SdkConstraints,
};
use melos_rs::package::Package;

fn make_package(name: &str, dep_versions: Vec<(&str, &str)>) -> Package {
    Package {
        name: name.to_string(),
        path: format!("/tmp/test/{}", name),
        version: Some("1.0.0".to_string()),
        is_flutter: false,
        publish_to: None,
        dependencies: dep_versions.iter().map(|(n, _)| n.to_string()).collect(),
        dev_dependencies: vec![],
        dependency_versions: dep_versions.iter().map(|(n, c)| (n.to_string(), c.to_string())).collect(),
        resolution: None,
    }
}

fn check_version_drift(packages: &[Package]) -> u32 {
    version_drift(packages).len() as u32
}

#[test]
fn test_version_drift_no_issues() {
    let packages = vec![
        make_package("a", vec![("http", "^1.0.0")]),
        make_package("b", vec![("http", "^1.0.0")]),
    ];
    let issues = check_version_drift(&packages);
    assert_eq!(issues, 0);
}

#[test]
fn test_version_drift_detected() {
    let packages = vec![
        make_package("a", vec![("http", "^1.0.0")]),
        make_package("b", vec![("http", "^2.0.0")]),
    ];
    let issues = check_version_drift(&packages);
    assert_eq!(issues, 1);
}

#[test]
fn test_version_drift_skips_workspace_siblings() {
    let packages = vec![make_package("a", vec![("b", "^1.0.0")]), make_package("b", vec![])];
    let issues = check_version_drift(&packages);
    assert_eq!(issues, 0);
}

#[test]
fn test_version_drift_multiple_deps() {
    let packages = vec![
        make_package("a", vec![("http", "^1.0.0"), ("path", "^1.8.0")]),
        make_package("b", vec![("http", "^2.0.0"), ("path", "^1.8.0")]),
    ];
    let issues = check_version_drift(&packages);
    assert_eq!(issues, 1);
}

#[test]
fn test_version_drift_report_details_sorted() {
    let packages = vec![
        make_package("c", vec![("zeta", "^2.0.0"), ("http", "^1.0.0")]),
        make_package("a", vec![("http", "^0.13.0"), ("zeta", "^1.0.0")]),
        make_package("b", vec![("http", "^1.0.0")]),
    ];
    let issues = version_drift(&packages);
    assert_eq!(issues.len(), 2);
    assert_eq!(issues[0].dependency, "http");
    assert_eq!(issues[0].constraints.len(), 2);
    assert_eq!(issues[0].constraints[0].constraint, "^0.13.0");
    assert_eq!(issues[0].constraints[0].packages, vec!["a".to_string()]);
    assert_eq!(issues[0].constraints[1].constraint, "^1.0.0");
    assert_eq!(issues[0].constraints[1].packages, vec!["c".to_string(), "b".to_string()]);
    assert_eq!(issues[1].dependency, "zeta");
}

fn fields(description: Option<&str>, homepage: Option<&str>, repository: Option<&str>, version: Option<&str>) -> PubspecHealthFields {
    PubspecHealthFields {
        description: description.map(String::from),
        homepage: homepage.map(String::from),
        repository: repository.map(String::from),
        version: version.map(String::from),
    }
}

#[test]
fn test_missing_fields_lists_each_gap() {
    let all = missing_fields(&fields(None, None, None, Some("")));
    assert_eq!(all, vec!["description", "homepage/repository", "version"]);
    let none = missing_fields(&fields(Some("A package"), None, Some("https://x"), Some("1.0.0")));
    assert!(none.is_empty());
    let empty_desc = missing_fields(&fields(Some(""), Some("https://h"), None, Some("1.0.0")));
    assert_eq!(empty_desc, vec!["description"]);
}

#[test]
fn test_missing_fields_issues_skip_private_packages() {
    let mut private = make_package("private", vec![]);
    private.publish_to = Some("none".to_string());
    let public = make_package("public", vec![]);
    let complete = make_package("complete", vec![]);
    let packages = vec![private, public, complete];
    let f = vec![
        fields(None, None, None, None),
        fields(None, Some("https://h"), None, Some("1.0.0")),
        fields(Some("d"), Some("https://h"), None, Some("1.0.0")),
    ];
    let issues = missing_fields_issues(&packages, &f);
    assert_eq!(issues.len(), 1);
    assert_eq!(issues[0].package, "public");
    assert_eq!(issues[0].missing, vec!["description"]);
}

fn sdk(sdk: Option<&str>, flutter: Option<&str>) -> SdkConstraints {
    SdkConstraints { sdk: sdk.map(String::from), flutter: flutter.map(String::from) }
}

#[test]
fn test_sdk_consistency_consistent() {
    let packages = vec![make_package("a", vec![]), make_package("b", vec![])];
    let c = vec![sdk(Some(">=3.0.0 <4.0.0"), None), sdk(Some(">=3.0.0 <4.0.0"), None)];
    let r = sdk_consistency(&packages, &c);
    assert!(r.missing_sdk.is_empty());
    assert!(r.dart_sdk_drift.is_empty());
    assert!(r.flutter_sdk_drift.is_empty());
    assert_eq!(sdk_issue_count(&r), 0);
}

#[test]
fn test_sdk_consistency_missing_and_drift() {
    let packages = vec![make_package("a", vec![]), make_package("b", vec![]), make_package("c", vec![])];
    let c = vec![
        sdk(Some(">=3.0.0 <4.0.0"), Some(">=3.10.0")),
        sdk(Some(">=2.17.0 <4.0.0"), Some(">=3.10.0")),
        sdk(Some(""), None),
    ];
    let r = sdk_consistency(&packages, &c);
    assert_eq!(r.missing_sdk, vec!["c"]);
    assert_eq!(r.dart_sdk_drift.len(), 2);
    assert_eq!(r.dart_sdk_drift[0].constraint, ">=2.17.0 <4.0.0");
    assert_eq!(r.dart_sdk_drift[0].packages, vec!["b"]);
    assert_eq!(r.dart_sdk_drift[1].packages, vec!["a"]);
    assert!(r.flutter_sdk_drift.is_empty());
    assert_eq!(sdk_issue_count(&r), 2);
}

fn health_args(version_drift: bool, missing_fields: bool, sdk_consistency: bool, all: bool) -> HealthArgs {
    HealthArgs { version_drift, missing_fields, sdk_consistency, all, filters: PackageFilters::default() }
}

#[test]
fn test_selected_checks() {
    assert_eq!(selected_checks(&health_args(false, false, false, false)), (true, true, true));
    assert_eq!(selected_checks(&health_args(true, false, false, false)), (true, false, false));
    assert_eq!(selected_checks(&health_args(false, true, true, false)), (false, true, true));
    assert_eq!(selected_checks(&health_args(true, false, false, true)), (true, true, true));
}
