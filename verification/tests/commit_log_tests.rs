use melos_rs::commit_log::{group_commits_by_package, parse_commit_log};
use melos_rs::package::Package;

fn package(name: &str, path: &str) -> Package {
    Package {
        name: name.to_string(),
        path: path.to_string(),
        version: Some("1.0.0".to_string()),
        is_flutter: false,
        publish_to: None,
        dependencies: vec![],
        dev_dependencies: vec![],
        dependency_versions: vec![],
        resolution: None,
    }
}

#[test]
fn parse_commit_log_reads_records_in_order() {
    let out = "abc1234\nfeat(core): add cache\n\nMore detail.\n---END---\ndef5678\nnot conventional\n---END---\n0a0b0c0\nfix!: drop api\n---END---\n";
    let commits = parse_commit_log(out);
    assert_eq!(commits.len(), 2);
    assert_eq!(commits[0].hash, "abc1234");
    assert_eq!(commits[0].commit_type, "feat");
    assert_eq!(commits[0].scope, Some("core".to_string()));
    assert_eq!(commits[0].description, "add cache");
    assert_eq!(commits[0].body, Some("More detail.".to_string()));
    assert_eq!(commits[1].hash, "0a0b0c0");
    assert!(commits[1].breaking);
}

#[test]
fn parse_commit_log_drops_unfinished_and_empty_records() {
    assert!(parse_commit_log("").is_empty());
    assert!(parse_commit_log("---END---\n---END---\n").is_empty());
    assert!(parse_commit_log("abc\nfeat: open record\n").is_empty());
}

#[test]
fn group_commits_by_package_uses_relative_prefixes() {
    let commits = parse_commit_log("a1\nfeat: one\n---END---\nb2\nfix: two\n---END---\nc3\nchore: three\n---END---\n");
    let changed = vec![
        vec!["packages/core/lib/a.dart".to_string()],
        vec!["packages/app/lib/b.dart".to_string(), "packages/core/pubspec.yaml".to_string()],
        vec!["README.md".to_string()],
    ];
    let pkgs = vec![
        package("app", "/ws/packages/app"),
        package("core", "/ws/packages/core"),
        package("util", "/ws/packages/util"),
    ];
    let groups = group_commits_by_package("/ws", &commits, &changed, &pkgs);
    assert_eq!(groups.len(), 2);
    assert_eq!(groups[0].0, "app");
    assert_eq!(groups[0].1.len(), 1);
    assert_eq!(groups[0].1[0].hash, "b2");
    assert_eq!(groups[1].0, "core");
    let hashes: Vec<&str> = groups[1].1.iter().map(|c| c.hash.as_str()).collect();
    assert_eq!(hashes, vec!["a1", "b2"]);
}
