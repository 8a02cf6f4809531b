use melos_rs::commands::VersionArgs;
use melos_rs::config::{ChangelogConfig, VersionCommandConfig};
use melos_rs::package::Package;
use melos_rs::release::{
    changelog_entries, dependency_updates, dependent_target, summary_version, plan_versions, version_settings, VersionPlan, VersionSettings,
};
use melos_rs::version::ConventionalCommit;

fn pkg(name: &str, version: Option<&str>, deps: Vec<&str>, dev: Vec<&str>) -> Package {
    Package {
        name: name.to_string(),
        path: format!("/ws/packages/{}", name),
        version: version.map(String::from),
        is_flutter: false,
        publish_to: None,
        dependencies: deps.into_iter().map(String::from).collect(),
        dev_dependencies: dev.into_iter().map(String::from).collect(),
        dependency_versions: vec![],
        resolution: None,
    }
}

fn args() -> VersionArgs {
    VersionArgs {
        bump: "patch".to_string(),
        all: false,
        overrides: vec![],
        yes: true,
        conventional_commits: false,
        since_ref: "HEAD~10".to_string(),
        no_changelog: false,
        no_git_tag: false,
        no_git_push: false,
        coordinated: false,
        prerelease: false,
        graduate: false,
        preid: "dev".to_string(),
        dependent_preid: None,
        message: None,
        dependent_constraints: true,
        dependent_versions: true,
    }
}

fn targets(plan: VersionPlan) -> Vec<(usize, String)> {
    match plan {
        VersionPlan::Targets(t) => t,
        _ => panic!("expected targets"),
    }
}

fn version_config() -> VersionCommandConfig {
    VersionCommandConfig {
        branch: None,
        message: None,
        include_scopes: None,
        tag_release: None,
        changelog: None,
        changelog_config: None,
        hooks: None,
        link_to_commits: None,
        workspace_changelog: None,
        git_push: None,
        coordinated: None,
    }
}

#[test]
fn test_settings_defaults_without_config() {
    let s = version_settings(&args(), None);
    assert_eq!(
        s,
        VersionSettings {
            should_changelog: true,
            should_tag: true,
            include_body: false,
            include_hash: false,
            include_scopes: true,
            is_coordinated: false,
        }
    );
}

#[test]
fn test_settings_flags_and_config() {
    let mut a = args();
    a.no_changelog = true;
    let mut cfg = version_config();
    cfg.tag_release = Some(false);
    cfg.include_scopes = Some(false);
    cfg.link_to_commits = Some(true);
    cfg.coordinated = Some(true);
    cfg.changelog_config = Some(ChangelogConfig { include_commit_body: Some(true), include_commit_id: None });
    let s = version_settings(&a, Some(&cfg));
    assert!(!s.should_changelog);
    assert!(!s.should_tag);
    assert!(s.include_body);
    assert!(s.include_hash);
    assert!(!s.include_scopes);
    assert!(s.is_coordinated);
    cfg.changelog_config = Some(ChangelogConfig { include_commit_body: None, include_commit_id: Some(false) });
    assert!(!version_settings(&a, Some(&cfg)).include_hash);
}

#[test]
fn test_plan_nothing_selected() {
    let packages = vec![pkg("a", Some("1.0.0"), vec![], vec![])];
    assert!(matches!(plan_versions(&packages, &args(), false, None), Ok(VersionPlan::NothingSelected)));
}

#[test]
fn test_plan_all_with_and_without_prerelease() {
    let packages = vec![pkg("a", Some("1.0.0"), vec![], vec![]), pkg("b", None, vec![], vec![])];
    let mut a = args();
    a.all = true;
    a.bump = "minor".to_string();
    let t = targets(plan_versions(&packages, &a, false, None).unwrap());
    assert_eq!(t, vec![(0, "minor".to_string()), (1, "minor".to_string())]);
    a.prerelease = true;
    let t = targets(plan_versions(&packages, &a, false, None).unwrap());
    assert_eq!(t, vec![(0, "1.1.0-dev.0".to_string()), (1, "0.1.0-dev.0".to_string())]);
}

#[test]
fn test_plan_graduate() {
    let packages = vec![
        pkg("a", Some("1.1.0-dev.3"), vec![], vec![]),
        pkg("b", Some("2.0.0"), vec![], vec![]),
        pkg("c", Some("3.0.0-beta.1+5"), vec![], vec![]),
    ];
    let mut a = args();
    a.graduate = true;
    let t = targets(plan_versions(&packages, &a, false, None).unwrap());
    assert_eq!(t, vec![(0, "1.1.0".to_string()), (2, "3.0.0".to_string())]);
    let stable = vec![pkg("b", Some("2.0.0"), vec![], vec![])];
    assert!(matches!(plan_versions(&stable, &a, false, None), Ok(VersionPlan::NoPrereleases)));
}

#[test]
fn test_plan_coordinated_uses_highest_version() {
    let packages = vec![
        pkg("a", Some("1.2.0"), vec![], vec![]),
        pkg("b", Some("1.10.1+7"), vec![], vec![]),
        pkg("c", Some("not-a-version"), vec![], vec![]),
    ];
    let mut a = args();
    a.bump = "minor".to_string();
    let t = targets(plan_versions(&packages, &a, true, None).unwrap());
    assert_eq!(
        t,
        vec![(0, "1.11.0".to_string()), (1, "1.11.0".to_string()), (2, "1.11.0".to_string())]
    );
    a.bump = "not a version".to_string();
    assert!(plan_versions(&packages, &a, true, None).is_err());
}

#[test]
fn test_plan_overrides_match_by_substring() {
    let packages = vec![pkg("core_utils", Some("1.0.0"), vec![], vec![]), pkg("app", Some("2.0.0"), vec![], vec![])];
    let mut a = args();
    a.overrides = vec![
        ("utils".to_string(), "major".to_string()),
        ("missing".to_string(), "patch".to_string()),
        ("app".to_string(), "minor".to_string()),
    ];
    let t = targets(plan_versions(&packages, &a, false, None).unwrap());
    assert_eq!(t, vec![(0, "major".to_string()), (1, "minor".to_string())]);
    a.prerelease = true;
    let t = targets(plan_versions(&packages, &a, false, None).unwrap());
    assert_eq!(t, vec![(0, "2.0.0-dev.0".to_string()), (1, "2.1.0-dev.0".to_string())]);
}

fn commit(t: &str, breaking: bool) -> ConventionalCommit {
    ConventionalCommit {
        commit_type: t.to_string(),
        scope: None,
        breaking,
        description: "change".to_string(),
        body: None,
        hash: "abc1234".to_string(),
    }
}

#[test]
fn test_plan_conventional_commits() {
    let packages = vec![
        pkg("a", Some("1.0.0"), vec![], vec![]),
        pkg("b", Some("1.0.0"), vec![], vec![]),
        pkg("c", Some("1.0.0"), vec![], vec![]),
    ];
    let groups = vec![
        ("a".to_string(), vec![commit("fix", false), commit("feat", false)]),
        ("b".to_string(), vec![commit("chore", false)]),
        ("c".to_string(), vec![commit("fix", true)]),
    ];
    let mut a = args();
    a.conventional_commits = true;
    let t = targets(plan_versions(&packages, &a, false, Some(&groups)).unwrap());
    assert_eq!(t, vec![(0, "minor".to_string()), (2, "major".to_string())]);
}

#[test]
fn test_dependency_updates_follow_bumped_packages() {
    let packages = vec![
        pkg("core", Some("1.0.0"), vec![], vec![]),
        pkg("app", Some("1.0.0"), vec!["core", "http"], vec!["core_test"]),
        pkg("core_test", Some("1.0.0"), vec!["core"], vec![]),
    ];
    let versioned = vec![
        ("core".to_string(), "1.1.0".to_string()),
        ("core_test".to_string(), "1.0.1".to_string()),
    ];
    let updates = dependency_updates(&packages, &versioned);
    assert_eq!(
        updates,
        vec![
            (1, "core".to_string(), "1.1.0".to_string()),
            (1, "core_test".to_string(), "1.0.1".to_string()),
        ]
    );
}

#[test]
fn test_dependent_target() {
    assert_eq!(dependent_target("1.0.0", false, "dev", None), "patch");
    assert_eq!(dependent_target("1.0.0", true, "dev", None), "1.0.1-dev.0");
    assert_eq!(dependent_target("1.0.0", true, "dev", Some("beta")), "1.0.1-beta.0");
    assert_eq!(dependent_target("1.0.1-dev.2", true, "dev", None), "1.0.1-dev.3");
}

#[test]
fn check_branch_accepts_configured_branch() {
    assert_eq!(melos_rs::release::check_branch("main\n", "main"), Ok(()));
}

#[test]
fn check_branch_refuses_other_branch() {
    assert_eq!(
        melos_rs::release::check_branch("feature/x\n", "main"),
        Err("Expected to be on branch 'main', but currently on 'feature/x'. Version bumps are restricted to the configured branch.".to_string())
    );
}

#[test]
fn tag_name_and_message() {
    assert_eq!(melos_rs::release::tag_name("core", "1.2.0"), "core-v1.2.0");
    assert_eq!(melos_rs::release::tag_message("core", "1.2.0"), "core v1.2.0");
}

fn pair(a: &str, b: &str) -> (String, String) {
    (a.to_string(), b.to_string())
}

#[test]
fn changelog_entries_follow_the_targets_only() {
    let packages = vec![pkg("core", Some("1.0.0"), vec![], vec![]), pkg("app", Some("2.0.0"), vec!["core"], vec![]),
        pkg("ui", Some("0.1.0"), vec![], vec![])];
    let targets = vec![(0, "minor".to_string()), (2, "patch".to_string())];
    // `app` was bumped as a dependent; `ui` has no commits.
    let versioned = vec![pair("core", "1.1.0"), pair("ui", "0.1.1"), pair("app", "2.0.1"), pair("core", "9.9.9")];
    let groups = vec![
        ("app".to_string(), vec![commit("fix", false)]),
        ("core".to_string(), vec![commit("feat", false)]),
        ("ui".to_string(), vec![]),
    ];
    assert_eq!(changelog_entries(&packages, &targets, &versioned, &groups), vec![(0, "1.1.0".to_string(), 1)]);
}

#[test]
fn changelog_entries_unknown_version_and_out_of_range() {
    let packages = vec![pkg("core", Some("1.0.0"), vec![], vec![])];
    let targets = vec![(0, "minor".to_string()), (5, "patch".to_string())];
    let groups = vec![("core".to_string(), vec![commit("feat", false)])];
    assert_eq!(changelog_entries(&packages, &targets, &vec![], &groups), vec![(0, "unknown".to_string(), 0)]);
}

#[test]
fn summary_version_is_the_first_or_zero() {
    assert_eq!(summary_version(&vec![pair("core", "1.1.0"), pair("app", "3.0.0")]), "1.1.0");
    assert_eq!(summary_version(&vec![]), "0.0.0");
}
