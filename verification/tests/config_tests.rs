use melos_rs::config::{
    MelosConfig, PackageFilters, RepositoryConfig, RepositoryError, ScriptConfig, ScriptEntry,
};

fn config(packages: Vec<String>, scripts: Vec<(String, ScriptEntry)>) -> MelosConfig {
    MelosConfig {
        name: "test".to_string(),
        packages,
        repository: None,
        sdk_path: None,
        command: None,
        scripts,
        ignore: None,
        categories: vec![],
        use_root_as_package: None,
        discover_nested_workspaces: None,
    }
}

#[test]
fn test_validate_empty_packages() {
    let config = config(vec![], vec![]);
    let warnings = config.validate();
    assert_eq!(warnings.len(), 1);
    assert!(warnings[0].contains("No package paths configured"));
}

#[test]
fn test_validate_exec_missing_separator() {
    let scripts = vec![(
        "test".to_string(),
        ScriptEntry::Simple("melos exec flutter test".to_string()),
    )];
    let config = config(vec!["packages/**".to_string()], scripts);
    let warnings = config.validate();
    assert_eq!(warnings.len(), 1);
    assert!(warnings[0].contains("no `--` separator"));
}

#[test]
fn test_validate_exec_with_separator_ok() {
    let scripts = vec![(
        "test".to_string(),
        ScriptEntry::Simple("melos exec -- flutter test".to_string()),
    )];
    let config = config(vec!["packages/**".to_string()], scripts);
    let warnings = config.validate();
    assert!(warnings.is_empty());
}

#[test]
fn test_validate_empty_run_command() {
    let scripts = vec![("empty".to_string(), ScriptEntry::Simple("  ".to_string()))];
    let config = config(vec!["packages/**".to_string()], scripts);
    let warnings = config.validate();
    assert_eq!(warnings.len(), 1);
    assert!(warnings[0].contains("empty `run` command"));
}

#[test]
fn test_validate_undefined_category_reference() {
    let scripts = vec![(
        "test".to_string(),
        ScriptEntry::Full(Box::new(ScriptConfig {
            run: "flutter test".to_string(),
            description: None,
            package_filters: Some(PackageFilters {
                category: Some(vec!["nonexistent".to_string()]),
                ..Default::default()
            }),
            env: vec![],
        })),
    )];
    let config = config(vec!["packages/**".to_string()], scripts);
    let warnings = config.validate();
    assert_eq!(warnings.len(), 1);
    assert!(warnings[0].contains("category 'nonexistent'"));
    assert!(warnings[0].contains("not defined"));
}

#[test]
fn test_repository_config_commit_url() {
    let repo = RepositoryConfig { url: "https://github.com/org/repo".to_string() };
    assert_eq!(repo.commit_url("abc1234"), "https://github.com/org/repo/commit/abc1234");
}

#[test]
fn test_repository_config_commit_url_trailing_slash() {
    let repo = RepositoryConfig { url: "https://github.com/org/repo/".to_string() };
    assert_eq!(repo.commit_url("def5678"), "https://github.com/org/repo/commit/def5678");
}

// Further cases.

#[test]
fn validate_lists_available_categories() {
    let scripts = vec![(
        "s".to_string(),
        ScriptEntry::Full(Box::new(ScriptConfig {
            run: "melos exec dart test".to_string(),
            description: Some("d".to_string()),
            package_filters: Some(PackageFilters {
                category: Some(vec!["apps".to_string(), "tools".to_string()]),
                ..Default::default()
            }),
            env: vec![],
        })),
    )];
    let mut config = config(vec![], scripts);
    config.categories = vec![("apps".to_string(), vec!["app_*".to_string()])];
    let warnings = config.validate();
    assert_eq!(warnings.len(), 3);
    assert!(warnings[0].starts_with("No package paths configured."));
    assert!(warnings[1].starts_with("Script 's' looks like an exec command"));
    assert_eq!(
        warnings[2],
        "Script 's' references category 'tools' which is not defined in `categories`. Available categories: apps"
    );
}

#[test]
fn validate_no_categories_defined() {
    let scripts = vec![(
        "s".to_string(),
        ScriptEntry::Full(Box::new(ScriptConfig {
            run: "dart test".to_string(),
            description: None,
            package_filters: Some(PackageFilters {
                category: Some(vec!["apps".to_string()]),
                ..Default::default()
            }),
            env: vec![],
        })),
    )];
    let config = config(vec!["p".to_string()], scripts);
    let warnings = config.validate();
    assert_eq!(warnings.len(), 1);
    assert!(warnings[0].ends_with("Available categories: (none)"));
}

#[test]
fn script_entry_accessors() {
    let simple = ScriptEntry::Simple("dart format .".to_string());
    assert_eq!(simple.run_command(), "dart format .");
    assert_eq!(simple.description(), None);
    assert!(simple.package_filters().is_none());
    assert!(simple.env().is_empty());

    let full = ScriptEntry::Full(Box::new(ScriptConfig {
        run: "dart run build_runner build".to_string(),
        description: Some("Run code generation".to_string()),
        package_filters: None,
        env: vec![("API_URL".to_string(), "https://api.example.com".to_string())],
    }));
    assert_eq!(full.run_command(), "dart run build_runner build");
    assert_eq!(full.description(), Some("Run code generation"));
    assert_eq!(full.env().len(), 1);
}

#[test]
fn commit_url_many_trailing_slashes() {
    let repo = RepositoryConfig { url: "https://x.io/r///".to_string() };
    assert_eq!(repo.commit_url("h"), "https://x.io/r/commit/h");
}

#[test]
fn test_validate_valid_config_no_warnings() {
    let scripts = vec![
        ("test".to_string(), ScriptEntry::Simple("flutter test".to_string())),
        (
            "build".to_string(),
            ScriptEntry::Full(Box::new(ScriptConfig {
                run: "melos exec -- dart build".to_string(),
                description: None,
                package_filters: None,
                env: vec![],
            })),
        ),
    ];
    let mut config = config(vec!["packages/**".to_string()], scripts);
    config.name = "test_project".to_string();
    config.categories = vec![("apps".to_string(), vec!["app_*".to_string()])];
    let warnings = config.validate();
    assert!(warnings.is_empty(), "Expected no warnings, got: {:?}", warnings);
}

#[test]
fn test_repository_config_from_url_string() {
    let repo = RepositoryConfig::from_url("https://github.com/invertase/melos");
    assert_eq!(repo.url, "https://github.com/invertase/melos");
}

#[test]
fn test_repository_config_from_object_github() {
    let repo = RepositoryConfig::from_object(Some("github"), None, Some("invertase"), Some("melos")).unwrap();
    assert_eq!(repo.url, "https://github.com/invertase/melos");
}

#[test]
fn test_repository_config_from_object_gitlab() {
    let repo = RepositoryConfig::from_object(Some("gitlab"), None, Some("myorg"), Some("myrepo")).unwrap();
    assert_eq!(repo.url, "https://gitlab.com/myorg/myrepo");
}

#[test]
fn test_repository_config_from_object_custom_origin() {
    let repo = RepositoryConfig::from_object(
        Some("github"),
        Some("https://git.internal.io"),
        Some("team"),
        Some("project"),
    )
    .unwrap();
    assert_eq!(repo.url, "https://git.internal.io/team/project");
}

#[test]
fn test_repository_config_default_type_is_github() {
    let repo = RepositoryConfig::from_object(None, None, Some("myowner"), Some("myrepo")).unwrap();
    assert_eq!(repo.url, "https://github.com/myowner/myrepo");
}

#[test]
fn test_repository_object_bitbucket_and_azure_hosts() {
    let b = RepositoryConfig::from_object(Some("bitbucket"), None, Some("o"), Some("n")).unwrap();
    assert_eq!(b.url, "https://bitbucket.org/o/n");
    let a = RepositoryConfig::from_object(Some("azure"), None, Some("o"), Some("n")).unwrap();
    assert_eq!(a.url, "https://dev.azure.com/o/n");
}

#[test]
fn test_repository_object_origin_trailing_slashes_removed() {
    let r = RepositoryConfig::from_object(None, Some("https://git.example.com//"), Some("o"), Some("n")).unwrap();
    assert_eq!(r.url, "https://git.example.com/o/n");
}

#[test]
fn test_repository_object_missing_fields() {
    assert_eq!(
        RepositoryConfig::from_object(Some("github"), None, None, Some("n")).unwrap_err(),
        RepositoryError::MissingOwner
    );
    assert_eq!(
        RepositoryConfig::from_object(Some("github"), None, Some("o"), None).unwrap_err(),
        RepositoryError::MissingName
    );
}

fn section(name: Option<&str>, packages: Option<Vec<&str>>) -> melos_rs::config::MelosSection {
    melos_rs::config::MelosSection {
        name: name.map(|s| s.to_string()),
        packages: packages.map(|v| v.into_iter().map(String::from).collect()),
        repository: None,
        command: None,
        scripts: vec![(
            "analyze".to_string(),
            melos_rs::config::ScriptEntry::Simple("dart analyze".to_string()),
        )],
        categories: vec![],
    }
}

#[test]
fn pubspec_config_takes_workspace_paths_and_pubspec_name() {
    let cfg = melos_rs::config::config_from_pubspec(
        "my_workspace".to_string(),
        Some(vec!["packages/core".to_string(), "apps/app".to_string()]),
        section(None, None),
    )
    .unwrap();
    assert_eq!(cfg.name, "my_workspace");
    assert_eq!(cfg.packages, vec!["packages/core", "apps/app"]);
    assert_eq!(cfg.scripts.len(), 1);
    assert_eq!(cfg.scripts[0].0, "analyze");
}

#[test]
fn pubspec_config_prefers_melos_section() {
    let cfg = melos_rs::config::config_from_pubspec(
        "root".to_string(),
        Some(vec!["packages/core".to_string()]),
        section(Some("renamed"), Some(vec!["packages/**"])),
    )
    .unwrap();
    assert_eq!(cfg.name, "renamed");
    assert_eq!(cfg.packages, vec!["packages/**"]);
}

#[test]
fn pubspec_config_without_package_paths_is_refused() {
    let err = melos_rs::config::config_from_pubspec("root".to_string(), None, section(None, None)).unwrap_err();
    assert_eq!(
        err,
        "No package paths found in pubspec.yaml: neither `melos.packages` nor `workspace:` is set.\n\nHint: Add a `workspace:` field listing your package paths, or add `packages:` under `melos:`."
    );
}

#[test]
fn test_parse_7x_pubspec_with_melos_section() {
    let mut s = section(None, None);
    s.categories = vec![("libs".to_string(), vec!["core".to_string()])];
    let cfg = melos_rs::config::config_from_pubspec(
        "my_workspace".to_string(),
        Some(vec!["packages/core".to_string(), "packages/app".to_string()]),
        s,
    )
    .unwrap();
    assert_eq!(cfg.name, "my_workspace");
    assert_eq!(cfg.packages, vec!["packages/core".to_string(), "packages/app".to_string()]);
    assert_eq!(cfg.scripts.len(), 1);
    assert_eq!(cfg.categories.len(), 1);
}

#[test]
fn test_parse_7x_with_melos_name_override() {
    let cfg = melos_rs::config::config_from_pubspec(
        "pubspec_name".to_string(),
        None,
        section(Some("custom_workspace_name"), Some(vec!["packages/**"])),
    )
    .unwrap();
    assert_eq!(cfg.name, "custom_workspace_name");
}

#[test]
fn test_parse_7x_packages_from_workspace_field() {
    let mut s = section(None, None);
    s.scripts = vec![];
    let cfg = melos_rs::config::config_from_pubspec(
        "my_workspace".to_string(),
        Some(vec!["packages/core".to_string(), "packages/app".to_string()]),
        s,
    )
    .unwrap();
    assert_eq!(cfg.packages, vec!["packages/core".to_string(), "packages/app".to_string()]);
}

#[test]
fn test_parse_7x_melos_packages_override() {
    let cfg = melos_rs::config::config_from_pubspec(
        "my_workspace".to_string(),
        Some(vec!["packages/core".to_string(), "packages/app".to_string()]),
        section(None, Some(vec!["packages/**", "tools/**"])),
    )
    .unwrap();
    assert_eq!(cfg.packages, vec!["packages/**".to_string(), "tools/**".to_string()]);
}
