use melos_rs::commands::{
    build_analyze_command, build_extra_flags, build_pub_get_command, build_test_command,
    config_dependency_override_paths, config_enforce_lockfile, config_enforce_versions,
    config_run_pub_get_offline, effective_concurrency, pub_cmd, shared_constraint,
    sync_yaml_section, ExecArgs, TestArgs, FIX_COMMAND,
};
use melos_rs::config::{
    BootstrapCommandConfig, CommandConfig, MelosConfig, PackageFilters, SharedDependency,
};
use melos_rs::package::Package;
use melos_rs::workspace::{ConfigSource, Workspace};

// analyze

#[test]
fn test_build_analyze_command_default() {
    let cmd = build_analyze_command(false, false, false);
    assert_eq!(cmd, "dart analyze .");
}

#[test]
fn test_build_analyze_command_fatal_warnings() {
    let cmd = build_analyze_command(true, false, false);
    assert_eq!(cmd, "dart analyze --fatal-warnings .");
}

#[test]
fn test_build_analyze_command_fatal_infos() {
    let cmd = build_analyze_command(false, true, false);
    assert_eq!(cmd, "dart analyze --fatal-infos .");
}

#[test]
fn test_build_analyze_command_both_fatal() {
    let cmd = build_analyze_command(true, true, false);
    assert_eq!(cmd, "dart analyze --fatal-warnings --fatal-infos .");
}

#[test]
fn test_build_analyze_command_no_fatal_overrides() {
    let cmd = build_analyze_command(true, true, true);
    assert_eq!(cmd, "dart analyze --no-fatal-warnings --no-fatal-infos .");
}

#[test]
fn test_build_analyze_command_no_fatal_alone() {
    let cmd = build_analyze_command(false, false, true);
    assert_eq!(cmd, "dart analyze --no-fatal-warnings --no-fatal-infos .");
}

#[test]
fn test_fix_command_constant() {
    assert_eq!(FIX_COMMAND, "dart fix --apply");
}

// bootstrap

fn make_workspace(bootstrap_config: Option<BootstrapCommandConfig>) -> Workspace {
    Workspace {
        root_path: "/workspace".to_string(),
        config_source: ConfigSource::MelosYaml("/workspace/melos.yaml".to_string()),
        config: MelosConfig {
            name: "test".to_string(),
            packages: vec!["packages/**".to_string()],
            repository: None,
            sdk_path: None,
            command: Some(CommandConfig {
                version: None,
                bootstrap: bootstrap_config,
                clean: None,
                publish: None,
                test: None,
                build: None,
            }),
            scripts: vec![],
            ignore: None,
            categories: vec![],
            use_root_as_package: None,
            discover_nested_workspaces: None,
        },
        packages: vec![],
        sdk_path: None,
        warnings: vec![],
    }
}

fn bootstrap(
    parallel: Option<bool>,
    enforce_versions: Option<bool>,
    enforce_lockfile: Option<bool>,
    offline: Option<bool>,
    override_paths: Option<Vec<String>>,
) -> BootstrapCommandConfig {
    BootstrapCommandConfig {
        run_pub_get_in_parallel: parallel,
        enforce_versions_for_dependency_resolution: enforce_versions,
        enforce_lockfile,
        run_pub_get_offline: offline,
        dependency_override_paths: override_paths,
        environment: None,
        dependencies: None,
        dev_dependencies: None,
        hooks: None,
    }
}

#[test]
fn test_effective_concurrency_default() {
    let ws = make_workspace(None);
    assert_eq!(effective_concurrency(&ws, 5), 5);
}

#[test]
fn test_effective_concurrency_parallel_false_forces_one() {
    let ws = make_workspace(Some(bootstrap(Some(false), None, None, None, None)));
    assert_eq!(effective_concurrency(&ws, 5), 1);
}

#[test]
fn test_effective_concurrency_parallel_true_uses_cli() {
    let ws = make_workspace(Some(bootstrap(Some(true), None, None, None, None)));
    assert_eq!(effective_concurrency(&ws, 8), 8);
}

#[test]
fn test_effective_concurrency_parallel_none_uses_cli() {
    let ws = make_workspace(Some(bootstrap(None, None, None, None, None)));
    assert_eq!(effective_concurrency(&ws, 3), 3);
}

#[test]
fn test_build_pub_get_command_default() {
    let cmd = build_pub_get_command("flutter", false, false, false);
    assert_eq!(cmd, "flutter pub get");
}

#[test]
fn test_build_pub_get_command_enforce_lockfile() {
    let cmd = build_pub_get_command("dart", true, false, false);
    assert_eq!(cmd, "dart pub get --enforce-lockfile");
}

#[test]
fn test_build_pub_get_command_no_example() {
    let cmd = build_pub_get_command("flutter", false, true, false);
    assert_eq!(cmd, "flutter pub get --no-example");
}

#[test]
fn test_build_pub_get_command_offline() {
    let cmd = build_pub_get_command("dart", false, false, true);
    assert_eq!(cmd, "dart pub get --offline");
}

#[test]
fn test_build_pub_get_command_all_flags() {
    let cmd = build_pub_get_command("flutter", true, true, true);
    assert_eq!(cmd, "flutter pub get --enforce-lockfile --no-example --offline");
}

#[test]
fn test_config_enforce_lockfile_true() {
    let ws = make_workspace(Some(bootstrap(None, None, Some(true), None, None)));
    assert!(config_enforce_lockfile(&ws));
}

#[test]
fn test_config_enforce_lockfile_false() {
    let ws = make_workspace(Some(bootstrap(None, None, Some(false), None, None)));
    assert!(!config_enforce_lockfile(&ws));
}

#[test]
fn test_config_enforce_lockfile_none() {
    let ws = make_workspace(None);
    assert!(!config_enforce_lockfile(&ws));
}

#[test]
fn test_config_enforce_versions_default() {
    let ws = make_workspace(None);
    assert!(!config_enforce_versions(&ws));
}

#[test]
fn test_config_enforce_versions_true() {
    let ws = make_workspace(Some(bootstrap(None, Some(true), None, None, None)));
    assert!(config_enforce_versions(&ws));
}

#[test]
fn test_config_run_pub_get_offline_true() {
    let ws = make_workspace(Some(bootstrap(None, None, None, Some(true), None)));
    assert!(config_run_pub_get_offline(&ws));
}

#[test]
fn test_config_run_pub_get_offline_false() {
    let ws = make_workspace(Some(bootstrap(None, None, None, Some(false), None)));
    assert!(!config_run_pub_get_offline(&ws));
}

#[test]
fn test_config_run_pub_get_offline_none() {
    let ws = make_workspace(None);
    assert!(!config_run_pub_get_offline(&ws));
}

#[test]
fn test_config_dependency_override_paths_some() {
    let ws = make_workspace(Some(bootstrap(
        None,
        None,
        None,
        None,
        Some(vec!["../external".to_string(), "../other".to_string()]),
    )));
    let paths = config_dependency_override_paths(&ws);
    assert_eq!(paths, vec!["../external", "../other"]);
}

#[test]
fn test_config_dependency_override_paths_none() {
    let ws = make_workspace(None);
    let paths = config_dependency_override_paths(&ws);
    assert!(paths.is_empty());
}

fn values(pairs: &[(&str, &str)]) -> Vec<(String, String)> {
    pairs.iter().map(|(k, v)| (k.to_string(), v.to_string())).collect()
}

#[test]
fn test_sync_yaml_section_updates_dependency() {
    let mut lines: Vec<String> = vec![
        "name: my_app".to_string(),
        "version: 1.0.0".to_string(),
        "dependencies:".to_string(),
        "  http: ^0.13.0".to_string(),
        "  intl: ^0.17.0".to_string(),
        "dev_dependencies:".to_string(),
        "  test: ^1.0.0".to_string(),
    ];
    let values = values(&[("http", "^1.0.0")]);
    let changed = sync_yaml_section(&mut lines, "dependencies", &values);
    assert!(changed);
    assert_eq!(lines[3], "  http: ^1.0.0");
    assert_eq!(lines[4], "  intl: ^0.17.0");
}

#[test]
fn test_sync_yaml_section_no_change_if_same() {
    let mut lines: Vec<String> = vec!["dependencies:".to_string(), "  http: ^1.0.0".to_string()];
    let values = values(&[("http", "^1.0.0")]);
    let changed = sync_yaml_section(&mut lines, "dependencies", &values);
    assert!(!changed);
}

#[test]
fn test_sync_yaml_section_environment() {
    let mut lines: Vec<String> = vec![
        "name: my_app".to_string(),
        "environment:".to_string(),
        "  sdk: '>=2.0.0 <3.0.0'".to_string(),
        "dependencies:".to_string(),
        "  http: ^0.13.0".to_string(),
    ];
    let values = values(&[("sdk", "'>=3.0.0 <4.0.0'")]);
    let changed = sync_yaml_section(&mut lines, "environment", &values);
    assert!(changed);
    assert_eq!(lines[2], "  sdk: '>=3.0.0 <4.0.0'");
    assert_eq!(lines[4], "  http: ^0.13.0");
}

#[test]
fn test_sync_yaml_section_only_matches_existing_keys() {
    let mut lines: Vec<String> = vec!["dependencies:".to_string(), "  http: ^0.13.0".to_string()];
    let values = values(&[("dio", "^5.0.0")]);
    let changed = sync_yaml_section(&mut lines, "dependencies", &values);
    assert!(!changed);
}

#[test]
fn test_sync_yaml_section_empty_values() {
    let mut lines: Vec<String> = vec!["dependencies:".to_string(), "  http: ^0.13.0".to_string()];
    let values: Vec<(String, String)> = vec![];
    let changed = sync_yaml_section(&mut lines, "dependencies", &values);
    assert!(!changed);
}

#[test]
fn sync_yaml_section_keeps_tab_indent() {
    let mut lines: Vec<String> = vec!["dependencies:".to_string(), "\thttp: ^0.1.0".to_string()];
    let values = values(&[("http", "^2.0.0")]);
    assert!(sync_yaml_section(&mut lines, "dependencies", &values));
    assert_eq!(lines[1], "\thttp: ^2.0.0");
}

#[test]
fn shared_constraint_forms() {
    assert_eq!(
        shared_constraint(&SharedDependency::Constraint("^1.0.0".to_string())),
        Some("^1.0.0".to_string())
    );
    assert_eq!(shared_constraint(&SharedDependency::Unconstrained), Some("any".to_string()));
    assert_eq!(shared_constraint(&SharedDependency::Complex), None);
}

// pub

fn pkg(name: &str, is_flutter: bool) -> Package {
    Package {
        name: name.to_string(),
        version: Some("1.0.0".to_string()),
        path: format!("/pkg/{}", name),
        is_flutter,
        dependencies: vec![],
        dev_dependencies: vec![],
        dependency_versions: vec![],
        publish_to: None,
        resolution: None,
    }
}

#[test]
fn test_pub_cmd_flutter() {
    assert_eq!(pub_cmd(&pkg("app", true)), "flutter");
}

#[test]
fn test_pub_cmd_dart() {
    assert_eq!(pub_cmd(&pkg("core", false)), "dart");
}

// test

#[test]
fn test_build_test_command_default() {
    let cmd = build_test_command("dart", &[], &[]);
    assert_eq!(cmd, "dart test");
}

#[test]
fn test_build_test_command_flutter_with_coverage() {
    let flags = vec!["--coverage".to_string()];
    let cmd = build_test_command("flutter", &flags, &[]);
    assert_eq!(cmd, "flutter test --coverage");
}

#[test]
fn test_build_test_command_with_all_flags() {
    let flags = vec![
        "--coverage".to_string(),
        "--test-randomize-ordering-seed=42".to_string(),
        "--no-run".to_string(),
    ];
    let extra = vec!["--reporter=expanded".to_string()];
    let cmd = build_test_command("dart", &flags, &extra);
    assert_eq!(
        cmd,
        "dart test --coverage --test-randomize-ordering-seed=42 --no-run --reporter=expanded"
    );
}

fn test_args(
    concurrency: usize,
    fail_fast: bool,
    coverage: bool,
    seed: Option<String>,
    no_run: bool,
    update_goldens: bool,
) -> TestArgs {
    TestArgs {
        concurrency,
        fail_fast,
        coverage,
        test_randomize_ordering_seed: seed,
        no_run,
        update_goldens,
        extra_args: vec![],
        filters: PackageFilters::default(),
    }
}

#[test]
fn test_build_extra_flags_empty() {
    let args = test_args(1, false, false, None, false, false);
    let flags = build_extra_flags(&args);
    assert!(flags.is_empty());
}

#[test]
fn test_build_extra_flags_all() {
    let args = test_args(5, true, true, Some("0".to_string()), true, true);
    let flags = build_extra_flags(&args);
    assert_eq!(flags.len(), 4);
    assert!(flags.contains(&"--coverage".to_string()));
    assert!(flags.contains(&"--test-randomize-ordering-seed=0".to_string()));
    assert!(flags.contains(&"--no-run".to_string()));
    assert!(flags.contains(&"--update-goldens".to_string()));
}

#[test]
fn test_build_extra_flags_update_goldens_only() {
    let args = test_args(1, false, false, None, false, true);
    let flags = build_extra_flags(&args);
    assert_eq!(flags, vec!["--update-goldens"]);
}

#[test]
fn test_build_test_command_with_update_goldens() {
    let flags = vec!["--update-goldens".to_string()];
    let cmd = build_test_command("flutter", &flags, &[]);
    assert_eq!(cmd, "flutter test --update-goldens");
}

// exec

#[test]
fn exec_args_to_package_filters() {
    let args = ExecArgs {
        command: vec!["dart".to_string(), "test".to_string()],
        concurrency: 1,
        fail_fast: false,
        depends_on: Some("a, b".to_string()),
        flutter: false,
        no_flutter: true,
        file_exists: None,
        dir_exists: Some("test".to_string()),
    };
    let f = args.to_package_filters();
    assert_eq!(f.flutter, Some(false));
    assert_eq!(f.depends_on, Some(vec!["a".to_string(), "b".to_string()]));
    assert_eq!(f.dir_exists, Some("test".to_string()));
    assert!(f.file_exists.is_none());
}

#[test]
fn test_yaml_value_to_constraint_string() {
    let v = melos_rs::config::SharedDependency::Constraint("^1.0.0".to_string());
    assert_eq!(melos_rs::commands::shared_constraint(&v), Some("^1.0.0".to_string()));
}

#[test]
fn test_yaml_value_to_constraint_null() {
    let v = melos_rs::config::SharedDependency::Unconstrained;
    assert_eq!(melos_rs::commands::shared_constraint(&v), Some("any".to_string()));
}

#[test]
fn test_yaml_value_to_constraint_mapping_returns_none() {
    let v = melos_rs::config::SharedDependency::Complex;
    assert_eq!(melos_rs::commands::shared_constraint(&v), None);
}
