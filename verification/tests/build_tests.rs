use melos_rs::config::PackageFilters;
use melos_rs::flutter_build::{
    build_flutter_command, capitalize_first, expand_simulator_template, resolve_artifact_path,
    resolve_flavors, resolve_platforms, resolve_simulator_command, validate_version_bump,
    AndroidBuildConfig, BuildArgs, BuildCommandConfig, BuildMode, FlavorConfig, IosBuildConfig,
    Platform, SimulatorConfig, VALID_VERSION_BUMPS,
};

#[test]
fn test_build_command_android_prod_release() {
    let flavor = FlavorConfig { target: "lib/main_prod.dart".to_string(), mode: BuildMode::Release };
    let cmd = build_flutter_command(Platform::Android, "appbundle", &flavor, "prod", &[]);
    assert_eq!(cmd, "flutter build appbundle -t lib/main_prod.dart --release --flavor prod");
}

#[test]
fn test_build_command_android_qa_debug() {
    let flavor = FlavorConfig { target: "lib/main_qa.dart".to_string(), mode: BuildMode::Debug };
    let cmd = build_flutter_command(Platform::Android, "apk", &flavor, "qa", &[]);
    assert_eq!(cmd, "flutter build apk -t lib/main_qa.dart --debug --flavor qa");
}

#[test]
fn test_build_command_ios_prod_release() {
    let flavor = FlavorConfig { target: "lib/main_prod.dart".to_string(), mode: BuildMode::Release };
    let extra = vec![
        "--export-options-plist".to_string(),
        "ios/runner/exportOptions.plist".to_string(),
    ];
    let cmd = build_flutter_command(Platform::Ios, "ipa", &flavor, "prod", &extra);
    assert_eq!(
        cmd,
        "flutter build ipa -t lib/main_prod.dart --release --flavor prod --export-options-plist ios/runner/exportOptions.plist"
    );
}

#[test]
fn test_build_command_profile_mode() {
    let flavor = FlavorConfig { target: "lib/main.dart".to_string(), mode: BuildMode::Profile };
    let cmd = build_flutter_command(Platform::Android, "apk", &flavor, "staging", &[]);
    assert_eq!(cmd, "flutter build apk -t lib/main.dart --profile --flavor staging");
}

#[test]
fn test_build_command_with_extra_args() {
    let flavor = FlavorConfig { target: "lib/main_dev.dart".to_string(), mode: BuildMode::Debug };
    let extra = vec!["--split-per-abi".to_string(), "--no-shrink".to_string()];
    let cmd = build_flutter_command(Platform::Android, "apk", &flavor, "dev", &extra);
    assert_eq!(
        cmd,
        "flutter build apk -t lib/main_dev.dart --debug --flavor dev --split-per-abi --no-shrink"
    );
}

fn make_args(android: bool, ios: bool, all: bool) -> BuildArgs {
    BuildArgs {
        android,
        ios,
        all,
        flavor: vec![],
        build_type: None,
        simulator: false,
        export_options_plist: None,
        dry_run: false,
        fail_fast: false,
        concurrency: 1,
        version_bump: None,
        build_number_bump: false,
        filters: PackageFilters::default(),
    }
}

#[test]
fn test_resolve_platforms_default_is_all() {
    let args = make_args(false, false, false);
    let platforms = resolve_platforms(&args).unwrap();
    assert_eq!(platforms, vec![Platform::Android, Platform::Ios]);
}

#[test]
fn test_resolve_platforms_android_only() {
    let args = make_args(true, false, false);
    let platforms = resolve_platforms(&args).unwrap();
    assert_eq!(platforms, vec![Platform::Android]);
}

#[test]
fn test_resolve_platforms_ios_only() {
    let args = make_args(false, true, false);
    let platforms = resolve_platforms(&args).unwrap();
    assert_eq!(platforms, vec![Platform::Ios]);
}

#[test]
fn test_resolve_platforms_all_flag() {
    let args = make_args(false, false, true);
    let platforms = resolve_platforms(&args).unwrap();
    assert_eq!(platforms, vec![Platform::Android, Platform::Ios]);
}

#[test]
fn test_resolve_platforms_both_explicit() {
    let args = make_args(true, true, false);
    let platforms = resolve_platforms(&args).unwrap();
    assert_eq!(platforms, vec![Platform::Android, Platform::Ios]);
}

#[test]
fn test_resolve_flavors_explicit() {
    let mut args = make_args(false, false, false);
    args.flavor = vec!["qa".to_string()];
    let available = vec!["prod".to_string(), "qa".to_string(), "dev".to_string()];
    let flavors = resolve_flavors(&args, None, &available).unwrap();
    assert_eq!(flavors, vec!["qa"]);
}

#[test]
fn test_resolve_flavors_multiple_explicit() {
    let mut args = make_args(false, false, false);
    args.flavor = vec!["prod".to_string(), "dev".to_string()];
    let available = vec!["prod".to_string(), "qa".to_string(), "dev".to_string()];
    let flavors = resolve_flavors(&args, None, &available).unwrap();
    assert_eq!(flavors, vec!["prod", "dev"]);
}

#[test]
fn test_resolve_flavors_unknown_errors() {
    let mut args = make_args(false, false, false);
    args.flavor = vec!["staging".to_string()];
    let available = vec!["prod".to_string(), "qa".to_string()];
    let err = resolve_flavors(&args, None, &available).unwrap_err();
    assert!(err.message().contains("Unknown flavor 'staging'"));
}

#[test]
fn test_resolve_flavors_default_from_config() {
    let args = make_args(false, false, false);
    let available = vec!["prod".to_string(), "qa".to_string()];
    let flavors = resolve_flavors(&args, Some("prod"), &available).unwrap();
    assert_eq!(flavors, vec!["prod"]);
}

#[test]
fn test_resolve_flavors_single_available_no_default() {
    let args = make_args(false, false, false);
    let available = vec!["prod".to_string()];
    let flavors = resolve_flavors(&args, None, &available).unwrap();
    assert_eq!(flavors, vec!["prod"]);
}

#[test]
fn test_resolve_flavors_multiple_available_no_default_errors() {
    let args = make_args(false, false, false);
    let available = vec!["prod".to_string(), "qa".to_string()];
    let err = resolve_flavors(&args, None, &available).unwrap_err();
    assert!(err.message().contains("No --flavor specified"));
}

#[test]
fn test_platform_display() {
    assert_eq!(Platform::Android.as_str(), "android");
    assert_eq!(Platform::Ios.as_str(), "ios");
}

#[test]
fn test_platform_dir_name() {
    assert_eq!(Platform::Android.dir_name(), "android");
    assert_eq!(Platform::Ios.dir_name(), "ios");
}

#[test]
fn test_platform_default_build_type() {
    assert_eq!(Platform::Android.default_build_type(), "appbundle");
    assert_eq!(Platform::Ios.default_build_type(), "ipa");
}

#[test]
fn test_build_mode_display() {
    assert_eq!(BuildMode::Release.as_str(), "release");
    assert_eq!(BuildMode::Debug.as_str(), "debug");
    assert_eq!(BuildMode::Profile.as_str(), "profile");
}

#[test]
fn test_resolve_artifact_path_android_aab_prod_release() {
    let path = resolve_artifact_path(Platform::Android, "appbundle", "prod", &BuildMode::Release);
    assert_eq!(
        path,
        Some("build/app/outputs/bundle/prodRelease/app-prod-release.aab".to_string())
    );
}

#[test]
fn test_resolve_artifact_path_android_aab_qa_debug() {
    let path = resolve_artifact_path(Platform::Android, "appbundle", "qa", &BuildMode::Debug);
    assert_eq!(path, Some("build/app/outputs/bundle/qaDebug/app-qa-debug.aab".to_string()));
}

#[test]
fn test_resolve_artifact_path_android_apk_prod_release() {
    let path = resolve_artifact_path(Platform::Android, "apk", "prod", &BuildMode::Release);
    assert_eq!(path, Some("build/app/outputs/flutter-apk/app-prod-release.apk".to_string()));
}

#[test]
fn test_resolve_artifact_path_android_apk_dev_debug() {
    let path = resolve_artifact_path(Platform::Android, "apk", "dev", &BuildMode::Debug);
    assert_eq!(path, Some("build/app/outputs/flutter-apk/app-dev-debug.apk".to_string()));
}

#[test]
fn test_resolve_artifact_path_android_unknown_type() {
    let path = resolve_artifact_path(Platform::Android, "unknown", "prod", &BuildMode::Release);
    assert!(path.is_none());
}

#[test]
fn test_resolve_artifact_path_ios_returns_none() {
    let path = resolve_artifact_path(Platform::Ios, "ipa", "prod", &BuildMode::Release);
    assert!(path.is_none());
}

#[test]
fn test_capitalize_first_basic() {
    assert_eq!(capitalize_first("release"), "Release");
    assert_eq!(capitalize_first("debug"), "Debug");
    assert_eq!(capitalize_first("profile"), "Profile");
}

#[test]
fn test_capitalize_first_empty() {
    assert_eq!(capitalize_first(""), "");
}

#[test]
fn test_capitalize_first_single_char() {
    assert_eq!(capitalize_first("a"), "A");
}

#[test]
fn test_expand_template_android_bundletool() {
    let template = "bundletool build-apks --overwrite --mode=universal --bundle={aab_path} --output={output_dir}/{flavor}-unv.apks && unzip -o {output_dir}/{flavor}-unv.apks universal.apk -d {output_dir}";
    let result =
        expand_simulator_template(template, Platform::Android, "qa", &BuildMode::Debug).unwrap();
    assert_eq!(
        result,
        "bundletool build-apks --overwrite --mode=universal \
         --bundle=build/app/outputs/bundle/qaDebug/app-qa-debug.aab \
         --output=build/app/outputs/bundle/qaDebug/qa-unv.apks \
         && unzip -o build/app/outputs/bundle/qaDebug/qa-unv.apks universal.apk \
         -d build/app/outputs/bundle/qaDebug"
    );
}

#[test]
fn test_expand_template_android_prod_release() {
    let template = "bundletool build-apks --bundle={aab_path} --output={output_dir}/out.apks";
    let result =
        expand_simulator_template(template, Platform::Android, "prod", &BuildMode::Release).unwrap();
    assert_eq!(
        result,
        "bundletool build-apks \
         --bundle=build/app/outputs/bundle/prodRelease/app-prod-release.aab \
         --output=build/app/outputs/bundle/prodRelease/out.apks"
    );
}

#[test]
fn test_expand_template_ios_xcodebuild() {
    let template = "xcodebuild -configuration {configuration} -workspace ios/Runner.xcworkspace -scheme {flavor} -sdk iphonesimulator -derivedDataPath build/ios/archive/simulator";
    let result =
        expand_simulator_template(template, Platform::Ios, "prod", &BuildMode::Release).unwrap();
    assert_eq!(
        result,
        "xcodebuild -configuration Debug-prod -workspace ios/Runner.xcworkspace -scheme prod -sdk iphonesimulator -derivedDataPath build/ios/archive/simulator"
    );
}

#[test]
fn test_expand_template_ios_qa() {
    let template = "xcodebuild -configuration {configuration} -scheme {flavor} -sdk iphonesimulator";
    let result = expand_simulator_template(template, Platform::Ios, "qa", &BuildMode::Debug).unwrap();
    assert_eq!(result, "xcodebuild -configuration Debug-qa -scheme qa -sdk iphonesimulator");
}

#[test]
fn test_expand_template_flavor_and_mode_only() {
    let template = "echo Building {flavor} in {mode} mode";
    let result =
        expand_simulator_template(template, Platform::Android, "dev", &BuildMode::Debug).unwrap();
    assert_eq!(result, "echo Building dev in debug mode");
}

#[test]
fn test_expand_template_apk_path() {
    let template = "install {apk_path}";
    let result =
        expand_simulator_template(template, Platform::Android, "prod", &BuildMode::Release).unwrap();
    assert_eq!(result, "install build/app/outputs/flutter-apk/app-prod-release.apk");
}

#[test]
fn test_expand_template_output_dir_fallback() {
    let template = "ls {output_dir}";
    let result =
        expand_simulator_template(template, Platform::Android, "prod", &BuildMode::Release).unwrap();
    assert_eq!(result, "ls build/app/outputs/bundle/prodRelease");
}

#[test]
fn test_expand_template_output_dir_ios_fallback_empty() {
    let template = "ls {output_dir}";
    let result =
        expand_simulator_template(template, Platform::Ios, "prod", &BuildMode::Release).unwrap();
    assert_eq!(result, "ls ");
}

#[test]
fn test_expand_template_aab_path_fails_for_ios() {
    let template = "bundletool --bundle={aab_path}";
    let result = expand_simulator_template(template, Platform::Ios, "prod", &BuildMode::Release);
    assert!(result.is_err());
    assert!(result.unwrap_err().message().contains("Cannot resolve AAB path"));
}

fn make_build_config_with_simulator(
    android_sim: Option<SimulatorConfig>,
    ios_sim: Option<SimulatorConfig>,
) -> BuildCommandConfig {
    let flavors = vec![(
        "prod".to_string(),
        FlavorConfig { target: "lib/main.dart".to_string(), mode: BuildMode::Release },
    )];
    BuildCommandConfig {
        flavors,
        default_flavor: Some("prod".to_string()),
        android: Some(AndroidBuildConfig {
            types: vec!["appbundle".to_string()],
            default_type: "appbundle".to_string(),
            extra_args: vec![],
            simulator: android_sim,
        }),
        ios: Some(IosBuildConfig { extra_args: vec![], simulator: ios_sim }),
        package_filters: None,
        hooks: None,
    }
}

#[test]
fn test_resolve_simulator_not_requested() {
    let config = make_build_config_with_simulator(None, None);
    let result =
        resolve_simulator_command(false, Platform::Android, &config, "prod", &BuildMode::Release)
            .unwrap();
    assert!(result.is_none());
}

#[test]
fn test_resolve_simulator_android_enabled() {
    let sim = SimulatorConfig {
        enabled: true,
        command: Some("bundletool --bundle={aab_path}".to_string()),
    };
    let config = make_build_config_with_simulator(Some(sim), None);
    let result =
        resolve_simulator_command(true, Platform::Android, &config, "prod", &BuildMode::Release)
            .unwrap();
    assert!(result.is_some());
    assert!(result.unwrap().contains("bundletool"));
}

#[test]
fn test_resolve_simulator_ios_enabled() {
    let sim = SimulatorConfig {
        enabled: true,
        command: Some("xcodebuild -configuration {configuration} -scheme {flavor}".to_string()),
    };
    let config = make_build_config_with_simulator(None, Some(sim));
    let result =
        resolve_simulator_command(true, Platform::Ios, &config, "prod", &BuildMode::Release)
            .unwrap();
    assert_eq!(result, Some("xcodebuild -configuration Debug-prod -scheme prod".to_string()));
}

#[test]
fn test_resolve_simulator_no_config_errors() {
    let config = make_build_config_with_simulator(None, None);
    let result =
        resolve_simulator_command(true, Platform::Android, &config, "prod", &BuildMode::Release);
    assert!(result.is_err());
    assert!(result.unwrap_err().message().contains("no simulator config"));
}

#[test]
fn test_resolve_simulator_disabled_errors() {
    let sim = SimulatorConfig { enabled: false, command: Some("bundletool".to_string()) };
    let config = make_build_config_with_simulator(Some(sim), None);
    let result =
        resolve_simulator_command(true, Platform::Android, &config, "prod", &BuildMode::Release);
    assert!(result.is_err());
    assert!(result.unwrap_err().message().contains("simulator is disabled"));
}

#[test]
fn test_resolve_simulator_no_command_errors() {
    let sim = SimulatorConfig { enabled: true, command: None };
    let config = make_build_config_with_simulator(Some(sim), None);
    let result =
        resolve_simulator_command(true, Platform::Android, &config, "prod", &BuildMode::Release);
    assert!(result.is_err());
    assert!(result.unwrap_err().message().contains("no command template"));
}

#[test]
fn test_validate_version_bump_patch() {
    assert!(validate_version_bump("patch").is_ok());
}

#[test]
fn test_validate_version_bump_minor() {
    assert!(validate_version_bump("minor").is_ok());
}

#[test]
fn test_validate_version_bump_major() {
    assert!(validate_version_bump("major").is_ok());
}

#[test]
fn test_validate_version_bump_build_rejected() {
    let err = validate_version_bump("build").unwrap_err();
    assert!(err.message().contains("Invalid --version-bump"));
    assert!(err.message().contains("patch, minor, major"));
}

#[test]
fn test_validate_version_bump_empty_rejected() {
    let err = validate_version_bump("").unwrap_err();
    assert!(err.message().contains("Invalid --version-bump"));
}

#[test]
fn test_validate_version_bump_arbitrary_rejected() {
    let err = validate_version_bump("prerelease").unwrap_err();
    assert!(err.message().contains("Invalid --version-bump"));
}

#[test]
fn test_valid_version_bumps_constant() {
    assert_eq!(&VALID_VERSION_BUMPS, &["patch", "minor", "major"]);
}

// Further cases.

#[test]
fn resolve_flavors_reports_first_unknown() {
    let mut args = make_args(false, false, false);
    args.flavor = vec!["prod".to_string(), "x".to_string(), "y".to_string()];
    let available = vec!["prod".to_string()];
    let err = resolve_flavors(&args, None, &available).unwrap_err();
    assert_eq!(err.message(), "Unknown flavor 'x'. Available: prod");
}

#[test]
fn resolve_flavors_undefined_default() {
    let args = make_args(false, false, false);
    let available = vec!["prod".to_string()];
    let err = resolve_flavors(&args, Some("qa"), &available).unwrap_err();
    assert_eq!(err.message(), "Default flavor 'qa' is not defined in build.flavors");
}

#[test]
fn expand_template_apk_path_fails_for_ios() {
    let result = expand_simulator_template("x {apk_path}", Platform::Ios, "qa", &BuildMode::Debug);
    assert_eq!(
        result.unwrap_err().message(),
        "Cannot resolve APK path for ios qa (only Android APK is supported)"
    );
}

#[test]
fn simulator_error_message_names_platform() {
    let config = make_build_config_with_simulator(None, None);
    let err = resolve_simulator_command(true, Platform::Ios, &config, "prod", &BuildMode::Release)
        .unwrap_err();
    assert_eq!(
        err.message(),
        "--simulator requested but no simulator config found for ios.\nAdd a `command.build.ios.simulator` section to melos.yaml."
    );
}

#[test]
fn capitalize_first_non_ascii() {
    assert_eq!(capitalize_first("ßa"), "SSa");
    assert_eq!(capitalize_first("1x"), "1x");
}

#[test]
fn build_mode_default_is_release() {
    assert_eq!(BuildMode::default(), BuildMode::Release);
}
