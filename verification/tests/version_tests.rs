use melos_rs::config::RepositoryConfig;
use melos_rs::version::{
    changelog_entry_on, changelog_with_entry, chrono_date_today, compute_next_prerelease,
    compute_next_version, date_from_unix_secs, extract_build_number, generate_changelog_entry,
    graduate_version, highest_bump, is_prerelease, new_package_versions, next_version_string,
    parse_conventional_commit, parse_version_override, release_commit_message, BumpType,
};
use semver::Version;

#[test]
fn test_compute_next_version_patch() {
    let v = compute_next_version("1.2.3", "patch").unwrap();
    assert_eq!(v.to_text(), "1.2.4");
}

#[test]
fn test_compute_next_version_minor() {
    let v = compute_next_version("1.2.3", "minor").unwrap();
    assert_eq!(v.to_text(), "1.3.0");
}

#[test]
fn test_compute_next_version_major() {
    let v = compute_next_version("1.2.3", "major").unwrap();
    assert_eq!(v.to_text(), "2.0.0");
}

#[test]
fn test_compute_next_version_none() {
    let v = compute_next_version("1.2.3", "none").unwrap();
    assert_eq!(v.to_text(), "1.2.3");
}

#[test]
fn test_extract_build_number() {
    assert_eq!(extract_build_number("1.2.3+42"), Some(42));
    assert_eq!(extract_build_number("1.2.3"), None);
}

#[test]
fn test_parse_conventional_commit_feat() {
    let commit = parse_conventional_commit("abc1234", "feat: add new login flow").unwrap();
    assert_eq!(commit.commit_type, "feat");
    assert!(commit.scope.is_none());
    assert!(!commit.breaking);
    assert_eq!(commit.description, "add new login flow");
    assert_eq!(commit.bump_type(), BumpType::Minor);
}

#[test]
fn test_parse_conventional_commit_fix_with_scope() {
    let commit = parse_conventional_commit("def5678", "fix(auth): handle token expiry").unwrap();
    assert_eq!(commit.commit_type, "fix");
    assert_eq!(commit.scope.as_deref(), Some("auth"));
    assert!(!commit.breaking);
    assert_eq!(commit.description, "handle token expiry");
    assert_eq!(commit.bump_type(), BumpType::Patch);
}

#[test]
fn test_parse_conventional_commit_breaking_bang() {
    let commit =
        parse_conventional_commit("ghi9012", "feat(api)!: remove deprecated endpoint").unwrap();
    assert_eq!(commit.commit_type, "feat");
    assert!(commit.breaking);
    assert_eq!(commit.bump_type(), BumpType::Major);
}

#[test]
fn test_parse_conventional_commit_breaking_footer() {
    let msg = "feat: new API\n\nBREAKING CHANGE: old API removed";
    let commit = parse_conventional_commit("jkl3456", msg).unwrap();
    assert!(commit.breaking);
    assert_eq!(commit.bump_type(), BumpType::Major);
}

#[test]
fn test_parse_conventional_commit_chore() {
    let commit = parse_conventional_commit("mno7890", "chore: update deps").unwrap();
    assert_eq!(commit.commit_type, "chore");
    assert_eq!(commit.bump_type(), BumpType::NoBump);
}

#[test]
fn test_parse_non_conventional_returns_none() {
    assert!(parse_conventional_commit("xyz", "just a normal commit").is_none());
    assert!(parse_conventional_commit("xyz", "Update README").is_none());
}

#[test]
fn test_highest_bump() {
    let commits = vec![
        parse_conventional_commit("a", "fix: bug").unwrap(),
        parse_conventional_commit("b", "feat: feature").unwrap(),
        parse_conventional_commit("c", "chore: cleanup").unwrap(),
    ];
    assert_eq!(highest_bump(&commits), BumpType::Minor);
}

#[test]
fn test_highest_bump_with_breaking() {
    let commits = vec![
        parse_conventional_commit("a", "fix: bug").unwrap(),
        parse_conventional_commit("b", "feat!: breaking feature").unwrap(),
    ];
    assert_eq!(highest_bump(&commits), BumpType::Major);
}

#[test]
fn test_highest_bump_empty() {
    assert_eq!(highest_bump(&[]), BumpType::NoBump);
}

#[test]
fn test_generate_changelog_entry() {
    let commits = vec![
        parse_conventional_commit("abc1234", "feat: add login").unwrap(),
        parse_conventional_commit("def5678", "fix: handle null").unwrap(),
        parse_conventional_commit("ghi9012", "chore: update deps").unwrap(),
    ];
    let entry = generate_changelog_entry("1.2.0", &commits, false, false, true, None);
    assert!(entry.contains("## 1.2.0"));
    assert!(entry.contains("### Features"));
    assert!(entry.contains("- add login"));
    assert!(entry.contains("### Bug Fixes"));
    assert!(entry.contains("- handle null"));
    assert!(entry.contains("### Chores"));
    assert!(entry.contains("- update deps"));
}

#[test]
fn test_generate_changelog_with_hash() {
    let commits = vec![parse_conventional_commit("abc1234", "feat(ui): new button").unwrap()];
    let entry = generate_changelog_entry("2.0.0", &commits, false, true, true, None);
    assert!(entry.contains("(abc1234)"));
    assert!(entry.contains("**ui**: new button"));
}

#[test]
fn test_bump_type_display() {
    assert_eq!(BumpType::NoBump.as_str(), "none");
    assert_eq!(BumpType::Patch.as_str(), "patch");
    assert_eq!(BumpType::Minor.as_str(), "minor");
    assert_eq!(BumpType::Major.as_str(), "major");
}

fn is_ascii_digits(s: &str, n: usize) -> bool {
    s.len() == n && s.chars().all(|c| c.is_ascii_digit())
}

#[test]
fn test_chrono_date_today_format() {
    let date = chrono_date_today();
    // YYYY-MM-DD
    assert_eq!(date.len(), 10, "Date '{}' doesn't match YYYY-MM-DD format", date);
    assert!(is_ascii_digits(&date[..4], 4));
    assert_eq!(&date[4..5], "-");
    assert!(is_ascii_digits(&date[5..7], 2));
    assert_eq!(&date[7..8], "-");
    assert!(is_ascii_digits(&date[8..10], 2));

    let year: u32 = date[..4].parse().unwrap();
    assert!(year >= 2020 && year <= 2099, "Year {} out of range", year);
    let month: u32 = date[5..7].parse().unwrap();
    assert!(month >= 1 && month <= 12, "Month {} out of range", month);
    let day: u32 = date[8..10].parse().unwrap();
    assert!(day >= 1 && day <= 31, "Day {} out of range", day);
}

#[test]
fn test_generate_changelog_without_scopes() {
    let commits = vec![
        parse_conventional_commit("abc1234", "feat(ui): new button").unwrap(),
        parse_conventional_commit("def5678", "fix(auth): handle token").unwrap(),
    ];
    let entry = generate_changelog_entry("1.0.0", &commits, false, false, false, None);
    assert!(!entry.contains("**ui**"), "Scope should not be included");
    assert!(!entry.contains("**auth**"), "Scope should not be included");
    assert!(entry.contains("new button"));
    assert!(entry.contains("handle token"));
}

#[test]
fn test_generate_changelog_with_scopes() {
    let commits = vec![parse_conventional_commit("abc1234", "feat(ui): new button").unwrap()];
    let entry = generate_changelog_entry("1.0.0", &commits, false, false, true, None);
    assert!(entry.contains("**ui**: new button"));
}

#[test]
fn test_coordinated_picks_highest_version() {
    let versions = vec!["1.0.0", "2.3.1", "1.5.0", "0.9.0"];
    let highest = versions.iter().filter_map(|v| Version::parse(v).ok()).max().unwrap();
    assert_eq!(highest, Version::new(2, 3, 1));
    let next = compute_next_version(&highest.to_string(), "patch").unwrap();
    assert_eq!(next.to_text(), "2.3.2");
}

#[test]
fn test_coordinated_minor_bump() {
    let versions = vec!["1.0.0", "3.1.0", "2.0.0"];
    let highest = versions.iter().filter_map(|v| Version::parse(v).ok()).max().unwrap();
    assert_eq!(highest, Version::new(3, 1, 0));
    let next = compute_next_version(&highest.to_string(), "minor").unwrap();
    assert_eq!(next.to_text(), "3.2.0");
}

#[test]
fn test_coordinated_major_bump() {
    let versions = vec!["1.0.0", "1.2.0", "1.2.3"];
    let highest = versions.iter().filter_map(|v| Version::parse(v).ok()).max().unwrap();
    assert_eq!(highest, Version::new(1, 2, 3));
    let next = compute_next_version(&highest.to_string(), "major").unwrap();
    assert_eq!(next.to_text(), "2.0.0");
}

#[test]
fn test_coordinated_explicit_version() {
    let next = compute_next_version("1.0.0", "5.0.0").unwrap();
    assert_eq!(next.to_text(), "5.0.0");
}

#[test]
fn test_coordinated_all_same_version() {
    let versions = vec!["2.0.0", "2.0.0", "2.0.0"];
    let highest = versions.iter().filter_map(|v| Version::parse(v).ok()).max().unwrap();
    assert_eq!(highest, Version::new(2, 0, 0));
    let next = compute_next_version(&highest.to_string(), "patch").unwrap();
    assert_eq!(next.to_text(), "2.0.1");
}

#[test]
fn test_coordinated_with_flutter_build_numbers() {
    let versions = vec!["1.0.0", "2.0.0+5"];
    let highest = versions
        .iter()
        .filter_map(|v| {
            Version::parse(v)
                .or_else(|_| {
                    let cleaned = v.split('+').next().unwrap_or(v);
                    Version::parse(cleaned)
                })
                .ok()
        })
        .max()
        .unwrap();
    assert_eq!(highest.major, 2);
    assert_eq!(highest.minor, 0);
    assert_eq!(highest.patch, 0);
    let base = format!("{}.{}.{}", highest.major, highest.minor, highest.patch);
    let next = compute_next_version(&base, "minor").unwrap();
    assert_eq!(next.to_text(), "2.1.0");
}

#[test]
fn test_compute_next_prerelease_fresh() {
    let v = compute_next_prerelease("1.0.0", "minor", "dev").unwrap();
    assert_eq!(v.to_text(), "1.1.0-dev.0");
}

#[test]
fn test_compute_next_prerelease_increment() {
    let v = compute_next_prerelease("1.1.0-dev.0", "minor", "dev").unwrap();
    assert_eq!(v.to_text(), "1.1.0-dev.1");
}

#[test]
fn test_compute_next_prerelease_increment_high() {
    let v = compute_next_prerelease("1.1.0-dev.5", "minor", "dev").unwrap();
    assert_eq!(v.to_text(), "1.1.0-dev.6");
}

#[test]
fn test_compute_next_prerelease_different_preid() {
    let v = compute_next_prerelease("1.1.0-beta.3", "minor", "dev").unwrap();
    assert_eq!(v.to_text(), "1.1.0-dev.0");
}

#[test]
fn test_compute_next_prerelease_different_base() {
    let v = compute_next_prerelease("1.1.0-dev.3", "major", "dev").unwrap();
    assert_eq!(v.to_text(), "1.1.0-dev.4");
}

#[test]
fn test_compute_next_prerelease_patch() {
    let v = compute_next_prerelease("2.0.0", "patch", "alpha").unwrap();
    assert_eq!(v.to_text(), "2.0.1-alpha.0");
}

#[test]
fn test_compute_next_prerelease_major_already_at_major() {
    let v = compute_next_prerelease("2.0.0-dev.0", "major", "dev").unwrap();
    assert_eq!(v.to_text(), "2.0.0-dev.1");
}

#[test]
fn test_graduate_version_dev() {
    let v = graduate_version("1.1.0-dev.3").unwrap();
    assert_eq!(v.to_text(), "1.1.0");
}

#[test]
fn test_graduate_version_beta() {
    let v = graduate_version("2.0.0-beta.1").unwrap();
    assert_eq!(v.to_text(), "2.0.0");
}

#[test]
fn test_graduate_version_already_stable() {
    let v = graduate_version("1.0.0").unwrap();
    assert_eq!(v.to_text(), "1.0.0");
}

#[test]
fn test_is_prerelease_true() {
    assert!(is_prerelease("1.0.0-dev.0"));
    assert!(is_prerelease("2.3.1-beta.5"));
    assert!(is_prerelease("0.1.0-alpha.0"));
}

#[test]
fn test_is_prerelease_false() {
    assert!(!is_prerelease("1.0.0"));
    assert!(!is_prerelease("2.3.1"));
    assert!(!is_prerelease("0.0.0"));
}

#[test]
fn test_is_prerelease_invalid() {
    assert!(!is_prerelease("not-a-version"));
}

#[test]
fn test_generate_changelog_with_commit_links() {
    let repo = RepositoryConfig { url: "https://github.com/org/repo".to_string() };
    let commits = vec![parse_conventional_commit("abc1234", "feat(ui): new button").unwrap()];
    let entry = generate_changelog_entry("2.0.0", &commits, false, true, true, Some(&repo));
    assert!(entry.contains("[abc1234](https://github.com/org/repo/commit/abc1234)"));
    assert!(!entry.contains(" (abc1234)"), "Should not have bare hash");
}

#[test]
fn test_generate_changelog_hash_no_repo() {
    let commits = vec![parse_conventional_commit("abc1234", "feat: something").unwrap()];
    let entry = generate_changelog_entry("1.0.0", &commits, false, true, true, None);
    assert!(entry.contains("(abc1234)"));
    assert!(!entry.contains("[abc1234]"));
}

#[test]
fn test_message_placeholder_replacement() {
    let template = "chore(release): publish\n\n{new_package_versions}";
    let versions = vec![
        ("pkg_a".to_string(), "1.2.0".to_string()),
        ("pkg_b".to_string(), "3.0.0".to_string()),
    ];
    let result = release_commit_message(Some(template), None, &versions);
    assert!(result.contains(" - pkg_a @ 1.2.0"));
    assert!(result.contains(" - pkg_b @ 3.0.0"));
    assert!(result.starts_with("chore(release): publish"));
}

// Further cases.

#[test]
fn changelog_entry_exact_layout() {
    let commits = vec![
        parse_conventional_commit("h1", "fix: a").unwrap(),
        parse_conventional_commit("h2", "feat(x)!: b\n\nline1\nline2").unwrap(),
        parse_conventional_commit("h3", "weird: c").unwrap(),
    ];
    let entry = changelog_entry_on("2024-01-02", "1.0.0", &commits, true, false, true, None);
    assert_eq!(
        entry,
        "## 1.0.0 (2024-01-02)\n\n### Features\n\n- **x**: b\n  line1\n  line2\n  **BREAKING CHANGE**\n\n### Bug Fixes\n\n- a\n\n### Other Changes\n\n- c\n"
    );
}

#[test]
fn date_from_unix_secs_known_days() {
    assert_eq!(date_from_unix_secs(0), "1970-01-01");
    assert_eq!(date_from_unix_secs(951782400), "2000-02-29");
    assert_eq!(date_from_unix_secs(1704067199), "2023-12-31");
    assert_eq!(date_from_unix_secs(1704067200), "2024-01-01");
}

#[test]
fn parse_conventional_commit_edge_cases() {
    assert!(parse_conventional_commit("h", "feat():x").is_none());
    assert!(parse_conventional_commit("h", "feat:").is_none());
    assert!(parse_conventional_commit("h", "").is_none());
    let c = parse_conventional_commit("h", "feat:   ").unwrap();
    assert_eq!(c.description, "");
    let c = parse_conventional_commit("h", "docs: x\r\nBREAKING-CHANGE: y").unwrap();
    assert!(c.breaking);
    assert_eq!(c.body.as_deref(), Some("BREAKING-CHANGE: y"));
}

#[test]
fn version_override_parsing() {
    assert_eq!(
        parse_version_override("app:patch").unwrap(),
        ("app".to_string(), "patch".to_string())
    );
    assert_eq!(
        parse_version_override("a:b:c").unwrap(),
        ("a".to_string(), "b:c".to_string())
    );
    assert_eq!(
        parse_version_override("app").unwrap_err(),
        "Invalid version override 'app'. Expected format: package:bump"
    );
}

#[test]
fn next_version_strings_keep_build_numbers() {
    assert_eq!(next_version_string("1.2.3+5", "build").unwrap(), "1.2.3+6");
    assert_eq!(next_version_string("1.0.0", "build").unwrap(), "1.0.0+1");
    assert_eq!(next_version_string("1.2.3+42", "patch").unwrap(), "1.2.4+42");
    assert_eq!(next_version_string("1.2.3", "minor").unwrap(), "1.3.0");
    assert!(next_version_string("1.2.3", "nonsense").is_err());
}

#[test]
fn changelog_file_updates() {
    assert_eq!(changelog_with_entry("", "E\n"), "# Changelog\n\nE\n");
    assert_eq!(changelog_with_entry("# Log\nold\n", "E\n"), "# Log\n\nE\n\nold\n");
    assert_eq!(changelog_with_entry("old\n", "E\n"), "E\n\nold\n");
}

#[test]
fn release_message_defaults() {
    let v = vec![("a".to_string(), "1.0.0".to_string())];
    assert_eq!(new_package_versions(&v), " - a @ 1.0.0");
    assert_eq!(
        release_commit_message(None, None, &v),
        "chore(release): publish packages\n\n - a @ 1.0.0"
    );
    assert_eq!(
        release_commit_message(None, Some(None), &v),
        "chore(release): publish packages"
    );
}

#[test]
fn compute_next_version_errors() {
    assert_eq!(
        compute_next_version("1.0.0", "bogus").unwrap_err().message(),
        "Invalid version or bump type: bogus"
    );
    assert!(compute_next_prerelease("1.0.0", "minor", "not valid").is_err());
}
