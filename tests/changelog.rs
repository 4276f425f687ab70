use bumper::analyser::BumpType;
use bumper::changelog::{build_changelog, generate_changelog_entry, ChangeCategory};
use bumper::versioner::Version;

const DATE: &str = "2024-05-06";

fn commits(v: &[&str]) -> Vec<String> {
    v.iter().map(|s| s.to_string()).collect()
}

fn fresh(version: &str, lines: &[&str]) -> String {
    let version = Version::parse(version).unwrap();
    build_changelog(&version, DATE, &commits(lines), None)
}

#[test]
fn test_change_category_from_commit_type() {
    assert_eq!(ChangeCategory::from_commit_type("feat"), ChangeCategory::Added);
    assert_eq!(ChangeCategory::from_commit_type("fix"), ChangeCategory::Fixed);
    assert_eq!(ChangeCategory::from_commit_type("refactor"), ChangeCategory::Changed);
    assert_eq!(ChangeCategory::from_commit_type("perf"), ChangeCategory::Changed);
    assert_eq!(ChangeCategory::from_commit_type("revert"), ChangeCategory::Removed);
    assert_eq!(ChangeCategory::from_commit_type("security"), ChangeCategory::Security);
}

#[test]
fn test_change_category_ordering() {
    assert!(ChangeCategory::Added < ChangeCategory::Changed);
    assert!(ChangeCategory::Fixed < ChangeCategory::Security);
    assert!(ChangeCategory::Added < ChangeCategory::Fixed);
}

#[test]
fn test_generate_changelog_entry_creates_new_file() {
    let content = fresh("1.0.0", &["feat: add new feature", "fix: resolve bug"]);
    assert!(content.contains("# Changelog"));
    assert!(content.contains("## [1.0.0]"));
    assert!(content.contains("### Added"));
    assert!(content.contains("- add new feature"));
    assert!(content.contains("### Fixed"));
    assert!(content.contains("- resolve bug"));
}

#[test]
fn test_generate_changelog_entry_updates_existing_file() {
    let version1 = Version::parse("1.0.0").unwrap();
    let first = build_changelog(&version1, DATE, &commits(&["feat: initial feature"]), None);
    let version2 = Version::parse("1.1.0").unwrap();
    let content =
        build_changelog(&version2, DATE, &commits(&["feat: another feature"]), Some(&first));
    let v1_pos = content.find("## [1.0.0]").unwrap();
    let v2_pos = content.find("## [1.1.0]").unwrap();
    assert!(v2_pos < v1_pos, "Newer version should appear first");
    assert!(content.contains("- initial feature"));
    assert!(content.contains("- another feature"));
}

#[test]
fn test_generate_changelog_entry_with_breaking_changes() {
    let content = fresh("2.0.0", &["feat!: breaking change", "fix: normal fix"]);
    assert!(content.contains("### Changed"));
    assert!(content.contains("**BREAKING:** breaking change"));
    assert!(content.contains("### Fixed"));
    assert!(content.contains("- normal fix"));
}

#[test]
fn test_generate_changelog_entry_with_scopes() {
    let content = fresh("1.0.0", &["feat(api): add new endpoint", "fix(ui): correct button alignment"]);
    assert!(content.contains("- add new endpoint"));
    assert!(content.contains("- correct button alignment"));
}

#[test]
fn test_generate_changelog_entry_skips_version_bump_commits() {
    let content = fresh(
        "1.0.0",
        &["feat: add feature", "chore: bump version to 0.9.0", "chore: sync package version"],
    );
    assert!(content.contains("- add feature"));
    assert!(!content.contains("bump version"));
    assert!(!content.contains("sync package"));
}

#[test]
fn test_generate_changelog_entry_groups_by_category() {
    let content = fresh("1.0.0", &["fix: bug 1", "feat: feature 1", "fix: bug 2", "feat: feature 2"]);
    let added_pos = content.find("### Added").unwrap();
    let feature1_pos = content.find("- feature 1").unwrap();
    let feature2_pos = content.find("- feature 2").unwrap();
    assert!(added_pos < feature1_pos);
    assert!(added_pos < feature2_pos);
    let fixed_pos = content.find("### Fixed").unwrap();
    let bug1_pos = content.find("- bug 1").unwrap();
    let bug2_pos = content.find("- bug 2").unwrap();
    assert!(fixed_pos < bug1_pos);
    assert!(fixed_pos < bug2_pos);
}

#[test]
fn test_generate_changelog_entry_with_non_conventional_commits() {
    let content = fresh("1.0.0", &["feat: proper feature", "Some random commit message"]);
    assert!(content.contains("### Added"));
    assert!(content.contains("- proper feature"));
    assert!(content.contains("### Changed"));
    assert!(content.contains("Some random commit message"));
}

#[test]
fn test_generate_changelog_entry_multiple_categories() {
    let content = fresh(
        "1.0.0",
        &[
            "feat: new feature",
            "fix: bug fix",
            "perf: performance improvement",
            "refactor: code refactor",
            "revert: revert change",
            "security: security fix",
        ],
    );
    assert!(content.contains("### Added"));
    assert!(content.contains("### Changed"));
    assert!(content.contains("### Removed"));
    assert!(content.contains("### Fixed"));
    assert!(content.contains("### Security"));
    let added_pos = content.find("### Added").unwrap();
    let changed_pos = content.find("### Changed").unwrap();
    let removed_pos = content.find("### Removed").unwrap();
    let fixed_pos = content.find("### Fixed").unwrap();
    let security_pos = content.find("### Security").unwrap();
    assert!(added_pos < changed_pos);
    assert!(changed_pos < removed_pos);
    assert!(removed_pos < fixed_pos);
    assert!(fixed_pos < security_pos);
}

#[test]
fn test_generate_changelog_entry_markdown_lint_compliance() {
    let content = fresh("1.0.0", &["feat: add new feature", "fix: resolve bug"]);
    assert!(content.contains("### Added\n\n- add new feature\n\n"));
    assert!(content.contains("\n\n### Fixed\n\n"));
    assert!(content.contains("- resolve bug\n\n"));
    assert!(!content.contains("\n\n\n"), "Found triple newlines (double blank lines)");
    for line in content.lines() {
        assert!(!line.ends_with(' '), "Found trailing whitespace on line: {}", line);
    }
}

#[test]
fn exact_document_for_one_release() {
    let content = fresh("1.2.0", &["fix: bug1", "feat: f1", "fix: bug2", "feat: f2"]);
    let expected = "# Changelog\n\nAll notable changes to this project will be documented in this file.\n\nThe format is based on [Keep a Changelog](https://keepachangelog.com/en/1.0.0/),\nand this project adheres to [Semantic Versioning](https://semver.org/spec/v2.0.0.html).\n\n## [1.2.0] - 2024-05-06\n\n### Added\n\n- f1\n- f2\n\n### Fixed\n\n- bug1\n- bug2\n\n";
    assert_eq!(content, expected);
}

#[test]
fn breaking_chore_goes_to_changed_with_marker() {
    let content = fresh("2.0.0", &["chore!: drop config"]);
    assert!(content.contains("## [2.0.0] - 2024-05-06\n\n### Changed\n\n- **BREAKING:** drop config\n\n"));
}

#[test]
fn many_merges_keep_newest_first_and_clean_layout() {
    let mut doc: Option<String> = None;
    for (i, v) in ["0.1.0", "0.2.0", "0.3.0", "1.0.0"].iter().enumerate() {
        let version = Version::parse(v).unwrap();
        let line = format!("feat: feature {}", i);
        doc = Some(build_changelog(&version, DATE, &commits(&[line.as_str(), "fix: f"]), doc.as_deref()));
    }
    let doc = doc.unwrap();
    let positions: Vec<usize> = ["## [1.0.0]", "## [0.3.0]", "## [0.2.0]", "## [0.1.0]"]
        .iter()
        .map(|h| doc.find(h).unwrap())
        .collect();
    assert!(positions.windows(2).all(|w| w[0] < w[1]));
    assert!(!doc.contains("\n\n\n"));
    assert!(doc.lines().all(|l| !l.ends_with(' ')));
}

#[test]
fn document_without_release_gets_entry_appended() {
    let version = Version::new(0, 1, 0);
    let doc = build_changelog(&version, DATE, &commits(&["fix: x"]), Some("# Notes\n\n"));
    assert_eq!(doc, "# Notes\n\n## [0.1.0] - 2024-05-06\n\n### Fixed\n\n- x\n\n");
}

#[test]
fn dated_entry_heads_the_document() {
    let version = Version::new(3, 1, 4);
    let doc = generate_changelog_entry(&version, &commits(&["feat: pi"]), BumpType::Minor, None);
    let start = doc.find("## [3.1.4] - ").unwrap();
    let date: String = doc[start + 13..].chars().take_while(|c| *c != '\n').collect();
    assert_eq!(date.len(), 10);
    assert!(doc.contains("### Added\n\n- pi\n\n"));
}

#[test]
fn empty_release_leaves_no_double_blank_line() {
    let doc = fresh("1.0.1", &[]);
    assert!(doc.ends_with("## [1.0.1] - 2024-05-06\n\n"));
    assert!(!doc.contains("\n\n\n"));
    let only_self = fresh("1.0.2", &["chore: bump version to 1.0.1"]);
    assert!(only_self.ends_with("## [1.0.2] - 2024-05-06\n\n"));
    let version = Version::new(1, 0, 3);
    let next = build_changelog(&version, DATE, &commits(&["fix: y"]), Some(&doc));
    assert!(!next.contains("\n\n\n"));
    assert!(next.find("## [1.0.3]").unwrap() < next.find("## [1.0.1]").unwrap());
}

#[test]
fn heading_less_document_is_padded_to_a_blank_line() {
    let version = Version::new(0, 1, 0);
    let one = build_changelog(&version, DATE, &commits(&["fix: x"]), Some("# Changelog\n"));
    assert_eq!(one, "# Changelog\n\n## [0.1.0] - 2024-05-06\n\n### Fixed\n\n- x\n\n");
    let none = build_changelog(&version, DATE, &commits(&["fix: x"]), Some("# Changelog"));
    assert_eq!(none, "# Changelog\n\n## [0.1.0] - 2024-05-06\n\n### Fixed\n\n- x\n\n");
    let empty = build_changelog(&version, DATE, &commits(&["fix: x"]), Some(""));
    assert_eq!(empty, "## [0.1.0] - 2024-05-06\n\n### Fixed\n\n- x\n\n");
}

#[test]
fn dated_entry_date_has_the_documented_shape() {
    let version = Version::new(2, 0, 0);
    let doc = generate_changelog_entry(&version, &commits(&[]), BumpType::NoBump, Some("# Log\n"));
    let start = doc.find("## [2.0.0] - ").unwrap();
    let date: String = doc[start + 13..].chars().take_while(|c| *c != '\n').collect();
    let parts: Vec<&str> = date.split('-').collect();
    assert_eq!(parts.len(), 3);
    assert!(parts.iter().all(|p| !p.is_empty() && p.chars().all(|c| c.is_ascii_digit())));
    assert!(!doc.contains("\n\n\n"));
}
