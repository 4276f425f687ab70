use bumper::analyser::BumpType;
use bumper::config::Config;
use bumper::error::BumperError;
use bumper::git::{
    commit_changes, create_tag, get_commits_since_tag, get_last_tag, get_last_tag_version,
    log_command, push, push_with_force_tags, set_git_config, update_movable_tags, GitCommand,
};
use bumper::release::{
    apply_overrides, decide_release, files_to_commit, needs_sync, release_notes, split_commas, Outcome, Overrides,
};
use bumper::strategy::{
    cargo_manifest_updated, cargo_manifest_version, load_strategy, package_files_for_preset, Preset,
    RustStrategy,
};
use bumper::versioner::Version;

fn args(c: &GitCommand) -> Vec<&str> {
    c.args.iter().map(|s| s.as_str()).collect()
}

#[test]
fn last_tag_from_describe() {
    assert_eq!(get_last_tag(Some("v1.2.3")), Some("v1.2.3".to_string()));
    assert_eq!(get_last_tag(Some("")), None);
    assert_eq!(get_last_tag(None), None);
}

#[test]
fn tag_version_strips_prefix() {
    let config = Config::default();
    assert_eq!(get_last_tag_version(&config, Some("v1.4.2")), Ok(Some(Version::new(1, 4, 2))));
    assert_eq!(get_last_tag_version(&config, Some("2.0.1")), Ok(Some(Version::new(2, 0, 1))));
    assert_eq!(get_last_tag_version(&config, None), Ok(None));
    assert!(get_last_tag_version(&config, Some("release-1")).is_err());
}

#[test]
fn commits_from_log_output() {
    let out = get_commits_since_tag("feat: a\r\n\nfix: b\n");
    assert_eq!(out, vec!["feat: a".to_string(), "fix: b".to_string()]);
    assert!(get_commits_since_tag("").is_empty());
}

#[test]
fn log_arguments() {
    assert_eq!(args(&log_command(Some("v1.0.0"))), vec!["log", "v1.0.0..HEAD", "--pretty=%s"]);
    assert_eq!(args(&log_command(None)), vec!["log", "--pretty=%s"]);
}

#[test]
fn commit_commands() {
    assert!(commit_changes("1.0.0", &Vec::new(), "chore: bump version").is_empty());
    let files = vec!["Cargo.toml".to_string(), "CHANGELOG.md".to_string()];
    let cmds = commit_changes("1.0.0", &files, "chore: bump version");
    assert_eq!(args(&cmds[0]), vec!["add", "Cargo.toml", "CHANGELOG.md"]);
    assert_eq!(args(&cmds[1]), vec!["commit", "-m", "chore: bump version to 1.0.0"]);
}

#[test]
fn tag_commands() {
    assert_eq!(args(&create_tag("1.0.0", "v", None)), vec!["tag", "v1.0.0"]);
    assert_eq!(
        args(&create_tag("1.0.0", "v", Some("- feat: a"))),
        vec!["tag", "-a", "v1.0.0", "-m", "- feat: a"]
    );
    let moved = update_movable_tags(&Version::new(4, 12, 1), "v", true, true);
    assert_eq!(moved.len(), 4);
    assert_eq!(args(&moved[0]), vec!["tag", "-d", "v4"]);
    assert!(moved[0].ignore_failure);
    assert_eq!(args(&moved[1]), vec!["tag", "v4"]);
    assert_eq!(args(&moved[2]), vec!["tag", "-d", "v4.12"]);
    assert_eq!(args(&moved[3]), vec!["tag", "v4.12"]);
    assert!(update_movable_tags(&Version::new(4, 12, 1), "v", false, false).is_empty());
}

#[test]
fn push_and_identity_commands() {
    let p = push();
    assert_eq!(args(&p[1]), vec!["push", "--tags"]);
    let f = push_with_force_tags();
    assert_eq!(args(&f[1]), vec!["push", "--tags", "--force"]);
    let c = set_git_config("bot", "bot@example.com", true, false);
    assert_eq!(c.len(), 1);
    assert_eq!(args(&c[0]), vec!["config", "user.email", "bot@example.com"]);
}

#[test]
fn strategy_selection() {
    let mut config = Config::default();
    assert_eq!(load_strategy(&config), Preset::Git);
    config.preset = "rust".to_string();
    assert_eq!(load_strategy(&config), Preset::Rust);
    config.preset = "node".to_string();
    assert_eq!(load_strategy(&config), Preset::Node);
    config.raw = true;
    assert_eq!(load_strategy(&config), Preset::Git);
    assert_eq!(package_files_for_preset("rust"), vec!["Cargo.toml".to_string()]);
    assert!(package_files_for_preset("git").is_empty());
    assert_eq!(package_files_for_preset("other"), vec!["package.json".to_string()]);
}

#[test]
fn cargo_file_choice() {
    let mut config = Config::default();
    assert_eq!(RustStrategy::new(config.clone()).get_cargo_file(), "Cargo.toml");
    config.package_files = vec!["crates/a/Cargo.toml".to_string()];
    assert_eq!(RustStrategy::new(config).get_cargo_file(), "crates/a/Cargo.toml");
}

#[test]
fn release_decisions() {
    assert!(needs_sync("rust", &Version::new(1, 0, 0), &Version::new(1, 1, 0)));
    assert!(!needs_sync("git", &Version::new(1, 0, 0), &Version::new(1, 1, 0)));
    assert!(!needs_sync("node", &Version::new(1, 1, 0), &Version::new(1, 1, 0)));
    let files = files_to_commit(&vec!["package.json".to_string()], true);
    assert_eq!(files, vec!["package.json".to_string(), "CHANGELOG.md".to_string()]);
    let notes = release_notes(&vec!["feat: a".to_string(), "fix: b".to_string()], true);
    assert_eq!(notes, Some("- feat: a\n- fix: b".to_string()));
    assert_eq!(release_notes(&vec!["feat: a".to_string()], false), None);
}

#[test]
fn default_config_values() {
    let c = Config::load(None);
    assert_eq!(c.commit_prefix, "chore: bump version");
    assert_eq!(c.tag_prefix, "v");
    assert_eq!(c.preset, "git");
    assert_eq!(c.types.len(), 10);
    assert!(c.types.contains(&("feat".to_string(), "minor".to_string())));
}

#[test]
fn cargo_manifest_version_field() {
    let manifest = "[package]\nname = \"x\"\nversion = \"1.2.3\"\n\n[dependencies]\nfoo = { version = \"9.9.9\" }\n";
    assert_eq!(cargo_manifest_version(manifest), Ok(Version::new(1, 2, 3)));
    let updated = cargo_manifest_updated(manifest, &Version::new(1, 3, 0));
    assert_eq!(
        updated,
        "[package]\nname = \"x\"\nversion = \"1.3.0\"\n\n[dependencies]\nfoo = { version = \"9.9.9\" }\n"
    );
    assert_eq!(
        cargo_manifest_version("[package]\nname = \"x\"\n"),
        Err(BumperError::InvalidVersion("No version field found in Cargo.toml".to_string()))
    );
    assert_eq!(
        cargo_manifest_version("version = \"1.2\"\n"),
        Err(BumperError::InvalidVersion("1.2".to_string()))
    );
}

#[test]
fn command_line_overrides() {
    let none = Overrides {
        push: false,
        tag: false,
        release_notes: false,
        raw: false,
        preset: None,
        tag_prefix: None,
        commit_prefix: None,
        package_files: None,
        update_major_tag: false,
        update_minor_tag: false,
        changelog: false,
    };
    let c = apply_overrides(Config::default(), none.clone());
    assert!(c.package_files.is_empty());
    assert_eq!(c.tag_prefix, "v");
    let mut o = none.clone();
    o.preset = Some("rust".to_string());
    o.tag = true;
    o.push = true;
    let c = apply_overrides(Config::default(), o.clone());
    assert_eq!(c.preset, "rust");
    assert_eq!(c.package_files, vec!["Cargo.toml".to_string()]);
    assert!(c.tag && c.push);
    o.raw = true;
    o.package_files = Some("a.json,b/c.json".to_string());
    o.tag_prefix = Some("release-".to_string());
    let c = apply_overrides(Config::default(), o);
    assert!(c.raw && !c.tag && !c.push);
    assert_eq!(c.package_files, vec!["a.json".to_string(), "b/c.json".to_string()]);
    assert_eq!(c.tag_prefix, "release-");
    assert_eq!(split_commas(""), vec!["".to_string()]);
    assert_eq!(split_commas("a,,b,"), vec!["a", "", "b", ""]);
}

#[test]
fn malformed_tag_reports_the_stripped_text() {
    let config = Config::default();
    assert_eq!(
        get_last_tag_version(&config, Some("v1.x.3")),
        Err(BumperError::InvalidVersion("1.x.3".to_string()))
    );
}

#[test]
fn package_manifest_version_member() {
    let manifest = "{\n  \"name\": \"x\",\n  \"version\": \"0.4.1\",\n  \"deps\": {\"a\": \"$1\"}\n}\n";
    let updated = bumper::strategy::node_manifest_updated(manifest, &Version::new(0, 5, 0));
    assert_eq!(
        updated,
        "{\n  \"name\": \"x\",\n  \"version\": \"0.5.0\",\n  \"deps\": {\"a\": \"$1\"}\n}\n"
    );
}

#[test]
fn initial_version_and_release_step() {
    assert_eq!(bumper::strategy::version_or_initial(None), Version::new(0, 0, 0));
    assert_eq!(
        bumper::strategy::version_or_initial(Some(Version::new(3, 2, 1))),
        Version::new(3, 2, 1)
    );
    let v = Version::new(1, 2, 3);
    assert_eq!(decide_release(&v, false, BumpType::Major, false), Outcome::NoCommits);
    assert_eq!(decide_release(&v, true, BumpType::NoBump, false), Outcome::NoRelease);
    assert_eq!(decide_release(&v, true, BumpType::Minor, true), Outcome::PrintOnly(Version::new(1, 3, 0)));
    assert_eq!(decide_release(&v, true, BumpType::Patch, false), Outcome::Release(Version::new(1, 2, 4)));
    assert_eq!(
        decide_release(&Version::new(1, u32::MAX, 0), true, BumpType::Minor, false),
        Outcome::Overflow
    );
}
