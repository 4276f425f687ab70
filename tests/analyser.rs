use bumper::analyser::{analyse_commits, assess_commit, BumpType};
use bumper::commit::classify_commit;
use bumper::config::Config;

fn lines(v: &[&str]) -> Vec<String> {
    v.iter().map(|s| s.to_string()).collect()
}

#[test]
fn aggregate_is_the_maximum() {
    let config = Config::default();
    let a = analyse_commits(&lines(&["fix: a", "feat: b", "docs: c", "fix: d"]), &config);
    assert_eq!(a.bump, BumpType::Minor);
    assert_eq!(a.triggering_commits, lines(&["feat: b"]));
    let b = analyse_commits(&lines(&["fix: a", "feat: b", "docs: c", "fix: d", "fix: e"]), &config);
    assert_eq!(b.bump, BumpType::Minor);
}

#[test]
fn ties_all_trigger() {
    let config = Config::default();
    let a = analyse_commits(&lines(&["feat: one", "fix: x", "feat: two"]), &config);
    assert_eq!(a.bump, BumpType::Minor);
    assert_eq!(a.triggering_commits, lines(&["feat: one", "feat: two"]));
}

#[test]
fn breaking_marker_forces_major() {
    let config = Config::default();
    let a = analyse_commits(&lines(&["feat: f", "chore!: drop config"]), &config);
    assert_eq!(a.bump, BumpType::Major);
    assert_eq!(a.triggering_commits, lines(&["chore!: drop config"]));
    assert_eq!(assess_commit("refactor(core)!: api", &config.types), (BumpType::Major, false));
}

#[test]
fn self_commits_alone_release_nothing() {
    let config = Config::default();
    let a = analyse_commits(
        &lines(&["chore: bump version to 1.2.0", "chore: sync package version"]),
        &config,
    );
    assert_eq!(a.bump, BumpType::NoBump);
    assert!(a.triggering_commits.is_empty());
    assert!(a.unknown_commits.is_empty());
}

#[test]
fn empty_list_releases_nothing() {
    let a = analyse_commits(&Vec::new(), &Config::default());
    assert_eq!(a.bump, BumpType::NoBump);
    assert!(a.triggering_commits.is_empty());
}

#[test]
fn unknown_type_is_reported_but_invalid_line_is_not() {
    let config = Config::default();
    let a = analyse_commits(&lines(&["docx: typo in type", "Updated stuff"]), &config);
    assert_eq!(a.bump, BumpType::NoBump);
    assert_eq!(a.unknown_commits, lines(&["docx: typo in type"]));
    assert!(a.triggering_commits.is_empty());
}

#[test]
fn patch_only_release() {
    let config = Config::default();
    let a = analyse_commits(&lines(&["fix: one", "docs: two", "docx: three"]), &config);
    assert_eq!(a.bump, BumpType::Patch);
    assert_eq!(a.triggering_commits, lines(&["fix: one"]));
    assert_eq!(a.unknown_commits, lines(&["docx: three"]));
}

#[test]
fn configured_table_is_used() {
    let mut config = Config::default();
    config.types = vec![("perf".to_string(), "patch".to_string())];
    let a = analyse_commits(&lines(&["perf: faster", "feat: new"]), &config);
    assert_eq!(a.bump, BumpType::Patch);
    assert_eq!(a.unknown_commits, lines(&["feat: new"]));
}

#[test]
fn bump_names() {
    assert_eq!(BumpType::NoBump.as_str(), "none");
    assert_eq!(BumpType::Patch.as_str(), "patch");
    assert_eq!(BumpType::Minor.as_str(), "minor");
    assert_eq!(BumpType::Major.as_str(), "major");
}

#[test]
fn classifier_reads_the_grammar() {
    let c = classify_commit("feat(api)!: add endpoint");
    assert!(c.valid && c.breaking);
    assert_eq!(c.commit_type, "feat");
    assert_eq!(c.description, "add endpoint");
    for bad in ["Feat: x", "feat:x", "feat: ", "feat(): x", "feat(a: x", "feat: a\nb", ": x"] {
        let c = classify_commit(bad);
        assert!(!c.valid, "{:?}", bad);
        assert_eq!(c.description, bad);
        assert_eq!(c.commit_type, "");
    }
}
