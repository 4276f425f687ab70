use vstd::prelude::*;
use vstd::string::*;
use crate::analyser::{lines_of, BumpType};
use crate::config::Config;
use crate::text::{find_char, find_from, same_text};
use crate::strategy::{default_manifests, package_files_for_preset, GIT_PRESET};
use crate::versioner::{bumped, can_bump, version_lt, Version};

verus! {

/// File name of the changelog that a release maintains.
pub const CHANGELOG_FILE: &'static str = "CHANGELOG.md";

pub const NOTE_BULLET: &'static str = "- ";

pub const NOTE_SEPARATOR: &'static str = "\n";

/// Settings given on the command line; each one that is present wins over
/// the configuration file, and a flag can only switch a setting on.
#[derive(Debug, Clone)]
pub struct Overrides {
    pub push: bool,
    pub tag: bool,
    pub release_notes: bool,
    pub raw: bool,
    pub preset: Option<String>,
    pub tag_prefix: Option<String>,
    pub commit_prefix: Option<String>,
    /// Comma-separated manifest files.
    pub package_files: Option<String>,
    pub update_major_tag: bool,
    pub update_minor_tag: bool,
    pub changelog: bool,
}

/// The `,`-separated parts of `s` from index `i` on, empty parts included.
pub open spec fn comma_parts_from(s: Seq<char>, i: int) -> Seq<Seq<char>>
    decreases s.len() - i,
{
    let e = find_char(s, ',', i);
    if i < 0 || i > s.len() || e < i || e >= s.len() {
        seq![s.subrange(i, s.len() as int)]
    } else {
        seq![s.subrange(i, e)] + comma_parts_from(s, e + 1)
    }
}

/// The configuration a run uses once the command line is applied.
pub open spec fn overridden(c: Config, o: Overrides) -> Config {
    let preset = match o.preset {
        Some(p) => p,
        None => c.preset,
    };
    Config {
        preset,
        tag_prefix: match o.tag_prefix {
            Some(p) => p,
            None => c.tag_prefix,
        },
        commit_prefix: match o.commit_prefix {
            Some(p) => p,
            None => c.commit_prefix,
        },
        push: (c.push || o.push) && !o.raw,
        tag: (c.tag || o.tag) && !o.raw,
        release_notes: c.release_notes || o.release_notes,
        raw: c.raw || o.raw,
        update_major_tag: c.update_major_tag || o.update_major_tag,
        update_minor_tag: c.update_minor_tag || o.update_minor_tag,
        changelog: c.changelog || o.changelog,
        ..c
    }
}

/// The manifest files a run rewrites: those named on the command line, else
/// the defaults of the preset.
pub open spec fn overridden_files(c: Config, o: Overrides) -> Seq<Seq<char>> {
    match o.package_files {
        Some(list) => comma_parts_from(list@, 0),
        None => default_manifests(overridden(c, o).preset@),
    }
}

/// Splits a `,`-separated list, keeping empty parts.
pub fn split_commas(s: &str) -> (r: Vec<String>)
    ensures
        lines_of(r@) == comma_parts_from(s@, 0),
{
    let len = s.unicode_len();
    let mut out: Vec<String> = Vec::new();
    let mut i: usize = 0;
    loop
        invariant
            i <= len == s@.len(),
            lines_of(out@) + comma_parts_from(s@, i as int) == comma_parts_from(s@, 0),
        decreases len - i,
    {
        let e = find_from(s, ',', i);
        let part = s.substring_char(i, e).to_owned();
        let ghost before = lines_of(out@);
        out.push(part);
        assert(lines_of(out@) =~= before.push(s@.subrange(i as int, e as int)));
        if e >= len {
            assert(comma_parts_from(s@, i as int) == seq![s@.subrange(i as int, len as int)]);
            assert(lines_of(out@) =~= before + comma_parts_from(s@, i as int));
            return out;
        }
        assert(comma_parts_from(s@, i as int) == seq![s@.subrange(i as int, e as int)]
            + comma_parts_from(s@, e + 1));
        assert(before + comma_parts_from(s@, i as int) =~= lines_of(out@) + comma_parts_from(
            s@,
            e + 1,
        ));
        i = e + 1;
    }
}

/// Applies the command line to the configuration read from file.
pub fn apply_overrides(config: Config, o: Overrides) -> (r: Config)
    ensures
        r == (Config { package_files: r.package_files, ..overridden(config, o) }),
        lines_of(r.package_files@) == overridden_files(config, o),
{
    let ghost c0 = config;
    let ghost o0 = o;
    let preset = match o.preset {
        Some(p) => p,
        None => config.preset,
    };
    let package_files = match o.package_files {
        Some(list) => split_commas(list.as_str()),
        None => package_files_for_preset(preset.as_str()),
    };
    let tag_prefix = match o.tag_prefix {
        Some(p) => p,
        None => config.tag_prefix,
    };
    let commit_prefix = match o.commit_prefix {
        Some(p) => p,
        None => config.commit_prefix,
    };
    let r = Config {
        package_files,
        commit_prefix,
        tag_prefix,
        push: (config.push || o.push) && !o.raw,
        tag: (config.tag || o.tag) && !o.raw,
        preset,
        release_notes: config.release_notes || o.release_notes,
        types: config.types,
        raw: config.raw || o.raw,
        update_major_tag: config.update_major_tag || o.update_major_tag,
        update_minor_tag: config.update_minor_tag || o.update_minor_tag,
        changelog: config.changelog || o.changelog,
    };
    assert(r == (Config { package_files: r.package_files, ..overridden(c0, o0) }));
    r
}

/// What a run does once the commits are analysed.
#[derive(Debug, Clone, PartialEq, Eq)]
pub enum Outcome {
    /// No commit since the last tag: nothing to release.
    NoCommits,
    /// Commits, but none asks for a release.
    NoRelease,
    /// A dry run: the next version is only printed.
    PrintOnly(Version),
    /// The next version is written, committed and, as configured, tagged.
    Release(Version),
    /// The next version does not fit: a component is at its maximum.
    Overflow,
}

/// Decides the step after analysis from the current version, whether there
/// are commits, the decision, and whether the run is a dry run.
pub fn decide_release(current: &Version, has_commits: bool, bump: BumpType, raw: bool) -> (r:
    Outcome)
    ensures
        !has_commits ==> r == Outcome::NoCommits,
        has_commits && bump == BumpType::NoBump ==> r == Outcome::NoRelease,
        has_commits && bump != BumpType::NoBump && !can_bump(*current, bump) ==> r
            == Outcome::Overflow,
        has_commits && bump != BumpType::NoBump && can_bump(*current, bump) ==> r == (if raw {
            Outcome::PrintOnly(bumped(*current, bump))
        } else {
            Outcome::Release(bumped(*current, bump))
        }),
{
    if !has_commits {
        return Outcome::NoCommits;
    }
    if bump == BumpType::NoBump {
        return Outcome::NoRelease;
    }
    match current.checked_bump(bump) {
        None => Outcome::Overflow,
        Some(v) => if raw {
            Outcome::PrintOnly(v)
        } else {
            Outcome::Release(v)
        },
    }
}

/// Release notes: one `- subject` line per commit, joined by line breaks.
pub open spec fn notes_text(lines: Seq<Seq<char>>) -> Seq<char>
    decreases lines.len(),
{
    if lines.len() == 0 {
        Seq::empty()
    } else if lines.len() == 1 {
        NOTE_BULLET@ + lines[0]
    } else {
        notes_text(lines.drop_last()) + NOTE_SEPARATOR@ + NOTE_BULLET@ + lines.last()
    }
}

impl Version {
    /// The version after a release of the given kind, or `None` when a
    /// component would overflow.
    pub fn checked_bump(&self, bump_type: BumpType) -> (r: Option<Version>)
        ensures
            can_bump(*self, bump_type) ==> r == Some(bumped(*self, bump_type)),
            !can_bump(*self, bump_type) ==> r is None,
    {
        let fits = match bump_type {
            BumpType::Major => self.major < u32::MAX,
            BumpType::Minor => self.minor < u32::MAX,
            BumpType::Patch => self.patch < u32::MAX,
            BumpType::NoBump => true,
        };
        if fits {
            Some(self.bump(bump_type))
        } else {
            None
        }
    }
}

/// Whether the manifest must first be brought up to the last tag: only when
/// a manifest holds the version (the preset is not `git`) and it is behind.
pub fn needs_sync(preset: &str, current: &Version, tag_version: &Version) -> (r: bool)
    ensures
        r == (preset@ != GIT_PRESET@ && version_lt(*current, *tag_version)),
{
    !same_text(preset, GIT_PRESET) && current.lt(tag_version)
}

/// The files that the release commit records: those rewritten, then the
/// changelog when one is kept.
pub fn files_to_commit(updated: &Vec<String>, changelog: bool) -> (r: Vec<String>)
    ensures
        !changelog ==> lines_of(r@) == lines_of(updated@),
        changelog ==> lines_of(r@) == lines_of(updated@).push(CHANGELOG_FILE@),
{
    let mut r: Vec<String> = Vec::new();
    let mut i: usize = 0;
    while i < updated.len()
        invariant
            i <= updated@.len(),
            lines_of(r@) == lines_of(updated@.subrange(0, i as int)),
        decreases updated.len() - i,
    {
        let ghost before = lines_of(r@);
        r.push(updated[i].clone());
        assert(lines_of(r@) =~= before.push(updated@[i as int]@));
        assert(lines_of(updated@.subrange(0, i + 1)) =~= lines_of(updated@.subrange(0, i as int)).push(
            updated@[i as int]@,
        ));
        i = i + 1;
    }
    assert(updated@.subrange(0, updated@.len() as int) =~= updated@);
    if changelog {
        let ghost before = lines_of(r@);
        r.push(CHANGELOG_FILE.to_owned());
        assert(lines_of(r@) =~= before.push(CHANGELOG_FILE@));
    }
    r
}

/// The annotation of a release tag: the commit subjects as a list, or
/// `None` when notes are off or there are no commits.
pub fn release_notes(commits: &Vec<String>, enabled: bool) -> (r: Option<String>)
    ensures
        (!enabled || commits@.len() == 0) ==> r is None,
        (enabled && commits@.len() > 0) ==> (r matches Some(n) && n@ == notes_text(
            lines_of(commits@),
        )),
{
    if !enabled || commits.len() == 0 {
        return None;
    }
    let ghost lines = lines_of(commits@);
    let mut out = NOTE_BULLET.to_owned();
    out.append(commits[0].as_str());
    assert(lines.subrange(0, 1) =~= seq![lines[0]]);
    let mut i: usize = 1;
    while i < commits.len()
        invariant
            1 <= i <= commits@.len(),
            lines == lines_of(commits@),
            out@ == notes_text(lines.subrange(0, i as int)),
        decreases commits.len() - i,
    {
        let ghost before = out@;
        out.append(NOTE_SEPARATOR);
        out.append(NOTE_BULLET);
        out.append(commits[i].as_str());
        assert(lines.subrange(0, i + 1).drop_last() =~= lines.subrange(0, i as int));
        assert(out@ =~= before + NOTE_SEPARATOR@ + NOTE_BULLET@ + lines[i as int]);
        i = i + 1;
    }
    assert(lines.subrange(0, commits@.len() as int) =~= lines);
    Some(out)
}

} // verus!
