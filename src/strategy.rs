use vstd::prelude::*;
use vstd::string::*;
use crate::config::Config;
use crate::error::{BumperError, BumperResult};
use crate::text::same_text;
use crate::versioner::{version_parts, version_text, Version};

verus! {

pub const NODE_PRESET: &'static str = "node";

pub const RUST_PRESET: &'static str = "rust";

pub const GIT_PRESET: &'static str = "git";

pub const CARGO_MANIFEST: &'static str = "Cargo.toml";

pub const NODE_MANIFEST: &'static str = "package.json";

/// A version source: where the current version is read from, and which
/// files take a new one. Each ecosystem implements it over its own files.
pub trait Strategy {
    /// The version that the source holds now.
    fn get_current_version(&self) -> BumperResult<Version>;

    /// Writes `new_version` into the source and returns the files changed.
    fn update_files(&self, new_version: &Version) -> BumperResult<Vec<String>>;
}

/// Where the current version is read from and written to.
#[derive(Debug, Clone, Copy, PartialEq, Eq, Structural)]
pub enum Preset {
    /// Tags only; no manifest is rewritten.
    Git,
    /// The `version` field of `package.json` files.
    Node,
    /// The `version` field of `Cargo.toml` files.
    Rust,
}

/// The preset that a run uses: tags only in raw mode, else the one named,
/// tags only for an unknown name.
pub open spec fn preset_for(raw: bool, name: Seq<char>) -> Preset {
    if raw {
        Preset::Git
    } else if name == NODE_PRESET@ {
        Preset::Node
    } else if name == RUST_PRESET@ {
        Preset::Rust
    } else {
        Preset::Git
    }
}

/// The manifests a preset rewrites when none are named: `Cargo.toml` for
/// `rust`, none for `git`, `package.json` for any other name.
pub open spec fn default_manifests(name: Seq<char>) -> Seq<Seq<char>> {
    if name == RUST_PRESET@ {
        seq![CARGO_MANIFEST@]
    } else if name == GIT_PRESET@ {
        Seq::empty()
    } else {
        seq![NODE_MANIFEST@]
    }
}

/// Selects the version source for a configuration.
pub fn load_strategy(config: &Config) -> (r: Preset)
    ensures
        r == preset_for(config.raw, config.preset@),
{
    if config.raw {
        Preset::Git
    } else if same_text(config.preset.as_str(), NODE_PRESET) {
        Preset::Node
    } else if same_text(config.preset.as_str(), RUST_PRESET) {
        Preset::Rust
    } else {
        Preset::Git
    }
}

/// The manifests to rewrite for a preset name when none are given.
pub fn package_files_for_preset(preset: &str) -> (r: Vec<String>)
    ensures
        r@.map_values(|s: String| s@) == default_manifests(preset@),
{
    let mut r: Vec<String> = Vec::new();
    if same_text(preset, RUST_PRESET) {
        r.push(CARGO_MANIFEST.to_owned());
    } else if !same_text(preset, GIT_PRESET) {
        r.push(NODE_MANIFEST.to_owned());
    }
    assert(r@.map_values(|s: String| s@) =~= default_manifests(preset@));
    r
}

/// The Rust version source: the `version` field of a Cargo manifest.
#[derive(Debug, Clone)]
pub struct RustStrategy {
    pub config: Config,
}

impl RustStrategy {
    pub fn new(config: Config) -> (r: RustStrategy)
        ensures
            r.config == config,
    {
        RustStrategy { config }
    }

    /// The manifest that holds the version: the first package file, or
    /// `Cargo.toml` when none is configured.
    pub fn get_cargo_file(&self) -> (r: String)
        ensures
            self.config.package_files@.len() > 0 ==> r@ == self.config.package_files@[0]@,
            self.config.package_files@.len() == 0 ==> r@ == CARGO_MANIFEST@,
    {
        if self.config.package_files.len() > 0 {
            self.config.package_files[0].clone()
        } else {
            CARGO_MANIFEST.to_owned()
        }
    }
}

pub const VERSION_FIELD_OPEN: &'static str = "version = \"";

pub const QUOTE: &'static str = "\"";

pub const MISSING_CARGO_VERSION: &'static str = "No version field found in Cargo.toml";

/// The quoted value of the first line of a manifest that reads
/// `version = "..."`, as the pattern `(?m)^version\s*=\s*"([^"]+)"` finds it.
pub uninterp spec fn cargo_version_field(text: Seq<char>) -> Option<Seq<char>>;

/// A manifest with its first `version = "..."` field, as the pattern
/// `(?m)^version\s*=\s*"[^"]+"` finds it, replaced by `field` taken
/// literally.
pub uninterp spec fn cargo_version_rewritten(text: Seq<char>, field: Seq<char>) -> Seq<char>;

/// A package manifest with its first `"version": "..."` member, as the
/// pattern `"version"\s*:\s*"[^"]+"` finds it, replaced by `field` taken
/// literally.
pub uninterp spec fn node_version_rewritten(text: Seq<char>, field: Seq<char>) -> Seq<char>;

/// Relies on regex's `Regex::captures` with the pattern
/// `(?m)^version\s*=\s*"([^"]+)"`: the first capture group of the first
/// match. It depends on the text alone.
#[verifier::external_body]
fn find_cargo_version(text: &str) -> (r: Option<String>)
    ensures
        match r {
            Some(v) => cargo_version_field(text@) == Some(v@),
            None => cargo_version_field(text@) is None,
        },
{
    let re = regex::Regex::new(r#"(?m)^version\s*=\s*"([^"]+)""#).unwrap();
    match re.captures(text) {
        Some(c) => Some(c[1].to_string()),
        None => None,
    }
}

/// Relies on regex's `Regex::replace` with the pattern
/// `(?m)^version\s*=\s*"[^"]+"` and a `NoExpand` replacement: the first
/// match replaced by `field`, taken literally. It depends on its arguments
/// alone.
#[verifier::external_body]
fn replace_cargo_version(text: &str, field: &str) -> (r: String)
    ensures
        r@ == cargo_version_rewritten(text@, field@),
{
    let re = regex::Regex::new(r#"(?m)^version\s*=\s*"[^"]+""#).unwrap();
    re.replace(text, regex::NoExpand(field)).into_owned()
}

/// Relies on regex's `Regex::replace` with the pattern
/// `"version"\s*:\s*"[^"]+"` and a `NoExpand` replacement: the first match
/// replaced by `field`, taken literally. It depends on its arguments alone.
#[verifier::external_body]
fn replace_node_version(text: &str, field: &str) -> (r: String)
    ensures
        r@ == node_version_rewritten(text@, field@),
{
    let re = regex::Regex::new(r#""version"\s*:\s*"[^"]+""#).unwrap();
    re.replace(text, regex::NoExpand(field)).into_owned()
}

/// The version that a found version field names; an error when there is no
/// field or it is not a version.
pub fn version_from_field(field: Option<&str>) -> (r: BumperResult<Version>)
    ensures
        field is None ==> (r matches Err(BumperError::InvalidVersion(m)) && m@
            == MISSING_CARGO_VERSION@),
        field matches Some(f) ==> {
            &&& version_parts(f@) is Some <==> r is Ok
            &&& r matches Ok(v) ==> version_parts(f@) == Some((v.major, v.minor, v.patch))
            &&& r matches Err(e) ==> (e matches BumperError::InvalidVersion(m) && m@ == f@)
        },
{
    match field {
        Some(f) => Version::parse(f),
        None => Err(BumperError::InvalidVersion(MISSING_CARGO_VERSION.to_owned())),
    }
}

/// The version that a Cargo manifest holds.
pub fn cargo_manifest_version(content: &str) -> (r: BumperResult<Version>)
    ensures
        cargo_version_field(content@) is None ==> (r matches Err(BumperError::InvalidVersion(m))
            && m@ == MISSING_CARGO_VERSION@),
        cargo_version_field(content@) matches Some(f) ==> {
            &&& version_parts(f) is Some <==> r is Ok
            &&& r matches Ok(v) ==> version_parts(f) == Some((v.major, v.minor, v.patch))
            &&& r matches Err(e) ==> (e matches BumperError::InvalidVersion(m) && m@ == f)
        },
{
    match find_cargo_version(content) {
        Some(f) => version_from_field(Some(f.as_str())),
        None => version_from_field(None),
    }
}

/// The field that records a version in a Cargo manifest: `version = "x.y.z"`.
pub open spec fn cargo_version_line(v: Version) -> Seq<char> {
    VERSION_FIELD_OPEN@ + version_text(v) + QUOTE@
}

/// A Cargo manifest with its version field set to `new_version`.
pub fn cargo_manifest_updated(content: &str, new_version: &Version) -> (r: String)
    ensures
        r@ == cargo_version_rewritten(content@, cargo_version_line(*new_version)),
{
    let mut field = VERSION_FIELD_OPEN.to_owned();
    let v = new_version.to_string();
    field.append(v.as_str());
    field.append(QUOTE);
    replace_cargo_version(content, field.as_str())
}

pub const NODE_FIELD_OPEN: &'static str = "\"version\": \"";

/// The member that records a version in a package manifest:
/// `"version": "x.y.z"`.
pub open spec fn node_version_line(v: Version) -> Seq<char> {
    NODE_FIELD_OPEN@ + version_text(v) + QUOTE@
}

/// A package manifest with its version member set to `new_version`.
pub fn node_manifest_updated(content: &str, new_version: &Version) -> (r: String)
    ensures
        r@ == node_version_rewritten(content@, node_version_line(*new_version)),
{
    let mut field = NODE_FIELD_OPEN.to_owned();
    let v = new_version.to_string();
    field.append(v.as_str());
    field.append(QUOTE);
    replace_node_version(content, field.as_str())
}

/// The version that tags alone hold: the last tag's, or `0.0.0` before the
/// first release.
pub fn version_or_initial(tag_version: Option<Version>) -> (r: Version)
    ensures
        tag_version matches Some(v) ==> r == v,
        tag_version is None ==> r == (Version { major: 0, minor: 0, patch: 0 }),
{
    match tag_version {
        Some(v) => v,
        None => Version { major: 0, minor: 0, patch: 0 },
    }
}

} // verus!
