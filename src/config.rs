use vstd::prelude::*;
use vstd::string::*;

verus! {

/// Settings of a release run.
#[derive(Debug, Clone)]
pub struct Config {
    /// Manifest files whose version field is rewritten.
    pub package_files: Vec<String>,
    /// Subject prefix of the release commit (`<prefix> to <version>`).
    pub commit_prefix: String,
    /// Prefix of release tag names.
    pub tag_prefix: String,
    pub push: bool,
    pub tag: bool,
    /// Ecosystem whose manifest holds the version: `git`, `node` or `rust`.
    pub preset: String,
    pub release_notes: bool,
    /// Severity table: a commit type token and one of `none`, `patch`, `minor`.
    pub types: Vec<(String, String)>,
    /// Print only the next version and change nothing.
    pub raw: bool,
    pub update_major_tag: bool,
    pub update_minor_tag: bool,
    pub changelog: bool,
}

/// A table of pairs of strings, as pairs of character sequences.
pub open spec fn table_view(t: Seq<(String, String)>) -> Seq<(Seq<char>, Seq<char>)> {
    t.map_values(|e: (String, String)| (e.0@, e.1@))
}

/// The severity table used when none is configured.
pub open spec fn default_table() -> Seq<(Seq<char>, Seq<char>)> {
    seq![
        (seq!['f', 'e', 'a', 't'], seq!['m', 'i', 'n', 'o', 'r']),
        (seq!['f', 'i', 'x'], seq!['p', 'a', 't', 'c', 'h']),
        (seq!['b', 'u', 'i', 'l', 'd'], seq!['n', 'o', 'n', 'e']),
        (seq!['c', 'h', 'o', 'r', 'e'], seq!['n', 'o', 'n', 'e']),
        (seq!['c', 'i'], seq!['n', 'o', 'n', 'e']),
        (seq!['d', 'o', 'c', 's'], seq!['n', 'o', 'n', 'e']),
        (seq!['s', 't', 'y', 'l', 'e'], seq!['n', 'o', 'n', 'e']),
        (seq!['r', 'e', 'f', 'a', 'c', 't', 'o', 'r'], seq!['n', 'o', 'n', 'e']),
        (seq!['p', 'e', 'r', 'f'], seq!['n', 'o', 'n', 'e']),
        (seq!['t', 'e', 's', 't'], seq!['n', 'o', 'n', 'e'])
    ]
}

/// What a configuration holds before any file or option changes it.
pub open spec fn is_default_config(c: Config) -> bool {
    &&& c.package_files@.len() == 0
    &&& c.commit_prefix@ == seq!['c', 'h', 'o', 'r', 'e', ':', ' ', 'b', 'u', 'm', 'p', ' ', 'v', 'e', 'r', 's', 'i', 'o', 'n']
    &&& c.tag_prefix@ == seq!['v']
    &&& c.preset@ == seq!['g', 'i', 't']
    &&& table_view(c.types@) == default_table()
    &&& !c.push && !c.tag && !c.release_notes && !c.raw
    &&& !c.update_major_tag && !c.update_minor_tag && !c.changelog
}

pub fn default_package_files() -> (r: Vec<String>)
    ensures
        r@.len() == 0,
{
    Vec::new()
}

pub fn default_commit_prefix() -> (r: String)
    ensures
        r@ == seq!['c', 'h', 'o', 'r', 'e', ':', ' ', 'b', 'u', 'm', 'p', ' ', 'v', 'e', 'r', 's', 'i', 'o', 'n'],
{
    proof {
        reveal_strlit("chore: bump version");
    }
    "chore: bump version".to_owned()
}

pub fn default_tag_prefix() -> (r: String)
    ensures
        r@ == seq!['v'],
{
    proof {
        reveal_strlit("v");
    }
    "v".to_owned()
}

pub fn default_preset() -> (r: String)
    ensures
        r@ == seq!['g', 'i', 't'],
{
    proof {
        reveal_strlit("git");
    }
    "git".to_owned()
}

pub fn default_types() -> (r: Vec<(String, String)>)
    ensures
        table_view(r@) == default_table(),
{
    proof {
        reveal_strlit("build");
        reveal_strlit("chore");
        reveal_strlit("ci");
        reveal_strlit("docs");
        reveal_strlit("feat");
        reveal_strlit("fix");
        reveal_strlit("minor");
        reveal_strlit("none");
        reveal_strlit("patch");
        reveal_strlit("perf");
        reveal_strlit("refactor");
        reveal_strlit("style");
        reveal_strlit("test");
    }
    let mut types: Vec<(String, String)> = Vec::new();
    types.push(("feat".to_owned(), "minor".to_owned()));
    types.push(("fix".to_owned(), "patch".to_owned()));
    types.push(("build".to_owned(), "none".to_owned()));
    types.push(("chore".to_owned(), "none".to_owned()));
    types.push(("ci".to_owned(), "none".to_owned()));
    types.push(("docs".to_owned(), "none".to_owned()));
    types.push(("style".to_owned(), "none".to_owned()));
    types.push(("refactor".to_owned(), "none".to_owned()));
    types.push(("perf".to_owned(), "none".to_owned()));
    types.push(("test".to_owned(), "none".to_owned()));
    proof {
        assert(types@[0].0@ =~= seq!['f', 'e', 'a', 't'] && types@[0].1@ =~= seq!['m', 'i', 'n', 'o', 'r']);
        assert(types@[1].0@ =~= seq!['f', 'i', 'x'] && types@[1].1@ =~= seq!['p', 'a', 't', 'c', 'h']);
        assert(types@[2].0@ =~= seq!['b', 'u', 'i', 'l', 'd'] && types@[2].1@ =~= seq!['n', 'o', 'n', 'e']);
        assert(types@[3].0@ =~= seq!['c', 'h', 'o', 'r', 'e'] && types@[3].1@ =~= seq!['n', 'o', 'n', 'e']);
        assert(types@[4].0@ =~= seq!['c', 'i'] && types@[4].1@ =~= seq!['n', 'o', 'n', 'e']);
        assert(types@[5].0@ =~= seq!['d', 'o', 'c', 's'] && types@[5].1@ =~= seq!['n', 'o', 'n', 'e']);
        assert(types@[6].0@ =~= seq!['s', 't', 'y', 'l', 'e'] && types@[6].1@ =~= seq!['n', 'o', 'n', 'e']);
        assert(types@[7].0@ =~= seq!['r', 'e', 'f', 'a', 'c', 't', 'o', 'r'] && types@[7].1@ =~= seq!['n', 'o', 'n', 'e']);
        assert(types@[8].0@ =~= seq!['p', 'e', 'r', 'f'] && types@[8].1@ =~= seq!['n', 'o', 'n', 'e']);
        assert(types@[9].0@ =~= seq!['t', 'e', 's', 't'] && types@[9].1@ =~= seq!['n', 'o', 'n', 'e']);
        assert(table_view(types@) =~= default_table());
    }
    types
}

impl Default for Config {
    fn default() -> (r: Config)
        ensures
            is_default_config(r),
    {
        Config {
            package_files: default_package_files(),
            commit_prefix: default_commit_prefix(),
            tag_prefix: default_tag_prefix(),
            push: false,
            tag: false,
            preset: default_preset(),
            release_notes: false,
            types: default_types(),
            raw: false,
            update_major_tag: false,
            update_minor_tag: false,
            changelog: false,
        }
    }
}

impl Config {
    /// The configuration to run with: the one read from the settings file
    /// when it could be read and parsed, the defaults otherwise.
    pub fn load(from_file: Option<Config>) -> (r: Config)
        ensures
            from_file matches Some(c) ==> r == c,
            from_file is None ==> is_default_config(r),
    {
        match from_file {
            Some(c) => c,
            None => Config::default(),
        }
    }
}

} // verus!
