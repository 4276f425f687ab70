use vstd::prelude::*;
use vstd::string::*;
use crate::analyser::BumpType;
use crate::decimal::{digits_of, lemma_digits_of, parse_u32, push_decimal, u32_literal};
use crate::error::{BumperError, BumperResult};
use crate::text::{find_char, find_from};

verus! {

/// A semantic version `major.minor.patch`.
#[derive(Debug, Clone, PartialEq, Eq, PartialOrd, Ord, Structural)]
pub struct Version {
    pub major: u32,
    pub minor: u32,
    pub patch: u32,
}

/// The three components of a version string, when it has exactly three
/// `.`-separated parts and each is a `u32` literal.
pub open spec fn version_parts(s: Seq<char>) -> Option<(u32, u32, u32)> {
    let d1 = find_char(s, '.', 0);
    let d2 = find_char(s, '.', d1 + 1);
    let d3 = find_char(s, '.', d2 + 1);
    if d1 >= s.len() || d2 >= s.len() || d3 < s.len() {
        None
    } else {
        match (
            u32_literal(s.subrange(0, d1)),
            u32_literal(s.subrange(d1 + 1, d2)),
            u32_literal(s.subrange(d2 + 1, s.len() as int)),
        ) {
            (Some(a), Some(b), Some(c)) => Some((a, b, c)),
            _ => None,
        }
    }
}

/// The textual form `major.minor.patch`.
pub open spec fn version_text(v: Version) -> Seq<char> {
    digits_of(v.major as nat) + seq!['.'] + digits_of(v.minor as nat) + seq!['.'] + digits_of(
        v.patch as nat,
    )
}

/// `bump` cannot overflow on these inputs.
pub open spec fn can_bump(v: Version, b: BumpType) -> bool {
    match b {
        BumpType::Major => v.major < u32::MAX,
        BumpType::Minor => v.minor < u32::MAX,
        BumpType::Patch => v.patch < u32::MAX,
        BumpType::NoBump => true,
    }
}

pub open spec fn bumped(v: Version, b: BumpType) -> Version
    recommends
        can_bump(v, b),
{
    match b {
        BumpType::Major => Version { major: (v.major + 1) as u32, minor: 0, patch: 0 },
        BumpType::Minor => Version { major: v.major, minor: (v.minor + 1) as u32, patch: 0 },
        BumpType::Patch => Version {
            major: v.major,
            minor: v.minor,
            patch: (v.patch + 1) as u32,
        },
        BumpType::NoBump => v,
    }
}

/// Lexicographic order on (major, minor, patch).
pub open spec fn version_lt(a: Version, b: Version) -> bool {
    a.major < b.major || (a.major == b.major && (a.minor < b.minor || (a.minor == b.minor
        && a.patch < b.patch)))
}

impl Version {
    pub fn new(major: u32, minor: u32, patch: u32) -> (r: Version)
        ensures
            r == (Version { major, minor, patch }),
    {
        Version { major, minor, patch }
    }

    /// Parses `major.minor.patch`.
    pub fn parse(version_str: &str) -> (r: BumperResult<Version>)
        ensures
            version_parts(version_str@) is Some <==> r is Ok,
            r matches Ok(v) ==> version_parts(version_str@) == Some((v.major, v.minor, v.patch)),
            r matches Err(e) ==> (e matches BumperError::InvalidVersion(m) && m@ == version_str@),
    {
        let s = version_str;
        let len = s.unicode_len();
        let d1 = find_from(s, '.', 0);
        if d1 >= len {
            return Err(BumperError::InvalidVersion(s.to_owned()));
        }
        let d2 = find_from(s, '.', d1 + 1);
        if d2 >= len {
            return Err(BumperError::InvalidVersion(s.to_owned()));
        }
        let d3 = find_from(s, '.', d2 + 1);
        if d3 < len {
            return Err(BumperError::InvalidVersion(s.to_owned()));
        }
        let major = parse_u32(s.substring_char(0, d1));
        let minor = parse_u32(s.substring_char(d1 + 1, d2));
        let patch = parse_u32(s.substring_char(d2 + 1, len));
        match (major, minor, patch) {
            (Some(major), Some(minor), Some(patch)) => Ok(Version { major, minor, patch }),
            _ => Err(BumperError::InvalidVersion(s.to_owned())),
        }
    }

    /// The version after a release of the given kind.
    pub fn bump(&self, bump_type: BumpType) -> (r: Version)
        requires
            can_bump(*self, bump_type),
        ensures
            r == bumped(*self, bump_type),
    {
        match bump_type {
            BumpType::Major => Version { major: self.major + 1, minor: 0, patch: 0 },
            BumpType::Minor => Version { major: self.major, minor: self.minor + 1, patch: 0 },
            BumpType::Patch => Version {
                major: self.major,
                minor: self.minor,
                patch: self.patch + 1,
            },
            BumpType::NoBump => Version { major: self.major, minor: self.minor, patch: self.patch },
        }
    }

    /// The textual form, `major.minor.patch`.
    pub fn to_string(&self) -> (r: String)
        ensures
            r@ == version_text(*self),
    {
        let mut out = String::new();
        push_decimal(&mut out, self.major);
        out.append(".");
        push_decimal(&mut out, self.minor);
        out.append(".");
        push_decimal(&mut out, self.patch);
        proof {
            reveal_strlit(".");
        }
        assert(out@ =~= version_text(*self));
        out
    }

    /// Whether `self` comes strictly before `other`.
    pub fn lt(&self, other: &Version) -> (r: bool)
        ensures
            r == version_lt(*self, *other),
    {
        self.major < other.major || (self.major == other.major && (self.minor < other.minor || (
        self.minor == other.minor && self.patch < other.patch)))
    }
}

proof fn lemma_find_char_skip(s: Seq<char>, i: int, j: int)
    requires
        0 <= i <= j <= s.len(),
        forall|k: int| i <= k < j ==> s[k] != '.',
        j == s.len() || s[j] == '.',
    ensures
        find_char(s, '.', i) == j,
    decreases j - i,
{
    if i < j {
        lemma_find_char_skip(s, i + 1, j);
    }
}

proof fn lemma_literal_of_digits(n: u32)
    ensures
        u32_literal(digits_of(n as nat)) == Some(n),
{
    lemma_digits_of(n as nat);
}

/// Parsing the textual form of any version gives that version back.
pub proof fn lemma_parse_round_trip(v: Version)
    ensures
        version_parts(version_text(v)) == Some((v.major, v.minor, v.patch)),
{
    let a = digits_of(v.major as nat);
    let b = digits_of(v.minor as nat);
    let c = digits_of(v.patch as nat);
    lemma_digits_of(v.major as nat);
    lemma_digits_of(v.minor as nat);
    lemma_digits_of(v.patch as nat);
    lemma_literal_of_digits(v.major);
    lemma_literal_of_digits(v.minor);
    lemma_literal_of_digits(v.patch);
    let s = version_text(v);
    let d1 = a.len() as int;
    let d2 = d1 + 1 + b.len();
    assert(s[d1] == '.');
    assert(s[d2] == '.');
    assert forall|k: int| 0 <= k < d1 implies s[k] != '.' by {
        assert(s[k] == a[k]);
    }
    assert forall|k: int| d1 + 1 <= k < d2 implies s[k] != '.' by {
        assert(s[k] == b[k - d1 - 1]);
    }
    assert forall|k: int| d2 + 1 <= k < s.len() implies s[k] != '.' by {
        assert(s[k] == c[k - d2 - 1]);
    }
    lemma_find_char_skip(s, 0, d1);
    lemma_find_char_skip(s, d1 + 1, d2);
    lemma_find_char_skip(s, d2 + 1, s.len() as int);
    assert(s.subrange(0, d1) =~= a);
    assert(s.subrange(d1 + 1, d2) =~= b);
    assert(s.subrange(d2 + 1, s.len() as int) =~= c);
}

} // verus!
