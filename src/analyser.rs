use vstd::prelude::*;
use vstd::string::*;
use crate::commit::{classify_commit, conventional};
use crate::config::Config;
use crate::text::{same_text, starts_with};

verus! {

/// How far a release moves the version, ordered `NoBump < Patch < Minor < Major`.
#[derive(Debug, Clone, Copy, PartialEq, Eq, Structural)]
pub enum BumpType {
    NoBump,
    Patch,
    Minor,
    Major,
}

pub open spec fn rank(b: BumpType) -> nat {
    match b {
        BumpType::NoBump => 0,
        BumpType::Patch => 1,
        BumpType::Minor => 2,
        BumpType::Major => 3,
    }
}

pub open spec fn max_bump(a: BumpType, b: BumpType) -> BumpType {
    if rank(a) >= rank(b) {
        a
    } else {
        b
    }
}

/// Subject prefix of the commits that record a version bump by this tool.
pub open spec fn bump_marker() -> Seq<char> {
    seq!['c', 'h', 'o', 'r', 'e', ':', ' ', 'b', 'u', 'm', 'p', ' ', 'v', 'e', 'r', 's', 'i', 'o', 'n']
}

/// Subject prefix of the commits that record a manifest sync by this tool.
pub open spec fn sync_marker() -> Seq<char> {
    seq!['c', 'h', 'o', 'r', 'e', ':', ' ', 's', 'y', 'n', 'c', ' ', 'p', 'a', 'c', 'k', 'a', 'g', 'e']
}

pub open spec fn has_prefix(s: Seq<char>, p: Seq<char>) -> bool {
    p.len() <= s.len() && s.subrange(0, p.len() as int) == p
}

/// A commit that this tool made itself; it never counts toward a release.
pub open spec fn is_self_commit(line: Seq<char>) -> bool {
    has_prefix(line, bump_marker()) || has_prefix(line, sync_marker())
}

/// The setting of the first entry of `table` whose type token is `key`.
pub open spec fn lookup(table: Seq<(String, String)>, key: Seq<char>) -> Option<Seq<char>>
    decreases table.len(),
{
    if table.len() == 0 {
        None
    } else if table[0].0@ == key {
        Some(table[0].1@)
    } else {
        lookup(table.drop_first(), key)
    }
}

pub open spec fn minor_setting() -> Seq<char> {
    seq!['m', 'i', 'n', 'o', 'r']
}

pub open spec fn patch_setting() -> Seq<char> {
    seq!['p', 'a', 't', 'c', 'h']
}

/// The severity that a table setting names: `minor` and `patch`; any other
/// setting names none.
pub open spec fn setting_severity(v: Seq<char>) -> BumpType {
    if v == minor_setting() {
        BumpType::Minor
    } else if v == patch_setting() {
        BumpType::Patch
    } else {
        BumpType::NoBump
    }
}

/// The severity of one commit line: `Major` when it is marked breaking,
/// else what the table gives its type, else none.
pub open spec fn commit_severity(line: Seq<char>, table: Seq<(String, String)>) -> BumpType {
    match conventional(line) {
        None => BumpType::NoBump,
        Some((t, breaking, _)) => if breaking {
            BumpType::Major
        } else {
            match lookup(table, t) {
                Some(v) => setting_severity(v),
                None => BumpType::NoBump,
            }
        },
    }
}

/// A conventional, non-breaking commit whose type the table does not list.
pub open spec fn is_unknown(line: Seq<char>, table: Seq<(String, String)>) -> bool {
    match conventional(line) {
        None => false,
        Some((t, breaking, _)) => !breaking && lookup(table, t) is None,
    }
}

pub open spec fn lines_of(v: Seq<String>) -> Seq<Seq<char>> {
    v.map_values(|s: String| s@)
}

/// The commits that take part in a release decision, in their order.
pub open spec fn kept_commits(lines: Seq<Seq<char>>) -> Seq<Seq<char>> {
    lines.filter(|l: Seq<char>| !is_self_commit(l))
}

/// The greatest severity among `lines`; none for no lines.
pub open spec fn max_severity(lines: Seq<Seq<char>>, table: Seq<(String, String)>) -> BumpType
    decreases lines.len(),
{
    if lines.len() == 0 {
        BumpType::NoBump
    } else {
        max_bump(max_severity(lines.drop_last(), table), commit_severity(lines.last(), table))
    }
}

/// The release decision for a list of commit lines.
pub open spec fn aggregate(lines: Seq<Seq<char>>, table: Seq<(String, String)>) -> BumpType {
    max_severity(kept_commits(lines), table)
}

/// The lines of severity `b`, in their order.
pub open spec fn of_severity(lines: Seq<Seq<char>>, table: Seq<(String, String)>, b: BumpType) -> Seq<
    Seq<char>,
> {
    lines.filter(|l: Seq<char>| commit_severity(l, table) == b)
}

/// The lines whose type token the table does not list, in their order.
pub open spec fn of_unknown_type(lines: Seq<Seq<char>>, table: Seq<(String, String)>) -> Seq<
    Seq<char>,
> {
    lines.filter(|l: Seq<char>| is_unknown(l, table))
}

/// The kept commits whose severity equals the decision; none when there is
/// no release.
pub open spec fn triggering(lines: Seq<Seq<char>>, table: Seq<(String, String)>) -> Seq<Seq<char>> {
    let agg = aggregate(lines, table);
    if agg == BumpType::NoBump {
        Seq::empty()
    } else {
        of_severity(kept_commits(lines), table, agg)
    }
}

/// The kept commits whose type token the table does not list.
pub open spec fn unknown(lines: Seq<Seq<char>>, table: Seq<(String, String)>) -> Seq<Seq<char>> {
    of_unknown_type(kept_commits(lines), table)
}

/// Outcome of reading a list of commits.
#[derive(Debug, Clone)]
pub struct CommitAnalysis {
    /// The project-wide decision.
    pub bump: BumpType,
    /// The commits that reached the decision, in their order.
    pub triggering_commits: Vec<String>,
    /// The conventional commits whose type is not configured, in their order.
    pub unknown_commits: Vec<String>,
}

impl BumpType {
    /// Lowercase name of the decision.
    pub fn as_str(&self) -> (r: &'static str)
        ensures
            *self == BumpType::NoBump ==> r@ == seq!['n', 'o', 'n', 'e'],
            *self == BumpType::Patch ==> r@ == patch_setting(),
            *self == BumpType::Minor ==> r@ == minor_setting(),
            *self == BumpType::Major ==> r@ == seq!['m', 'a', 'j', 'o', 'r'],
    {
        proof {
            reveal_strlit("none");
            reveal_strlit("patch");
            reveal_strlit("minor");
            reveal_strlit("major");
        }
        match self {
            BumpType::NoBump => "none",
            BumpType::Patch => "patch",
            BumpType::Minor => "minor",
            BumpType::Major => "major",
        }
    }

    /// Whether this decision is at least as large as `other`.
    pub fn at_least(&self, other: BumpType) -> (r: bool)
        ensures
            r == (rank(*self) >= rank(other)),
    {
        let a: u8 = match self {
            BumpType::NoBump => 0,
            BumpType::Patch => 1,
            BumpType::Minor => 2,
            BumpType::Major => 3,
        };
        let b: u8 = match other {
            BumpType::NoBump => 0,
            BumpType::Patch => 1,
            BumpType::Minor => 2,
            BumpType::Major => 3,
        };
        a >= b
    }
}

/// Whether this tool made the commit itself (a version bump or a sync).
pub fn is_self_commit_line(line: &str) -> (r: bool)
    ensures
        r == is_self_commit(line@),
{
    proof {
        reveal_strlit("chore: bump version");
        reveal_strlit("chore: sync package");
    }
    assert("chore: bump version"@ =~= bump_marker());
    assert("chore: sync package"@ =~= sync_marker());
    starts_with(line, "chore: bump version") || starts_with(line, "chore: sync package")
}

/// The setting that the table gives a type token.
pub fn lookup_type<'a>(table: &'a Vec<(String, String)>, key: &str) -> (r: Option<&'a String>)
    ensures
        r matches Some(v) ==> lookup(table@, key@) == Some(v@),
        r is None ==> lookup(table@, key@) is None,
{
    let mut i: usize = 0;
    assert(table@.subrange(0, table@.len() as int) =~= table@);
    while i < table.len()
        invariant
            i <= table@.len(),
            lookup(table@, key@) == lookup(table@.subrange(i as int, table@.len() as int), key@),
        decreases table.len() - i,
    {
        let ghost rest = table@.subrange(i as int, table@.len() as int);
        assert(rest.drop_first() =~= table@.subrange(i + 1, table@.len() as int));
        if same_text(table[i].0.as_str(), key) {
            return Some(&table[i].1);
        }
        i = i + 1;
    }
    None
}

/// The severity that a table setting names.
pub fn severity_of_setting(v: &str) -> (r: BumpType)
    ensures
        r == setting_severity(v@),
{
    proof {
        reveal_strlit("minor");
        reveal_strlit("patch");
    }
    assert("minor"@ =~= minor_setting());
    assert("patch"@ =~= patch_setting());
    if same_text(v, "minor") {
        BumpType::Minor
    } else if same_text(v, "patch") {
        BumpType::Patch
    } else {
        BumpType::NoBump
    }
}

/// The severity of one commit line and whether its type is unknown.
pub fn assess_commit(line: &str, table: &Vec<(String, String)>) -> (r: (BumpType, bool))
    ensures
        r.0 == commit_severity(line@, table@),
        r.1 == is_unknown(line@, table@),
{
    let c = classify_commit(line);
    if !c.valid {
        return (BumpType::NoBump, false);
    }
    if c.breaking {
        return (BumpType::Major, false);
    }
    match lookup_type(table, c.commit_type.as_str()) {
        Some(v) => (severity_of_setting(v.as_str()), false),
        None => (BumpType::NoBump, true),
    }
}

proof fn lemma_kept_push(s: Seq<Seq<char>>, x: Seq<char>)
    ensures
        kept_commits(s.push(x)) == if is_self_commit(x) {
            kept_commits(s)
        } else {
            kept_commits(s).push(x)
        },
{
    reveal(Seq::filter);
    assert(s.push(x).drop_last() =~= s);
}

proof fn lemma_of_severity_push(
    s: Seq<Seq<char>>,
    x: Seq<char>,
    table: Seq<(String, String)>,
    b: BumpType,
)
    ensures
        of_severity(s.push(x), table, b) == if commit_severity(x, table) == b {
            of_severity(s, table, b).push(x)
        } else {
            of_severity(s, table, b)
        },
{
    reveal(Seq::filter);
    assert(s.push(x).drop_last() =~= s);
}

proof fn lemma_of_unknown_type_push(s: Seq<Seq<char>>, x: Seq<char>, table: Seq<(String, String)>)
    ensures
        of_unknown_type(s.push(x), table) == if is_unknown(x, table) {
            of_unknown_type(s, table).push(x)
        } else {
            of_unknown_type(s, table)
        },
{
    reveal(Seq::filter);
    assert(s.push(x).drop_last() =~= s);
}

proof fn lemma_max_severity(s: Seq<Seq<char>>, table: Seq<(String, String)>)
    ensures
        forall|i: int|
            0 <= i < s.len() ==> rank(#[trigger] commit_severity(s[i], table)) <= rank(
                max_severity(s, table),
            ),
        s.len() > 0 ==> exists|i: int|
            0 <= i < s.len() && #[trigger] commit_severity(s[i], table) == max_severity(s, table),
        s.len() == 0 ==> max_severity(s, table) == BumpType::NoBump,
    decreases s.len(),
{
    if s.len() > 0 {
        let init = s.drop_last();
        lemma_max_severity(init, table);
        assert forall|i: int| 0 <= i < s.len() implies rank(
            #[trigger] commit_severity(s[i], table),
        ) <= rank(max_severity(s, table)) by {
            if i < s.len() - 1 {
                assert(s[i] == init[i]);
            }
        }
        if rank(max_severity(init, table)) >= rank(commit_severity(s.last(), table)) && init.len()
            > 0 {
            let i = choose|i: int|
                0 <= i < init.len() && #[trigger] commit_severity(init[i], table) == max_severity(
                    init,
                    table,
                );
            assert(s[i] == init[i]);
        } else {
            assert(commit_severity(s[s.len() - 1], table) == max_severity(s, table));
        }
    }
}

/// The decision is the greatest severity among the kept commits: no kept
/// commit is above it, one of them reaches it when any is kept, and it is
/// `NoBump` when none is.
pub proof fn lemma_aggregate_is_max(lines: Seq<Seq<char>>, table: Seq<(String, String)>)
    ensures
        forall|i: int|
            0 <= i < kept_commits(lines).len() ==> rank(
                #[trigger] commit_severity(kept_commits(lines)[i], table),
            ) <= rank(aggregate(lines, table)),
        kept_commits(lines).len() > 0 ==> exists|i: int|
            0 <= i < kept_commits(lines).len() && #[trigger] commit_severity(
                kept_commits(lines)[i],
                table,
            ) == aggregate(lines, table),
        kept_commits(lines).len() == 0 ==> aggregate(lines, table) == BumpType::NoBump,
{
    lemma_max_severity(kept_commits(lines), table);
}

/// Adding a commit whose severity does not exceed the current decision
/// leaves the decision unchanged.
pub proof fn lemma_aggregate_absorbs(
    lines: Seq<Seq<char>>,
    c: Seq<char>,
    table: Seq<(String, String)>,
)
    requires
        rank(commit_severity(c, table)) <= rank(aggregate(lines, table)),
    ensures
        aggregate(lines.push(c), table) == aggregate(lines, table),
{
    lemma_kept_push(lines, c);
    let k = kept_commits(lines);
    if !is_self_commit(c) {
        assert(k.push(c).drop_last() =~= k);
    }
}

/// A commit marked breaking is a major change, whatever its type.
pub proof fn lemma_breaking_is_major(line: Seq<char>, table: Seq<(String, String)>)
    requires
        conventional(line) matches Some((_, breaking, _)) && breaking,
    ensures
        commit_severity(line, table) == BumpType::Major,
        !is_unknown(line, table),
{
}

proof fn lemma_all_self_kept_empty(lines: Seq<Seq<char>>)
    requires
        forall|i: int| 0 <= i < lines.len() ==> is_self_commit(#[trigger] lines[i]),
    ensures
        kept_commits(lines).len() == 0,
    decreases lines.len(),
{
    if lines.len() > 0 {
        let init = lines.drop_last();
        assert forall|i: int| 0 <= i < init.len() implies is_self_commit(#[trigger] init[i]) by {
            assert(init[i] == lines[i]);
        }
        lemma_all_self_kept_empty(init);
        assert(init.push(lines.last()) =~= lines);
        lemma_kept_push(init, lines.last());
    }
}

/// A list made only of this tool's own commits asks for no release and has
/// no triggering and no unknown commits.
pub proof fn lemma_self_commits_release_nothing(
    lines: Seq<Seq<char>>,
    table: Seq<(String, String)>,
)
    requires
        forall|i: int| 0 <= i < lines.len() ==> is_self_commit(#[trigger] lines[i]),
    ensures
        aggregate(lines, table) == BumpType::NoBump,
        triggering(lines, table).len() == 0,
        unknown(lines, table).len() == 0,
{
    lemma_all_self_kept_empty(lines);
    let k = kept_commits(lines);
    assert(k =~= Seq::<Seq<char>>::empty());
    reveal(Seq::filter);
}

/// The unknown commits are exactly the kept conventional, non-breaking
/// commits whose type the table does not list; each counts as no change.
/// A line that is not conventional is never among them.
pub proof fn lemma_unknown_commits(lines: Seq<Seq<char>>, table: Seq<(String, String)>)
    ensures
        forall|i: int|
            0 <= i < unknown(lines, table).len() ==> {
                let l = #[trigger] unknown(lines, table)[i];
                &&& is_unknown(l, table)
                &&& conventional(l) is Some
                &&& commit_severity(l, table) == BumpType::NoBump
            },
        forall|l: Seq<char>| #[trigger]
            kept_commits(lines).contains(l) && is_unknown(l, table) ==> unknown(
                lines,
                table,
            ).contains(l),
        forall|l: Seq<char>|
            conventional(l) is None ==> !(#[trigger] unknown(lines, table).contains(l)),
{
    broadcast use vstd::seq_lib::group_filter_ensures;

    let k = kept_commits(lines);
    let u = unknown(lines, table);
    assert forall|i: int| 0 <= i < u.len() implies is_unknown(#[trigger] u[i], table) by {
        k.lemma_filter_pred(|l: Seq<char>| is_unknown(l, table), i);
    }
    assert forall|l: Seq<char>| #[trigger] k.contains(l) && is_unknown(l, table) implies u.contains(
        l,
    ) by {
        let i = choose|i: int| 0 <= i < k.len() && k[i] == l;
        k.lemma_filter_contains(|l: Seq<char>| is_unknown(l, table), i);
    }
    assert forall|l: Seq<char>| conventional(l) is None implies !(#[trigger] u.contains(l)) by {
        if u.contains(l) {
            let i = choose|i: int| 0 <= i < u.len() && u[i] == l;
            assert(is_unknown(u[i], table));
        }
    }
}

/// Decides the release for a list of commit subject lines.
pub fn analyse_commits(commits: &Vec<String>, config: &Config) -> (r: CommitAnalysis)
    ensures
        r.bump == aggregate(lines_of(commits@), config.types@),
        lines_of(r.triggering_commits@) == triggering(lines_of(commits@), config.types@),
        lines_of(r.unknown_commits@) == unknown(lines_of(commits@), config.types@),
{
    let ghost table = config.types@;
    let ghost lines = lines_of(commits@);
    let mut kept: Vec<String> = Vec::new();
    let mut severities: Vec<BumpType> = Vec::new();
    let mut unknown_commits: Vec<String> = Vec::new();
    let mut bump = BumpType::NoBump;
    let mut i: usize = 0;
    while i < commits.len()
        invariant
            i <= commits@.len(),
            table == config.types@,
            lines == lines_of(commits@),
            lines_of(kept@) == kept_commits(lines.subrange(0, i as int)),
            severities@.len() == kept@.len(),
            forall|j: int|
                0 <= j < kept@.len() ==> severities@[j] == commit_severity(
                    #[trigger] kept@[j]@,
                    table,
                ),
            bump == max_severity(lines_of(kept@), table),
            lines_of(unknown_commits@) == of_unknown_type(lines_of(kept@), table),
        decreases commits.len() - i,
    {
        let line = &commits[i];
        let ghost before = lines_of(kept@);
        proof {
            assert(lines.subrange(0, i + 1) =~= lines.subrange(0, i as int).push(line@));
            lemma_kept_push(lines.subrange(0, i as int), line@);
        }
        if !is_self_commit_line(line.as_str()) {
            let (sev, is_unk) = assess_commit(line.as_str(), &config.types);
            kept.push(line.clone());
            severities.push(sev);
            proof {
                assert(lines_of(kept@) =~= before.push(line@));
                assert(lines_of(kept@).drop_last() =~= before);
                lemma_of_unknown_type_push(before, line@, table);
            }
            if is_unk {
                unknown_commits.push(line.clone());
                assert(lines_of(unknown_commits@) =~= of_unknown_type(before, table).push(line@));
            } else {
                assert(lines_of(unknown_commits@) =~= of_unknown_type(before, table));
            }
            if !bump.at_least(sev) {
                bump = sev;
            }
        }
        i = i + 1;
    }
    assert(lines.subrange(0, commits@.len() as int) =~= lines);
    let ghost kl = lines_of(kept@);
    let mut triggering_commits: Vec<String> = Vec::new();
    if bump != BumpType::NoBump {
        let mut j: usize = 0;
        while j < kept.len()
            invariant
                j <= kept@.len(),
                kl == lines_of(kept@),
                severities@.len() == kept@.len(),
                forall|k: int|
                    0 <= k < kept@.len() ==> severities@[k] == commit_severity(
                        #[trigger] kept@[k]@,
                        table,
                    ),
                lines_of(triggering_commits@) == of_severity(kl.subrange(0, j as int), table, bump),
            decreases kept.len() - j,
        {
            proof {
                assert(kl.subrange(0, j + 1) =~= kl.subrange(0, j as int).push(kept@[j as int]@));
                lemma_of_severity_push(kl.subrange(0, j as int), kept@[j as int]@, table, bump);
            }
            if severities[j] == bump {
                triggering_commits.push(kept[j].clone());
                assert(lines_of(triggering_commits@) =~= of_severity(kl.subrange(0, j as int), table, bump).push(
                    kept@[j as int]@,
                ));
            }
            j = j + 1;
        }
        assert(kl.subrange(0, kept@.len() as int) =~= kl);
    }
    CommitAnalysis { bump, triggering_commits, unknown_commits }
}

} // verus!
