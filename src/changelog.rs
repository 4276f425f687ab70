use vstd::prelude::*;
use vstd::string::*;
use crate::analyser::{
    commit_severity, is_self_commit, is_self_commit_line, is_unknown, kept_commits,
    lemma_breaking_is_major, lines_of, BumpType,
};
use crate::commit::{classify_commit, conventional};
use crate::layout::{clean_changes, clean_text, lemma_release_document, one_line, well_formed_document};
use crate::text::same_text;
use crate::versioner::{version_text, Version};

verus! {

/// Title and attribution that open a new changelog.
pub const CHANGELOG_HEADER: &'static str = "# Changelog\n\nAll notable changes to this project will be documented in this file.\n\nThe format is based on [Keep a Changelog](https://keepachangelog.com/en/1.0.0/),\nand this project adheres to [Semantic Versioning](https://semver.org/spec/v2.0.0.html).\n\n";

/// Marker put before the description of a breaking change.
pub const BREAKING_MARKER: &'static str = "**BREAKING:** ";

/// What starts a release heading inside a document.
pub const RELEASE_HEADING_START: &'static str = "\n## [";

pub const ADDED_HEADING: &'static str = "### Added";

pub const CHANGED_HEADING: &'static str = "### Changed";

pub const DEPRECATED_HEADING: &'static str = "### Deprecated";

pub const REMOVED_HEADING: &'static str = "### Removed";

pub const FIXED_HEADING: &'static str = "### Fixed";

pub const SECURITY_HEADING: &'static str = "### Security";

pub const HEADING_OPEN: &'static str = "## [";

pub const HEADING_DATE: &'static str = "] - ";

pub const BLANK: &'static str = "\n\n";

pub const NEWLINE: &'static str = "\n";

pub const BULLET: &'static str = "- ";

/// Keep-a-Changelog category of a change, in the order in which they are
/// rendered.
#[derive(Debug, Clone, Copy, PartialEq, Eq, PartialOrd, Ord, Structural)]
pub enum ChangeCategory {
    Added,
    Changed,
    Deprecated,
    Removed,
    Fixed,
    Security,
}

/// One line of a release section.
#[derive(Debug, Clone)]
pub struct Change {
    pub category: ChangeCategory,
    pub description: String,
}

pub open spec fn category_at(k: int) -> ChangeCategory {
    if k <= 0 {
        ChangeCategory::Added
    } else if k == 1 {
        ChangeCategory::Changed
    } else if k == 2 {
        ChangeCategory::Deprecated
    } else if k == 3 {
        ChangeCategory::Removed
    } else if k == 4 {
        ChangeCategory::Fixed
    } else {
        ChangeCategory::Security
    }
}

pub open spec fn heading_of(c: ChangeCategory) -> Seq<char> {
    match c {
        ChangeCategory::Added => ADDED_HEADING@,
        ChangeCategory::Changed => CHANGED_HEADING@,
        ChangeCategory::Deprecated => DEPRECATED_HEADING@,
        ChangeCategory::Removed => REMOVED_HEADING@,
        ChangeCategory::Fixed => FIXED_HEADING@,
        ChangeCategory::Security => SECURITY_HEADING@,
    }
}

/// The category of a conventional type token: `feat` is Added, `fix` Fixed,
/// `revert` Removed, `security` Security, anything else Changed.
pub open spec fn category_of_type(t: Seq<char>) -> ChangeCategory {
    if t == seq!['f', 'e', 'a', 't'] {
        ChangeCategory::Added
    } else if t == seq!['f', 'i', 'x'] {
        ChangeCategory::Fixed
    } else if t == seq!['r', 'e', 'v', 'e', 'r', 't'] {
        ChangeCategory::Removed
    } else if t == seq!['s', 'e', 'c', 'u', 'r', 'i', 't', 'y'] {
        ChangeCategory::Security
    } else {
        ChangeCategory::Changed
    }
}

/// The category and description that a commit line contributes. A breaking
/// commit is always Changed and its description carries the breaking marker;
/// a line that is not conventional is Changed with the whole line.
pub open spec fn change_of(line: Seq<char>) -> (ChangeCategory, Seq<char>) {
    match conventional(line) {
        None => (ChangeCategory::Changed, line),
        Some((t, breaking, d)) => if breaking {
            (ChangeCategory::Changed, BREAKING_MARKER@ + d)
        } else {
            (category_of_type(t), d)
        },
    }
}

pub open spec fn changes_view(v: Seq<Change>) -> Seq<(ChangeCategory, Seq<char>)> {
    v.map_values(|c: Change| (c.category, c.description@))
}

/// The changes that a list of commit lines contributes, self commits left out.
pub open spec fn changes_of(lines: Seq<Seq<char>>) -> Seq<(ChangeCategory, Seq<char>)> {
    kept_commits(lines).map_values(|l: Seq<char>| change_of(l))
}

/// One `- description` line for each change of category `c`, in order.
pub open spec fn bullets(changes: Seq<(ChangeCategory, Seq<char>)>, c: ChangeCategory) -> Seq<char>
    decreases changes.len(),
{
    if changes.len() == 0 {
        Seq::empty()
    } else {
        let rest = bullets(changes.drop_last(), c);
        if changes.last().0 == c {
            rest + BULLET@ + changes.last().1 + NEWLINE@
        } else {
            rest
        }
    }
}

/// The category blocks from the `k`-th on: for each category with changes,
/// a blank line unless it is the first block, its heading, a blank line, and
/// its bullets.
pub open spec fn blocks_from(
    changes: Seq<(ChangeCategory, Seq<char>)>,
    k: int,
    started: bool,
) -> Seq<char>
    decreases 6 - k,
{
    if k >= 6 {
        Seq::empty()
    } else {
        let b = bullets(changes, category_at(k));
        if b.len() == 0 {
            blocks_from(changes, k + 1, started)
        } else {
            (if started {
                NEWLINE@
            } else {
                Seq::empty()
            }) + heading_of(category_at(k)) + BLANK@ + b + blocks_from(changes, k + 1, true)
        }
    }
}

/// The release section for a version, a date and its changes: the heading
/// and a blank line, then the category blocks and a blank line when there
/// are any.
pub open spec fn entry_text(
    version: Seq<char>,
    date: Seq<char>,
    changes: Seq<(ChangeCategory, Seq<char>)>,
) -> Seq<char> {
    let blocks = blocks_from(changes, 0, false);
    HEADING_OPEN@ + version + HEADING_DATE@ + date + BLANK@ + (if blocks.len() > 0 {
        blocks + NEWLINE@
    } else {
        Seq::empty()
    })
}

/// Whether a release heading starts at index `j` of `s`.
pub open spec fn heading_at(s: Seq<char>, j: int) -> bool {
    let p = RELEASE_HEADING_START@;
    0 <= j && j + p.len() <= s.len() && s.subrange(j, j + p.len()) == p
}

/// Index of the first release heading at or after `i`, or `s.len()`.
pub open spec fn find_heading(s: Seq<char>, i: int) -> int
    decreases s.len() - i,
{
    if i >= s.len() {
        s.len() as int
    } else if heading_at(s, i) {
        i
    } else {
        find_heading(s, i + 1)
    }
}

/// Where a new section goes: at the start of the line of the first release
/// heading, or at the end when there is none.
pub open spec fn insertion_point(doc: Seq<char>) -> int {
    let h = find_heading(doc, 0);
    if h < doc.len() {
        h + 1
    } else {
        doc.len() as int
    }
}

/// A document that has no release heading, with line breaks added until it
/// ends in a blank line; an empty document stays empty.
pub open spec fn padded(doc: Seq<char>) -> Seq<char> {
    if doc.len() == 0 {
        doc
    } else if doc.last() != '\n' {
        doc + BLANK@
    } else if doc.len() >= 2 && doc[doc.len() - 2] == '\n' {
        doc
    } else {
        doc + NEWLINE@
    }
}

/// Whether the document holds a release heading.
pub open spec fn has_release(doc: Seq<char>) -> bool {
    find_heading(doc, 0) < doc.len()
}

/// What comes before a new section: the document up to the line of its
/// first release heading, or the whole document ending in a blank line.
pub open spec fn doc_before(doc: Seq<char>) -> Seq<char> {
    if has_release(doc) {
        doc.subrange(0, find_heading(doc, 0) + 1)
    } else {
        padded(doc)
    }
}

/// What comes after a new section: the document from the line of its first
/// release heading on; nothing when it has none.
pub open spec fn doc_after(doc: Seq<char>) -> Seq<char> {
    if has_release(doc) {
        doc.subrange(find_heading(doc, 0) + 1, doc.len() as int)
    } else {
        Seq::empty()
    }
}

/// The document after a new section is put before the newest release; a
/// missing document starts from the header.
pub open spec fn merged(existing: Option<Seq<char>>, entry: Seq<char>) -> Seq<char> {
    let doc = match existing {
        Some(d) => d,
        None => CHANGELOG_HEADER@,
    };
    doc_before(doc) + entry + doc_after(doc)
}

impl ChangeCategory {
    /// The Markdown heading of the category.
    pub fn as_str(&self) -> (r: &'static str)
        ensures
            r@ == heading_of(*self),
    {
        match self {
            ChangeCategory::Added => ADDED_HEADING,
            ChangeCategory::Changed => CHANGED_HEADING,
            ChangeCategory::Deprecated => DEPRECATED_HEADING,
            ChangeCategory::Removed => REMOVED_HEADING,
            ChangeCategory::Fixed => FIXED_HEADING,
            ChangeCategory::Security => SECURITY_HEADING,
        }
    }

    /// The category of a conventional type token.
    pub fn from_commit_type(commit_type: &str) -> (r: ChangeCategory)
        ensures
            r == category_of_type(commit_type@),
    {
        proof {
            reveal_strlit("feat");
            reveal_strlit("fix");
            reveal_strlit("revert");
            reveal_strlit("security");
        }
        assert("feat"@ =~= seq!['f', 'e', 'a', 't']);
        assert("fix"@ =~= seq!['f', 'i', 'x']);
        assert("revert"@ =~= seq!['r', 'e', 'v', 'e', 'r', 't']);
        assert("security"@ =~= seq!['s', 'e', 'c', 'u', 'r', 'i', 't', 'y']);
        if same_text(commit_type, "feat") {
            ChangeCategory::Added
        } else if same_text(commit_type, "fix") {
            ChangeCategory::Fixed
        } else if same_text(commit_type, "revert") {
            ChangeCategory::Removed
        } else if same_text(commit_type, "security") {
            ChangeCategory::Security
        } else {
            ChangeCategory::Changed
        }
    }

    fn at(k: usize) -> (r: ChangeCategory)
        ensures
            r == category_at(k as int),
    {
        if k == 0 {
            ChangeCategory::Added
        } else if k == 1 {
            ChangeCategory::Changed
        } else if k == 2 {
            ChangeCategory::Deprecated
        } else if k == 3 {
            ChangeCategory::Removed
        } else if k == 4 {
            ChangeCategory::Fixed
        } else {
            ChangeCategory::Security
        }
    }
}

/// The change that one commit line contributes.
pub fn change_for_commit(line: &str) -> (r: Change)
    ensures
        (r.category, r.description@) == change_of(line@),
{
    let c = classify_commit(line);
    if !c.valid {
        Change { category: ChangeCategory::Changed, description: c.text }
    } else if c.breaking {
        let mut d = BREAKING_MARKER.to_owned();
        d.append(c.description.as_str());
        Change { category: ChangeCategory::Changed, description: d }
    } else {
        Change {
            category: ChangeCategory::from_commit_type(c.commit_type.as_str()),
            description: c.description,
        }
    }
}

proof fn lemma_changes_push(s: Seq<Seq<char>>, x: Seq<char>)
    ensures
        changes_of(s.push(x)) == if is_self_commit(x) {
            changes_of(s)
        } else {
            changes_of(s).push(change_of(x))
        },
{
    reveal(Seq::filter);
    assert(s.push(x).drop_last() =~= s);
    if !is_self_commit(x) {
        assert(changes_of(s.push(x)) =~= changes_of(s).push(change_of(x)));
    }
}

/// The changes of a list of commit lines, self commits left out.
pub fn collect_changes(commits: &Vec<String>) -> (r: Vec<Change>)
    ensures
        changes_view(r@) == changes_of(lines_of(commits@)),
{
    let ghost lines = lines_of(commits@);
    let mut changes: Vec<Change> = Vec::new();
    let mut i: usize = 0;
    while i < commits.len()
        invariant
            i <= commits@.len(),
            lines == lines_of(commits@),
            changes_view(changes@) == changes_of(lines.subrange(0, i as int)),
        decreases commits.len() - i,
    {
        let line = &commits[i];
        let ghost before = changes_view(changes@);
        proof {
            assert(lines.subrange(0, i + 1) =~= lines.subrange(0, i as int).push(line@));
            lemma_changes_push(lines.subrange(0, i as int), line@);
        }
        if !is_self_commit_line(line.as_str()) {
            let ch = change_for_commit(line.as_str());
            changes.push(ch);
            assert(changes_view(changes@) =~= before.push(change_of(line@)));
        }
        i = i + 1;
    }
    assert(lines.subrange(0, commits@.len() as int) =~= lines);
    changes
}

/// The bullets of one category.
fn category_bullets(changes: &Vec<Change>, c: ChangeCategory) -> (r: String)
    ensures
        r@ == bullets(changes_view(changes@), c),
{
    let ghost cv = changes_view(changes@);
    let mut out = String::new();
    let mut j: usize = 0;
    while j < changes.len()
        invariant
            j <= changes@.len(),
            cv == changes_view(changes@),
            out@ == bullets(cv.subrange(0, j as int), c),
        decreases changes.len() - j,
    {
        let ghost pre = cv.subrange(0, j as int);
        assert(cv.subrange(0, j + 1).drop_last() =~= pre);
        assert(cv.subrange(0, j + 1).last() == cv[j as int]);
        if changes[j].category == c {
            out.append(BULLET);
            out.append(changes[j].description.as_str());
            out.append(NEWLINE);
            assert(out@ =~= bullets(pre, c) + BULLET@ + cv[j as int].1 + NEWLINE@);
        }
        j = j + 1;
    }
    assert(cv.subrange(0, changes@.len() as int) =~= cv);
    out
}

/// The release section for a version, a date and a list of changes.
pub fn render_entry(version: &Version, date: &str, changes: &Vec<Change>) -> (r: String)
    ensures
        r@ == entry_text(version_text(*version), date@, changes_view(changes@)),
{
    let ghost cv = changes_view(changes@);
    let mut out = String::new();
    out.append(HEADING_OPEN);
    let v = version.to_string();
    out.append(v.as_str());
    out.append(HEADING_DATE);
    out.append(date);
    out.append(BLANK);
    let ghost head = out@;
    let mut started = false;
    let mut k: usize = 0;
    while k < 6
        invariant
            k <= 6,
            cv == changes_view(changes@),
            out@ + blocks_from(cv, k as int, started) == head + blocks_from(cv, 0, false),
            started ==> out@.len() > head.len(),
            !started ==> out@ == head,
        decreases 6 - k,
    {
        let c = ChangeCategory::at(k);
        let b = category_bullets(changes, c);
        let ghost rest_before = blocks_from(cv, k as int, started);
        if b.unicode_len() > 0 {
            let ghost old_out = out@;
            if started {
                out.append(NEWLINE);
            }
            out.append(c.as_str());
            out.append(BLANK);
            out.append(b.as_str());
            assert(out@ =~= old_out + (if started {
                NEWLINE@
            } else {
                Seq::empty()
            }) + heading_of(c) + BLANK@ + b@);
            assert(old_out + rest_before =~= out@ + blocks_from(cv, k + 1, true));
            started = true;
        }
        k = k + 1;
    }
    let ghost blocks = blocks_from(cv, 0, false);
    assert(out@ =~= head + blocks);
    if started {
        out.append(NEWLINE);
    }
    assert(out@ =~= entry_text(version_text(*version), date@, cv));
    out
}

/// Whether a release heading starts at index `j`.
fn heading_starts_at(s: &str, j: usize) -> (r: bool)
    requires
        j <= s@.len(),
    ensures
        r == heading_at(s@, j as int),
{
    let p = RELEASE_HEADING_START;
    let n = p.unicode_len();
    let len = s.unicode_len();
    if n > len - j {
        assert(!heading_at(s@, j as int));
        return false;
    }
    let mut i: usize = 0;
    while i < n
        invariant
            p@ == RELEASE_HEADING_START@,
            n == p@.len(),
            j + n <= len == s@.len(),
            i <= n,
            forall|k: int| 0 <= k < i ==> s@[j + k] == p@[k],
        decreases n - i,
    {
        if s.get_char(j + i) != p.get_char(i) {
            assert(s@.subrange(j as int, j + n)[i as int] != p@[i as int]);
            assert(s@.subrange(j as int, j + n) != p@);
            return false;
        }
        i = i + 1;
    }
    assert(s@.subrange(j as int, j + n) =~= p@);
    true
}

fn insertion_index(doc: &str) -> (r: usize)
    ensures
        r == insertion_point(doc@),
{
    let len = doc.unicode_len();
    let mut j: usize = 0;
    while j < len
        invariant
            j <= len == doc@.len(),
            find_heading(doc@, 0) == find_heading(doc@, j as int),
        decreases len - j,
    {
        if heading_starts_at(doc, j) {
            return j + 1;
        }
        j = j + 1;
    }
    len
}

/// Puts a release section into a document, before its newest release; a
/// missing document starts from the header.
pub fn merge_entry(existing: Option<&str>, entry: &str) -> (r: String)
    ensures
        r@ == merged(
            match existing {
                Some(d) => Some(d@),
                None => None,
            },
            entry@,
        ),
{
    let doc: &str = match existing {
        Some(d) => d,
        None => CHANGELOG_HEADER,
    };
    let ip = insertion_index(doc);
    let len = doc.unicode_len();
    proof {
        lemma_find_heading_bounds(doc@, 0);
        reveal_strlit("\n## [");
        assert(has_release(doc@) <==> ip < len);
    }
    if ip < len {
        let mut out = doc.substring_char(0, ip).to_owned();
        out.append(entry);
        out.append(doc.substring_char(ip, len));
        assert(out@ =~= doc_before(doc@) + entry@ + doc_after(doc@));
        out
    } else {
        let mut out = doc.to_owned();
        if len > 0 {
            if doc.get_char(len - 1) != '\n' {
                out.append(BLANK);
            } else if !(len >= 2 && doc.get_char(len - 2) == '\n') {
                out.append(NEWLINE);
            }
        }
        assert(out@ =~= padded(doc@));
        out.append(entry);
        assert(out@ =~= padded(doc@) + entry@ + Seq::<char>::empty());
        out
    }
}

/// The changelog after the release of `version` on `date` with `commits`;
/// `existing` is the current document, if there is one.
pub fn build_changelog(
    version: &Version,
    date: &str,
    commits: &Vec<String>,
    existing: Option<&str>,
) -> (r: String)
    ensures
        r@ == merged(
            match existing {
                Some(d) => Some(d@),
                None => None,
            },
            entry_text(version_text(*version), date@, changes_of(lines_of(commits@))),
        ),
{
    let changes = collect_changes(commits);
    let entry = render_entry(version, date, &changes);
    merge_entry(existing, entry.as_str())
}

proof fn lemma_find_heading_first(s: Seq<char>, i: int, h: int)
    requires
        0 <= i <= h <= s.len(),
        forall|j: int| i <= j < h ==> !heading_at(s, j),
        h == s.len() || heading_at(s, h),
    ensures
        find_heading(s, i) == h,
    decreases h - i,
{
    if i < h {
        lemma_find_heading_first(s, i + 1, h);
    }
}

proof fn lemma_no_heading_before(s: Seq<char>, i: int, j: int)
    requires
        0 <= i <= j < find_heading(s, i),
    ensures
        !heading_at(s, j),
    decreases j - i,
{
    if i < j {
        lemma_no_heading_before(s, i + 1, j);
    }
}

pub proof fn lemma_find_heading_bounds(s: Seq<char>, i: int)
    requires
        0 <= i <= s.len(),
    ensures
        i <= find_heading(s, i) <= s.len(),
        find_heading(s, i) < s.len() ==> heading_at(s, find_heading(s, i)),
    decreases s.len() - i,
{
    if i < s.len() && !heading_at(s, i) {
        lemma_find_heading_bounds(s, i + 1);
    }
}

/// Putting a release section into a non-empty document makes its heading
/// the first release heading of the result, with the document's text before
/// the insertion point (and the added line breaks) in front of it and the
/// rest of the document after it unchanged; so after any number of merges
/// the releases stand newest first.
pub proof fn lemma_merge_newest_first(doc: Seq<char>, entry: Seq<char>)
    requires
        entry.len() >= HEADING_OPEN@.len(),
        entry.subrange(0, HEADING_OPEN@.len() as int) == HEADING_OPEN@,
        doc.len() > 0,
    ensures
        ({
            let m = merged(Some(doc), entry);
            let pre = doc_before(doc);
            &&& pre.len() >= 1
            &&& find_heading(m, 0) == pre.len() - 1
            &&& m.subrange(0, pre.len() as int) == pre
            &&& m.subrange(pre.len() as int, (pre.len() + entry.len()) as int) == entry
            &&& m.subrange((pre.len() + entry.len()) as int, m.len() as int) == doc_after(doc)
        }),
{
    let m = merged(Some(doc), entry);
    let pre = doc_before(doc);
    let p = RELEASE_HEADING_START@;
    assert(p =~= seq!['\n', '#', '#', ' ', '[']) by {
        reveal_strlit("\n## [");
    }
    assert(HEADING_OPEN@ =~= seq!['#', '#', ' ', '[']) by {
        reveal_strlit("## [");
    }
    assert(BLANK@ =~= seq!['\n', '\n']) by {
        reveal_strlit("\n\n");
    }
    assert(NEWLINE@ =~= seq!['\n']) by {
        reveal_strlit("\n");
    }
    lemma_find_heading_bounds(doc, 0);
    let h = find_heading(doc, 0);
    // Text of `pre` that is not the document's own is line breaks.
    let own = if has_release(doc) {
        h + 1
    } else {
        doc.len() as int
    };
    if has_release(doc) {
        assert(doc.subrange(h, h + 5)[0] == doc[h]);
    }
    assert(pre.len() >= own);
    assert(forall|q: int| 0 <= q < own ==> pre[q] == doc[q]);
    assert(forall|q: int| own <= q < pre.len() ==> pre[q] == '\n');
    let seam = pre.len() - 1;
    assert(pre[seam] == '\n');
    assert(forall|q: int| 0 <= q < pre.len() ==> m[q] == pre[q]);
    assert forall|k: int| 0 <= k < 4 implies m[pre.len() + k] == HEADING_OPEN@[k] by {
        assert(m[pre.len() + k] == entry[k]);
        assert(entry.subrange(0, 4)[k] == entry[k]);
    }
    assert(m.subrange(seam, seam + 5) =~= p);
    assert forall|j: int| 0 <= j < seam implies !heading_at(m, j) by {
        if heading_at(m, j) {
            if j + 5 <= own {
                assert(m.subrange(j, j + 5) =~= doc.subrange(j, j + 5));
                if has_release(doc) {
                    lemma_no_heading_before(doc, 0, j);
                } else {
                    lemma_no_heading_before(doc, 0, j);
                }
            } else {
                let q = if own < seam && j < own {
                    own
                } else {
                    seam
                };
                let k = q - j;
                assert(m.subrange(j, j + 5)[k] == m[q]);
                assert(p[k] != '\n');
            }
        }
    }
    lemma_find_heading_first(m, 0, seam);
    assert(m.subrange(0, pre.len() as int) =~= pre);
    assert(m.subrange(pre.len() as int, (pre.len() + entry.len()) as int) =~= entry);
    assert(m.subrange((pre.len() + entry.len()) as int, m.len() as int) =~= doc_after(doc));
}

/// Every release section begins with the release heading.
pub proof fn lemma_entry_starts_with_heading(
    version: Seq<char>,
    date: Seq<char>,
    changes: Seq<(ChangeCategory, Seq<char>)>,
)
    ensures
        entry_text(version, date, changes).len() >= HEADING_OPEN@.len(),
        entry_text(version, date, changes).subrange(0, HEADING_OPEN@.len() as int) == HEADING_OPEN@,
{
    let e = entry_text(version, date, changes);
    assert(e.subrange(0, HEADING_OPEN@.len() as int) =~= HEADING_OPEN@);
}

/// The header that opens a new document ends a line.
pub proof fn lemma_header_ends_line()
    ensures
        CHANGELOG_HEADER@.len() > 0,
        CHANGELOG_HEADER@.last() == '\n',
{
    reveal_strlit("# Changelog\n\nAll notable changes to this project will be documented in this file.\n\nThe format is based on [Keep a Changelog](https://keepachangelog.com/en/1.0.0/),\nand this project adheres to [Semantic Versioning](https://semver.org/spec/v2.0.0.html).\n\n");
}

/// A commit marked breaking goes under Changed with the breaking marker
/// before its description, whatever its type; it is also a major change
/// that is never reported as of unknown type.
pub proof fn lemma_breaking_override(line: Seq<char>, table: Seq<(String, String)>)
    requires
        conventional(line) matches Some((_, breaking, _)) && breaking,
    ensures
        conventional(line) matches Some((_, _, d)) && change_of(line) == (
            ChangeCategory::Changed,
            BREAKING_MARKER@ + d,
        ),
        commit_severity(line, table) == BumpType::Major,
        !is_unknown(line, table),
{
    lemma_breaking_is_major(line, table);
}

/// The description part of a conventional line.
pub open spec fn described(line: Seq<char>) -> Seq<char> {
    match conventional(line) {
        Some((_, _, d)) => d,
        None => line,
    }
}

/// Position of a category in the rendering order.
pub open spec fn category_index(c: ChangeCategory) -> int {
    match c {
        ChangeCategory::Added => 0,
        ChangeCategory::Changed => 1,
        ChangeCategory::Deprecated => 2,
        ChangeCategory::Removed => 3,
        ChangeCategory::Fixed => 4,
        ChangeCategory::Security => 5,
    }
}

proof fn lemma_bullets_hold(changes: Seq<(ChangeCategory, Seq<char>)>, c: ChangeCategory, i: int)
    requires
        0 <= i < changes.len(),
        changes[i].0 == c,
    ensures
        exists|a: Seq<char>, z: Seq<char>|
            bullets(changes, c) == a + BULLET@ + changes[i].1 + NEWLINE@ + z,
    decreases changes.len(),
{
    let init = changes.drop_last();
    if i == changes.len() - 1 {
        let a = bullets(init, c);
        assert(bullets(changes, c) == a + BULLET@ + changes[i].1 + NEWLINE@ + Seq::<char>::empty());
    } else {
        assert(init[i] == changes[i]);
        lemma_bullets_hold(init, c, i);
        let (a, z) = choose|a: Seq<char>, z: Seq<char>|
            bullets(init, c) == a + BULLET@ + init[i].1 + NEWLINE@ + z;
        let tail = if changes.last().0 == c {
            z + BULLET@ + changes.last().1 + NEWLINE@
        } else {
            z
        };
        assert(bullets(changes, c) =~= a + BULLET@ + changes[i].1 + NEWLINE@ + tail);
    }
}

proof fn lemma_bullets_skip(changes: Seq<(ChangeCategory, Seq<char>)>, c: ChangeCategory, i: int)
    requires
        0 <= i < changes.len(),
        changes[i].0 != c,
    ensures
        bullets(changes, c) == bullets(changes.remove(i), c),
    decreases changes.len(),
{
    let init = changes.drop_last();
    if i == changes.len() - 1 {
        assert(changes.remove(i) =~= init);
    } else {
        assert(init[i] == changes[i]);
        lemma_bullets_skip(init, c, i);
        let r = changes.remove(i);
        assert(r.drop_last() =~= init.remove(i));
        assert(r.last() == changes.last());
    }
}

proof fn lemma_blocks_hold(
    changes: Seq<(ChangeCategory, Seq<char>)>,
    k: int,
    started: bool,
    c: ChangeCategory,
)
    requires
        0 <= k <= category_index(c),
        bullets(changes, c).len() > 0,
    ensures
        exists|a: Seq<char>, z: Seq<char>|
            blocks_from(changes, k, started) == a + heading_of(c) + BLANK@ + bullets(changes, c)
                + z,
    decreases 6 - k,
{
    if k < category_index(c) {
        let b = bullets(changes, category_at(k));
        if b.len() == 0 {
            lemma_blocks_hold(changes, k + 1, started, c);
        } else {
            lemma_blocks_hold(changes, k + 1, true, c);
            let (a, z) = choose|a: Seq<char>, z: Seq<char>|
                blocks_from(changes, k + 1, true) == a + heading_of(c) + BLANK@ + bullets(
                    changes,
                    c,
                ) + z;
            let front = (if started {
                NEWLINE@
            } else {
                Seq::empty()
            }) + heading_of(category_at(k)) + BLANK@ + b;
            assert(blocks_from(changes, k, started) =~= (front + a) + heading_of(c) + BLANK@
                + bullets(changes, c) + z);
        }
    } else {
        assert(category_at(k) == c);
        let front: Seq<char> = if started {
            NEWLINE@
        } else {
            Seq::empty()
        };
        assert(blocks_from(changes, k, started) =~= front + heading_of(c) + BLANK@ + bullets(
            changes,
            c,
        ) + blocks_from(changes, k + 1, true));
    }
}

/// A kept commit marked breaking, with description `d`, puts the bullet
/// `- **BREAKING:** d` into the Changed block of its release section, under
/// the Changed heading, whatever its type; every other block is what it
/// would be without that commit.
pub proof fn lemma_breaking_bullet(lines: Seq<Seq<char>>, i: int)
    requires
        0 <= i < kept_commits(lines).len(),
        conventional(kept_commits(lines)[i]) matches Some((_, breaking, _)) && breaking,
    ensures
        ({
            let ch = changes_of(lines);
            let d = described(kept_commits(lines)[i]);
            &&& exists|a: Seq<char>, z: Seq<char>|
                bullets(ch, ChangeCategory::Changed) == a + BULLET@ + BREAKING_MARKER@ + d
                    + NEWLINE@ + z
            &&& exists|a: Seq<char>, z: Seq<char>|
                blocks_from(ch, 0, false) == a + CHANGED_HEADING@ + BLANK@ + bullets(
                    ch,
                    ChangeCategory::Changed,
                ) + z
            &&& forall|c: ChangeCategory|
                c != ChangeCategory::Changed ==> #[trigger] bullets(ch, c) == bullets(
                    ch.remove(i),
                    c,
                )
        }),
{
    let ch = changes_of(lines);
    let d = described(kept_commits(lines)[i]);
    assert(ch[i] == change_of(kept_commits(lines)[i]));
    assert(ch[i].1 == BREAKING_MARKER@ + d);
    lemma_bullets_hold(ch, ChangeCategory::Changed, i);
    let (a, z) = choose|a: Seq<char>, z: Seq<char>|
        bullets(ch, ChangeCategory::Changed) == a + BULLET@ + ch[i].1 + NEWLINE@ + z;
    assert(bullets(ch, ChangeCategory::Changed) =~= a + BULLET@ + BREAKING_MARKER@ + d + NEWLINE@
        + z);
    reveal_strlit("- ");
    assert(bullets(ch, ChangeCategory::Changed).len() > 0);
    lemma_blocks_hold(ch, 0, false, ChangeCategory::Changed);
    assert forall|c: ChangeCategory| c != ChangeCategory::Changed implies #[trigger] bullets(
        ch,
        c,
    ) == bullets(ch.remove(i), c) by {
        lemma_bullets_skip(ch, c, i);
    }
}

/// Relies on chrono's `Local::now`, formatted with `%Y-%m-%d`: today's date
/// in the local time zone, as the year, `-`, a two-digit month, `-` and a
/// two-digit day. It depends on the clock, so only that shape is stated: on
/// one line and ending in a digit.
#[verifier::external_body]
fn today() -> (r: String)
    ensures
        r@.len() > 0,
        forall|i: int| 0 <= i < r@.len() ==> #[trigger] r@[i] != '\n',
        '0' <= r@.last() && r@.last() <= '9',
{
    chrono::Local::now().format("%Y-%m-%d").to_string()
}

/// The changelog after the release of `version` with `commits`, dated
/// today; `existing` is the current document, if there is one. When the
/// descriptions are clean and the document is well formed, the result is
/// well formed again and its first release heading is the new one, naming
/// `version`.
pub fn generate_changelog_entry(
    version: &Version,
    commits: &Vec<String>,
    bump_type: BumpType,
    existing: Option<&str>,
) -> (r: String)
    ensures
        exists|date: Seq<char>|
            clean_text(date) && r@ == merged(
                match existing {
                    Some(d) => Some(d@),
                    None => None,
                },
                #[trigger] entry_text(version_text(*version), date, changes_of(lines_of(commits@))),
            ),
        ({
            let doc = match existing {
                Some(d) => d@,
                None => CHANGELOG_HEADER@,
            };
            let pre = doc_before(doc);
            let head = HEADING_OPEN@ + version_text(*version) + HEADING_DATE@;
            (clean_changes(changes_of(lines_of(commits@))) && (existing matches Some(d)
                ==> well_formed_document(d@))) ==> {
                &&& well_formed_document(r@)
                &&& find_heading(r@, 0) == pre.len() - 1
                &&& r@.subrange(pre.len() as int, (pre.len() + head.len()) as int) == head
            }
        }),
{
    let date = today();
    let r = build_changelog(version, date.as_str(), commits, existing);
    proof {
        let ex = match existing {
            Some(d) => Some(d@),
            None => None,
        };
        let ch = changes_of(lines_of(commits@));
        assert(one_line(date@));
        if clean_changes(ch) && (existing matches Some(d) ==> well_formed_document(d@)) {
            lemma_release_document(ex, *version, date@, ch);
            let doc = match existing {
                Some(d) => d@,
                None => CHANGELOG_HEADER@,
            };
            let pre = doc_before(doc);
            let e = entry_text(version_text(*version), date@, ch);
            let head = HEADING_OPEN@ + version_text(*version) + HEADING_DATE@;
            assert(e.subrange(0, head.len() as int) =~= head);
            assert(r@.subrange(pre.len() as int, (pre.len() + head.len()) as int) =~= e.subrange(
                0,
                head.len() as int,
            ));
        }
    }
    r
}

} // verus!
