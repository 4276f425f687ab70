use vstd::prelude::*;
use vstd::string::*;
use crate::changelog::{
    blocks_from, bullets, category_at, entry_text, find_heading, heading_at, heading_of,
    doc_after, doc_before, has_release, lemma_entry_starts_with_heading, lemma_find_heading_bounds, lemma_header_ends_line,
    lemma_merge_newest_first, merged, ChangeCategory, BLANK, BULLET, CHANGELOG_HEADER,
    HEADING_DATE, HEADING_OPEN, NEWLINE,
};
use crate::decimal::{digits_of, lemma_digits_of};
use crate::versioner::{version_text, Version};

verus! {

pub open spec fn is_blank_char(c: char) -> bool {
    c == ' ' || c == '\t'
}

/// Three line breaks in a row start at `i`: two blank lines together.
pub open spec fn triple_break_at(s: Seq<char>, i: int) -> bool {
    s[i] == '\n' && s[i + 1] == '\n' && s[i + 2] == '\n'
}

/// A space or tab ends the line at `i`.
pub open spec fn blank_before_break_at(s: Seq<char>, i: int) -> bool {
    is_blank_char(s[i]) && s[i + 1] == '\n'
}

/// Markdown text without doubled blank lines and without trailing blanks on
/// any line.
pub open spec fn tidy(s: Seq<char>) -> bool {
    &&& forall|i: int| 0 <= i && i + 2 < s.len() ==> !#[trigger] triple_break_at(s, i)
    &&& forall|i: int| 0 <= i && i + 1 < s.len() ==> !#[trigger] blank_before_break_at(s, i)
}

/// `a` followed by `b` makes no doubled blank line and no trailing blank at
/// the seam.
pub open spec fn joins(a: Seq<char>, b: Seq<char>) -> bool {
    &&& (a.len() >= 2 && a[a.len() - 2] == '\n' && a.last() == '\n' && b.len() >= 1) ==> b[0]
        != '\n'
    &&& (a.len() >= 1 && a.last() == '\n' && b.len() >= 2 && b[0] == '\n') ==> b[1] != '\n'
    &&& (a.len() >= 1 && is_blank_char(a.last()) && b.len() >= 1) ==> b[0] != '\n'
}

/// Text on one line: no line break in it.
pub open spec fn one_line(s: Seq<char>) -> bool {
    forall|i: int| 0 <= i < s.len() ==> #[trigger] s[i] != '\n'
}

/// A description that renders as a tidy bullet: non-empty, on one line, and
/// not ending in a blank.
pub open spec fn clean_text(s: Seq<char>) -> bool {
    s.len() > 0 && one_line(s) && !is_blank_char(s.last())
}

pub open spec fn clean_changes(changes: Seq<(ChangeCategory, Seq<char>)>) -> bool {
    forall|i: int| 0 <= i < changes.len() ==> clean_text(#[trigger] changes[i].1)
}

/// Ends with a line break that closes a non-empty line.
pub open spec fn ends_line(s: Seq<char>) -> bool {
    s.len() >= 2 && s.last() == '\n' && s[s.len() - 2] != '\n' && !is_blank_char(s[s.len() - 2])
}

proof fn lemma_one_line_tidy(s: Seq<char>)
    requires
        one_line(s),
    ensures
        tidy(s),
{
    assert forall|i: int| 0 <= i && i + 2 < s.len() implies !#[trigger] triple_break_at(s, i) by {
        assert(s[i] != '\n');
    }
    assert forall|i: int| 0 <= i && i + 1 < s.len() implies !#[trigger] blank_before_break_at(
        s,
        i,
    ) by {
        assert(s[i + 1] != '\n');
    }
}

proof fn lemma_short_tidy(s: Seq<char>)
    requires
        s.len() <= 2,
        forall|i: int| 0 <= i < s.len() ==> !is_blank_char(#[trigger] s[i]),
    ensures
        tidy(s),
{
    assert forall|i: int| 0 <= i && i + 1 < s.len() implies !#[trigger] blank_before_break_at(
        s,
        i,
    ) by {
        assert(!is_blank_char(s[i]));
    }
}

proof fn lemma_tidy_concat(a: Seq<char>, b: Seq<char>)
    requires
        tidy(a),
        tidy(b),
        joins(a, b),
    ensures
        tidy(a + b),
{
    let s = a + b;
    let n = a.len() as int;
    assert forall|i: int| 0 <= i && i + 2 < s.len() implies !#[trigger] triple_break_at(s, i) by {
        if i + 2 < n {
            assert(triple_break_at(s, i) == triple_break_at(a, i));
        } else if i >= n {
            assert(triple_break_at(s, i) == triple_break_at(b, i - n));
        } else if i == n - 2 {
            assert(s[i] == a[n - 2] && s[i + 1] == a[n - 1] && s[i + 2] == b[0]);
        } else {
            assert(s[i] == a[n - 1] && s[i + 1] == b[0] && s[i + 2] == b[1]);
        }
    }
    assert forall|i: int| 0 <= i && i + 1 < s.len() implies !#[trigger] blank_before_break_at(
        s,
        i,
    ) by {
        if i + 1 < n {
            assert(blank_before_break_at(s, i) == blank_before_break_at(a, i));
        } else if i >= n {
            assert(blank_before_break_at(s, i) == blank_before_break_at(b, i - n));
        } else {
            assert(s[i] == a[n - 1] && s[i + 1] == b[0]);
        }
    }
}

proof fn lemma_tidy_subrange(s: Seq<char>, lo: int, hi: int)
    requires
        tidy(s),
        0 <= lo <= hi <= s.len(),
    ensures
        tidy(s.subrange(lo, hi)),
{
    let t = s.subrange(lo, hi);
    assert forall|i: int| 0 <= i && i + 2 < t.len() implies !#[trigger] triple_break_at(t, i) by {
        assert(triple_break_at(t, i) == triple_break_at(s, i + lo));
    }
    assert forall|i: int| 0 <= i && i + 1 < t.len() implies !#[trigger] blank_before_break_at(
        t,
        i,
    ) by {
        assert(blank_before_break_at(t, i) == blank_before_break_at(s, i + lo));
    }
}

/// One bullet line, `- description` and a line break.
proof fn lemma_bullet_line(d: Seq<char>)
    requires
        clean_text(d),
    ensures
        tidy(BULLET@ + d + NEWLINE@),
        ends_line(BULLET@ + d + NEWLINE@),
        (BULLET@ + d + NEWLINE@)[0] == '-',
{
    reveal_strlit("- ");
    reveal_strlit("\n");
    let line = BULLET@ + d;
    assert(one_line(line)) by {
        assert forall|i: int| 0 <= i < line.len() implies #[trigger] line[i] != '\n' by {
            if i >= 2 {
                assert(line[i] == d[i - 2]);
            }
        }
    }
    lemma_one_line_tidy(line);
    lemma_short_tidy(NEWLINE@);
    assert(line.last() == d.last());
    lemma_tidy_concat(line, NEWLINE@);
    let s = line + NEWLINE@;
    assert(s[s.len() - 2] == d.last());
}

proof fn lemma_bullets(changes: Seq<(ChangeCategory, Seq<char>)>, c: ChangeCategory)
    requires
        clean_changes(changes),
    ensures
        tidy(bullets(changes, c)),
        bullets(changes, c).len() > 0 ==> ends_line(bullets(changes, c)) && bullets(changes, c)[0]
            == '-',
    decreases changes.len(),
{
    reveal_strlit("- ");
    reveal_strlit("\n");
    if changes.len() > 0 {
        let init = changes.drop_last();
        assert(clean_changes(init)) by {
            assert forall|i: int| 0 <= i < init.len() implies clean_text(#[trigger] init[i].1) by {
                assert(init[i] == changes[i]);
            }
        }
        lemma_bullets(init, c);
        if changes.last().0 == c {
            let rest = bullets(init, c);
            let d = changes.last().1;
            assert(clean_text(changes[changes.len() - 1].1));
            lemma_bullet_line(d);
            let line = BULLET@ + d + NEWLINE@;
            lemma_tidy_concat(rest, line);
            assert(bullets(changes, c) == rest + line);
            let s = rest + line;
            assert(s.last() == line.last());
            assert(s[s.len() - 2] == line[line.len() - 2]);
            if rest.len() > 0 {
                assert(s[0] == rest[0]);
            } else {
                assert(s =~= line);
            }
        }
    }
}

proof fn lemma_one_line_concat(a: Seq<char>, b: Seq<char>)
    requires
        one_line(a),
        one_line(b),
    ensures
        one_line(a + b),
{
    assert forall|i: int| 0 <= i < (a + b).len() implies #[trigger] (a + b)[i] != '\n' by {
        if i < a.len() {
            assert((a + b)[i] == a[i]);
        } else {
            assert((a + b)[i] == b[i - a.len()]);
        }
    }
}

proof fn lemma_heading(c: ChangeCategory)
    ensures
        heading_of(c).len() > 0,
        one_line(heading_of(c)),
        heading_of(c)[0] == '#',
        !is_blank_char(heading_of(c).last()),
{
    reveal_strlit("### Added");
    reveal_strlit("### Changed");
    reveal_strlit("### Deprecated");
    reveal_strlit("### Removed");
    reveal_strlit("### Fixed");
    reveal_strlit("### Security");
    let h = heading_of(c);
    assert(forall|i: int| 0 <= i < h.len() ==> #[trigger] h[i] != '\n');
}

proof fn lemma_blocks(changes: Seq<(ChangeCategory, Seq<char>)>, k: int, started: bool)
    requires
        clean_changes(changes),
        0 <= k <= 6,
    ensures
        ({
            let s = blocks_from(changes, k, started);
            &&& tidy(s)
            &&& s.len() > 0 ==> ends_line(s)
            &&& (s.len() > 0 && started) ==> s.len() >= 2 && s[0] == '\n' && s[1] == '#'
            &&& (s.len() > 0 && !started) ==> s[0] == '#'
        }),
    decreases 6 - k,
{
    reveal_strlit("\n");
    reveal_strlit("\n\n");
    if k < 6 {
        let c = category_at(k);
        let b = bullets(changes, c);
        lemma_bullets(changes, c);
        lemma_blocks(changes, k + 1, true);
        lemma_blocks(changes, k + 1, started);
        if b.len() > 0 {
            let h = heading_of(c);
            lemma_heading(c);
            let x1: Seq<char> = if started {
                NEWLINE@
            } else {
                Seq::empty()
            };
            lemma_short_tidy(x1);
            lemma_one_line_tidy(h);
            lemma_tidy_concat(x1, h);
            let a1 = x1 + h;
            assert(a1.last() == h.last());
            lemma_short_tidy(BLANK@);
            lemma_tidy_concat(a1, BLANK@);
            let a2 = a1 + BLANK@;
            assert(a2.last() == '\n' && a2[a2.len() - 2] == '\n');
            lemma_tidy_concat(a2, b);
            let a3 = a2 + b;
            assert(a3.last() == b.last() && a3[a3.len() - 2] == b[b.len() - 2]);
            let rest = blocks_from(changes, k + 1, true);
            lemma_tidy_concat(a3, rest);
            let s = a3 + rest;
            assert(blocks_from(changes, k, started) == s);
            if rest.len() > 0 {
                assert(s.last() == rest.last() && s[s.len() - 2] == rest[rest.len() - 2]);
            } else {
                assert(s =~= a3);
            }
            if started {
                assert(s[0] == '\n' && s[1] == h[0]);
            } else {
                assert(s[0] == h[0]);
            }
        }
    }
}

proof fn lemma_version_one_line(v: Version)
    ensures
        one_line(version_text(v)),
{
    lemma_digits_of(v.major as nat);
    lemma_digits_of(v.minor as nat);
    lemma_digits_of(v.patch as nat);
    let t = version_text(v);
    let a = digits_of(v.major as nat);
    let b = digits_of(v.minor as nat);
    let c = digits_of(v.patch as nat);
    assert forall|i: int| 0 <= i < t.len() implies #[trigger] t[i] != '\n' by {
        if i < a.len() {
            assert(t[i] == a[i]);
        } else if i == a.len() {
        } else if i < a.len() + 1 + b.len() {
            assert(t[i] == b[i - a.len() - 1]);
        } else if i == a.len() + 1 + b.len() {
        } else {
            assert(t[i] == c[i - a.len() - 2 - b.len()]);
        }
    }
}

/// A release section with a clean date and clean descriptions is tidy,
/// starts with its heading and ends with a blank line.
pub proof fn lemma_entry_tidy(
    version: Version,
    date: Seq<char>,
    changes: Seq<(ChangeCategory, Seq<char>)>,
)
    requires
        clean_changes(changes),
        clean_text(date),
    ensures
        ({
            let e = entry_text(version_text(version), date, changes);
            &&& tidy(e)
            &&& e.len() >= 2 && e[0] == '#'
            &&& e.last() == '\n' && e[e.len() - 2] == '\n'
        }),
{
    reveal_strlit("## [");
    reveal_strlit("] - ");
    reveal_strlit("\n\n");
    reveal_strlit("\n");
    let v = version_text(version);
    lemma_version_one_line(version);
    assert(one_line(HEADING_OPEN@));
    assert(one_line(HEADING_DATE@));
    lemma_one_line_concat(HEADING_OPEN@, v);
    lemma_one_line_concat(HEADING_OPEN@ + v, HEADING_DATE@);
    lemma_one_line_concat(HEADING_OPEN@ + v + HEADING_DATE@, date);
    let p = HEADING_OPEN@ + v + HEADING_DATE@ + date;
    lemma_one_line_tidy(p);
    assert(p.last() == date.last());
    lemma_short_tidy(BLANK@);
    lemma_tidy_concat(p, BLANK@);
    let a = p + BLANK@;
    assert(a[0] == HEADING_OPEN@[0]);
    let blocks = blocks_from(changes, 0, false);
    lemma_blocks(changes, 0, false);
    if blocks.len() > 0 {
        lemma_tidy_concat(a, blocks);
        let a2 = a + blocks;
        assert(a2.last() == blocks.last() && a2[a2.len() - 2] == blocks[blocks.len() - 2]);
        lemma_short_tidy(NEWLINE@);
        lemma_tidy_concat(a2, NEWLINE@);
        let e = a2 + NEWLINE@;
        assert(e =~= entry_text(v, date, changes));
    } else {
        assert(a =~= entry_text(v, date, changes));
    }
}

/// A changelog that a release can extend: non-empty, tidy, and not ending
/// in a blank.
pub open spec fn well_formed_document(d: Seq<char>) -> bool {
    &&& d.len() > 0
    &&& tidy(d)
    &&& !is_blank_char(d.last())
}

/// Putting a tidy release section that starts with its heading and ends with
/// a blank line into a well-formed document gives a well-formed document.
pub proof fn lemma_merge_tidy(doc: Seq<char>, entry: Seq<char>)
    requires
        well_formed_document(doc),
        tidy(entry),
        entry.len() >= 2 && entry[0] == '#',
        entry.last() == '\n' && entry[entry.len() - 2] == '\n',
    ensures
        well_formed_document(merged(Some(doc), entry)),
{
    reveal_strlit("\n## [");
    reveal_strlit("\n\n");
    reveal_strlit("\n");
    let h = find_heading(doc, 0);
    lemma_find_heading_bounds(doc, 0);
    let pre = doc_before(doc);
    let post = doc_after(doc);
    if has_release(doc) {
        lemma_tidy_subrange(doc, 0, h + 1);
        lemma_tidy_subrange(doc, h + 1, doc.len() as int);
        assert(heading_at(doc, h));
        assert(doc.subrange(h, h + 5)[1] == doc[h + 1]);
        assert(post[0] == doc[h + 1]);
        assert(post.last() == doc.last());
    } else {
        lemma_short_tidy(BLANK@);
        lemma_short_tidy(NEWLINE@);
        if doc.last() != '\n' {
            lemma_tidy_concat(doc, BLANK@);
        } else if !(doc.len() >= 2 && doc[doc.len() - 2] == '\n') {
            lemma_tidy_concat(doc, NEWLINE@);
        }
        assert(post.len() == 0);
    }
    assert(tidy(pre));
    lemma_tidy_concat(pre, entry);
    let a = pre + entry;
    assert(a.last() == entry.last() && a[a.len() - 2] == entry[entry.len() - 2]);
    lemma_tidy_concat(a, post);
    let m = a + post;
    assert(m == merged(Some(doc), entry));
    if post.len() > 0 {
        assert(m.last() == post.last());
    } else {
        assert(m =~= a);
    }
}

proof fn lemma_header_tidy()
    ensures
        tidy(CHANGELOG_HEADER@),
{
    reveal_strlit("# Changelog\n\nAll notable changes to this project will be documented in this file.\n\nThe format is based on [Keep a Changelog](https://keepachangelog.com/en/1.0.0/),\nand this project adheres to [Semantic Versioning](https://semver.org/spec/v2.0.0.html).\n\n");
    let s = CHANGELOG_HEADER@;
    assert forall|i: int| 0 <= i && i + 2 < s.len() implies !#[trigger] triple_break_at(s, i) by {}
    assert forall|i: int| 0 <= i && i + 1 < s.len() implies !#[trigger] blank_before_break_at(
        s,
        i,
    ) by {}
}

/// The document that a release leaves: well formed, with the new release
/// as its first release heading, the earlier text before the insertion point
/// in front of it and the rest after it unchanged. A new document and every
/// document this produces meet the requirement again, so after any number of
/// releases the layout holds and the releases stand newest first.
pub proof fn lemma_release_document(
    existing: Option<Seq<char>>,
    version: Version,
    date: Seq<char>,
    changes: Seq<(ChangeCategory, Seq<char>)>,
)
    requires
        clean_changes(changes),
        clean_text(date),
        existing matches Some(d) ==> well_formed_document(d),
    ensures
        ({
            let doc = match existing {
                Some(d) => d,
                None => CHANGELOG_HEADER@,
            };
            let e = entry_text(version_text(version), date, changes);
            let m = merged(existing, e);
            let pre = doc_before(doc);
            &&& well_formed_document(m)
            &&& find_heading(m, 0) == pre.len() - 1
            &&& m.subrange(0, pre.len() as int) == pre
            &&& m.subrange(pre.len() as int, (pre.len() + e.len()) as int) == e
            &&& m.subrange((pre.len() + e.len()) as int, m.len() as int) == doc_after(doc)
        }),
{
    let doc = match existing {
        Some(d) => d,
        None => CHANGELOG_HEADER@,
    };
    if existing is None {
        lemma_header_tidy();
        lemma_header_ends_line();
    }
    let e = entry_text(version_text(version), date, changes);
    lemma_entry_tidy(version, date, changes);
    lemma_entry_starts_with_heading(version_text(version), date, changes);
    lemma_merge_newest_first(doc, e);
    lemma_merge_tidy(doc, e);
    assert(merged(existing, e) == merged(Some(doc), e));
}

} // verus!
