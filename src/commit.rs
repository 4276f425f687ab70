use vstd::prelude::*;
use vstd::string::*;
use crate::text::{find_char, find_from, lower_end, lower_end_from};

verus! {

/// A commit subject line read against the Conventional Commits grammar
/// `type(scope)!: description`.
#[derive(Debug, Clone)]
pub struct ClassifiedCommit {
    /// The subject line as given.
    pub text: String,
    /// Whether the line follows the grammar.
    pub valid: bool,
    /// The lowercase type token; empty when the line is not conventional.
    pub commit_type: String,
    /// Whether `!` stands before the colon.
    pub breaking: bool,
    /// The text after `: `; the whole line when it is not conventional.
    pub description: String,
}

/// End of the optional `(scope)` group that may follow the type ending at `t`:
/// `t` itself when no group starts there, `-1` when a group starts but does
/// not close on a non-empty scope.
pub open spec fn scope_end(s: Seq<char>, t: int) -> int {
    if t < s.len() && s[t] == '(' {
        let k = find_char(s, ')', t + 1);
        if k >= s.len() || k == t + 1 {
            -1
        } else {
            k + 1
        }
    } else {
        t
    }
}

/// The type token, breaking flag and description of a line of the form
/// `type(scope)!: description`, where `type` is one or more of `a`..`z`, the
/// scope is optional and non-empty, `!` is optional, and the description is
/// non-empty and holds no line break. `None` for any other line.
pub open spec fn conventional(s: Seq<char>) -> Option<(Seq<char>, bool, Seq<char>)> {
    let t = lower_end(s, 0);
    let p = scope_end(s, t);
    let bang = 0 <= p < s.len() && s[p] == '!';
    let q = if bang {
        p + 1
    } else {
        p
    };
    if t == 0 || p < 0 {
        None
    } else if q + 2 < s.len() && s[q] == ':' && s[q + 1] == ' ' && find_char(s, '\n', q + 2)
        == s.len() {
        Some((s.subrange(0, t), bang, s.subrange(q + 2, s.len() as int)))
    } else {
        None
    }
}

/// What `classify_commit` yields for a line, field by field.
pub open spec fn classified_as(c: ClassifiedCommit, line: Seq<char>) -> bool {
    &&& c.text@ == line
    &&& c.valid == conventional(line) is Some
    &&& match conventional(line) {
        Some((t, b, d)) => c.commit_type@ == t && c.breaking == b && c.description@ == d,
        None => c.commit_type@ == Seq::<char>::empty() && !c.breaking && c.description@ == line,
    }
}

/// Classifies one commit subject line; never fails.
pub fn classify_commit(text: &str) -> (r: ClassifiedCommit)
    ensures
        classified_as(r, text@),
{
    let s = text;
    let len = s.unicode_len();
    let t = lower_end_from(s, 0);
    let mut p: usize = t;
    let mut scope_ok = true;
    if t < len && s.get_char(t) == '(' {
        let k = find_from(s, ')', t + 1);
        if k >= len || k == t + 1 {
            scope_ok = false;
        } else {
            p = k + 1;
        }
    }
    assert(scope_ok ==> p as int == scope_end(s@, t as int));
    assert(!scope_ok ==> scope_end(s@, t as int) == -1);
    if t > 0 && scope_ok {
        let bang = p < len && s.get_char(p) == '!';
        let q: usize = if bang {
            p + 1
        } else {
            p
        };
        if q < len && len - q > 2 && s.get_char(q) == ':' && s.get_char(q + 1) == ' ' && find_from(
            s,
            '\n',
            q + 2,
        ) == len {
            return ClassifiedCommit {
                text: s.to_owned(),
                valid: true,
                commit_type: s.substring_char(0, t).to_owned(),
                breaking: bang,
                description: s.substring_char(q + 2, len).to_owned(),
            };
        }
    }
    ClassifiedCommit {
        text: s.to_owned(),
        valid: false,
        commit_type: String::new(),
        breaking: false,
        description: s.to_owned(),
    }
}

} // verus!
