use vstd::prelude::*;
use vstd::string::*;
use crate::analyser::has_prefix;
use crate::config::Config;
use crate::decimal::{digits_of, push_decimal};
use crate::error::{BumperError, BumperResult};
use crate::text::{find_char, find_from, starts_with};
use crate::versioner::{version_parts, Version};

verus! {

pub const ADD: &'static str = "add";

pub const COMMIT: &'static str = "commit";

pub const MESSAGE_FLAG: &'static str = "-m";

pub const TAG: &'static str = "tag";

pub const ANNOTATE_FLAG: &'static str = "-a";

pub const DELETE_FLAG: &'static str = "-d";

pub const PUSH: &'static str = "push";

pub const TAGS_FLAG: &'static str = "--tags";

pub const FORCE_FLAG: &'static str = "--force";

pub const LOG: &'static str = "log";

pub const SUBJECT_FORMAT: &'static str = "--pretty=%s";

pub const RANGE_TO_HEAD: &'static str = "..HEAD";

pub const TO: &'static str = " to ";

pub const CONFIG: &'static str = "config";

pub const USER_NAME: &'static str = "user.name";

pub const USER_EMAIL: &'static str = "user.email";

pub const DOT: &'static str = ".";

/// One version-control invocation: its arguments, and whether a failure of
/// it is to be ignored.
#[derive(Debug, Clone)]
pub struct GitCommand {
    pub args: Vec<String>,
    pub ignore_failure: bool,
}

pub open spec fn args_view(v: Seq<String>) -> Seq<Seq<char>> {
    v.map_values(|s: String| s@)
}

pub open spec fn commands_view(v: Seq<GitCommand>) -> Seq<(Seq<Seq<char>>, bool)> {
    v.map_values(|c: GitCommand| (args_view(c.args@), c.ignore_failure))
}

/// A command whose failure stops the run.
pub open spec fn must(args: Seq<Seq<char>>) -> (Seq<Seq<char>>, bool) {
    (args, false)
}

/// `t` with the prefix `p` taken off when it starts with it.
pub open spec fn strip_prefix(t: Seq<char>, p: Seq<char>) -> Seq<char> {
    if has_prefix(t, p) {
        t.subrange(p.len() as int, t.len() as int)
    } else {
        t
    }
}

/// A line without one trailing carriage return.
pub open spec fn strip_cr(l: Seq<char>) -> Seq<char> {
    if l.len() > 0 && l.last() == '\r' {
        l.drop_last()
    } else {
        l
    }
}

/// The non-empty lines of `s` from index `i` on, split at `\n`, each
/// without a trailing `\r`.
pub open spec fn nonempty_lines_from(s: Seq<char>, i: int) -> Seq<Seq<char>>
    decreases s.len() - i,
{
    if i < 0 || i >= s.len() {
        Seq::empty()
    } else {
        let e = find_char(s, '\n', i);
        let l = strip_cr(s.subrange(i, e));
        let rest = if e < i || e >= s.len() {
            Seq::empty()
        } else {
            nonempty_lines_from(s, e + 1)
        };
        if l.len() > 0 {
            seq![l] + rest
        } else {
            rest
        }
    }
}

/// The subject of the release commit: `<prefix> to <version>`.
pub open spec fn release_message(prefix: Seq<char>, version: Seq<char>) -> Seq<char> {
    prefix + TO@ + version
}

fn owned(s: &str) -> (r: String)
    ensures
        r@ == s@,
{
    s.to_owned()
}

fn command(args: Vec<String>, ignore_failure: bool) -> (r: GitCommand)
    ensures
        r.args@ == args@,
        r.ignore_failure == ignore_failure,
{
    GitCommand { args, ignore_failure }
}

/// The last tag, from the output of `git describe --tags --abbrev=0`:
/// `None` when the command failed or printed nothing.
pub fn get_last_tag(describe_output: Option<&str>) -> (r: Option<String>)
    ensures
        match describe_output {
            Some(t) => if t@.len() > 0 {
                r matches Some(s) && s@ == t@
            } else {
                r is None
            },
            None => r is None,
        },
{
    match describe_output {
        Some(t) => if t.unicode_len() > 0 {
            Some(owned(t))
        } else {
            None
        },
        None => None,
    }
}

/// The version that the last tag names, its tag prefix taken off.
pub fn get_last_tag_version(config: &Config, last_tag: Option<&str>) -> (r: BumperResult<
    Option<Version>,
>)
    ensures
        last_tag is None ==> r matches Ok(None),
        last_tag matches Some(t) ==> {
            let parts = version_parts(strip_prefix(t@, config.tag_prefix@));
            &&& parts is Some <==> r is Ok
            &&& r matches Ok(v) ==> (v matches Some(v) && parts == Some(
                (v.major, v.minor, v.patch),
            ))
            &&& r matches Err(e) ==> (e matches BumperError::InvalidVersion(m) && m@
                == strip_prefix(t@, config.tag_prefix@))
        },
{
    match last_tag {
        None => Ok(None),
        Some(tag) => {
            let prefix = config.tag_prefix.as_str();
            let version_str = if starts_with(tag, prefix) {
                tag.substring_char(prefix.unicode_len(), tag.unicode_len())
            } else {
                tag
            };
            assert(version_str@ == strip_prefix(tag@, prefix@));
            match Version::parse(version_str) {
                Ok(v) => Ok(Some(v)),
                Err(e) => Err(e),
            }
        },
    }
}

/// The arguments of the log command that lists commit subjects since a tag.
pub fn log_command(last_tag: Option<&str>) -> (r: GitCommand)
    ensures
        !r.ignore_failure,
        last_tag is None ==> args_view(r.args@) == seq![LOG@, SUBJECT_FORMAT@],
        last_tag matches Some(t) ==> args_view(r.args@) == seq![
            LOG@,
            t@ + RANGE_TO_HEAD@,
            SUBJECT_FORMAT@,
        ],
{
    let mut args: Vec<String> = Vec::new();
    args.push(owned(LOG));
    match last_tag {
        Some(t) => {
            let mut range = owned(t);
            range.append(RANGE_TO_HEAD);
            args.push(range);
        },
        None => {},
    }
    args.push(owned(SUBJECT_FORMAT));
    let r = command(args, false);
    assert(args_view(r.args@) =~= if last_tag is Some {
        seq![LOG@, last_tag->0@ + RANGE_TO_HEAD@, SUBJECT_FORMAT@]
    } else {
        seq![LOG@, SUBJECT_FORMAT@]
    });
    r
}

fn strip_trailing_cr(s: &str, from: usize, to: usize) -> (r: String)
    requires
        from <= to <= s@.len(),
    ensures
        r@ == strip_cr(s@.subrange(from as int, to as int)),
{
    if to > from && s.get_char(to - 1) == '\r' {
        let r = s.substring_char(from, to - 1).to_owned();
        assert(r@ =~= s@.subrange(from as int, to as int).drop_last());
        r
    } else {
        s.substring_char(from, to).to_owned()
    }
}

/// The commit subjects in the output of the log command, one per
/// non-empty line.
pub fn get_commits_since_tag(log_output: &str) -> (r: Vec<String>)
    ensures
        args_view(r@) == nonempty_lines_from(log_output@, 0),
{
    let s = log_output;
    let len = s.unicode_len();
    let mut out: Vec<String> = Vec::new();
    let mut i: usize = 0;
    while i < len
        invariant
            i <= len == s@.len(),
            args_view(out@) + nonempty_lines_from(s@, i as int) == nonempty_lines_from(s@, 0),
        decreases len - i,
    {
        let e = find_from(s, '\n', i);
        let l = strip_trailing_cr(s, i, e);
        let ghost before = args_view(out@);
        let ghost rest = if e < len {
            nonempty_lines_from(s@, e + 1)
        } else {
            Seq::<Seq<char>>::empty()
        };
        assert(nonempty_lines_from(s@, i as int) == if l@.len() > 0 {
            seq![l@] + rest
        } else {
            rest
        }) by {
            if e >= len {
                assert(nonempty_lines_from(s@, e + 1) =~= Seq::<Seq<char>>::empty());
            }
        }
        if l.unicode_len() > 0 {
            out.push(l);
            assert(args_view(out@) =~= before + seq![l@]);
        }
        if e >= len {
            assert(nonempty_lines_from(s@, len as int) =~= Seq::<Seq<char>>::empty());
            i = len;
        } else {
            i = e + 1;
        }
    }
    assert(nonempty_lines_from(s@, i as int) =~= Seq::<Seq<char>>::empty());
    assert(args_view(out@) =~= args_view(out@) + nonempty_lines_from(s@, i as int));
    out
}

/// The commands that stage `files` and record the release commit; none when
/// there is nothing to commit.
pub fn commit_changes(version: &str, files: &Vec<String>, commit_prefix: &str) -> (r: Vec<
    GitCommand,
>)
    ensures
        files@.len() == 0 ==> r@.len() == 0,
        files@.len() > 0 ==> commands_view(r@) == seq![
            must(seq![ADD@] + args_view(files@)),
            must(seq![COMMIT@, MESSAGE_FLAG@, release_message(commit_prefix@, version@)]),
        ],
{
    let mut r: Vec<GitCommand> = Vec::new();
    if files.len() == 0 {
        return r;
    }
    let mut add: Vec<String> = Vec::new();
    add.push(owned(ADD));
    let mut i: usize = 0;
    while i < files.len()
        invariant
            i <= files@.len(),
            args_view(add@) == seq![ADD@] + args_view(files@.subrange(0, i as int)),
        decreases files.len() - i,
    {
        let ghost old_add = args_view(add@);
        add.push(files[i].clone());
        assert(args_view(add@) =~= old_add.push(files@[i as int]@));
        assert(args_view(files@.subrange(0, i + 1)) =~= args_view(files@.subrange(0, i as int)).push(
            files@[i as int]@,
        ));
        assert(args_view(add@) =~= seq![ADD@] + args_view(files@.subrange(0, i + 1)));
        i = i + 1;
    }
    assert(files@.subrange(0, files@.len() as int) =~= files@);
    let mut message = owned(commit_prefix);
    message.append(TO);
    message.append(version);
    let mut commit: Vec<String> = Vec::new();
    commit.push(owned(COMMIT));
    commit.push(owned(MESSAGE_FLAG));
    commit.push(message);
    r.push(command(add, false));
    r.push(command(commit, false));
    assert(args_view(r@[1].args@) =~= seq![
        COMMIT@,
        MESSAGE_FLAG@,
        release_message(commit_prefix@, version@),
    ]);
    assert(commands_view(r@) =~= seq![
        must(seq![ADD@] + args_view(files@)),
        must(seq![COMMIT@, MESSAGE_FLAG@, release_message(commit_prefix@, version@)]),
    ]);
    r
}

/// The command that tags the release: annotated with `message` when one is
/// given, lightweight otherwise.
pub fn create_tag(version: &str, tag_prefix: &str, message: Option<&str>) -> (r: GitCommand)
    ensures
        !r.ignore_failure,
        message is None ==> args_view(r.args@) == seq![TAG@, tag_prefix@ + version@],
        message matches Some(m) ==> args_view(r.args@) == seq![
            TAG@,
            ANNOTATE_FLAG@,
            tag_prefix@ + version@,
            MESSAGE_FLAG@,
            m@,
        ],
{
    let mut name = owned(tag_prefix);
    name.append(version);
    let mut args: Vec<String> = Vec::new();
    args.push(owned(TAG));
    match message {
        Some(m) => {
            args.push(owned(ANNOTATE_FLAG));
            args.push(name);
            args.push(owned(MESSAGE_FLAG));
            args.push(owned(m));
        },
        None => {
            args.push(name);
        },
    }
    let r = command(args, false);
    assert(args_view(r.args@) =~= if message is Some {
        seq![TAG@, ANNOTATE_FLAG@, tag_prefix@ + version@, MESSAGE_FLAG@, message->0@]
    } else {
        seq![TAG@, tag_prefix@ + version@]
    });
    r
}

/// The commands that set the committer identity, for each part that the
/// repository does not already set.
pub fn set_git_config(
    user_name: &str,
    user_email: &str,
    name_set_locally: bool,
    email_set_locally: bool,
) -> (r: Vec<GitCommand>)
    ensures
        commands_view(r@) == (if name_set_locally {
            Seq::empty()
        } else {
            seq![must(seq![CONFIG@, USER_NAME@, user_name@])]
        }) + (if email_set_locally {
            Seq::empty()
        } else {
            seq![must(seq![CONFIG@, USER_EMAIL@, user_email@])]
        }),
{
    let mut r: Vec<GitCommand> = Vec::new();
    if !name_set_locally {
        let mut args: Vec<String> = Vec::new();
        args.push(owned(CONFIG));
        args.push(owned(USER_NAME));
        args.push(owned(user_name));
        r.push(command(args, false));
        assert(args_view(r@[0].args@) =~= seq![CONFIG@, USER_NAME@, user_name@]);
    }
    let ghost first = commands_view(r@);
    if !email_set_locally {
        let mut args: Vec<String> = Vec::new();
        args.push(owned(CONFIG));
        args.push(owned(USER_EMAIL));
        args.push(owned(user_email));
        r.push(command(args, false));
        assert(args_view(r@.last().args@) =~= seq![CONFIG@, USER_EMAIL@, user_email@]);
        assert(commands_view(r@) =~= first.push(must(seq![CONFIG@, USER_EMAIL@, user_email@])));
    }
    assert(commands_view(r@) =~= (if name_set_locally {
        Seq::empty()
    } else {
        seq![must(seq![CONFIG@, USER_NAME@, user_name@])]
    }) + (if email_set_locally {
        Seq::empty()
    } else {
        seq![must(seq![CONFIG@, USER_EMAIL@, user_email@])]
    }));
    r
}

fn push_commands(force_tags: bool) -> (r: Vec<GitCommand>)
    ensures
        !force_tags ==> commands_view(r@) == seq![must(seq![PUSH@]), must(seq![PUSH@, TAGS_FLAG@])],
        force_tags ==> commands_view(r@) == seq![
            must(seq![PUSH@]),
            must(seq![PUSH@, TAGS_FLAG@, FORCE_FLAG@]),
        ],
{
    let mut first: Vec<String> = Vec::new();
    first.push(owned(PUSH));
    let mut second: Vec<String> = Vec::new();
    second.push(owned(PUSH));
    second.push(owned(TAGS_FLAG));
    if force_tags {
        second.push(owned(FORCE_FLAG));
    }
    let mut r: Vec<GitCommand> = Vec::new();
    r.push(command(first, false));
    r.push(command(second, false));
    assert(args_view(r@[0].args@) =~= seq![PUSH@]);
    if force_tags {
        assert(args_view(r@[1].args@) =~= seq![PUSH@, TAGS_FLAG@, FORCE_FLAG@]);
        assert(commands_view(r@) =~= seq![
            must(seq![PUSH@]),
            must(seq![PUSH@, TAGS_FLAG@, FORCE_FLAG@]),
        ]);
    } else {
        assert(args_view(r@[1].args@) =~= seq![PUSH@, TAGS_FLAG@]);
        assert(commands_view(r@) =~= seq![must(seq![PUSH@]), must(seq![PUSH@, TAGS_FLAG@])]);
    }
    r
}

/// The commands that push commits and then tags.
pub fn push() -> (r: Vec<GitCommand>)
    ensures
        commands_view(r@) == seq![must(seq![PUSH@]), must(seq![PUSH@, TAGS_FLAG@])],
{
    push_commands(false)
}

/// The commands that push commits and then force-push tags, so that moved
/// tags follow on the remote.
pub fn push_with_force_tags() -> (r: Vec<GitCommand>)
    ensures
        commands_view(r@) == seq![
            must(seq![PUSH@]),
            must(seq![PUSH@, TAGS_FLAG@, FORCE_FLAG@]),
        ],
{
    push_commands(true)
}

/// The name of the major tag of a version, `<prefix><major>`.
pub open spec fn major_tag(v: Version, prefix: Seq<char>) -> Seq<char> {
    prefix + digits_of(v.major as nat)
}

/// The name of the minor tag of a version, `<prefix><major>.<minor>`.
pub open spec fn minor_tag(v: Version, prefix: Seq<char>) -> Seq<char> {
    prefix + digits_of(v.major as nat) + DOT@ + digits_of(v.minor as nat)
}

/// The two commands that move tag `name` to the current commit: delete it,
/// ignoring a failure when it does not exist, then create it.
pub open spec fn move_tag(name: Seq<char>) -> Seq<(Seq<Seq<char>>, bool)> {
    seq![(seq![TAG@, DELETE_FLAG@, name], true), must(seq![TAG@, name])]
}

fn push_move_tag(r: &mut Vec<GitCommand>, name: &String)
    ensures
        commands_view(final(r)@) == commands_view(old(r)@) + move_tag(name@),
{
    let mut del: Vec<String> = Vec::new();
    del.push(owned(TAG));
    del.push(owned(DELETE_FLAG));
    del.push(name.clone());
    let mut create: Vec<String> = Vec::new();
    create.push(owned(TAG));
    create.push(name.clone());
    let ghost before = commands_view(r@);
    r.push(command(del, true));
    r.push(command(create, false));
    assert(args_view(del@) =~= seq![TAG@, DELETE_FLAG@, name@]);
    assert(args_view(create@) =~= seq![TAG@, name@]);
    assert(commands_view(r@) =~= before + move_tag(name@));
}

/// The commands that point the major and/or minor tag of `version` at the
/// current commit.
pub fn update_movable_tags(
    version: &Version,
    tag_prefix: &str,
    update_major: bool,
    update_minor: bool,
) -> (r: Vec<GitCommand>)
    ensures
        commands_view(r@) == (if update_major {
            move_tag(major_tag(*version, tag_prefix@))
        } else {
            Seq::empty()
        }) + (if update_minor {
            move_tag(minor_tag(*version, tag_prefix@))
        } else {
            Seq::empty()
        }),
{
    let mut r: Vec<GitCommand> = Vec::new();
    if update_major {
        let mut name = owned(tag_prefix);
        push_decimal(&mut name, version.major);
        push_move_tag(&mut r, &name);
    }
    let ghost first = commands_view(r@);
    if update_minor {
        let mut name = owned(tag_prefix);
        push_decimal(&mut name, version.major);
        name.append(DOT);
        push_decimal(&mut name, version.minor);
        push_move_tag(&mut r, &name);
    }
    assert(commands_view(r@) =~= (if update_major {
        move_tag(major_tag(*version, tag_prefix@))
    } else {
        Seq::empty()
    }) + (if update_minor {
        move_tag(minor_tag(*version, tag_prefix@))
    } else {
        Seq::empty()
    }));
    r
}

} // verus!
