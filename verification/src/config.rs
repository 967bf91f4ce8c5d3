//! The per-repository configuration (`.wtconfig.toml`) and branch naming.

use vstd::prelude::*;
use vstd::string::*;

use crate::text::{
    find_char, join, join_strings, lemma_find_char_bound, lemma_join_push, lemma_join_split, lines, split, strip_cr,
    views,
};

verus! {

/// The settings of `.wtconfig.toml`; each is optional.
pub struct WtConfig {
    pub branch_prefix: Option<Vec<String>>,
    pub symlink_files: Option<Vec<String>>,
    pub post_create_commands: Option<Vec<String>>,
}

impl Default for WtConfig {
    /// A configuration that sets nothing (what a missing file means).
    fn default() -> (c: Self)
        ensures
            c.branch_prefix is None,
            c.symlink_files is None,
            c.post_create_commands is None,
    {
        WtConfig { branch_prefix: None, symlink_files: None, post_create_commands: None }
    }
}

/// The text that `wt config init` writes.
pub const CONFIG_TEMPLATE: &'static str = "\
# wt — Git Worktree Manager configuration
#
# Branch prefix segments, joined with '/'.
# Example: [\"chnn\"] produces branches like \"chnn/my-feature\"
# Example: [\"team\", \"chnn\"] produces \"team/chnn/my-feature\"
#
# branch_prefix = [\"chnn\"]

# Files to symlink from the root worktree into new worktrees.
# Useful for editor configs, environment files, etc.
#
# symlink_files = [\".env\", \".idea\"]

# Shell commands to run in each new worktree after creation.
# Commands run in order and stop on the first failure.
#
# post_create_commands = [\"npm install\", \"npm run build\"]
";

/// The commented template of `.wtconfig.toml`.
pub fn config_template() -> (t: &'static str)
    ensures
        t@ == CONFIG_TEMPLATE@,
{
    CONFIG_TEMPLATE
}

/// The views of an optional list of strings.
pub open spec fn opt_views(o: Option<Vec<String>>) -> Option<Seq<Seq<char>>> {
    match o {
        Some(v) => Some(views(v@)),
        None => None,
    }
}

/// The branch for `slug`: the prefix segments and the slug joined with `/`,
/// or the slug alone when there are no segments.
pub open spec fn branch_name(prefix: Option<Seq<Seq<char>>>, slug: Seq<char>) -> Seq<char> {
    match prefix {
        Some(segments) => if segments.len() > 0 {
            join(segments.push(slug), "/"@)
        } else {
            slug
        },
        None => slug,
    }
}

/// The name of the branch that `wt new` creates for `slug`.
pub fn format_branch_name(prefix: &Option<Vec<String>>, slug: &str) -> (name: String)
    ensures
        name@ == branch_name(opt_views(*prefix), slug@),
{
    match prefix {
        Some(segments) => {
            if segments.len() > 0 {
                let mut name = join_strings(segments, "/");
                name.append("/");
                name.append(slug);
                proof {
                    lemma_join_push(views(segments@), "/"@, slug@);
                }
                name
            } else {
                String::from_str(slug)
            }
        },
        None => String::from_str(slug),
    }
}

/// A prefix given as `a/b/...` names the branch `a/b/.../slug`: splitting the
/// prefix at `/` and joining the segments and the slug with `/` puts the
/// prefix back in front of the slug unchanged.
pub proof fn lemma_prefix_text_gives_branch(prefix: Seq<char>, slug: Seq<char>)
    ensures
        branch_name(Some(split(prefix, '/')), slug) == prefix + "/"@ + slug,
{
    crate::text::lemma_split_pieces(prefix, '/');
    lemma_join_push(split(prefix, '/'), "/"@, slug);
    lemma_join_split(prefix, '/');
    assert(seq!['/'] =~= "/"@) by {
        reveal_strlit("/");
    }
}

/// A line that is empty or a `#` comment (toml reads nothing from it).
pub open spec fn is_comment_or_blank(line: Seq<char>) -> bool {
    line.len() == 0 || line[0] == '#'
}

/// Every character that begins a line is `#` or the line break itself.
pub open spec fn lines_begin_with_comments(s: Seq<char>) -> bool {
    forall|i: int|
        0 <= i < s.len() && (i == 0 || s[i - 1] == '\n') ==> (#[trigger] s[i] == '#' || s[i] == '\n')
}

proof fn lemma_comment_tail(s: Seq<char>, k: int)
    requires
        lines_begin_with_comments(s),
        0 <= k < s.len(),
        s[k] == '\n',
    ensures
        lines_begin_with_comments(s.skip(k + 1)),
{
    let t = s.skip(k + 1);
    assert forall|i: int| 0 <= i < t.len() && (i == 0 || t[i - 1] == '\n') implies (#[trigger] t[i] == '#'
        || t[i] == '\n') by {
        assert(t[i] == s[k + 1 + i]);
        if i > 0 {
            assert(t[i - 1] == s[k + i]);
        }
        assert(s[k + 1 + i - 1] == '\n');
    }
}

proof fn lemma_comment_lines(s: Seq<char>)
    requires
        lines_begin_with_comments(s),
    ensures
        forall|k: int| 0 <= k < lines(s).len() ==> is_comment_or_blank(#[trigger] lines(s)[k]),
    decreases s.len(),
{
    if s.len() > 0 {
        let k = find_char(s, '\n');
        lemma_find_char_bound(s, '\n');
        assert(s[0] == '#' || s[0] == '\n');
        if k < s.len() {
            let t = s.skip(k + 1 as int);
            lemma_comment_tail(s, k as int);
            lemma_comment_lines(t);
            let first = strip_cr(s.take(k as int));
            assert(is_comment_or_blank(first)) by {
                if first.len() > 0 {
                    assert(first[0] == s[0]);
                }
            }
            let ls = lines(s);
            assert(ls == seq![first] + lines(t));
            assert forall|j: int| 0 <= j < ls.len() implies is_comment_or_blank(#[trigger] ls[j]) by {
                if j > 0 {
                    assert(ls[j] == lines(t)[j - 1]);
                }
            }
        } else {
            assert(lines(s) == seq![s]);
        }
    }
}

/// The template sets nothing: each of its lines is blank or a `#` comment,
/// so that a configuration written by `wt config init` means the defaults.
pub proof fn lemma_template_is_all_comments()
    ensures
        forall|k: int|
            0 <= k < lines(CONFIG_TEMPLATE@).len() ==> is_comment_or_blank(#[trigger] lines(CONFIG_TEMPLATE@)[k]),
{
    reveal_strlit("\
# wt — Git Worktree Manager configuration
#
# Branch prefix segments, joined with '/'.
# Example: [\"chnn\"] produces branches like \"chnn/my-feature\"
# Example: [\"team\", \"chnn\"] produces \"team/chnn/my-feature\"
#
# branch_prefix = [\"chnn\"]

# Files to symlink from the root worktree into new worktrees.
# Useful for editor configs, environment files, etc.
#
# symlink_files = [\".env\", \".idea\"]

# Shell commands to run in each new worktree after creation.
# Commands run in order and stop on the first failure.
#
# post_create_commands = [\"npm install\", \"npm run build\"]
");
    assert(lines_begin_with_comments(CONFIG_TEMPLATE@));
    lemma_comment_lines(CONFIG_TEMPLATE@);
}

} // verus!
