//! `wt config init`: write the configuration template into the root
//! worktree and keep it out of git through `.git/info/exclude`.

use vstd::prelude::*;
use vstd::string::*;

use crate::context::Context;
use crate::error::WtError;
use crate::paths::{join, path_join};
use crate::text::{
    chars_of, equals_at, lemma_find_char, lemma_lines_concat, lines, next_line, strip_cr, trim, trim_end,
    trim_start, trimmed_bounds,
};

verus! {

/// What `wt config init` does once it knows that no configuration is there.
pub struct ConfigInitPlan {
    /// Where the template goes; an error when something is there already.
    pub config_path: String,
    /// The file of git's local ignore rules.
    pub exclude_path: String,
    pub write_description: String,
    pub exclude_description: String,
    /// Printed at the end.
    pub initialized_message: String,
}

/// Plans `wt config init` in the repository of `ctx`.
pub fn run(ctx: &Context) -> (plan: ConfigInitPlan)
    ensures
        plan.config_path@ == path_join(ctx.root_worktree@, ".wtconfig.toml"@),
        plan.exclude_path@ == path_join(ctx.root_worktree@, ".git/info/exclude"@),
        plan.write_description@ == "write .wtconfig.toml"@,
        plan.exclude_description@ == "add .wtconfig.toml to .git/info/exclude"@,
        plan.initialized_message@ == "Initialized .wtconfig.toml in "@ + ctx.root_worktree@,
{
    let mut initialized_message = String::from_str("Initialized .wtconfig.toml in ");
    initialized_message.append(ctx.root_worktree.as_str());
    ConfigInitPlan {
        config_path: join(ctx.root_worktree.as_str(), ".wtconfig.toml"),
        exclude_path: join(ctx.root_worktree.as_str(), ".git/info/exclude"),
        write_description: String::from_str("write .wtconfig.toml"),
        exclude_description: String::from_str("add .wtconfig.toml to .git/info/exclude"),
        initialized_message,
    }
}

/// `wt config init` stops when a configuration is already in place.
pub fn refuse_existing_config(path: &str, exists: bool) -> (r: Result<(), WtError>)
    ensures
        r is Ok <==> !exists,
        r matches Err(e) ==> (e matches WtError::ConfigExists { path: p } && p@ == path@),
{
    if exists {
        Err(WtError::ConfigExists { path: String::from_str(path) })
    } else {
        Ok(())
    }
}

/// Some line, trimmed, is `.wtconfig.toml`.
pub open spec fn lists_config(ls: Seq<Seq<char>>) -> bool
    decreases ls.len(),
{
    ls.len() > 0 && (trim(ls[0]) == ".wtconfig.toml"@ || lists_config(ls.drop_first()))
}

/// The exclude file needs the entry unless it exists and already lists it.
pub open spec fn needs_entry(existing: Option<Seq<char>>) -> bool {
    match existing {
        Some(contents) => !lists_config(lines(contents)),
        None => true,
    }
}

/// Whether `.wtconfig.toml` must be appended to the exclude file, given its
/// contents (`None` when it does not exist).
pub fn needs_exclude_entry(existing: Option<&str>) -> (b: bool)
    ensures
        b == needs_entry(match existing {
            Some(c) => Some(c@),
            None => None,
        }),
{
    let contents = match existing {
        Some(c) => c,
        None => return true,
    };
    let chars = chars_of(contents);
    let n = chars.len();
    let mut pos: usize = 0;
    proof {
        assert(chars@.skip(0) =~= chars@);
    }
    while pos < n
        invariant
            n == chars@.len(),
            chars@ == contents@,
            existing == Some(contents),
            pos <= n,
            lists_config(lines(contents@)) == lists_config(lines(chars@.skip(pos as int))),
        decreases n - pos,
    {
        let (end, next) = next_line(&chars, pos);
        let ghost line = chars@.subrange(pos as int, end as int);
        let ghost rest = lines(chars@.skip(next as int));
        let (a, b) = trimmed_bounds(&chars, pos, end);
        proof {
            assert((seq![line] + rest)[0] == line);
            assert((seq![line] + rest).drop_first() =~= rest);
        }
        if equals_at(&chars, a, b, ".wtconfig.toml") {
            return false;
        }
        pos = next;
    }
    proof {
        assert(chars@.skip(n as int) =~= Seq::<char>::empty());
    }
    true
}

proof fn lemma_lists_config_concat(a: Seq<Seq<char>>, b: Seq<Seq<char>>)
    ensures
        lists_config(a + b) == (lists_config(a) || lists_config(b)),
    decreases a.len(),
{
    if a.len() == 0 {
        assert(a + b =~= b);
    } else {
        lemma_lists_config_concat(a.drop_first(), b);
        assert((a + b).drop_first() =~= a.drop_first() + b);
        assert((a + b)[0] == a[0]);
    }
}

proof fn lemma_lists_config_index(ls: Seq<Seq<char>>)
    ensures
        lists_config(ls) <==> exists|k: int| 0 <= k < ls.len() && trim(ls[k]) == ".wtconfig.toml"@,
    decreases ls.len(),
{
    if ls.len() > 0 {
        let rest = ls.drop_first();
        lemma_lists_config_index(rest);
        if lists_config(ls) && trim(ls[0]) != ".wtconfig.toml"@ {
            let k = choose|k: int| 0 <= k < rest.len() && trim(rest[k]) == ".wtconfig.toml"@;
            assert(ls[k + 1] == rest[k]);
        }
        if exists|k: int| 0 <= k < ls.len() && trim(ls[k]) == ".wtconfig.toml"@ {
            let k = choose|k: int| 0 <= k < ls.len() && trim(ls[k]) == ".wtconfig.toml"@;
            if k > 0 {
                assert(rest[k - 1] == ls[k]);
            }
        }
    }
}

/// The exclude file needs the entry exactly when it does not exist or none
/// of its lines, trimmed, is `.wtconfig.toml`; a last line counts whether or
/// not a line break ends it.
pub proof fn lemma_entry_needed_unless_listed(contents: Seq<char>)
    ensures
        needs_entry(None),
        !needs_entry(Some(contents)) <==> exists|k: int|
            0 <= k < lines(contents).len() && trim(lines(contents)[k]) == ".wtconfig.toml"@,
{
    lemma_lists_config_index(lines(contents));
}

/// A line that, trimmed, is `.wtconfig.toml` and stands last in the exclude
/// rules without a line break after it still lists the entry: nothing more is
/// appended.
pub proof fn lemma_unterminated_entry_listed(before: Seq<char>, line: Seq<char>)
    requires
        before.len() == 0 || before.last() == '\n',
        forall|j: int| 0 <= j < line.len() ==> line[j] != '\n',
        trim(line) == ".wtconfig.toml"@,
    ensures
        !needs_entry(Some(before + line)),
{
    reveal_strlit(".wtconfig.toml");
    if line.len() == 0 {
        assert(trim_start(line) == line);
        assert(trim(line) == line);
        assert(false);
    }
    lemma_lines_concat(before, line);
    lemma_find_char(line, '\n', line.len() as int);
    assert(lines(line) == seq![line]);
    let ls = lines(before) + seq![line];
    assert(ls[lines(before).len() as int] == line);
    lemma_lists_config_index(ls);
}

/// The exclude entry is added at most once: once `.wtconfig.toml` and a line
/// break are appended to exclude rules that end with a line break (or are
/// empty), they list the entry and nothing more is appended.
pub proof fn lemma_exclude_entry_added_once(contents: Seq<char>)
    requires
        contents.len() == 0 || contents.last() == '\n',
    ensures
        !needs_entry(Some(contents + ".wtconfig.toml\n"@)),
{
    let entry = ".wtconfig.toml\n"@;
    let name = ".wtconfig.toml"@;
    reveal_strlit(".wtconfig.toml\n");
    reveal_strlit(".wtconfig.toml");
    lemma_lines_concat(contents, entry);
    assert(entry.len() == 15);
    assert forall|j: int| 0 <= j < 14 implies entry[j] != '\n' by {
    }
    lemma_find_char(entry, '\n', 14);
    assert(entry.take(14) =~= name);
    assert(entry.skip(15) =~= Seq::<char>::empty());
    assert(strip_cr(name) == name);
    assert(lines(entry.skip(15)) =~= Seq::<Seq<char>>::empty());
    assert(lines(entry) == seq![strip_cr(entry.take(14))] + lines(entry.skip(15)));
    assert(lines(entry) =~= seq![name]);
    assert(trim_start(name) == name);
    assert(trim_end(name) == name);
    assert(lists_config(seq![name]));
    lemma_lists_config_concat(lines(contents), lines(entry));
}

} // verus!
