//! `wt list`: the slugs of the repository's worktrees.

use vstd::prelude::*;
use vstd::string::*;

use crate::git::{WorktreeEntry, WorktreeInfo, entry_views};
use crate::paths::{file_name, path_file_name};
use crate::text::{chars_of, has_prefix_at, strip_prefix, substring, views};

verus! {

/// The slug of the worktree at `path`: its directory name after `<repo>-`,
/// if the name begins so.
pub open spec fn worktree_slug(path: Seq<char>, repo: Seq<char>) -> Option<Seq<char>> {
    match path_file_name(path) {
        Some(name) => strip_prefix(name, repo + "-"@),
        None => None,
    }
}

/// The slugs of the worktrees that have one, in the order of the listing.
pub open spec fn listed_slugs(entries: Seq<WorktreeEntry>, repo: Seq<char>) -> Seq<Seq<char>>
    decreases entries.len(),
{
    if entries.len() == 0 {
        Seq::empty()
    } else {
        match worktree_slug(entries[0].path, repo) {
            Some(slug) => seq![slug] + listed_slugs(entries.drop_first(), repo),
            None => listed_slugs(entries.drop_first(), repo),
        }
    }
}

proof fn lemma_filter_map_front<A, B>(s: Seq<A>, f: spec_fn(A) -> Option<B>)
    requires
        s.len() > 0,
    ensures
        s.filter_map(f) == match f(s[0]) {
            Some(x) => seq![x] + s.drop_first().filter_map(f),
            None => s.drop_first().filter_map(f),
        },
    decreases s.len(),
{
    if s.len() == 1 {
        assert(s.drop_last() =~= Seq::<A>::empty());
        assert(s.drop_first() =~= Seq::<A>::empty());
        assert(s.drop_first().filter_map(f) =~= Seq::<B>::empty());
    } else {
        let d = s.drop_last();
        lemma_filter_map_front(d, f);
        assert(d.drop_first() =~= s.drop_first().drop_last());
        assert(s.drop_first().last() == s.last());
        assert(d[0] == s[0]);
        match f(s[0]) {
            Some(x) => {
                assert(s.filter_map(f) =~= seq![x] + s.drop_first().filter_map(f));
            },
            None => {
                assert(s.filter_map(f) =~= s.drop_first().filter_map(f));
            },
        }
    }
}

/// `wt list` shows the slug of every worktree whose directory is named
/// `<repo>-<slug>`, each once and in the order of the listing, and nothing
/// else: the listed slugs are the listing's entries mapped to their slugs,
/// those without one left out.
pub proof fn lemma_lists_every_slug(entries: Seq<WorktreeEntry>, repo: Seq<char>)
    ensures
        listed_slugs(entries, repo) == entries.filter_map(|e: WorktreeEntry| worktree_slug(e.path, repo)),
    decreases entries.len(),
{
    let f = |e: WorktreeEntry| worktree_slug(e.path, repo);
    if entries.len() == 0 {
        assert(entries.filter_map(f) =~= Seq::<Seq<char>>::empty());
    } else {
        lemma_lists_every_slug(entries.drop_first(), repo);
        lemma_filter_map_front(entries, f);
    }
}

/// The slug of the worktree at `path`, if it has one.
pub fn slug_of(path: &str, repo_name: &str) -> (slug: Option<String>)
    ensures
        match slug {
            Some(s) => worktree_slug(path@, repo_name@) == Some(s@),
            None => worktree_slug(path@, repo_name@) is None,
        },
{
    let name = match file_name(path) {
        Some(n) => n,
        None => return None,
    };
    let mut prefix = String::from_str(repo_name);
    prefix.append("-");
    let chars = chars_of(name.as_str());
    let n = chars.len();
    proof {
        assert(chars@.subrange(0, n as int) =~= name@);
    }
    if has_prefix_at(&chars, 0, n, prefix.as_str()) {
        let k = prefix.as_str().unicode_len();
        let s = substring(name.as_str(), k, n);
        proof {
            assert(s@ =~= name@.skip(k as int));
        }
        Some(s)
    } else {
        None
    }
}

/// The slugs that `wt list` prints, one per line, for the worktrees of the
/// repository named `repo_name`.
pub fn run(worktrees: &[WorktreeInfo], repo_name: &str) -> (slugs: Vec<String>)
    ensures
        views(slugs@) == listed_slugs(entry_views(worktrees@), repo_name@),
{
    let mut slugs: Vec<String> = Vec::new();
    let mut i: usize = 0;
    proof {
        assert(entry_views(worktrees@).skip(0) =~= entry_views(worktrees@));
    }
    while i < worktrees.len()
        invariant
            i <= worktrees@.len(),
            views(slugs@) + listed_slugs(entry_views(worktrees@).skip(i as int), repo_name@)
                == listed_slugs(entry_views(worktrees@), repo_name@),
        decreases worktrees@.len() - i,
    {
        let ghost rest = entry_views(worktrees@).skip(i as int);
        proof {
            assert(rest[0] == worktrees@[i as int]@);
            assert(rest.drop_first() =~= entry_views(worktrees@).skip(i + 1));
        }
        match slug_of(worktrees[i].path.as_str(), repo_name) {
            Some(s) => {
                let ghost before = slugs@;
                let ghost sv = s@;
                slugs.push(s);
                proof {
                    assert(views(slugs@) =~= views(before).push(sv));
                    assert(views(before).push(sv) + listed_slugs(rest.drop_first(), repo_name@)
                        =~= views(before) + (seq![sv] + listed_slugs(rest.drop_first(), repo_name@)));
                }
            },
            None => {},
        }
        i = i + 1;
    }
    proof {
        assert(entry_views(worktrees@).skip(i as int) =~= Seq::<WorktreeEntry>::empty());
        assert(views(slugs@) + Seq::<Seq<char>>::empty() =~= views(slugs@));
    }
    slugs
}

} // verus!
