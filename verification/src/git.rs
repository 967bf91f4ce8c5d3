//! What `wt` reads from and hands to git: the porcelain worktree listing,
//! the detection of the main branch, and the argument lists of git commands.

use vstd::prelude::*;
use vstd::string::*;

use crate::error::WtError;
use crate::paths::{file_name, path_file_name};
use crate::text::{
    chars_of, equals_at, find_char, has_prefix, has_prefix_at, lemma_find_char_bound, lemma_lines_concat, lines, next_line,
    strip_cr, strip_prefix, substring, views,
};

verus! {

/// One entry of `git worktree list --porcelain`.
pub struct WorktreeInfo {
    pub path: String,
    pub branch: Option<String>,
    pub is_bare: bool,
}

/// The mathematical value of a [`WorktreeInfo`].
pub struct WorktreeEntry {
    pub path: Seq<char>,
    pub branch: Option<Seq<char>>,
    pub is_bare: bool,
}

pub open spec fn opt_view(o: Option<String>) -> Option<Seq<char>> {
    match o {
        Some(s) => Some(s@),
        None => None,
    }
}

impl View for WorktreeInfo {
    type V = WorktreeEntry;

    open spec fn view(&self) -> WorktreeEntry {
        WorktreeEntry { path: self.path@, branch: opt_view(self.branch), is_bare: self.is_bare }
    }
}

pub open spec fn entry_views(list: Seq<WorktreeInfo>) -> Seq<WorktreeEntry> {
    list.map_values(|w: WorktreeInfo| w@)
}

// ---------------------------------------------------------------------------
// The porcelain listing.
/// What the parser has gathered after some lines.
pub struct ListingState {
    pub entries: Seq<WorktreeEntry>,
    pub path: Option<Seq<char>>,
    pub branch: Option<Seq<char>>,
    pub is_bare: bool,
}

pub open spec fn initial_listing_state() -> ListingState {
    ListingState { entries: Seq::empty(), path: None, branch: None, is_bare: false }
}

/// The entries gathered so far, with the open one closed.
pub open spec fn close_entry(st: ListingState) -> Seq<WorktreeEntry> {
    match st.path {
        Some(p) => st.entries.push(WorktreeEntry { path: p, branch: st.branch, is_bare: st.is_bare }),
        None => st.entries,
    }
}

/// A branch line's value: the short name when it is under `refs/heads/`.
pub open spec fn short_branch(r: Seq<char>) -> Seq<char> {
    match strip_prefix(r, "refs/heads/"@) {
        Some(b) => b,
        None => r,
    }
}

/// One line of the listing: `worktree <path>` opens an entry (closing the
/// previous one), `branch <ref>` and `bare` describe the open entry, and any
/// other line is ignored.
pub open spec fn listing_step(st: ListingState, line: Seq<char>) -> ListingState {
    match strip_prefix(line, "worktree "@) {
        Some(p) => ListingState {
            entries: close_entry(st),
            path: Some(p),
            branch: None,
            is_bare: false,
        },
        None => match strip_prefix(line, "branch "@) {
            Some(r) => ListingState {
                entries: st.entries,
                path: st.path,
                branch: Some(short_branch(r)),
                is_bare: st.is_bare,
            },
            None => if line == "bare"@ {
                ListingState { entries: st.entries, path: st.path, branch: st.branch, is_bare: true }
            } else {
                st
            },
        },
    }
}

pub open spec fn listing_steps(st: ListingState, ls: Seq<Seq<char>>) -> ListingState
    decreases ls.len(),
{
    if ls.len() == 0 {
        st
    } else {
        listing_steps(listing_step(st, ls[0]), ls.drop_first())
    }
}

/// The worktrees that a porcelain listing describes, in order.
pub open spec fn worktree_list(output: Seq<char>) -> Seq<WorktreeEntry> {
    close_entry(listing_steps(initial_listing_state(), lines(output)))
}

/// How many of the lines open an entry (begin with `worktree `).
pub open spec fn count_worktree_lines(ls: Seq<Seq<char>>) -> nat
    decreases ls.len(),
{
    if ls.len() == 0 {
        0
    } else {
        (if has_prefix(ls[0], "worktree "@) { 1nat } else { 0nat }) + count_worktree_lines(ls.drop_first())
    }
}

proof fn lemma_steps_count(st: ListingState, ls: Seq<Seq<char>>)
    ensures
        close_entry(listing_steps(st, ls)).len() == close_entry(st).len() + count_worktree_lines(ls),
    decreases ls.len(),
{
    if ls.len() > 0 {
        let next = listing_step(st, ls[0]);
        lemma_steps_count(next, ls.drop_first());
        if has_prefix(ls[0], "worktree "@) {
            assert(close_entry(next).len() == close_entry(st).len() + 1);
        } else {
            assert(close_entry(next).len() == close_entry(st).len());
        }
    }
}

/// The listing describes one worktree per `worktree <path>` line, whatever
/// else it holds: a line of any other kind never opens or drops an entry.
pub proof fn lemma_one_entry_per_worktree_line(output: Seq<char>)
    ensures
        worktree_list(output).len() == count_worktree_lines(lines(output)),
{
    lemma_steps_count(initial_listing_state(), lines(output));
}

/// `st` with `prefix` before its closed entries.
pub open spec fn with_entries_before(prefix: Seq<WorktreeEntry>, st: ListingState) -> ListingState {
    ListingState { entries: prefix + st.entries, path: st.path, branch: st.branch, is_bare: st.is_bare }
}

proof fn lemma_steps_with_entries_before(prefix: Seq<WorktreeEntry>, st: ListingState, ls: Seq<Seq<char>>)
    ensures
        listing_steps(with_entries_before(prefix, st), ls) == with_entries_before(prefix, listing_steps(st, ls)),
    decreases ls.len(),
{
    if ls.len() > 0 {
        let shifted = with_entries_before(prefix, st);
        assert(close_entry(shifted) =~= prefix + close_entry(st));
        assert(listing_step(shifted, ls[0]) =~= with_entries_before(prefix, listing_step(st, ls[0])));
        lemma_steps_with_entries_before(prefix, listing_step(st, ls[0]), ls.drop_first());
    }
}

proof fn lemma_steps_concat(st: ListingState, l1: Seq<Seq<char>>, l2: Seq<Seq<char>>)
    ensures
        listing_steps(st, l1 + l2) == listing_steps(listing_steps(st, l1), l2),
    decreases l1.len(),
{
    if l1.len() == 0 {
        assert(l1 + l2 =~= l2);
    } else {
        assert((l1 + l2).drop_first() =~= l1.drop_first() + l2);
        assert((l1 + l2)[0] == l1[0]);
        lemma_steps_concat(listing_step(st, l1[0]), l1.drop_first(), l2);
    }
}

proof fn lemma_first_line_opens_entry(b: Seq<char>)
    requires
        has_prefix(b, "worktree "@),
    ensures
        lines(b).len() > 0,
        has_prefix(lines(b)[0], "worktree "@),
{
    let w = "worktree "@;
    reveal_strlit("worktree ");
    let k = find_char(b, '\n');
    lemma_find_char_bound(b, '\n');
    assert forall|j: int| 0 <= j < 9 implies b[j] != '\n' by {
        assert(b[j] == w[j]);
    }
    if k < b.len() {
        assert(k >= 9);
        let first = b.take(k as int);
        assert(first.take(9) =~= w);
        if k == 9 {
            assert(first.last() == ' ');
            assert(strip_cr(first) == first);
        } else {
            assert(strip_cr(first).take(9) =~= w);
        }
        assert(lines(b)[0] == strip_cr(first));
    } else {
        assert(lines(b) == seq![b]);
    }
}

/// Listings put one after the other parse as the two listings in turn: where
/// the first ends with a line break (or is empty) and the second begins with
/// a `worktree` line (or is empty), the entries of the whole are those of the
/// first followed by those of the second.
pub proof fn lemma_listing_concat(a: Seq<char>, b: Seq<char>)
    requires
        a.len() == 0 || a.last() == '\n',
        b.len() == 0 || has_prefix(b, "worktree "@),
    ensures
        worktree_list(a + b) == worktree_list(a) + worktree_list(b),
{
    lemma_lines_concat(a, b);
    let init = initial_listing_state();
    let la = lines(a);
    let lb = lines(b);
    lemma_steps_concat(init, la, lb);
    let s = listing_steps(init, la);
    if b.len() == 0 {
        assert(lb =~= Seq::<Seq<char>>::empty());
        assert(worktree_list(b) =~= Seq::<WorktreeEntry>::empty());
        assert(worktree_list(a) + worktree_list(b) =~= worktree_list(a));
    } else {
        lemma_first_line_opens_entry(b);
        let e = close_entry(s);
        let first = listing_step(init, lb[0]);
        assert(close_entry(init) =~= Seq::<WorktreeEntry>::empty());
        assert(listing_step(s, lb[0]) =~= with_entries_before(e, first));
        lemma_steps_with_entries_before(e, first, lb.drop_first());
        let end = listing_steps(first, lb.drop_first());
        assert(listing_steps(init, lb) == end);
        assert(close_entry(with_entries_before(e, end)) =~= e + close_entry(end));
    }
}

spec fn exec_state(
    entries: Seq<WorktreeInfo>,
    path: Option<String>,
    branch: Option<String>,
    is_bare: bool,
) -> ListingState {
    ListingState {
        entries: entry_views(entries),
        path: opt_view(path),
        branch: opt_view(branch),
        is_bare,
    }
}

/// Parses the output of `git worktree list --porcelain`.
pub fn parse_worktree_list(output: &str) -> (entries: Vec<WorktreeInfo>)
    ensures
        entry_views(entries@) == worktree_list(output@),
{
    let chars = chars_of(output);
    let n = chars.len();
    let mut entries: Vec<WorktreeInfo> = Vec::new();
    let mut current_path: Option<String> = None;
    let mut current_branch: Option<String> = None;
    let mut is_bare = false;
    let mut pos: usize = 0;
    proof {
        assert(output@.skip(0) =~= output@);
        assert(entry_views(entries@) =~= Seq::<WorktreeEntry>::empty());
    }
    while pos < n
        invariant
            n == chars@.len(),
            chars@ == output@,
            pos <= n,
            listing_steps(
                exec_state(entries@, current_path, current_branch, is_bare),
                lines(output@.skip(pos as int)),
            ) == listing_steps(initial_listing_state(), lines(output@)),
        decreases n - pos,
    {
        let ghost st = exec_state(entries@, current_path, current_branch, is_bare);
        let (end, next) = next_line(&chars, pos);
        let ghost rest = lines(output@.skip(next as int));
        let ghost line = output@.subrange(pos as int, end as int);
        let wt_len = "worktree ".unicode_len();
        let br_len = "branch ".unicode_len();
        if has_prefix_at(&chars, pos, end, "worktree ") {
            let path = substring(output, pos + wt_len, end);
            proof {
                assert(path@ =~= line.skip(wt_len as int));
            }
            let prev_path = current_path;
            current_path = None;
            match prev_path {
                Some(p) => {
                    let info = WorktreeInfo { path: p, branch: current_branch, is_bare };
                    proof {
                        assert(entry_views(entries@.push(info)) =~= entry_views(entries@).push(info@));
                    }
                    entries.push(info);
                },
                None => {},
            }
            current_path = Some(path);
            current_branch = None;
            is_bare = false;
            proof {
                assert(exec_state(entries@, current_path, current_branch, is_bare) == listing_step(st, line));
            }
        } else if has_prefix_at(&chars, pos, end, "branch ") {
            let start = pos + br_len;
            let ghost r = line.skip(br_len as int);
            proof {
                assert(r =~= output@.subrange(start as int, end as int));
            }
            let heads_len = "refs/heads/".unicode_len();
            let branch = if has_prefix_at(&chars, start, end, "refs/heads/") {
                let b = substring(output, start + heads_len, end);
                proof {
                    assert(b@ =~= r.skip(heads_len as int));
                }
                b
            } else {
                substring(output, start, end)
            };
            current_branch = Some(branch);
            proof {
                assert(exec_state(entries@, current_path, current_branch, is_bare) == listing_step(st, line));
            }
        } else if equals_at(&chars, pos, end, "bare") {
            is_bare = true;
            proof {
                assert(exec_state(entries@, current_path, current_branch, is_bare) == listing_step(st, line));
            }
        } else {
            proof {
                assert(exec_state(entries@, current_path, current_branch, is_bare) == listing_step(st, line));
            }
        }
        proof {
            assert((seq![line] + rest).drop_first() =~= rest);
            assert((seq![line] + rest)[0] == line);
        }
        pos = next;
    }
    proof {
        assert(output@.skip(n as int) =~= Seq::<char>::empty());
    }
    match current_path {
        Some(p) => {
            let info = WorktreeInfo { path: p, branch: current_branch, is_bare };
            proof {
                assert(entry_views(entries@.push(info)) =~= entry_views(entries@).push(info@));
            }
            entries.push(info);
        },
        None => {},
    }
    entries
}

// ---------------------------------------------------------------------------
// The root worktree and the repository's name.
/// The path of the first entry that is not bare.
pub open spec fn first_checkout(entries: Seq<WorktreeEntry>) -> Option<Seq<char>>
    decreases entries.len(),
{
    if entries.len() == 0 {
        None
    } else if !entries[0].is_bare {
        Some(entries[0].path)
    } else {
        first_checkout(entries.drop_first())
    }
}

/// The root worktree: the first entry of the listing with a checkout, else
/// the top level that git reports, if it reports one.
pub open spec fn root_worktree(listing: Seq<char>, toplevel: Option<Seq<char>>) -> Option<Seq<char>> {
    match first_checkout(worktree_list(listing)) {
        Some(p) => Some(p),
        None => toplevel,
    }
}

proof fn lemma_first_checkout_at(entries: Seq<WorktreeEntry>, i: int)
    requires
        0 <= i < entries.len(),
        forall|j: int| 0 <= j < i ==> entries[j].is_bare,
        !entries[i].is_bare,
    ensures
        first_checkout(entries) == Some(entries[i].path),
    decreases i,
{
    if i > 0 {
        let rest = entries.drop_first();
        assert forall|j: int| 0 <= j < i - 1 implies rest[j].is_bare by {
            assert(rest[j] == entries[j + 1]);
        }
        assert(rest[i - 1] == entries[i]);
        lemma_first_checkout_at(rest, i - 1);
    }
}

proof fn lemma_no_checkout(entries: Seq<WorktreeEntry>)
    requires
        forall|j: int| 0 <= j < entries.len() ==> entries[j].is_bare,
    ensures
        first_checkout(entries) is None,
    decreases entries.len(),
{
    if entries.len() > 0 {
        let rest = entries.drop_first();
        assert forall|j: int| 0 <= j < rest.len() implies rest[j].is_bare by {
            assert(rest[j] == entries[j + 1]);
        }
        lemma_no_checkout(rest);
    }
}

/// The root worktree is the first worktree of the listing that has a
/// checkout: where the entries before the `i`-th are all bare and the `i`-th
/// is not, its path is the root (so a listing whose first entry is not bare
/// has that entry as its root, whatever follows); where every entry is bare,
/// the root is git's top level, if any.
pub proof fn lemma_root_is_first_checkout(listing: Seq<char>, toplevel: Option<Seq<char>>, i: int)
    ensures
        0 <= i < worktree_list(listing).len() && (forall|j: int|
            0 <= j < i ==> (#[trigger] worktree_list(listing)[j]).is_bare) && !worktree_list(listing)[i].is_bare
            ==> root_worktree(listing, toplevel) == Some(worktree_list(listing)[i].path),
        (forall|j: int| 0 <= j < worktree_list(listing).len() ==> (#[trigger] worktree_list(listing)[j]).is_bare)
            ==> root_worktree(listing, toplevel) == toplevel,
{
    let es = worktree_list(listing);
    if 0 <= i < es.len() && (forall|j: int| 0 <= j < i ==> (#[trigger] es[j]).is_bare) && !es[i].is_bare {
        lemma_first_checkout_at(es, i);
    }
    if forall|j: int| 0 <= j < es.len() ==> (#[trigger] es[j]).is_bare {
        lemma_no_checkout(es);
    }
}

/// Finds the root worktree from the output of `git worktree list --porcelain`,
/// falling back on the output of `git rev-parse --show-toplevel` (`None`
/// where that command failed or was not run).
pub fn root_worktree_path(listing: &str, toplevel: Option<&str>) -> (r: Result<String, WtError>)
    ensures
        match r {
            Ok(p) => root_worktree(listing@, opt_str_view(toplevel)) == Some(p@),
            Err(e) => root_worktree(listing@, opt_str_view(toplevel)) is None && e is NoRootWorktree,
        },
{
    let entries = parse_worktree_list(listing);
    let mut i: usize = 0;
    assert(entry_views(entries@).skip(0) =~= entry_views(entries@));
    while i < entries.len()
        invariant
            i <= entries@.len(),
            entry_views(entries@) == worktree_list(listing@),
            first_checkout(entry_views(entries@)) == first_checkout(entry_views(entries@).skip(i as int)),
        decreases entries@.len() - i,
    {
        let ghost rest = entry_views(entries@).skip(i as int);
        assert(rest[0] == entries@[i as int]@);
        assert(rest.drop_first() =~= entry_views(entries@).skip(i + 1));
        if !entries[i].is_bare {
            return Ok(entries[i].path.clone());
        }
        i = i + 1;
    }
    assert(entry_views(entries@).skip(i as int) =~= Seq::<WorktreeEntry>::empty());
    match toplevel {
        Some(t) => Ok(String::from_str(t)),
        None => Err(WtError::NoRootWorktree),
    }
}

pub open spec fn opt_str_view(o: Option<&str>) -> Option<Seq<char>> {
    match o {
        Some(s) => Some(s@),
        None => None,
    }
}

/// The repository's name: the last component of the root worktree's path
/// (empty when the path has none).
pub open spec fn spec_repo_name(root: Seq<char>) -> Seq<char> {
    match path_file_name(root) {
        Some(n) => n,
        None => Seq::empty(),
    }
}

/// The repository's name, taken from the root worktree's path.
pub fn repo_name(root: &str) -> (name: String)
    ensures
        name@ == spec_repo_name(root@),
{
    match file_name(root) {
        Some(n) => n,
        None => String::new(),
    }
}

// ---------------------------------------------------------------------------
// The main branch.
/// The branch that `refs/remotes/origin/HEAD` points at, read off the ref
/// that `git symbolic-ref` prints.
pub open spec fn origin_head_branch(symbolic_ref: Seq<char>) -> Option<Seq<char>> {
    strip_prefix(symbolic_ref, "refs/remotes/origin/"@)
}

/// The branch names tried, in order, when `origin/HEAD` says nothing.
pub open spec fn main_branch_candidates() -> Seq<Seq<char>> {
    seq!["main"@, "master"@, "trunk"@]
}

/// What to do next while looking for the main branch.
pub enum MainBranchStep {
    /// The main branch is found.
    Found(String),
    /// Ask git whether this ref exists (`git rev-parse --verify <ref>`).
    Verify(String),
    /// There is nothing left to try.
    NotFound,
}

/// The mathematical value of a [`MainBranchStep`].
pub enum MainBranchDecision {
    Found(Seq<char>),
    Verify(Seq<char>),
    NotFound,
}

impl View for MainBranchStep {
    type V = MainBranchDecision;

    open spec fn view(&self) -> MainBranchDecision {
        match self {
            MainBranchStep::Found(b) => MainBranchDecision::Found(b@),
            MainBranchStep::Verify(r) => MainBranchDecision::Verify(r@),
            MainBranchStep::NotFound => MainBranchDecision::NotFound,
        }
    }
}

/// The decision on the candidates from the `i`-th on, given the answers of
/// git on the first candidates (`probes[j]` for `origin/<candidate j>`).
pub open spec fn candidate_decision(probes: Seq<bool>, i: nat) -> MainBranchDecision
    decreases 3 - i,
{
    if i >= 3 {
        MainBranchDecision::NotFound
    } else if i >= probes.len() {
        MainBranchDecision::Verify("origin/"@ + main_branch_candidates()[i as int])
    } else if probes[i as int] {
        MainBranchDecision::Found(main_branch_candidates()[i as int])
    } else {
        candidate_decision(probes, i + 1)
    }
}

/// The next step in finding the main branch: `origin/HEAD` decides when it
/// names a branch of `origin`; otherwise `main`, `master` and `trunk` are
/// tried in turn, and the first that exists at `origin` is taken.
pub open spec fn main_branch_decision(symbolic_ref: Option<Seq<char>>, probes: Seq<bool>) -> MainBranchDecision {
    match symbolic_ref {
        Some(r) => match origin_head_branch(r) {
            Some(b) => MainBranchDecision::Found(b),
            None => candidate_decision(probes, 0),
        },
        None => candidate_decision(probes, 0),
    }
}

/// Decides the next step in detecting the main branch, from the output of
/// `git symbolic-ref refs/remotes/origin/HEAD` (`None` where it failed) and
/// the answers of git to the `Verify` steps asked so far, in order.
pub fn detect_main_branch(symbolic_ref: Option<&str>, probes: &[bool]) -> (step: MainBranchStep)
    ensures
        step@ == main_branch_decision(opt_str_view(symbolic_ref), probes@),
{
    if let Some(r) = symbolic_ref {
        let chars = chars_of(r);
        if has_prefix_at(&chars, 0, chars.len(), "refs/remotes/origin/") {
            let k = "refs/remotes/origin/".unicode_len();
            let b = substring(r, k, chars.len());
            proof {
                assert(chars@.subrange(0, chars@.len() as int) =~= r@);
                assert(b@ =~= r@.skip(k as int));
            }
            return MainBranchStep::Found(b);
        }
        proof {
            assert(chars@.subrange(0, chars@.len() as int) =~= r@);
        }
    }
    let candidates: [&str; 3] = ["main", "master", "trunk"];
    let mut i: usize = 0;
    while i < 3
        invariant
            i <= 3,
            candidates@.len() == 3,
            forall|j: int| 0 <= j < 3 ==> #[trigger] candidates@[j]@ == main_branch_candidates()[j],
            candidate_decision(probes@, 0) == candidate_decision(probes@, i as nat),
            main_branch_decision(opt_str_view(symbolic_ref), probes@) == candidate_decision(probes@, 0),
        decreases 3 - i,
    {
        if i >= probes.len() {
            let mut r = String::from_str("origin/");
            r.append(candidates[i]);
            assert(candidate_decision(probes@, i as nat) == MainBranchDecision::Verify(r@));
            return MainBranchStep::Verify(r);
        }
        if probes[i] {
            let b = String::from_str(candidates[i]);
            assert(candidate_decision(probes@, i as nat) == MainBranchDecision::Found(b@));
            return MainBranchStep::Found(b);
        }
        i = i + 1;
    }
    MainBranchStep::NotFound
}

/// Looking for the main branch asks git at most three questions: once three
/// answers are in, the next step is never another question.
pub proof fn lemma_main_branch_search_ends(symbolic_ref: Option<Seq<char>>, probes: Seq<bool>)
    requires
        probes.len() >= 3,
    ensures
        !(main_branch_decision(symbolic_ref, probes) is Verify),
{
    assert(candidate_decision(probes, 3) is NotFound);
    assert(!(candidate_decision(probes, 2) is Verify));
    assert(!(candidate_decision(probes, 1) is Verify));
    assert(!(candidate_decision(probes, 0) is Verify));
}

// ---------------------------------------------------------------------------
// Arguments of the git commands that change the repository.
/// The arguments of `git` that create the worktree at `path` on a new branch
/// `branch` starting at `start_point`, without tracking.
pub fn add_worktree(path: &str, branch: &str, start_point: &str) -> (args: Vec<String>)
    ensures
        views(args@) == seq!["worktree"@, "add"@, "--no-track"@, "-b"@, branch@, path@, start_point@],
{
    let mut args: Vec<String> = Vec::new();
    args.push(String::from_str("worktree"));
    args.push(String::from_str("add"));
    args.push(String::from_str("--no-track"));
    args.push(String::from_str("-b"));
    args.push(String::from_str(branch));
    args.push(String::from_str(path));
    args.push(String::from_str(start_point));
    assert(views(args@) =~= seq!["worktree"@, "add"@, "--no-track"@, "-b"@, branch@, path@, start_point@]);
    args
}

/// The arguments of `git` that remove the worktree at `path`.
pub fn remove_worktree(path: &str) -> (args: Vec<String>)
    ensures
        views(args@) == seq!["worktree"@, "remove"@, path@],
{
    let mut args: Vec<String> = Vec::new();
    args.push(String::from_str("worktree"));
    args.push(String::from_str("remove"));
    args.push(String::from_str(path));
    assert(views(args@) =~= seq!["worktree"@, "remove"@, path@]);
    args
}

/// The arguments of `git` that force-delete the branch `branch`.
pub fn delete_branch(branch: &str) -> (args: Vec<String>)
    ensures
        views(args@) == seq!["branch"@, "-D"@, branch@],
{
    let mut args: Vec<String> = Vec::new();
    args.push(String::from_str("branch"));
    args.push(String::from_str("-D"));
    args.push(String::from_str(branch));
    assert(views(args@) =~= seq!["branch"@, "-D"@, branch@]);
    args
}

/// The arguments of `git` that fetch `branch` from `origin`.
pub fn fetch_branch(branch: &str) -> (args: Vec<String>)
    ensures
        views(args@) == seq!["fetch"@, "origin"@, branch@],
{
    let mut args: Vec<String> = Vec::new();
    args.push(String::from_str("fetch"));
    args.push(String::from_str("origin"));
    args.push(String::from_str(branch));
    assert(views(args@) =~= seq!["fetch"@, "origin"@, branch@]);
    args
}

} // verus!
