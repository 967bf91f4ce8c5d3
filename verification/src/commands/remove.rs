//! `wt remove`: for each slug, remove its worktree and delete its branch.

use vstd::prelude::*;
use vstd::string::*;

use crate::context::{Context, GitStep, GitStepView, describes};
use crate::error::WtError;
use crate::git::{WorktreeEntry, WorktreeInfo, delete_branch, entry_views, remove_worktree};
use crate::paths::{join, path_eq, path_join, path_parent, same_path};

verus! {

/// What removing one worktree does: its git commands in order, then the
/// line printed when they all succeeded (outside a dry run).
pub struct RemovalPlan {
    pub steps: Vec<GitStep>,
    pub removed_message: String,
}

/// Where the worktree of `slug` lies: `<repo>-<slug>` beside the root worktree.
pub open spec fn expected_worktree_path(root_parent: Seq<char>, repo: Seq<char>, slug: Seq<char>) -> Seq<char> {
    path_join(root_parent, repo + "-"@ + slug)
}

/// The same path: the same text, or equal as `std::path::Path`s compare
/// them (by components, so that `/a//b` is `/a/b`).
pub open spec fn same_location(a: Seq<char>, b: Seq<char>) -> bool {
    a == b || path_eq(a, b)
}

/// The index of the first entry whose path is `path`.
pub open spec fn find_worktree(entries: Seq<WorktreeEntry>, path: Seq<char>) -> Option<int>
    decreases entries.len(),
{
    if entries.len() == 0 {
        None
    } else if same_location(entries[0].path, path) {
        Some(0)
    } else {
        match find_worktree(entries.drop_first(), path) {
            Some(i) => Some(i + 1),
            None => None,
        }
    }
}

/// The git steps that remove the worktree at `path` and then its branch, if it has one.
pub open spec fn removal_steps(path: Seq<char>, branch: Option<Seq<char>>) -> Seq<GitStepView> {
    let remove = GitStepView {
        description: "git worktree remove "@ + path,
        args: seq!["worktree"@, "remove"@, path],
    };
    match branch {
        Some(b) => seq![remove, GitStepView { description: "git branch -D "@ + b, args: seq!["branch"@, "-D"@, b] }],
        None => seq![remove],
    }
}

/// Each step of a removal is described by the command line it runs.
pub proof fn lemma_removal_steps_described(path: Seq<char>, branch: Option<Seq<char>>)
    ensures
        forall|k: int| 0 <= k < removal_steps(path, branch).len() ==> describes(#[trigger] removal_steps(path, branch)[k]),
{
    reveal_strlit("git worktree remove ");
    reveal_strlit("git branch -D ");
    reveal_strlit("git ");
    reveal_strlit(" ");
    reveal_strlit("worktree");
    reveal_strlit("remove");
    reveal_strlit("branch");
    reveal_strlit("-D");
    reveal_with_fuel(crate::text::join, 4);
    let r = seq!["worktree"@, "remove"@, path];
    assert(r.drop_first().drop_first() =~= seq![path]);
    assert("git worktree remove "@ + path =~= "git "@ + crate::text::join(r, " "@));
    if let Some(b) = branch {
        let d = seq!["branch"@, "-D"@, b];
        assert(d.drop_first().drop_first() =~= seq![b]);
        assert("git branch -D "@ + b =~= "git "@ + crate::text::join(d, " "@));
    }
}

/// The plan for removing the worktree of `slug`, or the error when the
/// listing has no worktree where the slug says.
pub open spec fn removal_plan(
    entries: Seq<WorktreeEntry>,
    root_parent: Seq<char>,
    repo: Seq<char>,
    slug: Seq<char>,
) -> Option<(Seq<GitStepView>, Seq<char>)> {
    let path = expected_worktree_path(root_parent, repo, slug);
    match find_worktree(entries, path) {
        Some(i) => Some((removal_steps(path, entries[i].branch), "Removed worktree '"@ + slug + "'"@)),
        None => None,
    }
}

pub open spec fn step_views(steps: Seq<GitStep>) -> Seq<GitStepView> {
    steps.map_values(|s: GitStep| s@)
}

/// Whether `r` is what [`remove_one`] owes for `slug`.
pub open spec fn is_removal_outcome(
    r: Result<RemovalPlan, WtError>,
    entries: Seq<WorktreeEntry>,
    root_parent: Seq<char>,
    repo: Seq<char>,
    slug: Seq<char>,
) -> bool {
    match r {
        Ok(plan) => removal_plan(entries, root_parent, repo, slug) == Some(
            (step_views(plan.steps@), plan.removed_message@),
        ),
        Err(e) => {
            &&& removal_plan(entries, root_parent, repo, slug) is None
            &&& e matches WtError::NoWorktreeFound { path } && path@ == expected_worktree_path(
                root_parent,
                repo,
                slug,
            )
        },
    }
}

/// Plans the removal of the worktree of `slug`, found in `worktrees` at
/// `<repo>-<slug>` beside the root worktree (whose directory is `root_parent`).
pub fn remove_one(ctx: &Context, worktrees: &[WorktreeInfo], root_parent: &str, slug: &str) -> (r: Result<RemovalPlan, WtError>)
    ensures
        is_removal_outcome(r, entry_views(worktrees@), root_parent@, ctx.repo_name@, slug@),
{
    let mut name = ctx.repo_name.clone();
    name.append("-");
    name.append(slug);
    let expected = join(root_parent, name.as_str());
    let ghost entries = entry_views(worktrees@);
    let mut i: usize = 0;
    proof {
        assert(entries.skip(0) =~= entries);
    }
    while i < worktrees.len()
        invariant
            i <= worktrees@.len(),
            entries == entry_views(worktrees@),
            expected@ == expected_worktree_path(root_parent@, ctx.repo_name@, slug@),
            match find_worktree(entries.skip(i as int), expected@) {
                Some(j) => find_worktree(entries, expected@) == Some(j + i),
                None => find_worktree(entries, expected@) is None,
            },
        decreases worktrees@.len() - i,
    {
        let ghost rest = entries.skip(i as int);
        proof {
            assert(rest[0] == worktrees@[i as int]@);
            assert(rest.drop_first() =~= entries.skip(i + 1));
        }
        if worktrees[i].path == expected || same_path(worktrees[i].path.as_str(), expected.as_str()) {
            let mut steps: Vec<GitStep> = Vec::new();
            let mut d = String::from_str("git worktree remove ");
            d.append(expected.as_str());
            steps.push(GitStep::new(d, remove_worktree(expected.as_str())));
            match &worktrees[i].branch {
                Some(b) => {
                    let mut d2 = String::from_str("git branch -D ");
                    d2.append(b.as_str());
                    steps.push(GitStep::new(d2, delete_branch(b.as_str())));
                },
                None => {},
            }
            let mut msg = String::from_str("Removed worktree '");
            msg.append(slug);
            msg.append("'");
            let plan = RemovalPlan { steps, removed_message: msg };
            proof {
                assert(find_worktree(entries, expected@) == Some(i as int));
                assert(entries[i as int] == worktrees@[i as int]@);
                assert(step_views(plan.steps@) =~= removal_steps(expected@, entries[i as int].branch));
            }
            return Ok(plan);
        }
        i = i + 1;
    }
    proof {
        assert(entries.skip(i as int) =~= Seq::<WorktreeEntry>::empty());
    }
    Err(WtError::NoWorktreeFound { path: expected })
}

/// Plans `wt remove` for each of `slugs`, in order, against one listing of
/// the worktrees (`root_parent` is the directory of the root worktree): each
/// slug gets its own plan or error, and an error for one does not change what
/// the others get.
pub fn run(ctx: &Context, worktrees: &[WorktreeInfo], root_parent: &str, slugs: &[String]) -> (plans: Vec<Result<RemovalPlan, WtError>>)
    requires
        path_parent(ctx.root_worktree@) == Some(root_parent@),
    ensures
        plans@.len() == slugs@.len(),
        forall|k: int|
            0 <= k < slugs@.len() ==> is_removal_outcome(
                #[trigger] plans@[k],
                entry_views(worktrees@),
                root_parent@,
                ctx.repo_name@,
                slugs@[k]@,
            ),
{
    let mut plans: Vec<Result<RemovalPlan, WtError>> = Vec::new();
    let mut k: usize = 0;
    while k < slugs.len()
        invariant
            k <= slugs@.len(),
            plans@.len() == k,
            path_parent(ctx.root_worktree@) == Some(root_parent@),
            forall|j: int|
                0 <= j < k ==> is_removal_outcome(
                    #[trigger] plans@[j],
                    entry_views(worktrees@),
                    root_parent@,
                    ctx.repo_name@,
                    slugs@[j]@,
                ),
        decreases slugs@.len() - k,
    {
        let r = remove_one(ctx, worktrees, root_parent, slugs[k].as_str());
        plans.push(r);
        k = k + 1;
    }
    plans
}

/// Plans `wt remove` for each of `slugs`, or gives `None` where the root
/// worktree has no parent directory (the command stops there).
pub fn plan(ctx: &Context, worktrees: &[WorktreeInfo], slugs: &[String]) -> (r: Option<Vec<Result<RemovalPlan, WtError>>>)
    ensures
        r is None <==> path_parent(ctx.root_worktree@) is None,
        r matches Some(plans) ==> {
            &&& plans@.len() == slugs@.len()
            &&& forall|k: int|
                0 <= k < slugs@.len() ==> is_removal_outcome(
                    #[trigger] plans@[k],
                    entry_views(worktrees@),
                    path_parent(ctx.root_worktree@)->0,
                    ctx.repo_name@,
                    slugs@[k]@,
                )
        },
{
    match ctx.root_parent() {
        Some(root_parent) => Some(run(ctx, worktrees, root_parent.as_str(), slugs)),
        None => None,
    }
}

/// The line printed once the removal has been carried out; a dry run prints none.
pub fn closing_line(plan: &RemovalPlan, dry_run: bool) -> (line: Option<String>)
    ensures
        dry_run <==> line is None,
        line matches Some(l) ==> l@ == plan.removed_message@,
{
    if dry_run {
        None
    } else {
        Some(plan.removed_message.clone())
    }
}

/// What to do next for one slug of `wt remove`.
pub enum SlugStep {
    /// Carry out the step at this index of the slug's plan.
    Run(usize),
    /// The worktree is removed; print this line, if any.
    Removed(Option<String>),
    /// The slug failed; this is its line for the final error.
    Failed(String),
}

/// The mathematical value of a [`SlugStep`].
pub enum SlugDecision {
    Run(int),
    Removed(Option<Seq<char>>),
    Failed(Seq<char>),
}

impl View for SlugStep {
    type V = SlugDecision;

    open spec fn view(&self) -> SlugDecision {
        match self {
            SlugStep::Run(i) => SlugDecision::Run(*i as int),
            SlugStep::Removed(line) => SlugDecision::Removed(
                match line {
                    Some(l) => Some(l@),
                    None => None,
                },
            ),
            SlugStep::Failed(line) => SlugDecision::Failed(line@),
        }
    }
}

/// The error of the last step that failed among `outcomes`, if any failed.
pub open spec fn last_failure(outcomes: Seq<Option<String>>) -> Option<Seq<char>>
    decreases outcomes.len(),
{
    if outcomes.len() == 0 {
        None
    } else {
        match outcomes.last() {
            Some(e) => Some(e@),
            None => last_failure(outcomes.drop_last()),
        }
    }
}

proof fn lemma_no_failure(outcomes: Seq<Option<String>>)
    ensures
        last_failure(outcomes) is None <==> forall|k: int| 0 <= k < outcomes.len() ==> outcomes[k] is None,
    decreases outcomes.len(),
{
    if outcomes.len() > 0 {
        let rest = outcomes.drop_last();
        lemma_no_failure(rest);
        assert forall|k: int| 0 <= k < rest.len() implies rest[k] == outcomes[k] by {}
        if outcomes.last() is None {
            assert forall|k: int| 0 <= k < outcomes.len() && (forall|j: int| 0 <= j < rest.len() ==> rest[j] is None)
                implies outcomes[k] is None by {
                if k < rest.len() {
                    assert(rest[k] is None);
                }
            }
        }
    }
}

/// The next step for `slug`, given its plan and how its steps ended so far
/// (`None` for a step that succeeded, else its error): a slug without a plan
/// fails at once; the steps run in order; a step that fails ends the slug's
/// steps (its branch is then kept) and fails the slug with the error of the
/// last failed step; once all steps succeeded, the worktree is removed and,
/// outside a dry run, says so.
pub open spec fn slug_decision(
    slug: Seq<char>,
    plan: Result<RemovalPlan, WtError>,
    outcomes: Seq<Option<String>>,
    dry_run: bool,
) -> SlugDecision {
    match plan {
        Err(e) => SlugDecision::Failed(slug + ": "@ + e.spec_message()),
        Ok(p) => if last_failure(outcomes) is Some {
            SlugDecision::Failed(slug + ": "@ + last_failure(outcomes)->0)
        } else if outcomes.len() < p.steps@.len() {
            SlugDecision::Run(outcomes.len() as int)
        } else {
            SlugDecision::Removed(if dry_run { None } else { Some(p.removed_message@) })
        },
    }
}

/// Decides the next step for `slug` from its plan and the outcomes of the
/// steps carried out so far, in order. Each slug is decided on its own, so a
/// slug that fails does not stop the others.
pub fn slug_step(
    slug: &str,
    plan: &Result<RemovalPlan, WtError>,
    outcomes: &[Option<String>],
    dry_run: bool,
) -> (step: SlugStep)
    ensures
        step@ == slug_decision(slug@, *plan, outcomes@, dry_run),
{
    match plan {
        Err(e) => {
            let m = e.message();
            SlugStep::Failed(failure_line(slug, m.as_str()))
        },
        Ok(p) => {
            let n = outcomes.len();
            let mut j: usize = n;
            proof {
                assert(outcomes@.take(n as int) =~= outcomes@);
            }
            while j > 0
                invariant
                    j <= n,
                    n == outcomes@.len(),
                    *plan is Ok,
                    last_failure(outcomes@) == last_failure(outcomes@.take(j as int)),
                decreases j,
            {
                let ghost t = outcomes@.take(j as int);
                proof {
                    assert(t.drop_last() =~= outcomes@.take(j - 1));
                    assert(t.last() == outcomes@[j - 1]);
                }
                match &outcomes[j - 1] {
                    Some(err) => {
                        proof {
                            assert(t.len() > 0);
                            assert(last_failure(t) == Some(err@));
                        }
                        return SlugStep::Failed(failure_line(slug, err.as_str()));
                    },
                    None => {},
                }
                j = j - 1;
            }
            proof {
                assert(outcomes@.take(0) =~= Seq::<Option<String>>::empty());
            }
            if n < p.steps.len() {
                SlugStep::Run(n)
            } else {
                SlugStep::Removed(closing_line(p, dry_run))
            }
        },
    }
}

/// A slug's steps come to an end: once as many outcomes as planned steps are
/// in, the next step is never another run.
pub proof fn lemma_slug_steps_end(
    slug: Seq<char>,
    plan: Result<RemovalPlan, WtError>,
    outcomes: Seq<Option<String>>,
    dry_run: bool,
)
    requires
        plan matches Ok(p) ==> outcomes.len() >= p.steps@.len(),
    ensures
        !(slug_decision(slug, plan, outcomes, dry_run) is Run),
{
}

/// How the outcomes of a slug's steps decide it: when the last step given
/// failed with `e`, the slug fails with `slug: e`, whatever came before; the
/// worktree counts as removed, and a further step is run, only while every
/// step so far succeeded; and with every step so far a success, the next
/// planned step runs, or once all have run, the removal is reported.
pub proof fn lemma_slug_failure(
    slug: Seq<char>,
    plan: Result<RemovalPlan, WtError>,
    outcomes: Seq<Option<String>>,
    dry_run: bool,
)
    ensures
        (plan is Ok && outcomes.len() > 0 && outcomes.last() is Some) ==> slug_decision(
            slug,
            plan,
            outcomes,
            dry_run,
        ) == SlugDecision::Failed(slug + ": "@ + outcomes.last()->0@),
        slug_decision(slug, plan, outcomes, dry_run) is Removed ==> (plan is Ok && forall|k: int|
            0 <= k < outcomes.len() ==> outcomes[k] is None),
        slug_decision(slug, plan, outcomes, dry_run) matches SlugDecision::Run(i) ==> (plan is Ok
            && i == outcomes.len() && forall|k: int| 0 <= k < outcomes.len() ==> outcomes[k] is None),
        (plan matches Ok(p) && forall|k: int| 0 <= k < outcomes.len() ==> outcomes[k] is None)
            ==> slug_decision(slug, plan, outcomes, dry_run) == (if outcomes.len() < plan->Ok_0.steps@.len() {
            SlugDecision::Run(outcomes.len() as int)
        } else {
            SlugDecision::Removed(if dry_run { None } else { Some(plan->Ok_0.removed_message@) })
        }),
{
    lemma_no_failure(outcomes);
}

/// The line that reports the failure of `slug`.
pub fn failure_line(slug: &str, error: &str) -> (line: String)
    ensures
        line@ == slug@ + ": "@ + error@,
{
    let mut line = String::from_str(slug);
    line.append(": ");
    line.append(error);
    line
}

/// How `wt remove` ends, given the failure lines of the slugs that failed:
/// success when none failed, else one error that lists them all.
pub fn finish(failures: Vec<String>) -> (r: Result<(), WtError>)
    ensures
        failures@.len() == 0 <==> r is Ok,
        r matches Err(e) ==> (e matches WtError::RemovalsFailed { failures: f } && f@ == failures@),
{
    if failures.len() == 0 {
        Ok(())
    } else {
        Err(WtError::RemovalsFailed { failures })
    }
}

/// `wt remove slug` finds the worktree that `wt new slug` made: where the
/// listing holds an entry at the very path where `wt new` puts the worktree
/// of `slug` (the same place [`remove_one`] looks), the removal is planned,
/// and it deletes the branch of the first entry at that place.
pub proof fn lemma_remove_finds_created_worktree(
    entries: Seq<WorktreeEntry>,
    root_parent: Seq<char>,
    repo: Seq<char>,
    slug: Seq<char>,
    i: int,
)
    requires
        0 <= i < entries.len(),
        entries[i].path == expected_worktree_path(root_parent, repo, slug),
    ensures
        removal_plan(entries, root_parent, repo, slug) is Some,
        find_worktree(entries, expected_worktree_path(root_parent, repo, slug)) matches Some(j) && j <= i,
    decreases i,
{
    let path = expected_worktree_path(root_parent, repo, slug);
    if i > 0 && !same_location(entries[0].path, path) {
        assert(entries.drop_first()[i - 1] == entries[i]);
        lemma_remove_finds_created_worktree(entries.drop_first(), root_parent, repo, slug, i - 1);
    }
}

} // verus!
