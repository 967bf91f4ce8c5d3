//! The state a command runs in: dry-run mode, the repository, and the steps
//! completed so far, with the report printed when a step fails.

use vstd::prelude::*;
use vstd::string::*;

use crate::git::{repo_name, spec_repo_name};
use crate::paths::{parent, path_parent};
use crate::text::{join, join_strings, views};

verus! {

/// The steps that have completed, and whether progress can be drawn on a terminal.
pub struct ProgressState {
    completed_steps: Vec<String>,
    stderr_is_tty: bool,
}

impl ProgressState {
    /// The descriptions of the completed steps, oldest first.
    pub closed spec fn completed(&self) -> Seq<Seq<char>> {
        views(self.completed_steps@)
    }

    /// Whether standard error is a terminal.
    pub closed spec fn on_tty(&self) -> bool {
        self.stderr_is_tty
    }

    /// No step completed yet.
    pub fn new(stderr_is_tty: bool) -> (p: Self)
        ensures
            p.completed() == Seq::<Seq<char>>::empty(),
            p.on_tty() == stderr_is_tty,
    {
        let p = ProgressState { completed_steps: Vec::new(), stderr_is_tty };
        assert(p.completed() =~= Seq::<Seq<char>>::empty());
        p
    }

    /// Notes that the step `description` has completed.
    pub fn record_completed_step(&mut self, description: &str)
        ensures
            final(self).completed() == old(self).completed().push(description@),
            final(self).on_tty() == old(self).on_tty(),
    {
        self.completed_steps.push(String::from_str(description));
        assert(self.completed() =~= old(self).completed().push(description@));
    }

    /// The descriptions of the steps completed so far, oldest first.
    pub fn completed_steps_snapshot(&self) -> (steps: Vec<String>)
        ensures
            views(steps@) == self.completed(),
    {
        let mut steps: Vec<String> = Vec::new();
        let mut i: usize = 0;
        while i < self.completed_steps.len()
            invariant
                i <= self.completed_steps@.len(),
                steps@.len() == i,
                views(steps@) == views(self.completed_steps@).take(i as int),
            decreases self.completed_steps@.len() - i,
        {
            let s = self.completed_steps[i].clone();
            steps.push(s);
            assert(steps@[i as int]@ == self.completed_steps@[i as int]@);
            assert(views(steps@)[i as int] == views(self.completed_steps@)[i as int]);
            assert(views(steps@) =~= views(self.completed_steps@).take(i + 1));
            i = i + 1;
        }
        assert(views(self.completed_steps@).take(i as int) =~= views(self.completed_steps@));
        steps
    }

    /// Whether standard error is a terminal.
    pub fn stderr_is_tty(&self) -> (b: bool)
        ensures
            b == self.on_tty(),
    {
        self.stderr_is_tty
    }
}

/// The setting a command runs in.
pub struct Context {
    pub dry_run: bool,
    pub root_worktree: String,
    pub repo_name: String,
    pub progress: ProgressState,
}

impl Context {
    /// The context of a command run in the repository whose root worktree is
    /// at `root_worktree`.
    pub fn new(dry_run: bool, root_worktree: String, stderr_is_tty: bool) -> (ctx: Self)
        ensures
            ctx.dry_run == dry_run,
            ctx.root_worktree@ == root_worktree@,
            ctx.repo_name@ == spec_repo_name(root_worktree@),
            ctx.progress.completed() == Seq::<Seq<char>>::empty(),
            ctx.progress.on_tty() == stderr_is_tty,
    {
        let repo_name = repo_name(root_worktree.as_str());
        Context { dry_run, root_worktree, repo_name, progress: ProgressState::new(stderr_is_tty) }
    }

    /// The directory that holds the root worktree, where the worktrees of
    /// `wt new` go (`None` when the root worktree's path has no parent).
    pub fn root_parent(&self) -> (p: Option<String>)
        ensures
            match p {
                Some(d) => path_parent(self.root_worktree@) == Some(d@),
                None => path_parent(self.root_worktree@) is None,
            },
    {
        parent(self.root_worktree.as_str())
    }

    /// Records how a step run through [`execute_with_progress`] ended: a step
    /// that succeeded joins the completed ones; for one that failed with
    /// `error`, the failure report comes back and nothing is recorded.
    pub fn finish_step(&mut self, description: &str, error: Option<&str>) -> (report: Option<String>)
        ensures
            match error {
                None => {
                    &&& report is None
                    &&& final(self).progress.completed() == old(self).progress.completed().push(description@)
                },
                Some(e) => {
                    &&& report matches Some(r) && r@ == failure_report(
                        old(self).progress.completed(),
                        description@,
                        e@,
                    )
                    &&& final(self).progress.completed() == old(self).progress.completed()
                },
            },
            final(self).progress.completed() == after_step(
                old(self).progress.completed(),
                description@,
                match error {
                    Some(e) => Some(e@),
                    None => None,
                },
            ),
            final(self).progress.on_tty() == old(self).progress.on_tty(),
            final(self).dry_run == old(self).dry_run,
            final(self).root_worktree == old(self).root_worktree,
            final(self).repo_name == old(self).repo_name,
    {
        match error {
            None => {
                self.progress.record_completed_step(description);
                None
            },
            Some(e) => {
                let steps = self.progress.completed_steps_snapshot();
                Some(format_failure_report(steps.as_slice(), description, e))
            },
        }
    }
}

/// A git command that a command runs, with the line that describes it.
pub struct GitStep {
    pub description: String,
    pub args: Vec<String>,
}

/// The mathematical value of a [`GitStep`].
pub struct GitStepView {
    pub description: Seq<char>,
    pub args: Seq<Seq<char>>,
}

impl View for GitStep {
    type V = GitStepView;

    open spec fn view(&self) -> GitStepView {
        GitStepView { description: self.description@, args: views(self.args@) }
    }
}

impl GitStep {
    /// The step `description` that runs git with `args`.
    pub fn new(description: String, args: Vec<String>) -> (s: GitStep)
        ensures
            s@ == (GitStepView { description: description@, args: views(args@) }),
    {
        GitStep { description, args }
    }
}

/// Whether the description of a git step is the command line it runs:
/// `git` followed by its arguments, separated by spaces.
pub open spec fn describes(g: GitStepView) -> bool {
    g.description == "git "@ + join(g.args, " "@)
}

/// The completed steps once the step `description` has ended, with `error`
/// where it failed: a success joins the list, a failure leaves it as it was.
pub open spec fn after_step(
    completed: Seq<Seq<char>>,
    description: Seq<char>,
    error: Option<Seq<char>>,
) -> Seq<Seq<char>> {
    match error {
        None => completed.push(description),
        Some(_) => completed,
    }
}

/// The completed steps after a run of steps (each a description and, where
/// it failed, the error), starting from `completed`.
pub open spec fn after_steps(
    completed: Seq<Seq<char>>,
    steps: Seq<(Seq<char>, Option<Seq<char>>)>,
) -> Seq<Seq<char>>
    decreases steps.len(),
{
    if steps.len() == 0 {
        completed
    } else {
        after_step(after_steps(completed, steps.drop_last()), steps.last().0, steps.last().1)
    }
}

/// The descriptions of the steps that succeeded, in order.
pub open spec fn successful_steps(steps: Seq<(Seq<char>, Option<Seq<char>>)>) -> Seq<Seq<char>> {
    steps.filter_map(|s: (Seq<char>, Option<Seq<char>>)| if s.1 is None { Some(s.0) } else { None })
}

/// Over a run of steps from a fresh context, the completed steps are exactly
/// the ones that succeeded, in the order they ran; so the report of a step
/// that fails lists as `[done]` exactly the earlier steps that succeeded.
pub proof fn lemma_completed_steps_are_successes(steps: Seq<(Seq<char>, Option<Seq<char>>)>)
    ensures
        after_steps(Seq::empty(), steps) == successful_steps(steps),
        forall|i: int, e: Seq<char>|
            0 <= i < steps.len() && steps[i].1 == Some(e) ==> failure_report(
                after_steps(Seq::empty(), steps.take(i)),
                steps[i].0,
                e,
            ) == failure_report(successful_steps(steps.take(i)), steps[i].0, e),
    decreases steps.len(),
{
    if steps.len() > 0 {
        lemma_completed_steps_are_successes(steps.drop_last());
        assert(successful_steps(steps) =~= after_steps(Seq::empty(), steps));
    }
    assert forall|i: int, e: Seq<char>| 0 <= i < steps.len() && steps[i].1 == Some(e) implies failure_report(
        after_steps(Seq::empty(), steps.take(i)),
        steps[i].0,
        e,
    ) == failure_report(successful_steps(steps.take(i)), steps[i].0, e) by {
        lemma_completed_steps_are_successes(steps.take(i));
    }
}

/// How a step is to be carried out.
pub enum StepMode {
    /// Only print this line (dry run).
    Announce(String),
    /// Do the work, with a spinner on standard error when `spinner` holds.
    Run { spinner: bool },
}

/// The line printed in place of a step in a dry run.
pub open spec fn dry_run_line(description: Seq<char>) -> Seq<char> {
    "[dry-run] "@ + description
}

fn announce(description: &str) -> (m: StepMode)
    ensures
        m matches StepMode::Announce(line) && line@ == dry_run_line(description@),
{
    let mut line = String::from_str("[dry-run] ");
    line.append(description);
    StepMode::Announce(line)
}

/// How to carry out the step `description`: announce it in a dry run, else run it.
pub fn execute(ctx: &Context, description: &str) -> (m: StepMode)
    ensures
        ctx.dry_run ==> (m matches StepMode::Announce(line) && line@ == dry_run_line(description@)),
        !ctx.dry_run ==> (m matches StepMode::Run { spinner } && !spinner),
{
    if ctx.dry_run {
        announce(description)
    } else {
        StepMode::Run { spinner: false }
    }
}

/// How to carry out the step `description` with progress shown: announce it
/// in a dry run, else run it with a spinner when standard error is a terminal.
/// The outcome goes to [`Context::finish_step`].
pub fn execute_with_progress(ctx: &Context, description: &str) -> (m: StepMode)
    ensures
        ctx.dry_run ==> (m matches StepMode::Announce(line) && line@ == dry_run_line(description@)),
        !ctx.dry_run ==> (m matches StepMode::Run { spinner } && spinner == ctx.progress.on_tty()),
{
    if ctx.dry_run {
        announce(description)
    } else {
        StepMode::Run { spinner: ctx.progress.stderr_is_tty() }
    }
}

/// The lines of the report for the step `failed_step` failing with `error`
/// after `completed_steps`.
pub open spec fn failure_report_lines(
    completed_steps: Seq<Seq<char>>,
    failed_step: Seq<char>,
    error: Seq<char>,
) -> Seq<Seq<char>> {
    seq!["Progress before failure:"@]
        + completed_steps.map_values(|s: Seq<char>| "  [done] "@ + s)
        + seq!["  [failed] "@ + failed_step, "  [error] "@ + error]
}

/// The report printed when a step fails: a heading, one `[done]` line per
/// completed step in order, then the `[failed]` step and the `[error]`.
pub open spec fn failure_report(
    completed_steps: Seq<Seq<char>>,
    failed_step: Seq<char>,
    error: Seq<char>,
) -> Seq<char> {
    join(failure_report_lines(completed_steps, failed_step, error), "\n"@)
}

/// The report printed when the step `failed_step` fails with `error` after
/// the steps `completed_steps`.
pub fn format_failure_report(completed_steps: &[String], failed_step: &str, error: &str) -> (report: String)
    ensures
        report@ == failure_report(views(completed_steps@), failed_step@, error@),
{
    let mut lines: Vec<String> = Vec::new();
    lines.push(String::from_str("Progress before failure:"));
    let ghost done = views(completed_steps@).map_values(|s: Seq<char>| "  [done] "@ + s);
    let mut i: usize = 0;
    while i < completed_steps.len()
        invariant
            i <= completed_steps@.len(),
            done == views(completed_steps@).map_values(|s: Seq<char>| "  [done] "@ + s),
            lines@.len() == i + 1,
            views(lines@) == seq!["Progress before failure:"@] + done.take(i as int),
        decreases completed_steps@.len() - i,
    {
        let mut line = String::from_str("  [done] ");
        line.append(completed_steps[i].as_str());
        let ghost before = lines@;
        let ghost line_view = line@;
        lines.push(line);
        assert(views(lines@) =~= views(before).push(line_view));
        assert(done[i as int] == "  [done] "@ + views(completed_steps@)[i as int]);
        assert(views(lines@)[i + 1] == done[i as int]);
        assert(views(lines@) =~= seq!["Progress before failure:"@] + done.take(i + 1));
        i = i + 1;
    }
    let mut failed = String::from_str("  [failed] ");
    failed.append(failed_step);
    lines.push(failed);
    let mut err = String::from_str("  [error] ");
    err.append(error);
    lines.push(err);
    assert(done.take(i as int) =~= done);
    assert(views(lines@) =~= failure_report_lines(views(completed_steps@), failed_step@, error@));
    join_strings(&lines, "\n")
}

/// Each completed step shows in the failure report as its own `[done]` line,
/// in the order the steps completed, right after the heading.
pub proof fn lemma_report_lists_completed_steps(
    completed_steps: Seq<Seq<char>>,
    failed_step: Seq<char>,
    error: Seq<char>,
    i: int,
)
    requires
        0 <= i < completed_steps.len(),
    ensures
        failure_report_lines(completed_steps, failed_step, error)[i + 1] == "  [done] "@ + completed_steps[i],
        failure_report_lines(completed_steps, failed_step, error).len() == completed_steps.len() + 3,
        failure_report_lines(completed_steps, failed_step, error)[completed_steps.len() + 1 as int]
            == "  [failed] "@ + failed_step,
        failure_report_lines(completed_steps, failed_step, error)[completed_steps.len() + 2 as int]
            == "  [error] "@ + error,
{
}

} // verus!
