//! `wt new`: create a worktree on a new branch beside the root worktree,
//! link files into it from the root worktree and run the configured
//! commands in it.

use vstd::prelude::*;
use vstd::string::*;

use crate::commands::remove::expected_worktree_path;
use crate::config::{WtConfig, branch_name, format_branch_name, opt_views};
use crate::context::{Context, GitStep, GitStepView, describes};
use crate::error::WtError;
use crate::git::{add_worktree, fetch_branch};
use crate::commands::list::worktree_slug;
use crate::paths::{is_plain_component, join, path_join, path_parent};
use crate::text::{chars_of, split, split_on, views};

verus! {

/// Slugs name directories and branches; a `/` would nest them.
pub fn validate_slug(slug: &str) -> (r: Result<(), WtError>)
    ensures
        r is Ok <==> !slug@.contains('/'),
        r matches Err(e) ==> (e matches WtError::SlugContainsSlash { slug: s } && s@ == slug@),
{
    let chars = chars_of(slug);
    let mut i: usize = 0;
    while i < chars.len()
        invariant
            i <= chars@.len(),
            chars@ == slug@,
            forall|j: int| 0 <= j < i ==> chars@[j] != '/',
        decreases chars@.len() - i,
    {
        if chars[i] == '/' {
            assert(slug@[i as int] == '/');
            return Err(WtError::SlugContainsSlash { slug: String::from_str(slug) });
        }
        i = i + 1;
    }
    Ok(())
}

/// One thing that `wt new` does, in the order of the plan.
pub enum NewStep {
    /// Run git.
    Git(GitStep),
    /// Link `target` to `source`; the source may be missing, which only warns
    /// about `file_name`.
    Symlink { description: String, source: String, target: String, file_name: String },
    /// Run `command` with the shell in the directory `dir`.
    Shell { description: String, command: String, dir: String },
}

/// The mathematical value of a [`NewStep`].
pub enum NewStepView {
    Git(GitStepView),
    Symlink { description: Seq<char>, source: Seq<char>, target: Seq<char>, file_name: Seq<char> },
    Shell { description: Seq<char>, command: Seq<char>, dir: Seq<char> },
}

impl View for NewStep {
    type V = NewStepView;

    open spec fn view(&self) -> NewStepView {
        match self {
            NewStep::Git(g) => NewStepView::Git(g@),
            NewStep::Symlink { description, source, target, file_name } => NewStepView::Symlink {
                description: description@,
                source: source@,
                target: target@,
                file_name: file_name@,
            },
            NewStep::Shell { description, command, dir } => NewStepView::Shell {
                description: description@,
                command: command@,
                dir: dir@,
            },
        }
    }
}

/// What `wt new` does once the main branch is known and the directory of the
/// worktree is free.
pub struct NewPlan {
    pub branch: String,
    pub worktree_path: String,
    pub steps: Vec<NewStep>,
    /// Printed on standard error at the end (outside a dry run); the path of
    /// the worktree then goes to standard output.
    pub created_message: String,
}

/// The branch prefix in force: the one given on the command line, split at
/// `/`, else the configured one.
pub open spec fn effective_prefix(cli: Option<Seq<char>>, configured: Option<Seq<Seq<char>>>) -> Option<Seq<Seq<char>>> {
    match cli {
        Some(p) => Some(split(p, '/')),
        None => configured,
    }
}

/// A list given on the command line, else the configured one, else none.
pub open spec fn effective_list(cli: Option<Seq<Seq<char>>>, configured: Option<Seq<Seq<char>>>) -> Seq<Seq<char>> {
    match cli {
        Some(l) => l,
        None => match configured {
            Some(l) => l,
            None => Seq::empty(),
        },
    }
}

/// The link that puts `file` of the root worktree into the new worktree.
pub open spec fn symlink_step(root: Seq<char>, worktree: Seq<char>, file: Seq<char>) -> NewStepView {
    NewStepView::Symlink {
        description: "symlink "@ + path_join(worktree, file),
        source: path_join(root, file),
        target: path_join(worktree, file),
        file_name: file,
    }
}

/// A configured command, run in the new worktree.
pub open spec fn command_step(worktree: Seq<char>, command: Seq<char>) -> NewStepView {
    NewStepView::Shell { description: "run "@ + command, command, dir: worktree }
}

/// The steps of `wt new`: fetch the main branch, add the worktree on the new
/// branch from `origin/<main>`, link the files, run the commands.
pub open spec fn new_steps(
    root: Seq<char>,
    worktree: Seq<char>,
    branch: Seq<char>,
    main_branch: Seq<char>,
    symlinks: Seq<Seq<char>>,
    commands: Seq<Seq<char>>,
) -> Seq<NewStepView> {
    let start = "origin/"@ + main_branch;
    seq![
        NewStepView::Git(GitStepView {
            description: "git fetch origin "@ + main_branch,
            args: seq!["fetch"@, "origin"@, main_branch],
        }),
        NewStepView::Git(GitStepView {
            description: "git worktree add --no-track -b "@ + branch + " "@ + worktree + " "@ + start,
            args: seq!["worktree"@, "add"@, "--no-track"@, "-b"@, branch, worktree, start],
        }),
    ] + symlinks.map_values(|f: Seq<char>| symlink_step(root, worktree, f)) + commands.map_values(
        |c: Seq<char>| command_step(worktree, c),
    )
}

pub open spec fn new_step_views(steps: Seq<NewStep>) -> Seq<NewStepView> {
    steps.map_values(|s: NewStep| s@)
}

fn push_symlinks(steps: &mut Vec<NewStep>, root: &str, worktree: &str, files: &Vec<String>)
    ensures
        new_step_views(final(steps)@) == new_step_views(old(steps)@) + views(files@).map_values(
            |f: Seq<char>| symlink_step(root@, worktree@, f),
        ),
{
    let ghost start = new_step_views(steps@);
    let ghost all = views(files@).map_values(|f: Seq<char>| symlink_step(root@, worktree@, f));
    let mut i: usize = 0;
    while i < files.len()
        invariant
            i <= files@.len(),
            all == views(files@).map_values(|f: Seq<char>| symlink_step(root@, worktree@, f)),
            new_step_views(steps@) == start + all.take(i as int),
        decreases files@.len() - i,
    {
        let file = files[i].as_str();
        let target = join(worktree, file);
        let mut description = String::from_str("symlink ");
        description.append(target.as_str());
        let step = NewStep::Symlink {
            description,
            source: join(root, file),
            target,
            file_name: String::from_str(file),
        };
        let ghost before = steps@;
        let ghost sv = step@;
        steps.push(step);
        proof {
            assert(sv == all[i as int]);
            assert(new_step_views(steps@) =~= new_step_views(before).push(sv));
            assert(start + all.take(i + 1) =~= (start + all.take(i as int)).push(sv));
        }
        i = i + 1;
    }
    assert(all.take(i as int) =~= all);
}

fn push_commands(steps: &mut Vec<NewStep>, worktree: &str, commands: &Vec<String>)
    ensures
        new_step_views(final(steps)@) == new_step_views(old(steps)@) + views(commands@).map_values(
            |c: Seq<char>| command_step(worktree@, c),
        ),
{
    let ghost start = new_step_views(steps@);
    let ghost all = views(commands@).map_values(|c: Seq<char>| command_step(worktree@, c));
    let mut i: usize = 0;
    while i < commands.len()
        invariant
            i <= commands@.len(),
            all == views(commands@).map_values(|c: Seq<char>| command_step(worktree@, c)),
            new_step_views(steps@) == start + all.take(i as int),
        decreases commands@.len() - i,
    {
        let command = commands[i].as_str();
        let mut description = String::from_str("run ");
        description.append(command);
        let step = NewStep::Shell {
            description,
            command: String::from_str(command),
            dir: String::from_str(worktree),
        };
        let ghost before = steps@;
        let ghost sv = step@;
        steps.push(step);
        proof {
            assert(sv == all[i as int]);
            assert(new_step_views(steps@) =~= new_step_views(before).push(sv));
            assert(start + all.take(i + 1) =~= (start + all.take(i as int)).push(sv));
        }
        i = i + 1;
    }
    assert(all.take(i as int) =~= all);
}

pub open spec fn opt_string_view(o: Option<String>) -> Option<Seq<char>> {
    match o {
        Some(s) => Some(s@),
        None => None,
    }
}

/// Whether `plan` is the plan of `wt new slug` in the repository of `ctx`
/// (whose root worktree lies in `root_parent`), with the configuration
/// `config`, the command-line overrides and the main branch `main_branch`.
pub open spec fn is_new_plan(
    plan: NewPlan,
    ctx: &Context,
    root_parent: Seq<char>,
    config: &WtConfig,
    slug: Seq<char>,
    branch_prefix: Option<String>,
    symlink_files: Option<Vec<String>>,
    main_branch: Seq<char>,
) -> bool {
    &&& plan.branch@ == branch_name(
        effective_prefix(opt_string_view(branch_prefix), opt_views(config.branch_prefix)),
        slug,
    )
    &&& plan.worktree_path@ == expected_worktree_path(root_parent, ctx.repo_name@, slug)
    &&& new_step_views(plan.steps@) == new_steps(
        ctx.root_worktree@,
        plan.worktree_path@,
        plan.branch@,
        main_branch,
        effective_list(opt_views(symlink_files), opt_views(config.symlink_files)),
        effective_list(None, opt_views(config.post_create_commands)),
    )
    &&& plan.created_message@ == "Created worktree '"@ + slug + "' on branch "@ + plan.branch@
}

/// Plans `wt new slug` in the repository of `ctx`, whose root worktree lies in
/// `root_parent`, with the configuration `config`, the command-line overrides
/// `branch_prefix` and `symlink_files`, and the main branch `main_branch`; a
/// slug with `/` is refused. Where `<repo>-<slug>` is one plain path
/// component, `wt list` shows the slug for the planned worktree.
pub fn run(
    ctx: &Context,
    root_parent: &str,
    config: &WtConfig,
    slug: &str,
    branch_prefix: &Option<String>,
    symlink_files: &Option<Vec<String>>,
    main_branch: &str,
) -> (r: Result<NewPlan, WtError>)
    requires
        path_parent(ctx.root_worktree@) == Some(root_parent@),
    ensures
        slug@.contains('/') <==> r is Err,
        r matches Err(e) ==> (e matches WtError::SlugContainsSlash { slug: s } && s@ == slug@),
        r matches Ok(plan) ==> is_new_plan(
            plan,
            ctx,
            root_parent@,
            config,
            slug@,
            *branch_prefix,
            *symlink_files,
            main_branch@,
        ),
        r matches Ok(plan) ==> (is_plain_component(ctx.repo_name@ + "-"@ + slug@) ==> worktree_slug(
            plan.worktree_path@,
            ctx.repo_name@,
        ) == Some(slug@)),
{
    validate_slug(slug)?;
    let branch = match branch_prefix {
        Some(p) => {
            let segments = split_on(p.as_str(), '/');
            format_branch_name(&Some(segments), slug)
        },
        None => format_branch_name(&config.branch_prefix, slug),
    };
    let mut name = ctx.repo_name.clone();
    name.append("-");
    name.append(slug);
    let worktree_path = join(root_parent, name.as_str());
    proof {
        let prefix = ctx.repo_name@ + "-"@;
        assert(name@.take(prefix.len() as int) =~= prefix);
        assert(name@.skip(prefix.len() as int) =~= slug@);
    }

    let mut steps: Vec<NewStep> = Vec::new();
    let mut fetch_description = String::from_str("git fetch origin ");
    fetch_description.append(main_branch);
    steps.push(NewStep::Git(GitStep::new(fetch_description, fetch_branch(main_branch))));

    let mut start_point = String::from_str("origin/");
    start_point.append(main_branch);
    let mut add_description = String::from_str("git worktree add --no-track -b ");
    add_description.append(branch.as_str());
    add_description.append(" ");
    add_description.append(worktree_path.as_str());
    add_description.append(" ");
    add_description.append(start_point.as_str());
    let add_args = add_worktree(worktree_path.as_str(), branch.as_str(), start_point.as_str());
    steps.push(NewStep::Git(GitStep::new(add_description, add_args)));
    let ghost head = new_step_views(steps@);

    let no_files: Vec<String> = Vec::new();
    let files: &Vec<String> = match symlink_files {
        Some(f) => f,
        None => match &config.symlink_files {
            Some(f) => f,
            None => &no_files,
        },
    };
    push_symlinks(&mut steps, ctx.root_worktree.as_str(), worktree_path.as_str(), files);
    let no_commands: Vec<String> = Vec::new();
    let commands: &Vec<String> = match &config.post_create_commands {
        Some(c) => c,
        None => &no_commands,
    };
    push_commands(&mut steps, worktree_path.as_str(), commands);

    let mut created_message = String::from_str("Created worktree '");
    created_message.append(slug);
    created_message.append("' on branch ");
    created_message.append(branch.as_str());
    proof {
        assert(views(no_files@) =~= Seq::<Seq<char>>::empty());
        assert(views(no_commands@) =~= Seq::<Seq<char>>::empty());
        assert(views(files@) == effective_list(opt_views(*symlink_files), opt_views(config.symlink_files)));
        assert(views(commands@) == effective_list(None, opt_views(config.post_create_commands)));
        assert(head =~= new_steps(ctx.root_worktree@, worktree_path@, branch@, main_branch@, Seq::empty(), Seq::empty()));
        assert(new_step_views(steps@) =~= new_steps(
            ctx.root_worktree@,
            worktree_path@,
            branch@,
            main_branch@,
            views(files@),
            views(commands@),
        ));
    }
    Ok(NewPlan { branch, worktree_path, steps, created_message })
}

/// The git steps of a plan of `wt new`: the first fetches the main branch
/// from `origin`, the second adds the worktree on the new branch, starting
/// from the very branch that was fetched, as `origin/<main>`; and each is
/// described by the command line it runs.
pub proof fn lemma_new_plan_fetches_main(
    plan: NewPlan,
    ctx: &Context,
    root_parent: Seq<char>,
    config: &WtConfig,
    slug: Seq<char>,
    branch_prefix: Option<String>,
    symlink_files: Option<Vec<String>>,
    main_branch: Seq<char>,
)
    requires
        is_new_plan(plan, ctx, root_parent, config, slug, branch_prefix, symlink_files, main_branch),
    ensures
        plan.steps@.len() >= 2,
        plan.steps@[0]@ matches NewStepView::Git(g) && g.args == seq!["fetch"@, "origin"@, main_branch]
            && describes(g),
        plan.steps@[1]@ matches NewStepView::Git(g) && g.args.len() == 7 && g.args[4] == plan.branch@
            && g.args[5] == plan.worktree_path@ && describes(g),
        plan.steps@[0]@ matches NewStepView::Git(f) && plan.steps@[1]@ matches NewStepView::Git(a)
            && a.args[6] == "origin/"@ + f.args[2],
{
    let views = new_step_views(plan.steps@);
    assert(views.len() == plan.steps@.len());
    assert(views[0] == plan.steps@[0]@);
    assert(views[1] == plan.steps@[1]@);
    reveal_strlit("git fetch origin ");
    reveal_strlit("git ");
    reveal_strlit(" ");
    reveal_strlit("fetch");
    reveal_strlit("origin");
    reveal_strlit("git worktree add --no-track -b ");
    reveal_strlit("worktree");
    reveal_strlit("add");
    reveal_strlit("--no-track");
    reveal_strlit("-b");
    reveal_with_fuel(crate::text::join, 8);
    let fetch = seq!["fetch"@, "origin"@, main_branch];
    assert(fetch.drop_first().drop_first() =~= seq![main_branch]);
    assert("git fetch origin "@ + main_branch =~= "git "@ + crate::text::join(fetch, " "@));
    let start = "origin/"@ + main_branch;
    let add = seq!["worktree"@, "add"@, "--no-track"@, "-b"@, plan.branch@, plan.worktree_path@, start];
    assert("git worktree add --no-track -b "@ + plan.branch@ + " "@ + plan.worktree_path@ + " "@ + start
        =~= "git "@ + crate::text::join(add, " "@));
}

/// Plans `wt new slug`: refuses a slug with `/`, and gives `None` where the
/// root worktree has no parent directory to hold the new worktree (the
/// command stops there).
pub fn plan(
    ctx: &Context,
    config: &WtConfig,
    slug: &str,
    branch_prefix: &Option<String>,
    symlink_files: &Option<Vec<String>>,
    main_branch: &str,
) -> (r: Result<Option<NewPlan>, WtError>)
    ensures
        slug@.contains('/') <==> r is Err,
        r matches Err(e) ==> (e matches WtError::SlugContainsSlash { slug: s } && s@ == slug@),
        r matches Ok(None) ==> path_parent(ctx.root_worktree@) is None,
        r matches Ok(Some(p)) ==> (path_parent(ctx.root_worktree@) matches Some(d) && is_new_plan(
            p,
            ctx,
            d,
            config,
            slug@,
            *branch_prefix,
            *symlink_files,
            main_branch@,
        )),
{
    validate_slug(slug)?;
    match ctx.root_parent() {
        Some(root_parent) => {
            let p = run(ctx, root_parent.as_str(), config, slug, branch_prefix, symlink_files, main_branch)?;
            Ok(Some(p))
        },
        None => Ok(None),
    }
}

/// The lines printed once the plan has been carried out: the message on
/// standard error and the worktree's path on standard output; a dry run
/// prints neither.
pub fn closing_lines(plan: &NewPlan, dry_run: bool) -> (lines: Option<(String, String)>)
    ensures
        dry_run <==> lines is None,
        lines matches Some((err, out)) ==> err@ == plan.created_message@ && out@ == plan.worktree_path@,
{
    if dry_run {
        None
    } else {
        Some((plan.created_message.clone(), plan.worktree_path.clone()))
    }
}

/// `wt new` stops when the directory of the worktree already exists.
pub fn refuse_existing_directory(path: &str, exists: bool) -> (r: Result<(), WtError>)
    ensures
        r is Ok <==> !exists,
        r matches Err(e) ==> (e matches WtError::DirectoryExists { path: p } && p@ == path@),
{
    if exists {
        Err(WtError::DirectoryExists { path: String::from_str(path) })
    } else {
        Ok(())
    }
}

} // verus!
