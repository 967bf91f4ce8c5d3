use wt::commands::config_init::{needs_exclude_entry, refuse_existing_config};
use wt::commands::list::slug_of;
use wt::commands::new::{refuse_existing_directory, validate_slug, NewStep};
use wt::commands::remove::{failure_line, finish, remove_one, run, slug_step, SlugStep};
use wt::config::WtConfig;
use wt::context::Context;
use wt::error::WtError;
use wt::git::{parse_worktree_list, WorktreeInfo};
use wt::text::{join_strings, split_on};

fn ctx(dry_run: bool) -> Context {
    Context::new(dry_run, "/tmp/x/myproject".to_string(), false)
}

fn listing() -> Vec<WorktreeInfo> {
    parse_worktree_list(
        "worktree /tmp/x/myproject\nHEAD 1\nbranch refs/heads/main\n\n\
         worktree /tmp/x/myproject-feat\nHEAD 2\nbranch refs/heads/chnn/feat\n\n\
         worktree /tmp/x/myproject-detached\nHEAD 3\ndetached\n\n\
         worktree /tmp/x/other-thing\nHEAD 4\nbranch refs/heads/o\n",
    )
}

#[test]
fn list_prints_slugs_of_repository_worktrees() {
    let slugs = wt::commands::list::run(&listing(), "myproject");
    assert_eq!(slugs, vec!["feat".to_string(), "detached".to_string()]);
    assert_eq!(slug_of("/tmp/x/myproject-", "myproject").as_deref(), Some(""));
    assert_eq!(slug_of("/tmp/x/myproject", "myproject"), None);
    assert_eq!(slug_of("/", "myproject"), None);
}

#[test]
fn remove_plans_worktree_then_branch() {
    let plan = remove_one(&ctx(false), &listing(), "/tmp/x", "feat").ok().unwrap();
    assert_eq!(plan.steps.len(), 2);
    assert_eq!(plan.steps[0].description, "git worktree remove /tmp/x/myproject-feat");
    assert_eq!(plan.steps[0].args, vec!["worktree", "remove", "/tmp/x/myproject-feat"]);
    assert_eq!(plan.steps[1].description, "git branch -D chnn/feat");
    assert_eq!(plan.steps[1].args, vec!["branch", "-D", "chnn/feat"]);
    assert_eq!(plan.removed_message, "Removed worktree 'feat'");
}

#[test]
fn remove_detached_worktree_has_no_branch_step() {
    let plan = remove_one(&ctx(false), &listing(), "/tmp/x", "detached").ok().unwrap();
    assert_eq!(plan.steps.len(), 1);
}

#[test]
fn remove_unknown_slug_is_an_error() {
    match remove_one(&ctx(false), &listing(), "/tmp/x", "no-such-slug") {
        Err(e) => {
            assert!(matches!(e, WtError::NoWorktreeFound { .. }));
            assert_eq!(e.message(), "no worktree found at /tmp/x/myproject-no-such-slug");
        }
        Ok(_) => panic!("expected an error"),
    }
}

#[test]
fn remove_several_slugs_independently() {
    let slugs = vec!["nope".to_string(), "feat".to_string()];
    let plans = run(&ctx(false), &listing(), "/tmp/x", &slugs);
    assert_eq!(plans.len(), 2);
    assert!(plans[0].is_err());
    assert!(plans[1].is_ok());
}

#[test]
fn remove_outcome_lists_failures() {
    assert!(finish(vec![]).is_ok());
    let line = failure_line("a", "no worktree found at /x/p-a");
    assert_eq!(line, "a: no worktree found at /x/p-a");
    let e = finish(vec![line, "b: boom".to_string()]).err().unwrap();
    assert_eq!(
        e.message(),
        "some worktrees could not be removed:\n  a: no worktree found at /x/p-a\n  b: boom"
    );
}

#[test]
fn new_rejects_slug_with_slash() {
    assert!(validate_slug("feat").is_ok());
    let e = validate_slug("bad/slug").err().unwrap();
    assert_eq!(e.message(), "slug must not contain '/' — got 'bad/slug'");
}

fn describe(step: &NewStep) -> String {
    match step {
        NewStep::Git(g) => g.description.clone(),
        NewStep::Symlink { description, .. } => description.clone(),
        NewStep::Shell { description, .. } => description.clone(),
    }
}

#[test]
fn new_plan_with_defaults() {
    let plan = wt::commands::new::run(&ctx(false), "/tmp/x", &WtConfig::default(), "feat", &None, &None, "main").ok().unwrap();
    assert_eq!(plan.branch, "feat");
    assert_eq!(plan.worktree_path, "/tmp/x/myproject-feat");
    assert_eq!(plan.steps.len(), 2);
    assert_eq!(describe(&plan.steps[0]), "git fetch origin main");
    assert_eq!(
        describe(&plan.steps[1]),
        "git worktree add --no-track -b feat /tmp/x/myproject-feat origin/main"
    );
    match &plan.steps[1] {
        NewStep::Git(g) => assert_eq!(
            g.args,
            vec!["worktree", "add", "--no-track", "-b", "feat", "/tmp/x/myproject-feat", "origin/main"]
        ),
        _ => panic!("expected a git step"),
    }
    assert_eq!(plan.created_message, "Created worktree 'feat' on branch feat");
}

#[test]
fn new_cli_prefix_overrides_config() {
    let config = WtConfig {
        branch_prefix: Some(vec!["from-config".to_string()]),
        symlink_files: Some(vec![".env".to_string()]),
        post_create_commands: Some(vec!["npm install".to_string()]),
    };
    let plan = wt::commands::new::run(&ctx(false), "/tmp/x", &config, "feat", &None, &None, "main").ok().unwrap();
    assert_eq!(plan.branch, "from-config/feat");
    let plan = wt::commands::new::run(&ctx(false), "/tmp/x", &config, "feat", &Some("team/chnn".to_string()), &None, "trunk").ok().unwrap();
    assert_eq!(plan.branch, "team/chnn/feat");
    assert_eq!(plan.created_message, "Created worktree 'feat' on branch team/chnn/feat");
    assert_eq!(plan.steps.len(), 4);
    match &plan.steps[2] {
        NewStep::Symlink { description, source, target, file_name } => {
            assert_eq!(description, "symlink /tmp/x/myproject-feat/.env");
            assert_eq!(source, "/tmp/x/myproject/.env");
            assert_eq!(target, "/tmp/x/myproject-feat/.env");
            assert_eq!(file_name, ".env");
        }
        _ => panic!("expected a symlink step"),
    }
    match &plan.steps[3] {
        NewStep::Shell { description, command, dir } => {
            assert_eq!(description, "run npm install");
            assert_eq!(command, "npm install");
            assert_eq!(dir, "/tmp/x/myproject-feat");
        }
        _ => panic!("expected a shell step"),
    }
    let cli_files = Some(vec!["a".to_string(), "b".to_string()]);
    let plan = wt::commands::new::run(&ctx(false), "/tmp/x", &config, "feat", &None, &cli_files, "main").ok().unwrap();
    assert_eq!(plan.steps.len(), 5);
    assert_eq!(describe(&plan.steps[3]), "symlink /tmp/x/myproject-feat/b");
}

#[test]
fn new_refuses_existing_directory_message() {
    let e = WtError::DirectoryExists { path: "/tmp/x/myproject-taken".to_string() };
    assert_eq!(e.message(), "directory already exists: /tmp/x/myproject-taken");
}

#[test]
fn config_init_plan() {
    let plan = wt::commands::config_init::run(&ctx(false));
    assert_eq!(plan.config_path, "/tmp/x/myproject/.wtconfig.toml");
    assert_eq!(plan.exclude_path, "/tmp/x/myproject/.git/info/exclude");
    assert_eq!(plan.write_description, "write .wtconfig.toml");
    assert_eq!(plan.exclude_description, "add .wtconfig.toml to .git/info/exclude");
    assert_eq!(plan.initialized_message, "Initialized .wtconfig.toml in /tmp/x/myproject");
    let e = WtError::ConfigExists { path: plan.config_path.clone() };
    assert_eq!(e.message(), ".wtconfig.toml already exists at /tmp/x/myproject/.wtconfig.toml");
}

#[test]
fn exclude_entry_added_once() {
    assert!(needs_exclude_entry(None));
    assert!(needs_exclude_entry(Some("")));
    assert!(needs_exclude_entry(Some("*.log\n")));
    assert!(!needs_exclude_entry(Some("*.log\n.wtconfig.toml\n")));
    assert!(!needs_exclude_entry(Some("  .wtconfig.toml \t\r\n")));
    assert!(needs_exclude_entry(Some("x.wtconfig.toml\n")));
}

#[test]
fn split_then_join_gives_prefix_back() {
    for p in ["team/chnn", "", "/", "a//b/"] {
        let parts = split_on(p, '/');
        assert_eq!(join_strings(&parts, "/"), p);
    }
    assert_eq!(split_on("team/chnn", '/'), vec!["team".to_string(), "chnn".to_string()]);
}

#[test]
fn root_parent_is_the_directory_of_the_root_worktree() {
    assert_eq!(ctx(false).root_parent().as_deref(), Some("/tmp/x"));
    assert_eq!(Context::new(false, "/".to_string(), false).root_parent(), None);
}

#[test]
fn remove_matches_paths_as_paths() {
    let listing = parse_worktree_list("worktree /tmp/x//myproject-feat/\nbranch refs/heads/f\n");
    let plan = remove_one(&ctx(false), &listing, "/tmp/x", "feat").ok().unwrap();
    assert_eq!(plan.steps.len(), 2);
    assert_eq!(plan.steps[1].description, "git branch -D f");
}

#[test]
fn existing_directory_and_config_are_refused() {
    assert!(refuse_existing_directory("/tmp/x/myproject-taken", false).is_ok());
    let e = refuse_existing_directory("/tmp/x/myproject-taken", true).err().unwrap();
    assert_eq!(e.message(), "directory already exists: /tmp/x/myproject-taken");
    assert!(refuse_existing_config("/r/.wtconfig.toml", false).is_ok());
    let e = refuse_existing_config("/r/.wtconfig.toml", true).err().unwrap();
    assert_eq!(e.message(), ".wtconfig.toml already exists at /r/.wtconfig.toml");
}

#[test]
fn new_plan_checks_slug_and_parent() {
    let e = wt::commands::new::plan(&ctx(false), &WtConfig::default(), "bad/slug", &None, &None, "main")
        .err()
        .unwrap();
    assert_eq!(e.message(), "slug must not contain '/' — got 'bad/slug'");
    let plan = wt::commands::new::plan(&ctx(false), &WtConfig::default(), "feat", &None, &None, "main")
        .ok()
        .unwrap()
        .unwrap();
    assert_eq!(plan.worktree_path, "/tmp/x/myproject-feat");
    let rootless = Context::new(false, "/".to_string(), false);
    assert!(wt::commands::new::plan(&rootless, &WtConfig::default(), "feat", &None, &None, "main")
        .ok()
        .unwrap()
        .is_none());
}

#[test]
fn remove_plan_uses_the_root_parent() {
    let slugs = vec!["feat".to_string()];
    let plans = wt::commands::remove::plan(&ctx(false), &listing(), &slugs).unwrap();
    assert_eq!(plans.len(), 1);
    assert_eq!(
        plans[0].as_ref().ok().unwrap().steps[0].description,
        "git worktree remove /tmp/x/myproject-feat"
    );
    let rootless = Context::new(false, "/".to_string(), false);
    assert!(wt::commands::remove::plan(&rootless, &listing(), &slugs).is_none());
}

#[test]
fn listings_put_together_parse_in_turn() {
    let a = "worktree /a\nbranch refs/heads/x\n";
    let b = "worktree /b\nbare\n";
    let whole = parse_worktree_list(&format!("{a}{b}"));
    let first = parse_worktree_list(a);
    let second = parse_worktree_list(b);
    assert_eq!(whole.len(), first.len() + second.len());
    assert_eq!(whole[0].path, first[0].path);
    assert_eq!(whole[0].branch, first[0].branch);
    assert_eq!(whole[1].path, second[0].path);
    assert_eq!(whole[1].is_bare, second[0].is_bare);
}

#[test]
fn new_run_refuses_slug_with_slash() {
    let e = wt::commands::new::run(&ctx(false), "/tmp/x", &WtConfig::default(), "bad/slug", &None, &None, "main")
        .err()
        .unwrap();
    assert_eq!(e.message(), "slug must not contain '/' — got 'bad/slug'");
}

#[test]
fn new_worktree_is_listed_under_its_slug() {
    let plan = wt::commands::new::run(&ctx(false), "/tmp/x", &WtConfig::default(), "feat", &None, &None, "main")
        .ok()
        .unwrap();
    assert_eq!(slug_of(&plan.worktree_path, "myproject").as_deref(), Some("feat"));
}

#[test]
fn dry_run_withholds_closing_lines() {
    let plan = wt::commands::new::run(&ctx(true), "/tmp/x", &WtConfig::default(), "feat", &None, &None, "main")
        .ok()
        .unwrap();
    assert!(wt::commands::new::closing_lines(&plan, true).is_none());
    let (err, out) = wt::commands::new::closing_lines(&plan, false).unwrap();
    assert_eq!(err, "Created worktree 'feat' on branch feat");
    assert_eq!(out, "/tmp/x/myproject-feat");
    let removal = remove_one(&ctx(true), &listing(), "/tmp/x", "feat").ok().unwrap();
    assert!(wt::commands::remove::closing_line(&removal, true).is_none());
    assert_eq!(
        wt::commands::remove::closing_line(&removal, false).as_deref(),
        Some("Removed worktree 'feat'")
    );
}

#[test]
fn shell_init_outputs_function() {
    let stdout = wt::commands::shell_init::run();
    assert!(stdout.contains("wt()"));
    assert!(stdout.contains("command wt"));
    assert!(stdout.contains("WT_ASSISTANT"));
    assert!(stdout.contains("EDITOR"));
    assert!(stdout.contains("--dangerously-skip-permissions"));
    assert!(stdout.contains("${TMPDIR:-/tmp}/wt-prompt-XXXXXX.md"));
    assert!(stdout.starts_with("wt() {\n"));
    assert!(stdout.ends_with("}\n"));
}

#[test]
fn slug_steps_run_in_order_and_stop_at_a_failure() {
    let plan = remove_one(&ctx(false), &listing(), "/tmp/x", "feat");
    assert!(matches!(slug_step("feat", &plan, &[], false), SlugStep::Run(0)));
    assert!(matches!(slug_step("feat", &plan, &[None], false), SlugStep::Run(1)));
    match slug_step("feat", &plan, &[None, None], false) {
        SlugStep::Removed(line) => assert_eq!(line.as_deref(), Some("Removed worktree 'feat'")),
        _ => panic!("expected Removed"),
    }
    assert!(matches!(slug_step("feat", &plan, &[None, None], true), SlugStep::Removed(None)));
    match slug_step("feat", &plan, &[Some("git worktree remove x failed: busy".to_string())], false) {
        SlugStep::Failed(line) => assert_eq!(line, "feat: git worktree remove x failed: busy"),
        _ => panic!("expected Failed"),
    }
    let missing = remove_one(&ctx(false), &listing(), "/tmp/x", "nope");
    match slug_step("nope", &missing, &[], false) {
        SlugStep::Failed(line) => assert_eq!(line, "nope: no worktree found at /tmp/x/myproject-nope"),
        _ => panic!("expected Failed"),
    }
}
