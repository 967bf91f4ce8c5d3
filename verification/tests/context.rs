use wt::context::{execute, execute_with_progress, format_failure_report, Context, ProgressState, StepMode};

#[test]
fn failure_report_lists_completed_and_failed_steps() {
    let report = format_failure_report(
        &[
            "git fetch origin main".to_string(),
            "git worktree add ...".to_string(),
        ],
        "symlink /tmp/project-feat/.env",
        "symlink source missing",
    );

    assert!(report.contains("[done] git fetch origin main"));
    assert!(report.contains("[done] git worktree add ..."));
    assert!(report.contains("[failed] symlink /tmp/project-feat/.env"));
    assert!(report.contains("[error] symlink source missing"));
}

#[test]
fn failure_report_handles_no_completed_steps() {
    let report = format_failure_report(&[], "git fetch origin main", "boom");

    assert!(!report.contains("[done]"));
    assert!(report.contains("[failed] git fetch origin main"));
    assert!(report.contains("[error] boom"));
}

#[test]
fn failure_report_exact_text() {
    let report = format_failure_report(&["a".to_string(), "b".to_string()], "c", "d");
    assert_eq!(
        report,
        "Progress before failure:\n  [done] a\n  [done] b\n  [failed] c\n  [error] d"
    );
}

#[test]
fn progress_records_steps_in_order() {
    let mut p = ProgressState::new(false);
    assert!(p.completed_steps_snapshot().is_empty());
    p.record_completed_step("one");
    p.record_completed_step("two");
    assert_eq!(p.completed_steps_snapshot(), vec!["one".to_string(), "two".to_string()]);
    assert!(!p.stderr_is_tty());
}

#[test]
fn context_names_repository_after_root() {
    let ctx = Context::new(false, "/home/u/myproject".to_string(), true);
    assert_eq!(ctx.repo_name, "myproject");
    assert_eq!(ctx.root_worktree, "/home/u/myproject");
    assert!(!ctx.dry_run);
    assert!(ctx.progress.stderr_is_tty());
}

#[test]
fn dry_run_announces_steps() {
    let ctx = Context::new(true, "/r/p".to_string(), true);
    match execute(&ctx, "git fetch origin main") {
        StepMode::Announce(line) => assert_eq!(line, "[dry-run] git fetch origin main"),
        _ => panic!("expected Announce"),
    }
    match execute_with_progress(&ctx, "x") {
        StepMode::Announce(line) => assert_eq!(line, "[dry-run] x"),
        _ => panic!("expected Announce"),
    }
}

#[test]
fn steps_run_with_spinner_only_on_tty() {
    let ctx = Context::new(false, "/r/p".to_string(), true);
    assert!(matches!(execute(&ctx, "x"), StepMode::Run { spinner: false }));
    assert!(matches!(execute_with_progress(&ctx, "x"), StepMode::Run { spinner: true }));
    let ctx = Context::new(false, "/r/p".to_string(), false);
    assert!(matches!(execute_with_progress(&ctx, "x"), StepMode::Run { spinner: false }));
}

#[test]
fn finished_steps_feed_the_failure_report() {
    let mut ctx = Context::new(false, "/r/p".to_string(), false);
    assert!(ctx.finish_step("git worktree remove /r/p-a", None).is_none());
    let report = ctx.finish_step("git branch -D a", Some("git branch -D a failed: no")).unwrap();
    assert_eq!(
        report,
        "Progress before failure:\n  [done] git worktree remove /r/p-a\n  [failed] git branch -D a\n  [error] git branch -D a failed: no"
    );
    assert_eq!(
        ctx.progress.completed_steps_snapshot(),
        vec!["git worktree remove /r/p-a".to_string()]
    );
}
