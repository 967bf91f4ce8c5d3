use std::path::PathBuf;

use wt::git::{
    add_worktree, delete_branch, detect_main_branch, fetch_branch, parse_worktree_list, remove_worktree,
    repo_name, root_worktree_path, MainBranchStep,
};
use wt::error::WtError;

#[test]
fn test_parse_worktree_list_basic() {
    let output = "\
worktree /home/user/project
HEAD abc123
branch refs/heads/main
\n\
worktree /home/user/project-feat
HEAD def456
branch refs/heads/chnn/feat
";
    let entries = parse_worktree_list(output);
    assert_eq!(entries.len(), 2);
    assert_eq!(PathBuf::from(&entries[0].path), PathBuf::from("/home/user/project"));
    assert_eq!(entries[0].branch.as_deref(), Some("main"));
    assert!(!entries[0].is_bare);
    assert_eq!(PathBuf::from(&entries[1].path), PathBuf::from("/home/user/project-feat"));
    assert_eq!(entries[1].branch.as_deref(), Some("chnn/feat"));
}

#[test]
fn test_parse_worktree_list_bare() {
    let output = "\
worktree /home/user/project.git
bare
";
    let entries = parse_worktree_list(output);
    assert_eq!(entries.len(), 1);
    assert!(entries[0].is_bare);
}

#[test]
fn test_parse_worktree_list_detached() {
    let output = "\
worktree /home/user/project
HEAD abc123
branch refs/heads/main
\n\
worktree /home/user/project-detached
HEAD def456
detached
";
    let entries = parse_worktree_list(output);
    assert_eq!(entries.len(), 2);
    assert!(entries[1].branch.is_none());
}

#[test]
fn parse_worktree_list_empty_output() {
    assert!(parse_worktree_list("").is_empty());
    assert!(parse_worktree_list("\n\n").is_empty());
}

#[test]
fn parse_worktree_list_crlf_and_unusual_refs() {
    let output = "worktree /a b\r\nbranch feature/x\r\nworktree /c\nbranch refs/heads/\nbare";
    let entries = parse_worktree_list(output);
    assert_eq!(entries.len(), 2);
    assert_eq!(entries[0].path, "/a b");
    assert_eq!(entries[0].branch.as_deref(), Some("feature/x"));
    assert!(!entries[0].is_bare);
    assert_eq!(entries[1].path, "/c");
    assert_eq!(entries[1].branch.as_deref(), Some(""));
    assert!(entries[1].is_bare);
}

#[test]
fn parse_worktree_list_ignores_lines_before_first_worktree() {
    let output = "branch refs/heads/x\nbare\nworktree /p\n";
    let entries = parse_worktree_list(output);
    assert_eq!(entries.len(), 1);
    assert_eq!(entries[0].path, "/p");
    assert!(entries[0].branch.is_none());
    assert!(!entries[0].is_bare);
}

#[test]
fn test_repo_name() {
    assert_eq!(repo_name("/home/user/my-project"), "my-project");
    assert_eq!(repo_name("/foo/bar"), "bar");
}

#[test]
fn repo_name_of_root_is_empty() {
    assert_eq!(repo_name("/"), "");
    assert_eq!(repo_name("/foo/.."), "");
    assert_eq!(repo_name("/foo/bar/"), "bar");
}

#[test]
fn root_worktree_skips_bare_entries() {
    let listing = "worktree /srv/project.git\nbare\n\nworktree /home/u/project\nbranch refs/heads/main\n";
    assert_eq!(root_worktree_path(listing, None).ok().as_deref(), Some("/home/u/project"));
}

#[test]
fn root_worktree_falls_back_on_toplevel() {
    let listing = "worktree /srv/project.git\nbare\n";
    assert_eq!(root_worktree_path(listing, Some("/top")).ok().as_deref(), Some("/top"));
    match root_worktree_path(listing, None) {
        Err(WtError::NoRootWorktree) => {}
        _ => panic!("expected NoRootWorktree"),
    }
    assert_eq!(
        WtError::NoRootWorktree.message(),
        "could not determine root worktree path"
    );
}

#[test]
fn main_branch_from_origin_head() {
    match detect_main_branch(Some("refs/remotes/origin/develop"), &[]) {
        MainBranchStep::Found(b) => assert_eq!(b, "develop"),
        _ => panic!("expected Found"),
    }
}

#[test]
fn main_branch_candidates_in_order() {
    match detect_main_branch(Some("refs/heads/odd"), &[]) {
        MainBranchStep::Verify(r) => assert_eq!(r, "origin/main"),
        _ => panic!("expected Verify"),
    }
    match detect_main_branch(None, &[false]) {
        MainBranchStep::Verify(r) => assert_eq!(r, "origin/master"),
        _ => panic!("expected Verify"),
    }
    match detect_main_branch(None, &[false, true]) {
        MainBranchStep::Found(b) => assert_eq!(b, "master"),
        _ => panic!("expected Found"),
    }
    match detect_main_branch(None, &[false, false]) {
        MainBranchStep::Verify(r) => assert_eq!(r, "origin/trunk"),
        _ => panic!("expected Verify"),
    }
    match detect_main_branch(None, &[false, false, true]) {
        MainBranchStep::Found(b) => assert_eq!(b, "trunk"),
        _ => panic!("expected Found"),
    }
    assert!(matches!(detect_main_branch(None, &[false, false, false]), MainBranchStep::NotFound));
    assert_eq!(
        WtError::NoMainBranch.message(),
        "could not detect main branch: no origin/HEAD and none of main/master/trunk found at origin"
    );
}

#[test]
fn git_argument_lists() {
    assert_eq!(
        add_worktree("/p/proj-feat", "chnn/feat", "origin/main"),
        vec!["worktree", "add", "--no-track", "-b", "chnn/feat", "/p/proj-feat", "origin/main"]
    );
    assert_eq!(remove_worktree("/p/proj-feat"), vec!["worktree", "remove", "/p/proj-feat"]);
    assert_eq!(delete_branch("chnn/feat"), vec!["branch", "-D", "chnn/feat"]);
    assert_eq!(fetch_branch("main"), vec!["fetch", "origin", "main"]);
}
