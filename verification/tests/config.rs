use wt::config::{config_template, format_branch_name, WtConfig};

#[test]
fn test_format_branch_name_no_prefix() {
    assert_eq!(format_branch_name(&None, "feat"), "feat");
    assert_eq!(format_branch_name(&Some(vec![]), "feat"), "feat");
}

#[test]
fn test_format_branch_name_single_prefix() {
    let prefix = Some(vec!["chnn".to_string()]);
    assert_eq!(format_branch_name(&prefix, "feat"), "chnn/feat");
}

#[test]
fn test_format_branch_name_multi_prefix() {
    let prefix = Some(vec!["team".to_string(), "chnn".to_string()]);
    assert_eq!(format_branch_name(&prefix, "feat"), "team/chnn/feat");
}

#[test]
fn branch_name_with_empty_segment_keeps_separators() {
    let prefix = Some(vec!["".to_string(), "x".to_string()]);
    assert_eq!(format_branch_name(&prefix, "feat"), "/x/feat");
}

#[test]
fn default_config_sets_nothing() {
    let config = WtConfig::default();
    assert!(config.branch_prefix.is_none());
    assert!(config.symlink_files.is_none());
    assert!(config.post_create_commands.is_none());
}

#[test]
fn config_template_documents_every_setting() {
    let t = config_template();
    assert!(t.starts_with("# wt — Git Worktree Manager configuration\n"));
    assert!(t.contains("# branch_prefix = [\"chnn\"]\n"));
    assert!(t.contains("# symlink_files = [\".env\", \".idea\"]\n"));
    assert!(t.contains("# post_create_commands = [\"npm install\", \"npm run build\"]\n"));
    assert!(t.ends_with("\n"));
}

#[test]
fn config_template_lines_are_comments() {
    for line in config_template().lines() {
        assert!(line.is_empty() || line.starts_with('#'), "{line}");
    }
    let table: toml::Table = toml::from_str(config_template()).unwrap();
    assert!(table.is_empty());
}
