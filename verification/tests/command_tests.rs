use gh_guard::command::extract_command_path;

#[test]
fn test_version() {
    let args = vec!["--version".to_string()];
    assert_eq!(
        extract_command_path(&args),
        Some(vec!["--version".to_string()])
    );
}

#[test]
fn test_pr_list() {
    let args = vec!["pr".to_string(), "list".to_string()];
    assert_eq!(
        extract_command_path(&args),
        Some(vec!["pr".to_string(), "list".to_string()])
    );
}

#[test]
fn test_with_repo_flag() {
    let args = vec![
        "--repo".to_string(),
        "owner/repo".to_string(),
        "pr".to_string(),
        "list".to_string(),
    ];
    assert_eq!(
        extract_command_path(&args),
        Some(vec!["pr".to_string(), "list".to_string()])
    );
}

#[test]
fn test_with_short_repo_flag() {
    let args = vec![
        "-R".to_string(),
        "owner/repo".to_string(),
        "pr".to_string(),
        "view".to_string(),
    ];
    assert_eq!(
        extract_command_path(&args),
        Some(vec!["pr".to_string(), "view".to_string()])
    );
}

#[test]
fn test_with_combined_short_repo_flag() {
    let args = vec![
        "-Rowner/repo".to_string(),
        "pr".to_string(),
        "list".to_string(),
    ];
    assert_eq!(
        extract_command_path(&args),
        Some(vec!["pr".to_string(), "list".to_string()])
    );
}

#[test]
fn test_empty() {
    let args: Vec<String> = vec![];
    assert_eq!(extract_command_path(&args), None);
}

#[test]
fn test_flags_only() {
    let args = vec!["--repo".to_string(), "foo".to_string()];
    assert_eq!(extract_command_path(&args), None);
}

#[test]
fn help_flag_stops_the_scan() {
    let args = vec!["pr".to_string(), "-h".to_string(), "list".to_string()];
    assert_eq!(
        extract_command_path(&args),
        Some(vec!["--help".to_string()])
    );
}

#[test]
fn hostname_and_config_dir_take_values() {
    let args = vec![
        "--hostname".to_string(),
        "ghe.example.com".to_string(),
        "--config-dir".to_string(),
        "/tmp/x".to_string(),
        "repo".to_string(),
        "view".to_string(),
    ];
    assert_eq!(
        extract_command_path(&args),
        Some(vec!["repo".to_string(), "view".to_string()])
    );
}

#[test]
fn flag_values_are_not_part_of_the_path() {
    let args = vec![
        "pr".to_string(),
        "view".to_string(),
        "--json".to_string(),
        "title".to_string(),
    ];
    assert_eq!(
        extract_command_path(&args),
        Some(vec!["pr".to_string(), "view".to_string()])
    );
}

#[test]
fn path_holds_the_subcommand_words_only() {
    let args: Vec<String> = ["-R", "owner/repo", "pr", "view", "123"].iter().map(|s| s.to_string()).collect();
    assert_eq!(
        extract_command_path(&args),
        Some(vec!["pr".to_string(), "view".to_string()])
    );
    let api: Vec<String> = ["api", "repos/owner/repo"].iter().map(|s| s.to_string()).collect();
    assert_eq!(extract_command_path(&api), Some(vec!["api".to_string()]));
}

#[test]
fn value_flag_at_the_end_is_skipped() {
    let args = vec!["api".to_string(), "-R".to_string()];
    assert_eq!(extract_command_path(&args), Some(vec!["api".to_string()]));
}

#[test]
fn words_never_start_with_a_dash() {
    let args = vec![
        "issue".to_string(),
        "-x".to_string(),
        "list".to_string(),
        "--state".to_string(),
        "open".to_string(),
    ];
    let path = extract_command_path(&args).unwrap();
    assert!(path.iter().all(|w| !w.starts_with('-')));
    assert_eq!(path, vec!["issue".to_string(), "list".to_string()]);
}
