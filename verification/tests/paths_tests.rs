use gh_guard::paths::{
    base_dirs, bin_dir, cache_dir, config_dir, config_path, data_dir, downloads_dir, join,
    lock_path, logs_dir, real_gh_symlink, state_path, versions_dir,
};

#[test]
fn joins_like_a_path_buffer() {
    assert_eq!(join("/a", "b"), "/a/b");
    assert_eq!(join("/a/", "b"), "/a/b");
    assert_eq!(join("", "b"), "b");
    assert_eq!(join("/a", "/etc"), "/etc");
    assert_eq!(join("rel", ".config"), "rel/.config");
}

#[test]
fn home_fallbacks() {
    let b = base_dirs(Some("/home/u"), None, None, None);
    assert_eq!(config_dir(&b), "/home/u/.config/gh-guard");
    assert_eq!(config_path(&b), "/home/u/.config/gh-guard/config.toml");
    assert_eq!(data_dir(&b), "/home/u/.local/share/gh-guard");
    assert_eq!(cache_dir(&b), "/home/u/.cache/gh-guard");
    assert_eq!(downloads_dir(&b), "/home/u/.cache/gh-guard/downloads");
    assert_eq!(versions_dir(&b), "/home/u/.local/share/gh-guard/versions");
    assert_eq!(bin_dir(&b), "/home/u/.local/share/gh-guard/bin");
    assert_eq!(real_gh_symlink(&b), "/home/u/.local/share/gh-guard/bin/gh-real");
    assert_eq!(logs_dir(&b), "/home/u/.local/share/gh-guard/logs");
    assert_eq!(state_path(&b), "/home/u/.local/share/gh-guard/state.json");
    assert_eq!(lock_path(&b), "/home/u/.local/share/gh-guard/state.lock");
}

#[test]
fn xdg_variables_take_precedence() {
    let b = base_dirs(Some("/home/u"), Some("/x/conf"), Some("/x/data/"), Some("/x/cache"));
    assert_eq!(config_path(&b), "/x/conf/gh-guard/config.toml");
    assert_eq!(real_gh_symlink(&b), "/x/data/gh-guard/bin/gh-real");
    assert_eq!(cache_dir(&b), "/x/cache/gh-guard");
}

#[test]
fn missing_home_gives_relative_paths() {
    let b = base_dirs(None, None, None, None);
    assert_eq!(config_dir(&b), ".config/gh-guard");
    assert_eq!(data_dir(&b), ".local/share/gh-guard");
}
