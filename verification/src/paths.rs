//! Where the wrapper keeps its files, following the XDG base directory
//! layout on every platform:
//! `$XDG_CONFIG_HOME/gh-guard`, `$XDG_DATA_HOME/gh-guard` and
//! `$XDG_CACHE_HOME/gh-guard`, with `~/.config`, `~/.local/share` and
//! `~/.cache` as fallbacks.
use vstd::prelude::*;
use vstd::string::*;

use crate::exec::is_absolute_path;
use crate::text::{seq_starts_with, starts_with};

verus! {

/// Appending a relative or absolute path to a base path, as a Unix path
/// buffer does: an absolute path replaces the base; otherwise a `/` is put
/// between the two unless the base is empty or already ends with one.
pub open spec fn path_join(base: Seq<char>, rel: Seq<char>) -> Seq<char> {
    if seq_starts_with(rel, "/"@) || base.len() == 0 {
        rel
    } else if base.last() == '/' {
        base + rel
    } else {
        base + "/"@ + rel
    }
}

/// Appends `rel` to the path `base`.
pub fn join(base: &str, rel: &str) -> (r: String)
    ensures
        r@ == path_join(base@, rel@),
{
    let n = base.unicode_len();
    if starts_with(rel, "/") || n == 0 {
        String::from_str(rel)
    } else if base.get_char(n - 1) == '/' {
        String::from_str(base).concat(rel)
    } else {
        String::from_str(base).concat("/").concat(rel)
    }
}

/// The three base directories, after the environment has been consulted.
#[derive(Debug, Clone)]
pub struct BaseDirs {
    pub config_home: String,
    pub data_home: String,
    pub cache_home: String,
}

/// A base directory: the XDG variable's value when it is set, otherwise
/// the fallback under the home directory (the empty path when `HOME` is
/// not set either).
pub open spec fn xdg_home(var: Option<Seq<char>>, home: Option<Seq<char>>, fallback: Seq<char>) -> Seq<char> {
    match var {
        Some(v) => v,
        None => path_join(
            match home {
                Some(h) => h,
                None => Seq::empty(),
            },
            fallback,
        ),
    }
}

/// The view of an optional string.
pub open spec fn opt_view(o: Option<&str>) -> Option<Seq<char>> {
    match o {
        Some(s) => Some(s@),
        None => None,
    }
}

fn resolve_home(var: Option<&str>, home: Option<&str>, fallback: &str) -> (r: String)
    ensures
        r@ == xdg_home(opt_view(var), opt_view(home), fallback@),
{
    match var {
        Some(v) => {
            let r = String::from_str(v);
            assert(opt_view(var) == Some(v@));
            r
        },
        None => match home {
            Some(h) => join(h, fallback),
            None => {
                let r = join("", fallback);
                proof {
                    reveal_strlit("");
                }
                r
            },
        },
    }
}

/// Resolves the base directories from the values of `HOME`,
/// `XDG_CONFIG_HOME`, `XDG_DATA_HOME` and `XDG_CACHE_HOME` (`None` when a
/// variable is not set).
pub fn base_dirs(
    home: Option<&str>,
    xdg_config_home: Option<&str>,
    xdg_data_home: Option<&str>,
    xdg_cache_home: Option<&str>,
) -> (b: BaseDirs)
    ensures
        b.config_home@ == xdg_home(opt_view(xdg_config_home), opt_view(home), ".config"@),
        b.data_home@ == xdg_home(opt_view(xdg_data_home), opt_view(home), ".local/share"@),
        b.cache_home@ == xdg_home(opt_view(xdg_cache_home), opt_view(home), ".cache"@),
{
    BaseDirs {
        config_home: resolve_home(xdg_config_home, home, ".config"),
        data_home: resolve_home(xdg_data_home, home, ".local/share"),
        cache_home: resolve_home(xdg_cache_home, home, ".cache"),
    }
}

pub open spec fn spec_config_dir(b: BaseDirs) -> Seq<char> {
    path_join(b.config_home@, "gh-guard"@)
}

pub open spec fn spec_data_dir(b: BaseDirs) -> Seq<char> {
    path_join(b.data_home@, "gh-guard"@)
}

pub open spec fn spec_cache_dir(b: BaseDirs) -> Seq<char> {
    path_join(b.cache_home@, "gh-guard"@)
}

pub open spec fn spec_bin_dir(b: BaseDirs) -> Seq<char> {
    path_join(spec_data_dir(b), "bin"@)
}

pub open spec fn spec_versions_dir(b: BaseDirs) -> Seq<char> {
    path_join(spec_data_dir(b), "versions"@)
}

/// `<config home>/gh-guard`.
pub fn config_dir(b: &BaseDirs) -> (r: String)
    ensures
        r@ == spec_config_dir(*b),
{
    join(b.config_home.as_str(), "gh-guard")
}

/// `<config home>/gh-guard/config.toml`.
pub fn config_path(b: &BaseDirs) -> (r: String)
    ensures
        r@ == path_join(spec_config_dir(*b), "config.toml"@),
{
    join(config_dir(b).as_str(), "config.toml")
}

/// `<data home>/gh-guard`.
pub fn data_dir(b: &BaseDirs) -> (r: String)
    ensures
        r@ == spec_data_dir(*b),
{
    join(b.data_home.as_str(), "gh-guard")
}

/// `<cache home>/gh-guard`.
pub fn cache_dir(b: &BaseDirs) -> (r: String)
    ensures
        r@ == spec_cache_dir(*b),
{
    join(b.cache_home.as_str(), "gh-guard")
}

/// `<cache home>/gh-guard/downloads`, where release assets are downloaded.
pub fn downloads_dir(b: &BaseDirs) -> (r: String)
    ensures
        r@ == path_join(spec_cache_dir(*b), "downloads"@),
{
    join(cache_dir(b).as_str(), "downloads")
}

/// `<data home>/gh-guard/versions`, holding one directory per installed version.
pub fn versions_dir(b: &BaseDirs) -> (r: String)
    ensures
        r@ == spec_versions_dir(*b),
{
    join(data_dir(b).as_str(), "versions")
}

/// `<data home>/gh-guard/bin`.
pub fn bin_dir(b: &BaseDirs) -> (r: String)
    ensures
        r@ == spec_bin_dir(*b),
{
    join(data_dir(b).as_str(), "bin")
}

/// `<data home>/gh-guard/bin/gh-real`, the link to the active real GitHub CLI.
pub fn real_gh_symlink(b: &BaseDirs) -> (r: String)
    ensures
        r@ == path_join(spec_bin_dir(*b), "gh-real"@),
{
    join(bin_dir(b).as_str(), "gh-real")
}

/// `<data home>/gh-guard/logs`.
pub fn logs_dir(b: &BaseDirs) -> (r: String)
    ensures
        r@ == path_join(spec_data_dir(*b), "logs"@),
{
    join(data_dir(b).as_str(), "logs")
}

/// `<data home>/gh-guard/state.json`.
pub fn state_path(b: &BaseDirs) -> (r: String)
    ensures
        r@ == path_join(spec_data_dir(*b), "state.json"@),
{
    join(data_dir(b).as_str(), "state.json")
}

/// `<data home>/gh-guard/state.lock`, locked while an update runs.
pub fn lock_path(b: &BaseDirs) -> (r: String)
    ensures
        r@ == path_join(spec_data_dir(*b), "state.lock"@),
{
    join(data_dir(b).as_str(), "state.lock")
}

/// Joining a relative path to an absolute base gives an absolute path that
/// starts with the base.
pub proof fn law_join_keeps_absolute_base(base: Seq<char>, rel: Seq<char>)
    requires
        is_absolute_path(base),
        !seq_starts_with(rel, "/"@),
    ensures
        is_absolute_path(path_join(base, rel)),
        seq_starts_with(path_join(base, rel), base),
{
    reveal_strlit("/");
    let j = path_join(base, rel);
    assert(base.len() >= 1);
    if base.last() == '/' {
        assert(j.subrange(0, base.len() as int) =~= base);
    } else {
        assert(j.subrange(0, base.len() as int) =~= base);
    }
    assert(j.subrange(0, 1) =~= base.subrange(0, 1));
}

/// When the data home is absolute, the link to the real GitHub CLI is an
/// absolute path inside `<data home>/gh-guard/bin`.
pub proof fn law_real_gh_link_is_absolute(b: BaseDirs)
    requires
        is_absolute_path(b.data_home@),
    ensures
        is_absolute_path(path_join(spec_bin_dir(b), "gh-real"@)),
        seq_starts_with(path_join(spec_bin_dir(b), "gh-real"@), spec_bin_dir(b)),
{
    reveal_strlit("gh-guard");
    reveal_strlit("bin");
    reveal_strlit("gh-real");
    reveal_strlit("/");
    assert("gh-guard"@.subrange(0, 1)[0] != "/"@[0]);
    assert("bin"@.subrange(0, 1)[0] != "/"@[0]);
    assert("gh-real"@.subrange(0, 1)[0] != "/"@[0]);
    law_join_keeps_absolute_base(b.data_home@, "gh-guard"@);
    law_join_keeps_absolute_base(spec_data_dir(b), "bin"@);
    law_join_keeps_absolute_base(spec_bin_dir(b), "gh-real"@);
}

} // verus!
