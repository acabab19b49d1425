//! Extraction of the command path (the subcommand words) from the arguments
//! given to `gh`.
use vstd::prelude::*;
use vstd::string::*;

use crate::config::strings_view;
use crate::text::{seq_starts_with, starts_with, str_eq};

verus! {

/// The outcome of scanning arguments: either a standalone command that ends
/// the scan (`--version`, `--help`), or the words collected so far.
pub enum Scan {
    Standalone(Seq<Seq<char>>),
    Words(Seq<Seq<char>>),
}

/// Global flags that take the next argument as their value.
pub open spec fn is_value_flag(a: Seq<char>) -> bool {
    a == "--repo"@ || a == "--hostname"@ || a == "--config-dir"@ || a == "-R"@
}

/// Scans the arguments from index `i` on. `--version` and `--help`/`-h` stop
/// the scan; a value-taking global flag skips itself and its value; any
/// other argument starting with `-` is skipped alone; every other argument is
/// a word of the command path.
pub open spec fn scan_from(args: Seq<Seq<char>>, i: int) -> Scan
    decreases args.len() - i,
{
    if i < 0 || i >= args.len() {
        Scan::Words(Seq::empty())
    } else {
        let a = args[i];
        if a == "--version"@ {
            Scan::Standalone(seq!["--version"@])
        } else if a == "--help"@ || a == "-h"@ {
            Scan::Standalone(seq!["--help"@])
        } else if seq_starts_with(a, "-"@) {
            if is_value_flag(a) && i + 1 < args.len() {
                scan_from(args, i + 2)
            } else {
                scan_from(args, i + 1)
            }
        } else {
            match scan_from(args, i + 1) {
                Scan::Standalone(e) => Scan::Standalone(e),
                Scan::Words(w) => Scan::Words(seq![a] + w),
            }
        }
    }
}

/// The scan of `rest` after the words `done` were already collected.
pub open spec fn after_words(done: Seq<Seq<char>>, rest: Scan) -> Scan {
    match rest {
        Scan::Standalone(e) => Scan::Standalone(e),
        Scan::Words(w) => Scan::Words(done + w),
    }
}

/// The top-level commands of the GitHub CLI that group subcommands
/// (`gh pr list`, `gh repo view`); every other command, such as `api`,
/// `browse`, `status` or `help`, takes arguments rather than a subcommand.
pub open spec fn is_command_group(w: Seq<char>) -> bool {
    ||| w == "alias"@
    ||| w == "attestation"@
    ||| w == "auth"@
    ||| w == "cache"@
    ||| w == "codespace"@
    ||| w == "config"@
    ||| w == "extension"@
    ||| w == "gist"@
    ||| w == "gpg-key"@
    ||| w == "issue"@
    ||| w == "label"@
    ||| w == "org"@
    ||| w == "pr"@
    ||| w == "project"@
    ||| w == "release"@
    ||| w == "repo"@
    ||| w == "ruleset"@
    ||| w == "run"@
    ||| w == "search"@
    ||| w == "secret"@
    ||| w == "ssh-key"@
    ||| w == "variable"@
    ||| w == "workflow"@
}

/// The subcommand words among the collected words: the command, and its
/// subcommand when the command is a command group. Further words are
/// arguments (`gh pr view 123` is `["pr", "view"]`, `gh api repos/o/r` is
/// `["api"]`).
pub open spec fn subcommand_words(w: Seq<Seq<char>>) -> Seq<Seq<char>> {
    if w.len() >= 2 && is_command_group(w[0]) {
        w.take(2)
    } else {
        w.take(1)
    }
}

/// The command path of an argument list: the standalone command if there is
/// one, otherwise the subcommand words, or nothing when there are none.
pub open spec fn command_path_of(args: Seq<Seq<char>>) -> Option<Seq<Seq<char>>> {
    match scan_from(args, 0) {
        Scan::Standalone(e) => Some(e),
        Scan::Words(w) => if w.len() == 0 {
            None
        } else {
            Some(subcommand_words(w))
        },
    }
}

/// Whether a word is a command group of the GitHub CLI.
pub fn command_group(w: &str) -> (r: bool)
    ensures
        r == is_command_group(w@),
{
    str_eq(w, "alias") || str_eq(w, "attestation") || str_eq(w, "auth") || str_eq(w, "cache")
        || str_eq(w, "codespace") || str_eq(w, "config") || str_eq(w, "extension") || str_eq(
        w,
        "gist",
    ) || str_eq(w, "gpg-key") || str_eq(w, "issue") || str_eq(w, "label") || str_eq(w, "org")
        || str_eq(w, "pr") || str_eq(w, "project") || str_eq(w, "release") || str_eq(w, "repo")
        || str_eq(w, "ruleset") || str_eq(w, "run") || str_eq(w, "search") || str_eq(w, "secret")
        || str_eq(w, "ssh-key") || str_eq(w, "variable") || str_eq(w, "workflow")
}

fn single(word: &str) -> (v: Vec<String>)
    ensures
        strings_view(v@) == seq![word@],
{
    let mut v: Vec<String> = Vec::new();
    v.push(String::from_str(word));
    assert(strings_view(v@) =~= seq![word@]);
    v
}

/// The subcommand words of a `gh` invocation (see [`subcommand_words`]),
/// skipping global flags and their values; `Some(["--version"])` or
/// `Some(["--help"])` when such a flag comes first; `None` when no word is
/// found.
pub fn extract_command_path(args: &[String]) -> (r: Option<Vec<String>>)
    ensures
        match command_path_of(strings_view(args@)) {
            None => r is None,
            Some(p) => r is Some && strings_view(r->0@) == p,
        },
{
    let ghost all = strings_view(args@);
    let n = args.len();
    let mut path: Vec<String> = Vec::new();
    // Every word is collected; the subcommand words are kept at the end, so
    // that a later `--version` or `--help` still takes precedence.
    let mut i: usize = 0;
    assert(after_words(strings_view(path@), scan_from(all, 0)) == scan_from(all, 0)) by {
        assert(strings_view(path@) =~= Seq::<Seq<char>>::empty());
        match scan_from(all, 0) {
            Scan::Standalone(e) => {},
            Scan::Words(w) => {
                assert(Seq::<Seq<char>>::empty() + w =~= w);
            },
        }
    }
    while i < n
        invariant
            n == args@.len(),
            all == strings_view(args@),
            i <= n,
            after_words(strings_view(path@), scan_from(all, i as int)) == scan_from(all, 0),
        decreases n - i,
    {
        let arg = args[i].as_str();
        assert(all[i as int] == arg@);
        if str_eq(arg, "--version") {
            return Some(single("--version"));
        }
        if str_eq(arg, "--help") || str_eq(arg, "-h") {
            return Some(single("--help"));
        }
        if starts_with(arg, "-") {
            if str_eq(arg, "--repo") || str_eq(arg, "--hostname") || str_eq(arg, "--config-dir")
                || str_eq(arg, "-R") {
                i = i + 1;
                if i < n {
                    i = i + 1;
                }
                continue ;
            }
            // A `-Rvalue` flag carries its value and, like an unknown flag,
            // is skipped alone; the value of an unknown flag that takes one
            // is then read as a word, which can only make matching stricter.

            i = i + 1;
            continue ;
        }
        let ghost before = strings_view(path@);
        path.push(args[i].clone());
        proof {
            assert(strings_view(path@) =~= before + seq![all[i as int]]);
            match scan_from(all, i + 1) {
                Scan::Standalone(e) => {},
                Scan::Words(w) => {
                    assert(before + (seq![all[i as int]] + w) =~= (before + seq![
                        all[i as int],
                    ]) + w);
                },
            }
        }
        i = i + 1;
    }
    proof {
        assert(strings_view(path@) + Seq::<Seq<char>>::empty() =~= strings_view(path@));
    }
    if path.len() == 0 {
        return None;
    }
    let keep: usize = if path.len() >= 2 && command_group(path[0].as_str()) {
        2
    } else {
        1
    };
    let ghost words = strings_view(path@);
    path.truncate(keep);
    assert(strings_view(path@) =~= subcommand_words(words));
    Some(path)
}

/// The collected words never hold a flag: every word is an argument that
/// does not start with `-`.
pub proof fn law_words_are_not_flags(args: Seq<Seq<char>>, i: int)
    requires
        0 <= i,
    ensures
        scan_from(args, i) matches Scan::Words(w) ==> forall|k: int|
            0 <= k < w.len() ==> !seq_starts_with(#[trigger] w[k], "-"@),
    decreases args.len() - i,
{
    if i < args.len() {
        let a = args[i];
        if a == "--version"@ || a == "--help"@ || a == "-h"@ {
        } else if seq_starts_with(a, "-"@) {
            if is_value_flag(a) && i + 1 < args.len() {
                law_words_are_not_flags(args, i + 2);
            } else {
                law_words_are_not_flags(args, i + 1);
            }
        } else {
            law_words_are_not_flags(args, i + 1);
            if let Scan::Words(w) = scan_from(args, i + 1) {
                assert forall|k: int| 0 <= k < w.len() + 1 implies !seq_starts_with(
                    #[trigger] (seq![a] + w)[k],
                    "-"@,
                ) by {
                    if k > 0 {
                        assert((seq![a] + w)[k] == w[k - 1]);
                    }
                }
            }
        }
    }
}

/// A command path that is not a standalone flag has one or two words, none
/// of them a flag, and two only when the first is a command group.
pub proof fn law_command_path_shape(args: Seq<Seq<char>>)
    ensures
        command_path_of(args) matches Some(p) ==> scan_from(args, 0) matches Scan::Words(_) ==> {
            &&& 1 <= p.len() <= 2
            &&& p.len() == 2 ==> is_command_group(p[0])
            &&& forall|k: int| 0 <= k < p.len() ==> !seq_starts_with(#[trigger] p[k], "-"@)
        },
{
    law_words_are_not_flags(args, 0);
    if let Scan::Words(w) = scan_from(args, 0) {
        if w.len() > 0 {
            let p = subcommand_words(w);
            assert forall|k: int| 0 <= k < p.len() implies !seq_starts_with(#[trigger] p[k], "-"@) by {
                assert(p[k] == w[k]);
            }
        }
    }
}

/// The command groups of the GitHub CLI keep their subcommand: for `alias`,
/// `attestation`, `auth`, `cache`, `codespace`, `config`, `extension`,
/// `gist`, `gpg-key`, `issue`, `label`, `org`, `pr`, `project`, `release`,
/// `repo`, `ruleset`, `run`, `search`, `secret`, `ssh-key`, `variable` and
/// `workflow`, the command path of the group followed by any word that is
/// not a flag is those two words (`gh release list` is `release list`).
pub proof fn law_command_groups_keep_their_subcommand(group: Seq<char>, sub: Seq<char>)
    requires
        seq![
        "alias"@,
        "attestation"@,
        "auth"@,
        "cache"@,
        "codespace"@,
        "config"@,
        "extension"@,
        "gist"@,
        "gpg-key"@,
        "issue"@,
        "label"@,
        "org"@,
        "pr"@,
        "project"@,
        "release"@,
        "repo"@,
        "ruleset"@,
        "run"@,
        "search"@,
        "secret"@,
        "ssh-key"@,
        "variable"@,
        "workflow"@,
    ].contains(group),
        !seq_starts_with(sub, "-"@),
    ensures
        command_path_of(seq![group, sub]) == Some(seq![group, sub]),
{
    reveal_strlit("alias");
    reveal_strlit("attestation");
    reveal_strlit("auth");
    reveal_strlit("cache");
    reveal_strlit("codespace");
    reveal_strlit("config");
    reveal_strlit("extension");
    reveal_strlit("gist");
    reveal_strlit("gpg-key");
    reveal_strlit("issue");
    reveal_strlit("label");
    reveal_strlit("org");
    reveal_strlit("pr");
    reveal_strlit("project");
    reveal_strlit("release");
    reveal_strlit("repo");
    reveal_strlit("ruleset");
    reveal_strlit("run");
    reveal_strlit("search");
    reveal_strlit("secret");
    reveal_strlit("ssh-key");
    reveal_strlit("variable");
    reveal_strlit("workflow");
    reveal_strlit("-");
    reveal_strlit("--version");
    reveal_strlit("--help");
    reveal_strlit("-h");
    let args = seq![group, sub];
    assert(group.len() > 0 && group[0] != '-');
    assert(!seq_starts_with(group, "-"@)) by {
        if seq_starts_with(group, "-"@) {
            assert(group.subrange(0, 1)[0] == group[0]);
        }
    }
    assert(is_command_group(group));
    assert(sub != "--version"@ && sub != "--help"@ && sub != "-h"@) by {
        if sub == "--version"@ || sub == "--help"@ || sub == "-h"@ {
            assert(sub.subrange(0, 1) =~= "-"@);
        }
    }
    assert(scan_from(args, 2) == Scan::Words(Seq::<Seq<char>>::empty()));
    assert(scan_from(args, 1) == Scan::Words(seq![sub])) by {
        assert(seq![sub] + Seq::<Seq<char>>::empty() =~= seq![sub]);
    }
    assert(scan_from(args, 0) == Scan::Words(seq![group, sub])) by {
        assert(seq![group] + seq![sub] =~= seq![group, sub]);
    }
    assert(seq![group, sub].take(2) =~= seq![group, sub]);
}

} // verus!
