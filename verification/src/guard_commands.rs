//! The wrapper's own `gh guard ...` subcommands: recognising them, and the
//! configuration checks that `gh guard doctor` reports.
use vstd::prelude::*;
use vstd::string::*;

use crate::config::{strings_view, Config, RuleView};
use crate::text::str_eq;

verus! {

/// The arguments are a `gh guard ...` invocation.
pub open spec fn is_guard_invocation(args: Seq<Seq<char>>) -> bool {
    args.len() > 0 && args[0] == "guard"@
}

/// Whether the arguments belong to the wrapper (`gh guard ...`); such
/// arguments are never passed to the real GitHub CLI.
pub fn is_guard_command(args: &[String]) -> (r: bool)
    ensures
        r == is_guard_invocation(strings_view(args@)),
{
    args.len() > 0 && str_eq(args[0].as_str(), "guard")
}

/// A `gh guard` subcommand.
#[derive(Debug, Clone, Copy, PartialEq, Eq, Structural)]
pub enum GuardCommand {
    Status,
    Doctor,
    Update,
    Version,
    RealPath,
    ConfigPath,
    ConfigInit,
    ConfigPrint,
    LogsPath,
}

/// An unknown `gh guard` subcommand, by the level at which it is unknown.
#[derive(Debug, Clone, Copy, PartialEq, Eq, Structural)]
pub enum GuardCommandError {
    UnknownCommand,
    UnknownConfigCommand,
    UnknownLogsCommand,
}

impl GuardCommandError {
    /// The usage message reported for the error.
    pub fn usage(&self) -> (r: &'static str)
        ensures
            r@ == (match *self {
                GuardCommandError::UnknownCommand => "unknown guard command. Usage: gh guard [status|doctor|update|version|real-path|config|logs]"@,
                GuardCommandError::UnknownConfigCommand => "unknown config command. Usage: gh guard config [path|init|print]"@,
                GuardCommandError::UnknownLogsCommand => "unknown logs command. Usage: gh guard logs [path]"@,
            }),
    {
        match self {
            GuardCommandError::UnknownCommand => "unknown guard command. Usage: gh guard [status|doctor|update|version|real-path|config|logs]",
            GuardCommandError::UnknownConfigCommand => "unknown config command. Usage: gh guard config [path|init|print]",
            GuardCommandError::UnknownLogsCommand => "unknown logs command. Usage: gh guard logs [path]",
        }
    }
}

/// The argument at index `i`, if there is one.
pub open spec fn arg_at(args: Seq<Seq<char>>, i: int) -> Option<Seq<char>> {
    if 0 <= i < args.len() {
        Some(args[i])
    } else {
        None
    }
}

/// The subcommand that `gh guard <sub> [<sub2>]` names (the first argument,
/// `guard`, is not looked at).
pub open spec fn guard_command_of(args: Seq<Seq<char>>) -> Result<GuardCommand, GuardCommandError> {
    let sub = arg_at(args, 1);
    let sub2 = arg_at(args, 2);
    if sub == Some("status"@) {
        Ok(GuardCommand::Status)
    } else if sub == Some("doctor"@) {
        Ok(GuardCommand::Doctor)
    } else if sub == Some("update"@) {
        Ok(GuardCommand::Update)
    } else if sub == Some("version"@) {
        Ok(GuardCommand::Version)
    } else if sub == Some("real-path"@) {
        Ok(GuardCommand::RealPath)
    } else if sub == Some("config"@) {
        if sub2 == Some("path"@) {
            Ok(GuardCommand::ConfigPath)
        } else if sub2 == Some("init"@) {
            Ok(GuardCommand::ConfigInit)
        } else if sub2 == Some("print"@) {
            Ok(GuardCommand::ConfigPrint)
        } else {
            Err(GuardCommandError::UnknownConfigCommand)
        }
    } else if sub == Some("logs"@) {
        if sub2 == Some("path"@) {
            Ok(GuardCommand::LogsPath)
        } else {
            Err(GuardCommandError::UnknownLogsCommand)
        }
    } else {
        Err(GuardCommandError::UnknownCommand)
    }
}

fn arg_is(args: &[String], i: usize, word: &str) -> (r: bool)
    ensures
        r == (arg_at(strings_view(args@), i as int) == Some(word@)),
{
    i < args.len() && str_eq(args[i].as_str(), word)
}

/// Parses the subcommand of a `gh guard` invocation.
pub fn parse_guard_command(args: &[String]) -> (r: Result<GuardCommand, GuardCommandError>)
    ensures
        r == guard_command_of(strings_view(args@)),
{
    if arg_is(args, 1, "status") {
        Ok(GuardCommand::Status)
    } else if arg_is(args, 1, "doctor") {
        Ok(GuardCommand::Doctor)
    } else if arg_is(args, 1, "update") {
        Ok(GuardCommand::Update)
    } else if arg_is(args, 1, "version") {
        Ok(GuardCommand::Version)
    } else if arg_is(args, 1, "real-path") {
        Ok(GuardCommand::RealPath)
    } else if arg_is(args, 1, "config") {
        if arg_is(args, 2, "path") {
            Ok(GuardCommand::ConfigPath)
        } else if arg_is(args, 2, "init") {
            Ok(GuardCommand::ConfigInit)
        } else if arg_is(args, 2, "print") {
            Ok(GuardCommand::ConfigPrint)
        } else {
            Err(GuardCommandError::UnknownConfigCommand)
        }
    } else if arg_is(args, 1, "logs") {
        if arg_is(args, 2, "path") {
            Ok(GuardCommand::LogsPath)
        } else {
            Err(GuardCommandError::UnknownLogsCommand)
        }
    } else {
        Err(GuardCommandError::UnknownCommand)
    }
}

/// Top-level commands that are too broad to allow wholesale.
pub open spec fn is_risky_command(w: Seq<char>) -> bool {
    w == "api"@ || w == "repo"@ || w == "auth"@ || w == "pr"@ || w == "issue"@
}

/// A rule that allows too much: a one-word pattern for a risky command, or
/// `auth token`, which prints the stored token.
pub open spec fn is_broad_allow(r: RuleView) -> bool {
    &&& r.action == "allow"@
    &&& (r.pattern.len() == 1 && is_risky_command(r.pattern[0]) || r.pattern == seq![
        "auth"@,
        "token"@,
    ])
}

/// The indices, in order, of the broad allow rules among the first `n` rules.
pub open spec fn broad_allow_indices(rules: Seq<RuleView>, n: int) -> Seq<int>
    decreases n,
{
    if n <= 0 {
        Seq::empty()
    } else if is_broad_allow(rules[n - 1]) {
        broad_allow_indices(rules, n - 1).push(n - 1)
    } else {
        broad_allow_indices(rules, n - 1)
    }
}

fn risky_single_word(words: &Vec<String>) -> (r: bool)
    ensures
        r == (words@.len() == 1 && is_risky_command(words@[0]@)),
{
    if words.len() != 1 {
        return false;
    }
    let w = words[0].as_str();
    str_eq(w, "api") || str_eq(w, "repo") || str_eq(w, "auth") || str_eq(w, "pr") || str_eq(
        w,
        "issue",
    )
}

fn auth_token(words: &Vec<String>) -> (r: bool)
    ensures
        r == (strings_view(words@) == seq!["auth"@, "token"@]),
{
    let r = words.len() == 2 && str_eq(words[0].as_str(), "auth") && str_eq(
        words[1].as_str(),
        "token",
    );
    proof {
        let v = strings_view(words@);
        if r {
            assert(v =~= seq!["auth"@, "token"@]);
        }
        if v == seq!["auth"@, "token"@] {
            assert(v.len() == 2 && v[0] == "auth"@ && v[1] == "token"@);
        }
    }
    r
}

/// The indices of the rules that `gh guard doctor` warns about: one-word
/// `allow` rules for `api`, `repo`, `auth`, `pr` or `issue`, and an `allow`
/// rule for `auth token`.
pub fn broad_allow_rules(config: &Config) -> (r: Vec<usize>)
    ensures
        r@.map_values(|i: usize| i as int) == broad_allow_indices(
            config@.rules,
            config@.rules.len() as int,
        ),
{
    let ghost rules = config@.rules;
    let n = config.rules.len();
    let mut found: Vec<usize> = Vec::new();
    let mut i: usize = 0;
    while i < n
        invariant
            n == config.rules@.len(),
            rules == config@.rules,
            rules.len() == n,
            i <= n,
            found@.map_values(|i: usize| i as int) == broad_allow_indices(rules, i as int),
        decreases n - i,
    {
        let rule = &config.rules[i];
        assert(rules[i as int] == rule@);
        if str_eq(rule.action.as_str(), "allow") && (risky_single_word(&rule.match_vec)
            || auth_token(&rule.match_vec)) {
            let ghost before = found@;
            found.push(i);
            assert(found@.map_values(|i: usize| i as int) =~= before.map_values(
                |i: usize| i as int,
            ).push(i as int));
        }
        i = i + 1;
    }
    found
}

} // verus!
