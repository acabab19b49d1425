//! What one invocation of the wrapper does with its arguments: hand them to
//! the `gh guard` subcommands, or decide by policy what happens to the
//! command, and what is logged about it.
use vstd::prelude::*;

use crate::command::{command_path_of, extract_command_path};
use crate::config::{strings_view, Config, ConfigView};
use crate::error::GuardError;
use crate::guard_commands::{is_guard_command, is_guard_invocation};
use crate::policy::{decide, decision, Action};
use crate::redact::{redact_argv, redact_seq};
use crate::text::debug_list_text;

verus! {

/// The policy outcome of a command that is not a `gh guard` subcommand.
#[derive(Debug, Clone)]
pub struct Invocation {
    /// The arguments as they are logged (redacted when the configuration
    /// asks for it).
    pub logged_argv: Vec<String>,
    /// The command path, when one was found.
    pub command_path: Option<Vec<String>>,
    /// What happens to the command.
    pub action: Action,
    /// The matched rule, rendered as text, when a rule matched.
    pub matched_rule: Option<String>,
}

/// Where the arguments go.
#[derive(Debug, Clone)]
pub enum Dispatch {
    /// To the wrapper's own `gh guard` subcommands.
    Guard,
    /// To the real GitHub CLI, subject to the policy outcome.
    Delegate(Invocation),
}

/// A dispatch, as text.
pub enum DispatchView {
    Guard,
    Delegate {
        logged_argv: Seq<Seq<char>>,
        command_path: Option<Seq<Seq<char>>>,
        action: Action,
        matched_rule: Option<Seq<char>>,
    },
}

impl View for Dispatch {
    type V = DispatchView;

    open spec fn view(&self) -> DispatchView {
        match self {
            Dispatch::Guard => DispatchView::Guard,
            Dispatch::Delegate(inv) => DispatchView::Delegate {
                logged_argv: strings_view(inv.logged_argv@),
                command_path: match inv.command_path {
                    Some(p) => Some(strings_view(p@)),
                    None => None,
                },
                action: inv.action,
                matched_rule: match inv.matched_rule {
                    Some(r) => Some(r@),
                    None => None,
                },
            },
        }
    }
}

/// Where the arguments go under a configuration: `gh guard ...` to the
/// wrapper; anything else is logged (redacted when the configuration asks
/// for it) and decided by policy from its command path, and a command
/// without a command path is gated.
pub open spec fn planned_dispatch(c: ConfigView, args: Seq<Seq<char>>) -> DispatchView {
    if is_guard_invocation(args) {
        DispatchView::Guard
    } else {
        let logged = if c.redact {
            redact_seq(args)
        } else {
            args
        };
        match command_path_of(args) {
            None => DispatchView::Delegate {
                logged_argv: logged,
                command_path: None,
                action: Action::Gate,
                matched_rule: None,
            },
            Some(p) => DispatchView::Delegate {
                logged_argv: logged,
                command_path: Some(p),
                action: decision(c, p).0,
                matched_rule: match decision(c, p).1 {
                    Some(r) => Some(debug_list_text(r)),
                    None => None,
                },
            },
        }
    }
}

fn clone_strings(v: &[String]) -> (r: Vec<String>)
    ensures
        strings_view(r@) == strings_view(v@),
{
    let n = v.len();
    let mut out: Vec<String> = Vec::new();
    let mut i: usize = 0;
    while i < n
        invariant
            n == v@.len(),
            i <= n,
            strings_view(out@) == strings_view(v@).take(i as int),
        decreases n - i,
    {
        let item: String = v[i].clone();
        assert(item@ == v@[i as int]@);
        let ghost before = out@;
        out.push(item);
        assert(out@ == before.push(item));
        assert(strings_view(out@) =~= strings_view(before).push(item@));
        assert(strings_view(v@).take(i + 1) =~= strings_view(v@).take(i as int).push(item@));
        i = i + 1;
        assert(strings_view(out@) =~= strings_view(v@).take(i as int));
    }
    assert(strings_view(v@).take(n as int) =~= strings_view(v@));
    out
}

/// Decides where the arguments of an invocation go.
pub fn plan_invocation(config: &Config, args: &[String]) -> (r: Dispatch)
    ensures
        r@ == planned_dispatch(config@, strings_view(args@)),
{
    if is_guard_command(args) {
        return Dispatch::Guard;
    }
    let logged_argv = if config.logging.redact {
        redact_argv(args)
    } else {
        clone_strings(args)
    };
    match extract_command_path(args) {
        None => Dispatch::Delegate(
            Invocation { logged_argv, command_path: None, action: Action::Gate, matched_rule: None },
        ),
        Some(path) => {
            let (action, matched_rule) = decide(config, path.as_slice());
            Dispatch::Delegate(
                Invocation { logged_argv, command_path: Some(path), action, matched_rule },
            )
        },
    }
}

/// How a decided command proceeds.
#[derive(Debug, Clone)]
pub enum Route {
    /// Run the real GitHub CLI at once.
    Execute,
    /// Pass the sudo challenge first, then run the real GitHub CLI.
    ChallengeThenExecute,
    /// Refuse with this error.
    Refuse(GuardError),
}

/// How a command with this action proceeds: allowed commands run at once,
/// gated ones after a sudo challenge, denied ones are refused.
pub fn route(action: Action) -> (r: Route)
    ensures
        action == Action::Allow ==> r matches Route::Execute,
        action == Action::Gate ==> r matches Route::ChallengeThenExecute,
        action == Action::Deny ==> (r matches Route::Refuse(e) && e == GuardError::Denied),
{
    match action {
        Action::Allow => Route::Execute,
        Action::Gate => Route::ChallengeThenExecute,
        Action::Deny => Route::Refuse(GuardError::Denied),
    }
}

/// `gh guard ...` is always handled by the wrapper and never reaches the
/// real GitHub CLI.
pub proof fn law_guard_commands_stay_in_wrapper(c: ConfigView, args: Seq<Seq<char>>)
    requires
        is_guard_invocation(args),
    ensures
        planned_dispatch(c, args) == DispatchView::Guard,
{
}

/// A command whose command path cannot be found is gated.
pub proof fn law_ambiguous_commands_are_gated(c: ConfigView, args: Seq<Seq<char>>)
    requires
        !is_guard_invocation(args),
        command_path_of(args) is None,
    ensures
        planned_dispatch(c, args) matches DispatchView::Delegate { action, .. } && action
            == Action::Gate,
{
}

/// With redaction on, the logged arguments are the redacted arguments, one
/// for each argument.
pub proof fn law_logged_arguments_are_redacted(c: ConfigView, args: Seq<Seq<char>>)
    requires
        !is_guard_invocation(args),
        c.redact,
    ensures
        planned_dispatch(c, args) matches DispatchView::Delegate { logged_argv, .. } && logged_argv
            == redact_seq(args) && logged_argv.len() == args.len(),
{
    crate::redact::law_redaction_keeps_length(args);
}

} // verus!
