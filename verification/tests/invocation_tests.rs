use gh_guard::config::default_config;
use gh_guard::error::GuardError;
use gh_guard::invocation::{plan_invocation, route, Dispatch, Route};
use gh_guard::policy::Action;

fn strings(v: &[&str]) -> Vec<String> {
    v.iter().map(|s| s.to_string()).collect()
}

#[test]
fn guard_invocations_stay_in_the_wrapper() {
    let config = default_config();
    assert!(matches!(plan_invocation(&config, &strings(&["guard", "status"])), Dispatch::Guard));
}

#[test]
fn allowed_command_is_planned_with_redacted_log() {
    let config = default_config();
    match plan_invocation(&config, &strings(&["--version"])) {
        Dispatch::Delegate(inv) => {
            assert_eq!(inv.action, Action::Allow);
            assert_eq!(inv.command_path, Some(strings(&["--version"])));
            assert_eq!(inv.matched_rule, Some("[\"--version\"]".to_string()));
        }
        Dispatch::Guard => panic!("not a guard command"),
    }
    match plan_invocation(&config, &strings(&["api", "user", "--header", "Authorization: t"])) {
        Dispatch::Delegate(inv) => {
            assert_eq!(inv.action, Action::Gate);
            assert_eq!(
                inv.logged_argv,
                strings(&["api", "user", "--header", "[REDACTED]"])
            );
            assert_eq!(inv.matched_rule, None);
        }
        Dispatch::Guard => panic!("not a guard command"),
    }
}

#[test]
fn redaction_can_be_turned_off() {
    let mut config = default_config();
    config.logging.redact = false;
    match plan_invocation(&config, &strings(&["pr", "create", "--body", "b"])) {
        Dispatch::Delegate(inv) => assert_eq!(inv.logged_argv, strings(&["pr", "create", "--body", "b"])),
        Dispatch::Guard => panic!("not a guard command"),
    }
}

#[test]
fn command_without_path_is_gated() {
    let config = default_config();
    match plan_invocation(&config, &strings(&["--repo", "o/r"])) {
        Dispatch::Delegate(inv) => {
            assert_eq!(inv.action, Action::Gate);
            assert_eq!(inv.command_path, None);
        }
        Dispatch::Guard => panic!("not a guard command"),
    }
}

#[test]
fn routes() {
    assert!(matches!(route(Action::Allow), Route::Execute));
    assert!(matches!(route(Action::Gate), Route::ChallengeThenExecute));
    assert!(matches!(route(Action::Deny), Route::Refuse(GuardError::Denied)));
}
