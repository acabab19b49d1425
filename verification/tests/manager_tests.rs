use gh_guard::config::default_config;
use gh_guard::error::GuardError;
use gh_guard::gh_manager::{
    ensure_step, interval_too_long, is_current_version, parse_duration, release_query,
    update_due, CheckInterval, DurationError, EnsureAction, EnsureEvent, EnsureState,
    ReleaseQuery, TimeUnit,
};
use gh_guard::state::State;

const HOUR_NS: i128 = 3_600_000_000_000;

#[test]
fn parses_intervals() {
    assert_eq!(
        parse_duration("24h").unwrap(),
        CheckInterval { amount: 24, unit: TimeUnit::Hours }
    );
    assert_eq!(
        parse_duration("").unwrap(),
        CheckInterval { amount: 24, unit: TimeUnit::Hours }
    );
    assert_eq!(
        parse_duration("30M").unwrap(),
        CheckInterval { amount: 30, unit: TimeUnit::Minutes }
    );
    assert_eq!(
        parse_duration("007d").unwrap(),
        CheckInterval { amount: 7, unit: TimeUnit::Days }
    );
    assert_eq!(parse_duration("2h").unwrap().seconds(), Some(7200));
}

#[test]
fn interval_errors() {
    assert!(matches!(parse_duration("h"), Err(DurationError::InvalidNumber)));
    assert!(matches!(
        parse_duration("99999999999999999999h"),
        Err(DurationError::InvalidNumber)
    ));
    match parse_duration("5 h") {
        Err(e) => {
            assert!(matches!(&e, DurationError::InvalidUnit(u) if u == " h"));
            assert_eq!(e.message(), "invalid duration unit:  h");
        }
        Ok(iv) => panic!("unexpected {:?}", iv),
    }
    assert!(matches!(parse_duration("5hh"), Err(DurationError::InvalidUnit(u)) if u == "hh"));
    assert_eq!(DurationError::InvalidNumber.message(), "invalid duration number");
}

#[test]
fn interval_seconds_overflow() {
    let iv = parse_duration("9223372036854775807d").unwrap();
    assert_eq!(iv.seconds(), None);
    let mut config = default_config();
    config.updates.check_interval = "9223372036854775807d".to_string();
    assert!(interval_too_long(&config, EnsureState::CheckingDue));
    assert!(!interval_too_long(&config, EnsureState::CheckingPin));
}

#[test]
fn update_due_rules() {
    let now = 1_000 * HOUR_NS;
    assert!(!update_due(false, 3600, None, now));
    assert!(update_due(true, 3600, None, now));
    assert!(!update_due(true, 24 * 3600, Some(now - 23 * HOUR_NS), now));
    assert!(update_due(true, 24 * 3600, Some(now - 24 * HOUR_NS), now));
    assert!(update_due(true, 3600, Some(i128::MIN), i128::MAX));
    assert!(!update_due(true, 3600, Some(i128::MAX), i128::MIN));
}

fn run(config: &gh_guard::config::Config, events: Vec<EnsureEvent>) -> Vec<EnsureAction> {
    let mut state = EnsureState::Start;
    let mut actions = Vec::new();
    for e in events {
        let (s, a) = ensure_step(config, state, &e);
        state = s;
        actions.push(a);
    }
    actions
}

fn kinds(actions: &[EnsureAction]) -> Vec<&'static str> {
    actions
        .iter()
        .map(|a| match a {
            EnsureAction::ProbeLink => "probe",
            EnsureAction::LoadState => "load",
            EnsureAction::RunUpdate => "update",
            EnsureAction::UseCached => "cached",
            EnsureAction::RunInstall => "install",
            EnsureAction::UseTarget => "use",
            EnsureAction::Fail(_) => "fail",
        })
        .collect()
}

#[test]
fn test_pinned_version_fails_closed_on_update_failure() {
    let mut config = default_config();
    config.updates.pinned_version = "v0.0.0-fake".to_string();
    config.updates.auto_update = true;
    let actions = run(
        &config,
        vec![
            EnsureEvent::Begin,
            EnsureEvent::LinkProbed { usable: true },
            EnsureEvent::StateLoaded {
                current_version: Some("v2.93.0".to_string()),
                last_update_check: Some(0),
                now: HOUR_NS,
            },
            EnsureEvent::UpdateFailed { reason: "GitHub API returned 404 Not Found".to_string() },
        ],
    );
    assert_eq!(kinds(&actions), vec!["probe", "load", "update", "fail"]);
    match actions.last().unwrap() {
        EnsureAction::Fail(e) => {
            let msg = e.message();
            assert!(
                msg.contains("pinned version") || msg.contains("could not be installed"),
                "error should mention pinned version: {}",
                msg
            );
            assert_eq!(
                msg,
                "pinned version v0.0.0-fake could not be installed: GitHub API returned 404 Not Found"
            );
        }
        _ => unreachable!(),
    }
}

#[test]
fn unpinned_update_failure_uses_cached_binary() {
    let config = default_config();
    let actions = run(
        &config,
        vec![
            EnsureEvent::Begin,
            EnsureEvent::LinkProbed { usable: true },
            EnsureEvent::StateLoaded { current_version: None, last_update_check: None, now: 0 },
            EnsureEvent::UpdateFailed { reason: "offline".to_string() },
            EnsureEvent::TargetChecked { exists: true },
        ],
    );
    assert_eq!(kinds(&actions), vec!["probe", "load", "update", "cached", "use"]);
}

#[test]
fn recent_check_skips_update() {
    let config = default_config();
    let now = 100 * HOUR_NS;
    let actions = run(
        &config,
        vec![
            EnsureEvent::Begin,
            EnsureEvent::LinkProbed { usable: true },
            EnsureEvent::StateLoaded {
                current_version: Some("v2.92.0".to_string()),
                last_update_check: Some(now - HOUR_NS),
                now,
            },
        ],
    );
    assert_eq!(kinds(&actions), vec!["probe", "load", "use"]);
}

#[test]
fn auto_update_off_uses_link_directly() {
    let mut config = default_config();
    config.updates.auto_update = false;
    let actions = run(&config, vec![EnsureEvent::Begin, EnsureEvent::LinkProbed { usable: true }]);
    assert_eq!(kinds(&actions), vec!["probe", "use"]);
}

#[test]
fn bad_interval_fails() {
    let mut config = default_config();
    config.updates.check_interval = "soon".to_string();
    let actions = run(
        &config,
        vec![
            EnsureEvent::Begin,
            EnsureEvent::LinkProbed { usable: true },
            EnsureEvent::StateLoaded { current_version: None, last_update_check: None, now: 0 },
        ],
    );
    match actions.last().unwrap() {
        EnsureAction::Fail(e) => assert_eq!(e.message(), "invalid duration number"),
        _ => panic!("expected a failure"),
    }
}

#[test]
fn missing_link_installs_and_checks_pin() {
    let mut config = default_config();
    config.updates.pinned_version = "v2.93.0".to_string();
    let actions = run(
        &config,
        vec![
            EnsureEvent::Begin,
            EnsureEvent::LinkProbed { usable: false },
            EnsureEvent::Installed,
            EnsureEvent::LinkProbed { usable: true },
            EnsureEvent::StateLoaded {
                current_version: Some("v2.92.0".to_string()),
                last_update_check: None,
                now: 0,
            },
        ],
    );
    assert_eq!(kinds(&actions), vec!["probe", "install", "probe", "load", "fail"]);
    match actions.last().unwrap() {
        EnsureAction::Fail(e) => assert_eq!(
            e.message(),
            "pinned version v2.93.0 is not active after install (current: Some(\"v2.92.0\"))"
        ),
        _ => unreachable!(),
    }
}

#[test]
fn install_without_link_is_missing() {
    let config = default_config();
    let actions = run(
        &config,
        vec![
            EnsureEvent::Begin,
            EnsureEvent::LinkProbed { usable: false },
            EnsureEvent::Installed,
            EnsureEvent::LinkProbed { usable: false },
        ],
    );
    match actions.last().unwrap() {
        EnsureAction::Fail(GuardError::RealGhMissing(m)) => {
            assert_eq!(m, "symlink target missing after install")
        }
        _ => panic!("expected missing real gh"),
    }
}

#[test]
fn pinned_and_installed_uses_link() {
    let mut config = default_config();
    config.updates.pinned_version = "v2.93.0".to_string();
    let actions = run(
        &config,
        vec![
            EnsureEvent::Begin,
            EnsureEvent::LinkProbed { usable: true },
            EnsureEvent::StateLoaded {
                current_version: Some("v2.93.0".to_string()),
                last_update_check: None,
                now: 0,
            },
        ],
    );
    assert_eq!(kinds(&actions), vec!["probe", "load", "use"]);
}

#[test]
fn release_queries_and_urls() {
    let mut config = default_config();
    let q = release_query(&config);
    assert!(matches!(&q, ReleaseQuery::Latest { repo } if repo == "cli/cli"));
    assert_eq!(q.url(), "https://api.github.com/repos/cli/cli/releases/latest");
    config.updates.pinned_version = "v2.93.0".to_string();
    let q = release_query(&config);
    assert_eq!(q.url(), "https://api.github.com/repos/cli/cli/releases/tags/v2.93.0");
}

#[test]
fn current_version_and_state_updates() {
    let state = State {
        last_update_check: Some(5),
        current_version: Some("v1".to_string()),
        last_known_latest_version: Some("v1".to_string()),
    };
    assert!(is_current_version("v1", &state));
    assert!(!is_current_version("v2", &state));
    assert!(!is_current_version("v1", &State::default()));
    let checked = state.after_check(9);
    assert_eq!(checked.last_update_check, Some(9));
    assert_eq!(checked.current_version.as_deref(), Some("v1"));
    let pinned = state.after_install("v2", 10, true);
    assert_eq!(pinned.current_version.as_deref(), Some("v2"));
    assert_eq!(pinned.last_known_latest_version.as_deref(), Some("v1"));
    let latest = state.after_install("v3", 11, false);
    assert_eq!(latest.last_known_latest_version.as_deref(), Some("v3"));
    assert_eq!(latest.last_update_check, Some(11));
}
