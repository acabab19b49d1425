use gh_guard::error::GuardError;

#[test]
fn integration_tests_test_default_config_gates_auth_status() {
    let config = gh_guard::config::default_config();
    let (action, _) =
        gh_guard::policy::decide(&config, &["auth".to_string(), "status".to_string()]);
    assert_eq!(
        action,
        gh_guard::policy::Action::Gate,
        "auth status should be gated by default"
    );
}

#[test]
fn integration_tests_test_default_config_allows_version() {
    let config = gh_guard::config::default_config();
    let (action, _) = gh_guard::policy::decide(&config, &["--version".to_string()]);
    assert_eq!(
        action,
        gh_guard::policy::Action::Allow,
        "--version should be allowed by default"
    );
}

#[test]
fn test_exec_rejects_relative_path() {
    let result = gh_guard::exec::validate_exec("gh", false);
    assert!(result.is_err());
    let msg = result.unwrap_err().message();
    assert!(
        msg.contains("absolute"),
        "error should mention absolute path: {}",
        msg
    );
}

#[test]
fn test_exec_detects_recursion() {
    let result = gh_guard::exec::validate_exec("/usr/local/bin/gh", true);
    assert!(result.is_err());
    let msg = result.unwrap_err().message();
    assert!(
        msg.contains("recursion"),
        "error should mention recursion: {}",
        msg
    );
}

#[test]
fn test_gate_check_not_root() {
    gh_guard::gate::check_not_root(1000).expect("should pass when not root");
}

#[test]
fn test_check_not_root_passes_when_not_root() {
    gh_guard::gate::check_not_root(501).expect("check_not_root should pass when UID != 0");
}

#[test]
fn check_not_root_refuses_root() {
    let err = gh_guard::gate::check_not_root(0).unwrap_err();
    assert!(matches!(err, GuardError::RefuseRoot));
    assert_eq!(err.message(), "refusing to run as root");
}

#[test]
fn absolute_non_self_path_is_accepted() {
    assert!(gh_guard::exec::validate_exec("/home/u/.local/share/gh-guard/bin/gh-real", false).is_ok());
    assert!(gh_guard::exec::require_absolute("./gh").is_err());
}

#[test]
fn error_messages() {
    assert_eq!(
        GuardError::Config("x".to_string()).message(),
        "configuration error: x"
    );
    assert_eq!(GuardError::Denied.message(), "policy denied");
    assert_eq!(
        GuardError::GateDenied.message(),
        "gate denied: sudo authorization failed"
    );
    assert_eq!(
        GuardError::RealGhMissing("gone".to_string()).message(),
        "real gh not available and cannot be installed: gone"
    );
    assert_eq!(GuardError::Other("plain".to_string()).message(), "plain");
    assert!(GuardError::Recursion.message().starts_with("recursion detected"));
}
