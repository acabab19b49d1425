use gh_guard::config::{default_check_interval, default_config, ConfigError, Rule};

#[test]
fn default_config_is_valid() {
    let c = default_config();
    assert!(c.validate().is_ok());
    assert_eq!(c.default.action, "gate");
    assert!(c.updates.auto_update);
    assert_eq!(c.updates.check_interval, "24h");
    assert_eq!(c.updates.pinned_version, "");
    assert_eq!(c.logging.level, "info");
    assert!(c.logging.redact);
    assert_eq!(c.real_gh.download_source, "github");
    assert_eq!(c.real_gh.release_repo, "cli/cli");
    assert_eq!(c.gate.method, "sudo");
    assert!(c.gate.fresh);
    let words: Vec<&str> = c.rules.iter().map(|r| r.match_vec[0].as_str()).collect();
    assert_eq!(words, vec!["--version", "--help", "help", "completion"]);
    assert!(c.rules.iter().all(|r| r.action == "allow" && r.match_vec.len() == 1));
    assert_eq!(default_check_interval(), "24h");
}

#[test]
fn invalid_default_action_is_reported_first() {
    let mut c = default_config();
    c.default.action = "maybe".to_string();
    c.gate.method = "pam".to_string();
    match c.validate() {
        Err(ConfigError::InvalidDefaultAction(a)) => assert_eq!(a, "maybe"),
        other => panic!("unexpected {:?}", other),
    }
}

#[test]
fn gate_method_must_be_sudo() {
    let mut c = default_config();
    c.gate.method = "pam".to_string();
    assert!(matches!(c.validate(), Err(ConfigError::UnsupportedGateMethod(m)) if m == "pam"));
}

#[test]
fn download_source_must_be_github() {
    let mut c = default_config();
    c.real_gh.download_source = "mirror".to_string();
    assert!(matches!(c.validate(), Err(ConfigError::UnsupportedDownloadSource(s)) if s == "mirror"));
}

#[test]
fn release_repo_needs_a_slash() {
    let mut c = default_config();
    c.real_gh.release_repo = "cli".to_string();
    assert!(matches!(c.validate(), Err(ConfigError::InvalidReleaseRepo(s)) if s == "cli"));
}

#[test]
fn first_bad_rule_is_reported() {
    let mut c = default_config();
    c.rules.push(Rule { match_vec: vec![], action: "allow".to_string() });
    c.rules.push(Rule { match_vec: vec!["x".to_string()], action: "nope".to_string() });
    assert!(matches!(c.validate(), Err(ConfigError::EmptyRuleMatch(4))));
    c.rules.remove(4);
    assert!(matches!(c.validate(), Err(ConfigError::InvalidRuleAction(4, a)) if a == "nope"));
}

#[test]
fn bad_action_is_reported_before_empty_match() {
    let mut c = default_config();
    c.rules.insert(0, Rule { match_vec: vec![], action: "bogus".to_string() });
    assert!(matches!(c.validate(), Err(ConfigError::InvalidRuleAction(0, a)) if a == "bogus"));
}

#[test]
fn config_error_messages() {
    let mut c = default_config();
    c.rules.push(Rule { match_vec: vec![], action: "allow".to_string() });
    assert_eq!(
        c.validate().unwrap_err().message(),
        "rule 4 has empty match array (would match everything)"
    );
    assert_eq!(
        ConfigError::InvalidRuleAction(12, "maybe".to_string()).message(),
        "invalid action for rule 12: maybe"
    );
    assert_eq!(
        ConfigError::InvalidDefaultAction("x".to_string()).message(),
        "invalid default action: x"
    );
    assert_eq!(
        ConfigError::UnsupportedGateMethod("pam".to_string()).message(),
        "unsupported gate method: pam"
    );
    assert_eq!(
        ConfigError::UnsupportedDownloadSource("gitlab".to_string()).message(),
        "unsupported download source: gitlab"
    );
    assert_eq!(
        ConfigError::InvalidReleaseRepo("cli".to_string()).message(),
        "invalid release repo format: cli"
    );
    assert_eq!(ConfigError::EmptyRuleMatch(0).message(), "rule 0 has empty match array (would match everything)");
    assert_eq!(ConfigError::EmptyRuleMatch(105).message(), "rule 105 has empty match array (would match everything)");
}
