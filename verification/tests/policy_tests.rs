use gh_guard::config::{
    default_config, Config, DefaultSection, GateSection, LoggingSection, RealGhSection, Rule,
    UpdatesSection,
};
use gh_guard::policy::{decide, parse_action, Action};

fn make_config(rules: Vec<Rule>) -> Config {
    Config {
        default: DefaultSection {
            action: "gate".to_string(),
        },
        updates: UpdatesSection {
            auto_update: false,
            check_interval: "24h".to_string(),
            pinned_version: "".to_string(),
        },
        logging: LoggingSection {
            level: "info".to_string(),
            redact: true,
            otel_endpoint: "".to_string(),
        },
        real_gh: RealGhSection {
            download_source: "github".to_string(),
            release_repo: "cli/cli".to_string(),
        },
        gate: GateSection {
            method: "sudo".to_string(),
            fresh: true,
        },
        rules,
    }
}

fn rule(words: &[&str], action: &str) -> Rule {
    Rule {
        match_vec: words.iter().map(|w| w.to_string()).collect(),
        action: action.to_string(),
    }
}

#[test]
fn test_allow_exact() {
    let config = make_config(vec![Rule {
        match_vec: vec!["pr".to_string(), "list".to_string()],
        action: "allow".to_string(),
    }]);
    let (action, _) = decide(&config, &["pr".to_string(), "list".to_string()]);
    assert_eq!(action, Action::Allow);
}

#[test]
fn test_allow_prefix() {
    let config = make_config(vec![Rule {
        match_vec: vec!["pr".to_string(), "list".to_string()],
        action: "allow".to_string(),
    }]);
    let (action, _) = decide(
        &config,
        &["pr".to_string(), "list".to_string(), "123".to_string()],
    );
    assert_eq!(action, Action::Allow);
}

#[test]
fn test_gate_default() {
    let config = make_config(vec![]);
    let (action, _) = decide(&config, &["issue".to_string(), "create".to_string()]);
    assert_eq!(action, Action::Gate);
}

#[test]
fn test_specific_over_general() {
    let config = make_config(vec![
        Rule {
            match_vec: vec!["pr".to_string()],
            action: "gate".to_string(),
        },
        Rule {
            match_vec: vec!["pr".to_string(), "view".to_string()],
            action: "allow".to_string(),
        },
    ]);
    let (action, _) = decide(&config, &["pr".to_string(), "view".to_string()]);
    assert_eq!(action, Action::Allow);
}

#[test]
fn test_tie_break_safest() {
    let config = make_config(vec![
        Rule {
            match_vec: vec!["repo".to_string(), "view".to_string()],
            action: "allow".to_string(),
        },
        Rule {
            match_vec: vec!["repo".to_string(), "view".to_string()],
            action: "gate".to_string(),
        },
    ]);
    let (action, _) = decide(&config, &["repo".to_string(), "view".to_string()]);
    assert_eq!(action, Action::Gate);
}

#[test]
fn test_deny() {
    let config = make_config(vec![Rule {
        match_vec: vec!["api".to_string()],
        action: "deny".to_string(),
    }]);
    let (action, _) = decide(&config, &["api".to_string()]);
    assert_eq!(action, Action::Deny);
}

#[test]
fn policy_test_default_config_gates_auth_status() {
    let config = default_config();
    let (action, _) = decide(&config, &["auth".to_string(), "status".to_string()]);
    assert_eq!(
        action,
        Action::Gate,
        "auth status should be gated by default"
    );
}

#[test]
fn policy_test_default_config_allows_version() {
    let config = default_config();
    let (action, _) = decide(&config, &["--version".to_string()]);
    assert_eq!(
        action,
        Action::Allow,
        "--version should be allowed by default"
    );
}

#[test]
fn matched_rule_is_reported_in_debug_form() {
    let config = make_config(vec![rule(&["pr", "list"], "allow")]);
    let (_, matched) = decide(&config, &["pr".to_string(), "list".to_string()]);
    assert_eq!(matched, Some("[\"pr\", \"list\"]".to_string()));
}

#[test]
fn no_match_reports_no_rule_and_uses_default() {
    let mut config = make_config(vec![rule(&["pr", "list"], "allow")]);
    config.default.action = "deny".to_string();
    let (action, matched) = decide(&config, &["pr".to_string()]);
    assert_eq!(action, Action::Deny);
    assert_eq!(matched, None);
}

#[test]
fn tie_break_deny_beats_gate_and_allow() {
    let config = make_config(vec![
        rule(&["api"], "allow"),
        rule(&["api"], "deny"),
        rule(&["api"], "gate"),
    ]);
    let (action, matched) = decide(&config, &["api".to_string(), "user".to_string()]);
    assert_eq!(action, Action::Deny);
    assert_eq!(matched, Some("[\"api\"]".to_string()));
}

#[test]
fn longer_rule_wins_even_if_less_safe() {
    let config = make_config(vec![rule(&["auth"], "deny"), rule(&["auth", "status"], "allow")]);
    let (action, matched) = decide(&config, &["auth".to_string(), "status".to_string()]);
    assert_eq!(action, Action::Allow);
    assert_eq!(matched, Some("[\"auth\", \"status\"]".to_string()));
}

#[test]
fn unknown_action_word_is_gated() {
    assert_eq!(parse_action("allow"), Action::Allow);
    assert_eq!(parse_action("gate"), Action::Gate);
    assert_eq!(parse_action("deny"), Action::Deny);
    assert_eq!(parse_action("Allow"), Action::Gate);
    assert_eq!(parse_action(""), Action::Gate);
    let config = make_config(vec![rule(&["pr"], "permit")]);
    let (action, _) = decide(&config, &["pr".to_string()]);
    assert_eq!(action, Action::Gate);
}

#[test]
fn default_policy_allows_only_the_safe_words() {
    let config = default_config();
    for word in ["--version", "--help", "help", "completion"] {
        let (action, _) = decide(&config, &[word.to_string(), "x".to_string()]);
        assert_eq!(action, Action::Allow, "{word}");
    }
    for word in ["api", "pr", "auth", "version", "guard"] {
        let (action, _) = decide(&config, &[word.to_string()]);
        assert_eq!(action, Action::Gate, "{word}");
    }
    let (action, _) = decide(&config, &[]);
    assert_eq!(action, Action::Gate);
}

#[test]
fn rule_prefix_must_match_word_for_word() {
    let config = make_config(vec![rule(&["pr", "view"], "allow")]);
    let (action, _) = decide(&config, &["pr".to_string(), "viewer".to_string()]);
    assert_eq!(action, Action::Gate);
    let (action, _) = decide(&config, &["pr".to_string()]);
    assert_eq!(action, Action::Gate);
}

#[test]
fn rule_order_does_not_change_the_decision() {
    let rule = |m: &[&str], a: &str| Rule {
        match_vec: m.iter().map(|s| s.to_string()).collect(),
        action: a.to_string(),
    };
    let rules = vec![
        rule(&["pr"], "allow"),
        rule(&["pr", "merge"], "allow"),
        rule(&["pr", "merge"], "deny"),
        rule(&["pr", "merge"], "gate"),
    ];
    let mut reversed = rules.clone();
    reversed.reverse();
    let path: Vec<String> = vec!["pr".to_string(), "merge".to_string(), "1".to_string()];
    let a = decide(&make_config(rules), &path);
    let b = decide(&make_config(reversed), &path);
    assert_eq!(a, b);
    assert_eq!(a, (Action::Deny, Some("[\"pr\", \"merge\"]".to_string())));
}
