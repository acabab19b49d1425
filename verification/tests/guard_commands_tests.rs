use gh_guard::config::{default_config, Rule};
use gh_guard::guard_commands::{
    broad_allow_rules, is_guard_command, parse_guard_command, GuardCommand, GuardCommandError,
};

fn strings(v: &[&str]) -> Vec<String> {
    v.iter().map(|s| s.to_string()).collect()
}

#[test]
fn recognises_guard_invocations() {
    assert!(is_guard_command(&strings(&["guard", "status"])));
    assert!(is_guard_command(&strings(&["guard"])));
    assert!(!is_guard_command(&strings(&["pr", "guard"])));
    assert!(!is_guard_command(&[]));
}

#[test]
fn parses_subcommands() {
    assert_eq!(parse_guard_command(&strings(&["guard", "status"])), Ok(GuardCommand::Status));
    assert_eq!(parse_guard_command(&strings(&["guard", "doctor"])), Ok(GuardCommand::Doctor));
    assert_eq!(parse_guard_command(&strings(&["guard", "update"])), Ok(GuardCommand::Update));
    assert_eq!(parse_guard_command(&strings(&["guard", "version"])), Ok(GuardCommand::Version));
    assert_eq!(
        parse_guard_command(&strings(&["guard", "real-path"])),
        Ok(GuardCommand::RealPath)
    );
    assert_eq!(
        parse_guard_command(&strings(&["guard", "config", "print"])),
        Ok(GuardCommand::ConfigPrint)
    );
    assert_eq!(
        parse_guard_command(&strings(&["guard", "config", "init"])),
        Ok(GuardCommand::ConfigInit)
    );
    assert_eq!(
        parse_guard_command(&strings(&["guard", "config", "path"])),
        Ok(GuardCommand::ConfigPath)
    );
    assert_eq!(
        parse_guard_command(&strings(&["guard", "logs", "path"])),
        Ok(GuardCommand::LogsPath)
    );
}

#[test]
fn unknown_subcommands() {
    assert_eq!(
        parse_guard_command(&strings(&["guard"])),
        Err(GuardCommandError::UnknownCommand)
    );
    assert_eq!(
        parse_guard_command(&strings(&["guard", "config"])),
        Err(GuardCommandError::UnknownConfigCommand)
    );
    assert_eq!(
        parse_guard_command(&strings(&["guard", "logs", "tail"])),
        Err(GuardCommandError::UnknownLogsCommand)
    );
    assert_eq!(
        GuardCommandError::UnknownLogsCommand.usage(),
        "unknown logs command. Usage: gh guard logs [path]"
    );
}

#[test]
fn doctor_flags_broad_allow_rules() {
    let mut config = default_config();
    config.rules.push(Rule { match_vec: strings(&["api"]), action: "allow".to_string() });
    config.rules.push(Rule { match_vec: strings(&["pr", "list"]), action: "allow".to_string() });
    config.rules.push(Rule { match_vec: strings(&["repo"]), action: "gate".to_string() });
    config.rules.push(Rule { match_vec: strings(&["issue"]), action: "allow".to_string() });
    assert_eq!(broad_allow_rules(&config), vec![4, 7]);
    assert!(broad_allow_rules(&default_config()).is_empty());
}

#[test]
fn doctor_flags_an_auth_token_allow_rule() {
    let mut config = default_config();
    config.rules.push(Rule { match_vec: strings(&["auth", "token"]), action: "allow".to_string() });
    config.rules.push(Rule { match_vec: strings(&["auth", "token"]), action: "gate".to_string() });
    config.rules.push(Rule { match_vec: strings(&["auth", "status"]), action: "allow".to_string() });
    assert_eq!(broad_allow_rules(&config), vec![4]);
}
