use gh_guard::redact::redact_argv;

fn strings(v: &[&str]) -> Vec<String> {
    v.iter().map(|s| s.to_string()).collect()
}

#[test]
fn separate_values_are_redacted() {
    let argv = strings(&["pr", "create", "--title", "hi", "--body", "secret", "-F", "k=v"]);
    assert_eq!(
        redact_argv(&argv),
        strings(&["pr", "create", "--title", "hi", "--body", "[REDACTED]", "-F", "[REDACTED]"])
    );
}

#[test]
fn inline_long_values_are_redacted() {
    let argv = strings(&["api", "--field=token=abc", "--header=Authorization: x", "--jq=.a"]);
    assert_eq!(
        redact_argv(&argv),
        strings(&["api", "--field=[REDACTED]", "--header=[REDACTED]", "--jq=[REDACTED]"])
    );
}

#[test]
fn attached_short_values_are_redacted() {
    let argv = strings(&["api", "-Fkey=val", "-fraw", "-HAuthorization:x", "-Rowner/repo"]);
    assert_eq!(
        redact_argv(&argv),
        strings(&["api", "-F[REDACTED]", "-f[REDACTED]", "-H[REDACTED]", "-Rowner/repo"])
    );
}

#[test]
fn trailing_sensitive_flag_is_kept() {
    let argv = strings(&["issue", "create", "--body"]);
    assert_eq!(redact_argv(&argv), argv);
}

#[test]
fn flag_value_that_looks_like_a_flag_is_redacted() {
    let argv = strings(&["--body", "--body", "x"]);
    assert_eq!(redact_argv(&argv), strings(&["--body", "[REDACTED]", "x"]));
}

#[test]
fn redaction_keeps_length_and_is_idempotent() {
    let argv = strings(&[
        "api", "--body", "s1", "--notes-file=f", "-Hx", "--raw-field", "a=b", "--template", "t",
        "-", "--", "-F",
    ]);
    let once = redact_argv(&argv);
    assert_eq!(once.len(), argv.len());
    let twice = redact_argv(&once);
    assert_eq!(twice, once);
    assert!(!once.iter().any(|s| s.contains("s1") || s == "a=b" || s == "t"));
}

#[test]
fn non_ascii_arguments_pass_through() {
    let argv = strings(&["-é", "--bodyx=1", "héllo"]);
    assert_eq!(redact_argv(&argv), argv);
}

#[test]
fn redaction_splits_at_a_sensitive_flag_whatever_its_value() {
    let before = strings(&["api", "--method", "POST"]);
    let after = strings(&["--jq=.x", "-Hauth"]);
    let mut expected = redact_argv(&before);
    expected.extend(strings(&["--field", "[REDACTED]"]));
    expected.extend(redact_argv(&after));
    for value in ["token=abc", "", "--body"] {
        let mut argv = before.clone();
        argv.push("--field".to_string());
        argv.push(value.to_string());
        argv.extend(after.clone());
        assert_eq!(redact_argv(&argv), expected);
    }
}
