use gh_guard::error::GuardError;
use gh_guard::gate::{challenge_step, ChallengeAction, ChallengeEvent, ChallengeState, SudoFlag};

/// Drives a challenge with the given sudo outcomes; returns the sudo
/// arguments asked for and whether the command was authorized.
fn drive(uid: u32, outcomes: &[ChallengeEvent]) -> (Vec<&'static str>, Result<(), GuardError>) {
    let mut calls = Vec::new();
    let mut state = ChallengeState::Start;
    let mut event = ChallengeEvent::Begin { uid };
    let mut next = outcomes.iter();
    loop {
        let (s, action) = challenge_step(state, &event);
        state = s;
        match action {
            ChallengeAction::RunSudo(flag) => {
                calls.push(flag.arg());
                event = next.next().cloned().unwrap_or(ChallengeEvent::Exited { success: true });
            }
            ChallengeAction::Authorized => return (calls, Ok(())),
            ChallengeAction::Refused(e) => return (calls, Err(e)),
        }
    }
}

#[test]
fn successful_challenge_runs_k_v_k() {
    let ok = ChallengeEvent::Exited { success: true };
    let (calls, result) = drive(1000, &[ok.clone(), ok.clone(), ok]);
    assert_eq!(calls, vec!["-k", "-v", "-k"]);
    assert!(result.is_ok());
}

#[test]
fn failed_validation_denies_without_final_invalidate() {
    let (calls, result) = drive(
        1000,
        &[ChallengeEvent::Exited { success: true }, ChallengeEvent::Exited { success: false }],
    );
    assert_eq!(calls, vec!["-k", "-v"]);
    assert!(matches!(result, Err(GuardError::GateDenied)));
}

#[test]
fn failure_of_final_invalidate_is_ignored() {
    let (calls, result) = drive(
        1000,
        &[
            ChallengeEvent::Exited { success: true },
            ChallengeEvent::Exited { success: true },
            ChallengeEvent::Unavailable("gone".to_string()),
        ],
    );
    assert_eq!(calls, vec!["-k", "-v", "-k"]);
    assert!(result.is_ok());
}

#[test]
fn missing_sudo_is_reported() {
    let (calls, result) = drive(1000, &[ChallengeEvent::Unavailable("No such file".to_string())]);
    assert_eq!(calls, vec!["-k"]);
    match result {
        Err(e) => assert_eq!(e.message(), "sudo not available: No such file"),
        Ok(()) => panic!("authorized without sudo"),
    }
}

#[test]
fn root_is_refused_before_any_sudo() {
    let (calls, result) = drive(0, &[]);
    assert!(calls.is_empty());
    assert!(matches!(result, Err(GuardError::RefuseRoot)));
}

#[test]
fn sudo_flags() {
    assert_eq!(SudoFlag::Invalidate.arg(), "-k");
    assert_eq!(SudoFlag::Validate.arg(), "-v");
}
