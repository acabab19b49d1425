//! Authorization of gated commands: a new sudo authentication, run as the
//! sequence `sudo -k`, `sudo -v`, `sudo -k`, so that no cached credential is
//! used and none is left behind.
//!
//! The decisions are a state machine: the caller runs each sudo invocation
//! that a step asks for and hands back how it ended.
use vstd::prelude::*;
use vstd::string::*;

use crate::error::{GuardError, GuardErrorView};

verus! {

/// Refuses to run as root (user id 0).
pub fn check_not_root(uid: u32) -> (r: Result<(), GuardError>)
    ensures
        r is Ok <==> uid != 0,
        r matches Err(e) ==> e == GuardError::RefuseRoot,
{
    if uid == 0 {
        Err(GuardError::RefuseRoot)
    } else {
        Ok(())
    }
}

/// The argument of a sudo invocation.
#[derive(Debug, Clone, Copy, PartialEq, Eq, Structural)]
pub enum SudoFlag {
    /// `sudo -k`: invalidate cached credentials.
    Invalidate,
    /// `sudo -v`: authenticate afresh.
    Validate,
}

impl SudoFlag {
    /// The command-line argument for this flag.
    pub fn arg(&self) -> (r: &'static str)
        ensures
            r@ == (match *self {
                SudoFlag::Invalidate => "-k"@,
                SudoFlag::Validate => "-v"@,
            }),
    {
        match self {
            SudoFlag::Invalidate => "-k",
            SudoFlag::Validate => "-v",
        }
    }
}

/// Where a challenge stands.
#[derive(Debug, Clone, Copy, PartialEq, Eq, Structural)]
pub enum ChallengeState {
    /// Nothing has run yet.
    Start,
    /// `sudo -k` was started.
    Invalidating,
    /// `sudo -v` was started.
    Validating,
    /// The final `sudo -k` was started.
    Revoking,
    /// The challenge is over.
    Finished,
}

/// What the caller reports to the challenge.
#[derive(Debug, Clone)]
pub enum ChallengeEvent {
    /// The challenge begins; the user id of the process.
    Begin { uid: u32 },
    /// The sudo invocation ran and exited, successfully or not.
    Exited { success: bool },
    /// The sudo invocation could not be started, with the reason.
    Unavailable(String),
}

/// What the caller is to do next.
#[derive(Debug, Clone)]
pub enum ChallengeAction {
    /// Run `sudo` with this flag and report how it ended.
    RunSudo(SudoFlag),
    /// The command is authorized.
    Authorized,
    /// The command is refused with this error.
    Refused(GuardError),
}

/// A challenge event, as text.
pub enum ChallengeEventView {
    Begin { uid: u32 },
    Exited { success: bool },
    Unavailable(Seq<char>),
}

/// A challenge action, as text.
pub enum ChallengeActionView {
    RunSudo(SudoFlag),
    Authorized,
    Refused(GuardErrorView),
}

impl View for ChallengeEvent {
    type V = ChallengeEventView;

    open spec fn view(&self) -> ChallengeEventView {
        match self {
            ChallengeEvent::Begin { uid } => ChallengeEventView::Begin { uid: *uid },
            ChallengeEvent::Exited { success } => ChallengeEventView::Exited { success: *success },
            ChallengeEvent::Unavailable(s) => ChallengeEventView::Unavailable(s@),
        }
    }
}

impl View for ChallengeAction {
    type V = ChallengeActionView;

    open spec fn view(&self) -> ChallengeActionView {
        match self {
            ChallengeAction::RunSudo(f) => ChallengeActionView::RunSudo(*f),
            ChallengeAction::Authorized => ChallengeActionView::Authorized,
            ChallengeAction::Refused(e) => ChallengeActionView::Refused(e@),
        }
    }
}

/// One step of the challenge: `sudo -k` first, then `sudo -v`, then a final
/// `sudo -k` whose outcome does not matter. Root is refused before any sudo
/// runs; a sudo that fails refuses the command, and one that cannot be
/// started refuses it with the reason.
pub open spec fn challenge_transition(s: ChallengeState, e: ChallengeEventView) -> (
    ChallengeState,
    ChallengeActionView,
) {
    match s {
        ChallengeState::Start => match e {
            ChallengeEventView::Begin { uid } => if uid == 0 {
                (ChallengeState::Finished, ChallengeActionView::Refused(GuardErrorView::RefuseRoot))
            } else {
                (ChallengeState::Invalidating, ChallengeActionView::RunSudo(SudoFlag::Invalidate))
            },
            _ => refused_out_of_order(),
        },
        ChallengeState::Invalidating => after_sudo(e, ChallengeState::Validating, SudoFlag::Validate),
        ChallengeState::Validating => after_sudo(e, ChallengeState::Revoking, SudoFlag::Invalidate),
        ChallengeState::Revoking => (ChallengeState::Finished, ChallengeActionView::Authorized),
        ChallengeState::Finished => refused_out_of_order(),
    }
}

/// An event that does not fit the state ends the challenge refused.
pub open spec fn refused_out_of_order() -> (ChallengeState, ChallengeActionView) {
    (ChallengeState::Finished, ChallengeActionView::Refused(GuardErrorView::GateDenied))
}

/// The step after a sudo invocation that must succeed.
pub open spec fn after_sudo(e: ChallengeEventView, next: ChallengeState, flag: SudoFlag) -> (
    ChallengeState,
    ChallengeActionView,
) {
    match e {
        ChallengeEventView::Exited { success } => if success {
            (next, ChallengeActionView::RunSudo(flag))
        } else {
            (ChallengeState::Finished, ChallengeActionView::Refused(GuardErrorView::GateDenied))
        },
        ChallengeEventView::Unavailable(reason) => (
            ChallengeState::Finished,
            ChallengeActionView::Refused(GuardErrorView::Other("sudo not available: "@ + reason)),
        ),
        _ => refused_out_of_order(),
    }
}

fn refuse_out_of_order() -> (r: (ChallengeState, ChallengeAction))
    ensures
        (r.0, r.1@) == refused_out_of_order(),
{
    (ChallengeState::Finished, ChallengeAction::Refused(GuardError::GateDenied))
}

fn step_after_sudo(e: &ChallengeEvent, next: ChallengeState, flag: SudoFlag) -> (r: (
    ChallengeState,
    ChallengeAction,
))
    ensures
        (r.0, r.1@) == after_sudo(e@, next, flag),
{
    match e {
        ChallengeEvent::Exited { success } => if *success {
            (next, ChallengeAction::RunSudo(flag))
        } else {
            (ChallengeState::Finished, ChallengeAction::Refused(GuardError::GateDenied))
        },
        ChallengeEvent::Unavailable(reason) => (
            ChallengeState::Finished,
            ChallengeAction::Refused(
                GuardError::Other(String::from_str("sudo not available: ").concat(reason.as_str())),
            ),
        ),
        _ => refuse_out_of_order(),
    }
}

/// One step of the challenge, from the current state and what was observed.
pub fn challenge_step(s: ChallengeState, e: &ChallengeEvent) -> (r: (ChallengeState, ChallengeAction))
    ensures
        (r.0, r.1@) == challenge_transition(s, e@),
{
    match s {
        ChallengeState::Start => match e {
            ChallengeEvent::Begin { uid } => match check_not_root(*uid) {
                Err(err) => (ChallengeState::Finished, ChallengeAction::Refused(err)),
                Ok(()) => (ChallengeState::Invalidating, ChallengeAction::RunSudo(SudoFlag::Invalidate)),
            },
            _ => refuse_out_of_order(),
        },
        ChallengeState::Invalidating => step_after_sudo(e, ChallengeState::Validating, SudoFlag::Validate),
        ChallengeState::Validating => step_after_sudo(e, ChallengeState::Revoking, SudoFlag::Invalidate),
        ChallengeState::Revoking => (ChallengeState::Finished, ChallengeAction::Authorized),
        ChallengeState::Finished => refuse_out_of_order(),
    }
}

/// The states reached, and the actions asked for, when the challenge is
/// driven from `s` by `events` in turn.
pub open spec fn challenge_run(s: ChallengeState, events: Seq<ChallengeEventView>) -> Seq<ChallengeActionView>
    decreases events.len(),
{
    if events.len() == 0 {
        Seq::empty()
    } else {
        let (next, a) = challenge_transition(s, events[0]);
        seq![a] + challenge_run(next, events.skip(1))
    }
}

/// A challenge authorizes a command only through the exact sequence
/// `sudo -k`, `sudo -v`, `sudo -k`, started by a process that is not root
/// and in which the first two sudo invocations succeeded: whenever a run from
/// the start yields `Authorized`, it is the fourth action, the first three
/// actions are those sudo invocations, and the events were a non-root start
/// and two successful exits.
pub proof fn law_authorization_needs_fresh_sudo(events: Seq<ChallengeEventView>, k: int)
    requires
        0 <= k < challenge_run(ChallengeState::Start, events).len(),
        challenge_run(ChallengeState::Start, events)[k] == ChallengeActionView::Authorized,
    ensures
        k == 3,
        challenge_run(ChallengeState::Start, events).subrange(0, 3) == seq![
            ChallengeActionView::RunSudo(SudoFlag::Invalidate),
            ChallengeActionView::RunSudo(SudoFlag::Validate),
            ChallengeActionView::RunSudo(SudoFlag::Invalidate),
        ],
        (events[0] matches ChallengeEventView::Begin { uid } && uid != 0),
        events[1] == (ChallengeEventView::Exited { success: true }),
        events[2] == (ChallengeEventView::Exited { success: true }),
{
    lemma_run_len(ChallengeState::Start, events);
    let r0 = challenge_run(ChallengeState::Start, events);
    let (s1, a0) = challenge_transition(ChallengeState::Start, events[0]);
    let e1 = events.skip(1);
    assert(r0 == seq![a0] + challenge_run(s1, e1));
    if s1 == ChallengeState::Finished {
        lemma_finished_run(e1, k - 1);
        assert(false);
    }
    assert(s1 == ChallengeState::Invalidating);
    let r1 = challenge_run(s1, e1);
    assert(k >= 1);
    lemma_run_len(s1, e1);
    let (s2, a1) = challenge_transition(s1, e1[0]);
    let e2 = e1.skip(1);
    assert(r1 == seq![a1] + challenge_run(s2, e2));
    if s2 == ChallengeState::Finished {
        lemma_finished_run(e2, k - 2);
        assert(false);
    }
    assert(s2 == ChallengeState::Validating);
    let r2 = challenge_run(s2, e2);
    let (s3, a2) = challenge_transition(s2, e2[0]);
    let e3 = e2.skip(1);
    assert(r2 == seq![a2] + challenge_run(s3, e3));
    if s3 == ChallengeState::Finished {
        lemma_finished_run(e3, k - 3);
        assert(false);
    }
    assert(s3 == ChallengeState::Revoking);
    let r3 = challenge_run(s3, e3);
    let (s4, a3) = challenge_transition(s3, e3[0]);
    let e4 = e3.skip(1);
    assert(r3 == seq![a3] + challenge_run(s4, e4));
    if k > 3 {
        lemma_finished_run(e4, k - 4);
        assert(false);
    }
    assert(events[1] == e1[0]);
    assert(events[2] == e2[0]);
    assert(r0.subrange(0, 3) =~= seq![a0, a1, a2]);
}

proof fn lemma_run_len(s: ChallengeState, events: Seq<ChallengeEventView>)
    ensures
        challenge_run(s, events).len() == events.len(),
    decreases events.len(),
{
    if events.len() > 0 {
        let (next, a) = challenge_transition(s, events[0]);
        lemma_run_len(next, events.skip(1));
    }
}

/// Once finished, a challenge only refuses.
proof fn lemma_finished_run(events: Seq<ChallengeEventView>, k: int)
    requires
        0 <= k < events.len(),
    ensures
        challenge_run(ChallengeState::Finished, events)[k] != ChallengeActionView::Authorized,
    decreases events.len(),
{
    lemma_run_len(ChallengeState::Finished, events);
    if k > 0 {
        lemma_finished_run(events.skip(1), k - 1);
    }
}

} // verus!
