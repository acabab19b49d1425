//! The persistent update state: when updates were last checked and which
//! version of the real GitHub CLI is installed. Times are UTC instants in
//! nanoseconds since the Unix epoch.
use vstd::prelude::*;
use vstd::string::*;

verus! {

/// The update state kept between runs.
#[derive(Debug, Clone)]
pub struct State {
    /// When updates were last checked, in nanoseconds since the Unix epoch.
    pub last_update_check: Option<i128>,
    /// The installed version (release tag) of the real GitHub CLI.
    pub current_version: Option<String>,
    /// The latest version seen when no version was pinned.
    pub last_known_latest_version: Option<String>,
}

/// The view of an optional string.
pub open spec fn opt_string_view(o: Option<String>) -> Option<Seq<char>> {
    match o {
        Some(s) => Some(s@),
        None => None,
    }
}

/// A state, as text.
pub struct StateView {
    pub last_update_check: Option<i128>,
    pub current_version: Option<Seq<char>>,
    pub last_known_latest_version: Option<Seq<char>>,
}

impl View for State {
    type V = StateView;

    open spec fn view(&self) -> StateView {
        StateView {
            last_update_check: self.last_update_check,
            current_version: opt_string_view(self.current_version),
            last_known_latest_version: opt_string_view(self.last_known_latest_version),
        }
    }
}

impl Default for State {
    /// The state before anything was checked or installed.
    fn default() -> (s: Self)
        ensures
            s.last_update_check is None,
            s.current_version is None,
            s.last_known_latest_version is None,
    {
        State { last_update_check: None, current_version: None, last_known_latest_version: None }
    }
}

fn clone_opt(o: &Option<String>) -> (r: Option<String>)
    ensures
        opt_string_view(r) == opt_string_view(*o),
{
    match o {
        Some(s) => Some(s.clone()),
        None => None,
    }
}

impl State {
    /// The state after an update check that found the installed version
    /// current: only the check time changes.
    pub fn after_check(&self, now: i128) -> (s: State)
        ensures
            s@ == (StateView { last_update_check: Some(now), ..self@ }),
    {
        State {
            last_update_check: Some(now),
            current_version: clone_opt(&self.current_version),
            last_known_latest_version: clone_opt(&self.last_known_latest_version),
        }
    }

    /// The state after `version` was installed at `now`: it is the current
    /// version, and also the latest known one unless a version is pinned.
    pub fn after_install(&self, version: &str, now: i128, pinned: bool) -> (s: State)
        ensures
            s@ == (StateView {
                last_update_check: Some(now),
                current_version: Some(version@),
                last_known_latest_version: if pinned {
                    self@.last_known_latest_version
                } else {
                    Some(version@)
                },
            }),
    {
        State {
            last_update_check: Some(now),
            current_version: Some(String::from_str(version)),
            last_known_latest_version: if pinned {
                clone_opt(&self.last_known_latest_version)
            } else {
                Some(String::from_str(version))
            },
        }
    }
}

} // verus!
