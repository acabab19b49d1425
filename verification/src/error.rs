//! The wrapper's own error kinds and the messages it reports for them.
use vstd::prelude::*;
use vstd::string::*;

verus! {

/// Errors that end an invocation of the wrapper.
#[derive(Debug, Clone)]
pub enum GuardError {
    /// The configuration could not be read or used.
    Config(String),
    /// The policy denies the command.
    Denied,
    /// The sudo authorization of a gated command failed.
    GateDenied,
    /// The wrapper was started as root.
    RefuseRoot,
    /// The managed real GitHub CLI is the wrapper itself.
    Recursion,
    /// The real GitHub CLI is missing and could not be installed.
    RealGhMissing(String),
    /// Any other failure, with its message.
    Other(String),
}

/// An error, as text.
pub enum GuardErrorView {
    Config(Seq<char>),
    Denied,
    GateDenied,
    RefuseRoot,
    Recursion,
    RealGhMissing(Seq<char>),
    Other(Seq<char>),
}

impl View for GuardError {
    type V = GuardErrorView;

    open spec fn view(&self) -> GuardErrorView {
        match self {
            GuardError::Config(s) => GuardErrorView::Config(s@),
            GuardError::Denied => GuardErrorView::Denied,
            GuardError::GateDenied => GuardErrorView::GateDenied,
            GuardError::RefuseRoot => GuardErrorView::RefuseRoot,
            GuardError::Recursion => GuardErrorView::Recursion,
            GuardError::RealGhMissing(s) => GuardErrorView::RealGhMissing(s@),
            GuardError::Other(s) => GuardErrorView::Other(s@),
        }
    }
}

/// The message reported for an error.
pub open spec fn guard_error_message(e: GuardErrorView) -> Seq<char> {
    match e {
        GuardErrorView::Config(s) => "configuration error: "@ + s,
        GuardErrorView::Denied => "policy denied"@,
        GuardErrorView::GateDenied => "gate denied: sudo authorization failed"@,
        GuardErrorView::RefuseRoot => "refusing to run as root"@,
        GuardErrorView::Recursion => "recursion detected: managed real gh appears to be the wrapper itself"@,
        GuardErrorView::RealGhMissing(s) => "real gh not available and cannot be installed: "@ + s,
        GuardErrorView::Other(s) => s,
    }
}

impl GuardError {
    /// The message reported for this error.
    pub fn message(&self) -> (r: String)
        ensures
            r@ == guard_error_message(self@),
    {
        match self {
            GuardError::Config(s) => String::from_str("configuration error: ").concat(s.as_str()),
            GuardError::Denied => String::from_str("policy denied"),
            GuardError::GateDenied => String::from_str("gate denied: sudo authorization failed"),
            GuardError::RefuseRoot => String::from_str("refusing to run as root"),
            GuardError::Recursion => String::from_str(
                "recursion detected: managed real gh appears to be the wrapper itself",
            ),
            GuardError::RealGhMissing(s) => String::from_str(
                "real gh not available and cannot be installed: ",
            ).concat(s.as_str()),
            GuardError::Other(s) => s.clone(),
        }
    }
}

} // verus!
