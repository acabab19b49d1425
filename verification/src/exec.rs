//! The checks made before control passes to the real GitHub CLI.
use vstd::prelude::*;
use vstd::string::*;

use crate::error::GuardError;
use crate::text::{seq_starts_with, starts_with};

verus! {

/// A Unix path is absolute when it starts at the root.
pub open spec fn is_absolute_path(p: Seq<char>) -> bool {
    seq_starts_with(p, "/"@)
}

/// Refuses a path to the real GitHub CLI that is not absolute: it is never
/// looked up through `PATH`.
pub fn require_absolute(real_gh: &str) -> (r: Result<(), GuardError>)
    ensures
        r is Ok <==> is_absolute_path(real_gh@),
        r matches Err(e) ==> e matches GuardError::Other(m) && m@ == "real gh path must be absolute"@,
{
    if starts_with(real_gh, "/") {
        Ok(())
    } else {
        Err(GuardError::Other(String::from_str("real gh path must be absolute")))
    }
}

/// Checks a real GitHub CLI path before it is executed: it must be absolute,
/// and it must not be the running wrapper itself (`same_as_self`, found by
/// comparing device and inode).
pub fn validate_exec(real_gh: &str, same_as_self: bool) -> (r: Result<(), GuardError>)
    ensures
        r is Ok <==> is_absolute_path(real_gh@) && !same_as_self,
        r matches Err(e) ==> if !is_absolute_path(real_gh@) {
            e matches GuardError::Other(m) && m@ == "real gh path must be absolute"@
        } else {
            e == GuardError::Recursion
        },
{
    require_absolute(real_gh)?;
    if same_as_self {
        return Err(GuardError::Recursion);
    }
    Ok(())
}

} // verus!
