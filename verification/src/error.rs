//! The error taxonomy: probe failures, coordinator failures, and the
//! domain-level refusals of the compound operations.

use vstd::prelude::*;

use crate::version::ProbeError;

verus! {

/// Why a coordinated invocation failed.  A non-zero exit of the tool is not
/// an error here: it is reported as an unsuccessful result instead.
#[derive(Debug, Clone, PartialEq, Eq)]
pub enum RunError {
    /// The subprocess could not be launched; carries the OS error text.
    SpawnFailure(String),
    /// The advisory lock could not be taken for a reason other than
    /// contention; carries the OS errno.
    LockFailure(i32),
}

/// Any failure that an operation can surface to its caller.
#[derive(Debug, Clone, PartialEq, Eq)]
pub enum IPTError {
    /// The version probe failed, so no capability record exists.
    Probe(ProbeError),
    /// The coordinator failed to launch or serialize the invocation.
    Run(RunError),
    /// A domain-level refusal, described in words.
    Other(String),
}

/// The result type of every operation.
pub type IPTResult<T> = Result<T, IPTError>;

} // verus!
