use vstd::prelude::*;

verus! {

use vstd::string::StringExecFns;

/// Every failure of a remote-memory operation, as a recoverable outcome.
///
/// No operation in this crate panics on these conditions; callers decide
/// whether to retry, abort, or ask for more privilege.
#[derive(Clone, Copy, PartialEq, Eq, Structural, Debug)]
pub enum MemError {
    /// A handle to the target process could not be obtained
    /// (insufficient privilege, or the process exited).
    AttachDenied,
    /// The named process is not running, or no executable region exists.
    NotFound,
    /// A dereference step of a pointer chain failed; carries the index of
    /// the first failing step.
    ChainBroken(usize),
    /// A terminal read failed after the chain resolved.
    ReadFailed,
    /// A terminal write failed after the chain resolved.
    WriteFailed,
}

/// The text of each error, as a sequence of characters.
pub open spec fn error_text(e: MemError) -> Seq<char> {
    match e {
        MemError::AttachDenied => "cannot attach to the target process; run with enough privilege"@,
        MemError::NotFound => "no matching process or no executable region found"@,
        MemError::ChainBroken(_) => "a pointer-chain dereference failed"@,
        MemError::ReadFailed => "reading the target's memory failed"@,
        MemError::WriteFailed => "writing the target's memory failed"@,
    }
}

impl MemError {
    /// An actionable description of the failure.
    pub fn message(&self) -> (r: String)
        ensures
            r@ == error_text(*self),
    {
        match self {
            MemError::AttachDenied => String::from_str(
                "cannot attach to the target process; run with enough privilege",
            ),
            MemError::NotFound => String::from_str(
                "no matching process or no executable region found",
            ),
            MemError::ChainBroken(_) => String::from_str("a pointer-chain dereference failed"),
            MemError::ReadFailed => String::from_str("reading the target's memory failed"),
            MemError::WriteFailed => String::from_str("writing the target's memory failed"),
        }
    }
}

} // verus!
