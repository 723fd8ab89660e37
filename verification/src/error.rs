//! The failures that the gateway reports.

use vstd::prelude::*;

verus! {

/// The failure that a call reports to the host.
#[derive(Clone, Copy, Debug, PartialEq, Eq, Structural)]
pub enum ErrorKind {
    /// An input region was refused before anything ran.
    FailedFunctionCall,
    /// The memory reserve could not be set up or replenished, or memory ran
    /// out while the call ran.
    OutOfMemory,
    /// The call aborted for a reason other than memory exhaustion.
    Panic,
    /// A failure of the interpreter, handed on as it came.
    Interpreter { code: u32 },
}

/// An address range that is no legal target of a read or a write.
#[derive(Clone, Copy, Debug, PartialEq, Eq, Structural)]
pub struct InvalidMemoryAccess {
    pub start: usize,
    pub len: usize,
}

impl InvalidMemoryAccess {
    /// What the host is told of a refused range: that the call failed, and
    /// nothing of the address space.
    pub open spec fn reported(self) -> ErrorKind {
        ErrorKind::FailedFunctionCall
    }

    pub fn to_error_kind(&self) -> (kind: ErrorKind)
        ensures
            kind == self.reported(),
    {
        ErrorKind::FailedFunctionCall
    }
}

} // verus!
