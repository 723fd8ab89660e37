//! The containment of faults: an execution that aborts is a value, not an
//! unwinding that crosses the enclave's boundary.

use vstd::prelude::*;
use crate::error::ErrorKind;
use crate::oom::OomGuard;

verus! {

/// What became of the execution of an admitted call.
#[derive(Debug)]
pub enum Execution {
    /// The interpreter returned, with its result and the gas count it left.
    Completed { result: Result<Vec<u8>, ErrorKind>, gas_used: u64 },
    /// The execution aborted and the abort was caught.
    Aborted,
}

/// The gas count that the host finds after the call: what the interpreter
/// left, or, after an abort, half the limit, whatever was used before.
pub open spec fn settled_gas(gas_limit: u64, execution: Execution) -> u64 {
    match execution {
        Execution::Completed { gas_used, .. } => gas_used,
        Execution::Aborted => gas_limit / 2,
    }
}

/// The error that a caught abort is reported as.
pub open spec fn fault_kind(oom_happened: bool) -> ErrorKind {
    if oom_happened {
        ErrorKind::OutOfMemory
    } else {
        ErrorKind::Panic
    }
}

/// Classifies a caught abort by the guard's flag, which is cleared.
pub fn classify_fault(guard: &mut OomGuard) -> (err: ErrorKind)
    ensures
        err == fault_kind(old(guard)@.oom_happened),
        final(guard)@ == old(guard)@.cleared(),
{
    if guard.get_then_clear_oom_happened() {
        ErrorKind::OutOfMemory
    } else {
        ErrorKind::Panic
    }
}

} // verus!
