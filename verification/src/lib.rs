//! The trusted call gateway of an enclave that interprets smart-contract
//! bytecode on behalf of an untrusted host.
//!
//! The gateway checks every address range that the host hands over, keeps a
//! memory reserve so that exhaustion can be reported instead of crashing,
//! tracks the buffers that the enclave lends to the host, and turns each call
//! into one tagged result.

pub mod error;
pub mod gateway;
pub mod memory;
pub mod oom;
pub mod registry;
pub mod shield;

pub use error::{ErrorKind, InvalidMemoryAccess};
pub use gateway::{
    ecall_allocate, ecall_handle, ecall_health_check, ecall_init, ecall_query, recover_buffer,
    store_buffer, Admission, CallKind, CallOutcome, CallRequest, CallResult, Gateway,
    ValidatedCall,
};
pub use memory::{ForeignSlice, MemoryRegion, PointerValidator};
pub use oom::OomGuard;
pub use registry::{BufferRegistry, EnclaveBuffer};
pub use shield::Execution;
