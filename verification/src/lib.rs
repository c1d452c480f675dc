//! Verified core of the TanOS microkernel: shared types, the system-call
//! ABI, kernel bookkeeping (frames, capabilities, scheduling, IPC, drivers)
//! and build-configuration logic.
use vstd::prelude::*;

pub mod types;
pub mod abi;
pub mod kernel;
pub mod build_system;
pub mod text;

verus! {

} // verus!
