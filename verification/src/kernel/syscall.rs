//! System-call error codes shared by the IPC system calls.
use vstd::prelude::*;

verus! {

/// System call errors.
#[derive(Debug, Clone, Copy, PartialEq, Eq, Structural)]
pub enum SyscallError {
    InvalidSyscall,
    InvalidArgument,
    PermissionDenied,
    ResourceUnavailable,
    ProcessNotFound,
    EndpointNotFound,
    MessageTooLarge,
    OutOfMemory,
    InvalidPointer,
    AccessDenied,
    InvalidProcess,
    WouldBlock,
    InternalError,
    InvalidOperation,
}

/// The number a system call error is reported as.
pub open spec fn syscall_error_number(e: SyscallError) -> u64 {
    match e {
        SyscallError::InvalidSyscall => 1,
        SyscallError::InvalidArgument => 2,
        SyscallError::PermissionDenied => 3,
        SyscallError::ResourceUnavailable => 4,
        SyscallError::ProcessNotFound => 5,
        SyscallError::EndpointNotFound => 6,
        SyscallError::MessageTooLarge => 7,
        SyscallError::OutOfMemory => 8,
        SyscallError::InvalidPointer => 9,
        SyscallError::AccessDenied => 10,
        SyscallError::InvalidProcess => 11,
        SyscallError::WouldBlock => 12,
        SyscallError::InternalError => 13,
        SyscallError::InvalidOperation => 14,
    }
}

impl From<SyscallError> for u64 {
    fn from(error: SyscallError) -> (r: u64) {
        match error {
            SyscallError::InvalidSyscall => 1,
            SyscallError::InvalidArgument => 2,
            SyscallError::PermissionDenied => 3,
            SyscallError::ResourceUnavailable => 4,
            SyscallError::ProcessNotFound => 5,
            SyscallError::EndpointNotFound => 6,
            SyscallError::MessageTooLarge => 7,
            SyscallError::OutOfMemory => 8,
            SyscallError::InvalidPointer => 9,
            SyscallError::AccessDenied => 10,
            SyscallError::InvalidProcess => 11,
            SyscallError::WouldBlock => 12,
            SyscallError::InternalError => 13,
            SyscallError::InvalidOperation => 14,
        }
    }
}

impl vstd::std_specs::convert::FromSpecImpl<SyscallError> for u64 {
    open spec fn obeys_from_spec() -> bool {
        true
    }

    open spec fn from_spec(v: SyscallError) -> u64 {
        syscall_error_number(v)
    }
}

} // verus!
