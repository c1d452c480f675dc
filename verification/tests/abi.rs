use tanos::abi::x86_64 as constants;
use tanos::kernel::syscall::SyscallError;
use tanos::abi::{result_to_raw, SyscallError as AbiError};

#[test]
fn test_constants() {
    assert_eq!(constants::PAGE_SIZE, 4096);
    assert_eq!(constants::CACHE_LINE_SIZE, 64);
    assert_eq!(constants::MAX_SYSCALL_ARGS, 6);
    assert!(constants::USER_SPACE_END < constants::KERNEL_SPACE_START);
}

#[test]
fn test_syscall_error_conversion() {
    assert_eq!(u64::from(SyscallError::InvalidSyscall), 1);
    assert_eq!(u64::from(SyscallError::InvalidArgument), 2);
    assert_eq!(u64::from(SyscallError::PermissionDenied), 3);
    assert_eq!(u64::from(SyscallError::OutOfMemory), 8);
}

#[test]
fn syscall_error_codes_are_one_to_fourteen() {
    let all = [
        SyscallError::InvalidSyscall,
        SyscallError::InvalidArgument,
        SyscallError::PermissionDenied,
        SyscallError::ResourceUnavailable,
        SyscallError::ProcessNotFound,
        SyscallError::EndpointNotFound,
        SyscallError::MessageTooLarge,
        SyscallError::OutOfMemory,
        SyscallError::InvalidPointer,
        SyscallError::AccessDenied,
        SyscallError::InvalidProcess,
        SyscallError::WouldBlock,
        SyscallError::InternalError,
        SyscallError::InvalidOperation,
    ];
    for (i, e) in all.iter().enumerate() {
        assert_eq!(u64::from(*e), i as u64 + 1);
    }
}

#[test]
fn raw_results_roundtrip() {
    assert_eq!(result_to_raw(Ok(5)), 5);
    assert_eq!(AbiError::from_raw(5), Ok(5));
    let raw = result_to_raw(Err(AbiError::NotFound));
    assert_eq!(raw, (-3i64) as u64);
    assert_eq!(AbiError::from_raw(raw), Err(AbiError::NotFound));
    assert_eq!(AbiError::from_raw(result_to_raw(Err(AbiError::FunctionNotImplemented))), Err(AbiError::FunctionNotImplemented));
    assert_eq!(AbiError::from_raw((-500i64) as u64), Err(AbiError::Unknown));
    assert_eq!(result_to_raw(Err(AbiError::Success)), 0);
    assert_eq!(AbiError::OutOfMemory.magnitude(), 5);
}
