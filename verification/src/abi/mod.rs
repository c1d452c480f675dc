//! The system call ABI: error codes, results, arguments and flag sets.
use vstd::prelude::*;

pub mod numbers;
pub mod x86_64;

verus! {

/// Error codes returned by system calls; each is a negative number on the
/// wire, written here by its magnitude.
#[derive(Debug, Clone, Copy, PartialEq, Eq, Structural)]
pub enum SyscallError {
    /// Wire code 0.
    Success,
    /// Wire code -1.
    InvalidArgument,
    /// Wire code -2.
    PermissionDenied,
    /// Wire code -3.
    NotFound,
    /// Wire code -4.
    AlreadyExists,
    /// Wire code -5.
    OutOfMemory,
    /// Wire code -6.
    WouldBlock,
    /// Wire code -7.
    Interrupted,
    /// Wire code -8.
    TimedOut,
    /// Wire code -9.
    InvalidOperation,
    /// Wire code -10.
    BufferTooSmall,
    /// Wire code -11.
    EndOfFile,
    /// Wire code -12.
    BrokenPipe,
    /// Wire code -13.
    AddressInUse,
    /// Wire code -14.
    NotConnected,
    /// Wire code -15.
    ConnectionRefused,
    /// Wire code -16.
    NetworkUnreachable,
    /// Wire code -17.
    ResourceBusy,
    /// Wire code -18.
    TooManyFiles,
    /// Wire code -19.
    FileTooLarge,
    /// Wire code -20.
    NoSpaceLeft,
    /// Wire code -21.
    ReadOnlyFilesystem,
    /// Wire code -22.
    InvalidSeek,
    /// Wire code -23.
    NotDirectory,
    /// Wire code -24.
    IsDirectory,
    /// Wire code -25.
    DirectoryNotEmpty,
    /// Wire code -26.
    CrossDeviceLink,
    /// Wire code -27.
    Deadlock,
    /// Wire code -28.
    NameTooLong,
    /// Wire code -29.
    NoLocks,
    /// Wire code -30.
    FunctionNotImplemented,
    /// Wire code -999.
    Unknown,
}

/// The magnitude of an error's (negative) wire code; 0 for success.
pub open spec fn syscall_error_magnitude(e: SyscallError) -> u64 {
    match e {
        SyscallError::Success => 0,
        SyscallError::InvalidArgument => 1,
        SyscallError::PermissionDenied => 2,
        SyscallError::NotFound => 3,
        SyscallError::AlreadyExists => 4,
        SyscallError::OutOfMemory => 5,
        SyscallError::WouldBlock => 6,
        SyscallError::Interrupted => 7,
        SyscallError::TimedOut => 8,
        SyscallError::InvalidOperation => 9,
        SyscallError::BufferTooSmall => 10,
        SyscallError::EndOfFile => 11,
        SyscallError::BrokenPipe => 12,
        SyscallError::AddressInUse => 13,
        SyscallError::NotConnected => 14,
        SyscallError::ConnectionRefused => 15,
        SyscallError::NetworkUnreachable => 16,
        SyscallError::ResourceBusy => 17,
        SyscallError::TooManyFiles => 18,
        SyscallError::FileTooLarge => 19,
        SyscallError::NoSpaceLeft => 20,
        SyscallError::ReadOnlyFilesystem => 21,
        SyscallError::InvalidSeek => 22,
        SyscallError::NotDirectory => 23,
        SyscallError::IsDirectory => 24,
        SyscallError::DirectoryNotEmpty => 25,
        SyscallError::CrossDeviceLink => 26,
        SyscallError::Deadlock => 27,
        SyscallError::NameTooLong => 28,
        SyscallError::NoLocks => 29,
        SyscallError::FunctionNotImplemented => 30,
        SyscallError::Unknown => 999,
    }
}

/// The error whose wire code has magnitude `m` (1 to 30); `Unknown` for
/// any other magnitude.
pub open spec fn syscall_error_of_magnitude(m: u64) -> SyscallError {
    if m == 1 {
        SyscallError::InvalidArgument
    } else if m == 2 {
        SyscallError::PermissionDenied
    } else if m == 3 {
        SyscallError::NotFound
    } else if m == 4 {
        SyscallError::AlreadyExists
    } else if m == 5 {
        SyscallError::OutOfMemory
    } else if m == 6 {
        SyscallError::WouldBlock
    } else if m == 7 {
        SyscallError::Interrupted
    } else if m == 8 {
        SyscallError::TimedOut
    } else if m == 9 {
        SyscallError::InvalidOperation
    } else if m == 10 {
        SyscallError::BufferTooSmall
    } else if m == 11 {
        SyscallError::EndOfFile
    } else if m == 12 {
        SyscallError::BrokenPipe
    } else if m == 13 {
        SyscallError::AddressInUse
    } else if m == 14 {
        SyscallError::NotConnected
    } else if m == 15 {
        SyscallError::ConnectionRefused
    } else if m == 16 {
        SyscallError::NetworkUnreachable
    } else if m == 17 {
        SyscallError::ResourceBusy
    } else if m == 18 {
        SyscallError::TooManyFiles
    } else if m == 19 {
        SyscallError::FileTooLarge
    } else if m == 20 {
        SyscallError::NoSpaceLeft
    } else if m == 21 {
        SyscallError::ReadOnlyFilesystem
    } else if m == 22 {
        SyscallError::InvalidSeek
    } else if m == 23 {
        SyscallError::NotDirectory
    } else if m == 24 {
        SyscallError::IsDirectory
    } else if m == 25 {
        SyscallError::DirectoryNotEmpty
    } else if m == 26 {
        SyscallError::CrossDeviceLink
    } else if m == 27 {
        SyscallError::Deadlock
    } else if m == 28 {
        SyscallError::NameTooLong
    } else if m == 29 {
        SyscallError::NoLocks
    } else if m == 30 {
        SyscallError::FunctionNotImplemented
    } else {
        SyscallError::Unknown
    }
}

/// The wire value of a negative code of magnitude `m` (two's complement).
pub open spec fn negated(m: u64) -> u64 {
    if m == 0 { 0 } else { (0x1_0000_0000_0000_0000 - m) as u64 }
}

impl SyscallError {
    /// Decode a raw system call return: values below 2^63 are successes,
    /// the others are negative error codes.
    pub fn from_raw(value: u64) -> (r: Result<u64, Self>)
        ensures
            value < 0x8000_0000_0000_0000 ==> r == Ok::<u64, SyscallError>(value),
            value >= 0x8000_0000_0000_0000 ==> r == Err::<u64, SyscallError>(
                syscall_error_of_magnitude((0x1_0000_0000_0000_0000 - value) as u64)),
    {
        if value < 0x8000_0000_0000_0000 {
            Ok(value)
        } else {
            let m: u64 = (u64::MAX - value) + 1;
            Err(match m {
                1 => SyscallError::InvalidArgument,
                2 => SyscallError::PermissionDenied,
                3 => SyscallError::NotFound,
                4 => SyscallError::AlreadyExists,
                5 => SyscallError::OutOfMemory,
                6 => SyscallError::WouldBlock,
                7 => SyscallError::Interrupted,
                8 => SyscallError::TimedOut,
                9 => SyscallError::InvalidOperation,
                10 => SyscallError::BufferTooSmall,
                11 => SyscallError::EndOfFile,
                12 => SyscallError::BrokenPipe,
                13 => SyscallError::AddressInUse,
                14 => SyscallError::NotConnected,
                15 => SyscallError::ConnectionRefused,
                16 => SyscallError::NetworkUnreachable,
                17 => SyscallError::ResourceBusy,
                18 => SyscallError::TooManyFiles,
                19 => SyscallError::FileTooLarge,
                20 => SyscallError::NoSpaceLeft,
                21 => SyscallError::ReadOnlyFilesystem,
                22 => SyscallError::InvalidSeek,
                23 => SyscallError::NotDirectory,
                24 => SyscallError::IsDirectory,
                25 => SyscallError::DirectoryNotEmpty,
                26 => SyscallError::CrossDeviceLink,
                27 => SyscallError::Deadlock,
                28 => SyscallError::NameTooLong,
                29 => SyscallError::NoLocks,
                30 => SyscallError::FunctionNotImplemented,
                _ => SyscallError::Unknown,
            })
        }
    }

    /// The magnitude of the error's wire code.
    pub fn magnitude(self) -> (r: u64)
        ensures
            r == syscall_error_magnitude(self),
    {
        match self {
            SyscallError::Success => 0,
            SyscallError::InvalidArgument => 1,
            SyscallError::PermissionDenied => 2,
            SyscallError::NotFound => 3,
            SyscallError::AlreadyExists => 4,
            SyscallError::OutOfMemory => 5,
            SyscallError::WouldBlock => 6,
            SyscallError::Interrupted => 7,
            SyscallError::TimedOut => 8,
            SyscallError::InvalidOperation => 9,
            SyscallError::BufferTooSmall => 10,
            SyscallError::EndOfFile => 11,
            SyscallError::BrokenPipe => 12,
            SyscallError::AddressInUse => 13,
            SyscallError::NotConnected => 14,
            SyscallError::ConnectionRefused => 15,
            SyscallError::NetworkUnreachable => 16,
            SyscallError::ResourceBusy => 17,
            SyscallError::TooManyFiles => 18,
            SyscallError::FileTooLarge => 19,
            SyscallError::NoSpaceLeft => 20,
            SyscallError::ReadOnlyFilesystem => 21,
            SyscallError::InvalidSeek => 22,
            SyscallError::NotDirectory => 23,
            SyscallError::IsDirectory => 24,
            SyscallError::DirectoryNotEmpty => 25,
            SyscallError::CrossDeviceLink => 26,
            SyscallError::Deadlock => 27,
            SyscallError::NameTooLong => 28,
            SyscallError::NoLocks => 29,
            SyscallError::FunctionNotImplemented => 30,
            SyscallError::Unknown => 999,
        }
    }
}

/// Every error other than success and `Unknown` decodes from its own wire
/// value.
pub proof fn lemma_syscall_error_roundtrip(e: SyscallError)
    requires
        e != SyscallError::Success,
    ensures
        negated(syscall_error_magnitude(e)) >= 0x8000_0000_0000_0000,
        syscall_error_of_magnitude((0x1_0000_0000_0000_0000 - negated(syscall_error_magnitude(e))) as u64) == e,
{
}

/// The raw return value of a system call result: the value itself, or the
/// two's-complement encoding of the negative error code.
pub fn result_to_raw(result: Result<u64, SyscallError>) -> (r: u64)
    ensures
        result matches Ok(v) ==> r == v,
        result matches Err(e) ==> r == negated(syscall_error_magnitude(e)),
{
    match result {
        Ok(val) => val,
        Err(err) => {
            let m = err.magnitude();
            if m == 0 {
                0
            } else {
                (u64::MAX - m) + 1
            }
        }
    }
}

/// The six argument registers of a system call.
#[derive(Debug, Clone, Copy)]
pub struct SyscallArgs {
    /// First argument.
    pub arg0: u64,
    /// Second argument.
    pub arg1: u64,
    /// Third argument.
    pub arg2: u64,
    /// Fourth argument.
    pub arg3: u64,
    /// Fifth argument.
    pub arg4: u64,
    /// Sixth argument.
    pub arg5: u64,
}

impl SyscallArgs {
    /// All arguments zero.
    pub fn new() -> (r: Self)
        ensures
            r == (SyscallArgs { arg0: 0, arg1: 0, arg2: 0, arg3: 0, arg4: 0, arg5: 0 }),
    {
        SyscallArgs { arg0: 0, arg1: 0, arg2: 0, arg3: 0, arg4: 0, arg5: 0 }
    }

    /// The given arguments.
    pub fn with_args(arg0: u64, arg1: u64, arg2: u64, arg3: u64, arg4: u64, arg5: u64) -> (r: Self)
        ensures
            r == (SyscallArgs { arg0, arg1, arg2, arg3, arg4, arg5 }),
    {
        SyscallArgs { arg0, arg1, arg2, arg3, arg4, arg5 }
    }
}

impl Default for SyscallArgs {
    fn default() -> (r: Self)
        ensures
            r == (SyscallArgs { arg0: 0, arg1: 0, arg2: 0, arg3: 0, arg4: 0, arg5: 0 }),
    {
        Self::new()
    }
}

/// Memory protection flags.
#[derive(Debug, Clone, Copy, PartialEq, Eq, Structural)]
pub enum ProtectionFlags {
    /// No access.
    NoAccess,
    /// Read.
    Read,
    /// Write.
    Write,
    /// Execute.
    Execute,
    /// Read and write.
    ReadWrite,
    /// Read and execute.
    ReadExecute,
    /// Write and execute.
    WriteExecute,
    /// Read, write and execute.
    ReadWriteExecute,
}

impl ProtectionFlags {
    /// The flag value passed in a system call argument.
    pub fn bits(self) -> (r: u64)
        ensures
            r == match self {
                ProtectionFlags::NoAccess => 0u64,
                ProtectionFlags::Read => 1,
                ProtectionFlags::Write => 2,
                ProtectionFlags::Execute => 4,
                ProtectionFlags::ReadWrite => 3,
                ProtectionFlags::ReadExecute => 5,
                ProtectionFlags::WriteExecute => 6,
                ProtectionFlags::ReadWriteExecute => 7,
            },
    {
        match self {
            ProtectionFlags::NoAccess => 0,
            ProtectionFlags::Read => 1,
            ProtectionFlags::Write => 2,
            ProtectionFlags::Execute => 4,
            ProtectionFlags::ReadWrite => 3,
            ProtectionFlags::ReadExecute => 5,
            ProtectionFlags::WriteExecute => 6,
            ProtectionFlags::ReadWriteExecute => 7,
        }
    }
}

/// IPC message flags.
#[derive(Debug, Clone, Copy, PartialEq, Eq, Structural)]
pub enum IpcFlags {
    /// No flag.
    NoFlags,
    /// Block.
    Block,
    /// Do not wait.
    DontWait,
    /// Grant capabilities.
    Grant,
    /// Carry a label.
    Label,
}

impl IpcFlags {
    /// The flag value passed in a system call argument.
    pub fn bits(self) -> (r: u64)
        ensures
            r == match self {
                IpcFlags::NoFlags => 0u64,
                IpcFlags::Block => 1,
                IpcFlags::DontWait => 2,
                IpcFlags::Grant => 4,
                IpcFlags::Label => 8,
            },
    {
        match self {
            IpcFlags::NoFlags => 0,
            IpcFlags::Block => 1,
            IpcFlags::DontWait => 2,
            IpcFlags::Grant => 4,
            IpcFlags::Label => 8,
        }
    }
}

/// Process creation flags.
#[derive(Debug, Clone, Copy, PartialEq, Eq, Structural)]
pub enum ProcessFlags {
    /// No flag.
    NoFlags,
    /// Inherit capabilities.
    InheritCapabilities,
    /// Create a new address space.
    CreateNewAddressSpace,
    /// Start suspended.
    StartSuspended,
}

impl ProcessFlags {
    /// The flag value passed in a system call argument.
    pub fn bits(self) -> (r: u64)
        ensures
            r == match self {
                ProcessFlags::NoFlags => 0u64,
                ProcessFlags::InheritCapabilities => 1,
                ProcessFlags::CreateNewAddressSpace => 2,
                ProcessFlags::StartSuspended => 4,
            },
    {
        match self {
            ProcessFlags::NoFlags => 0,
            ProcessFlags::InheritCapabilities => 1,
            ProcessFlags::CreateNewAddressSpace => 2,
            ProcessFlags::StartSuspended => 4,
        }
    }
}

/// File operation flags.
#[derive(Debug, Clone, Copy, PartialEq, Eq, Structural)]
pub enum FileFlags {
    /// Read only.
    ReadOnly,
    /// Write only.
    WriteOnly,
    /// Read and write.
    ReadWrite,
    /// Create.
    Create,
    /// Exclusive.
    Exclusive,
    /// Truncate.
    Truncate,
    /// Append.
    Append,
}

impl FileFlags {
    /// The flag value passed in a system call argument.
    pub fn bits(self) -> (r: u64)
        ensures
            r == match self {
                FileFlags::ReadOnly => 0u64,
                FileFlags::WriteOnly => 1,
                FileFlags::ReadWrite => 2,
                FileFlags::Create => 64,
                FileFlags::Exclusive => 128,
                FileFlags::Truncate => 256,
                FileFlags::Append => 512,
            },
    {
        match self {
            FileFlags::ReadOnly => 0,
            FileFlags::WriteOnly => 1,
            FileFlags::ReadWrite => 2,
            FileFlags::Create => 64,
            FileFlags::Exclusive => 128,
            FileFlags::Truncate => 256,
            FileFlags::Append => 512,
        }
    }
}

} // verus!
