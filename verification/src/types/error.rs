//! System error codes.
use vstd::prelude::*;

verus! {

/// System error codes, grouped by subsystem in ranges of one hundred.
#[derive(Debug, Clone, Copy, PartialEq, Eq, Structural)]
pub enum Error {
    /// Operation succeeded
    Success,
    /// Invalid parameter provided
    InvalidParameter,
    /// Operation not permitted
    PermissionDenied,
    /// Resource not found
    NotFound,
    /// Resource already exists
    AlreadyExists,
    /// Operation would block
    WouldBlock,
    /// Operation interrupted
    Interrupted,
    /// Invalid operation for current state
    InvalidOperation,
    /// Operation not supported
    NotSupported,
    /// Resource temporarily unavailable
    TryAgain,
    /// Operation timed out
    TimedOut,
    /// End of file/stream
    EndOfFile,
    /// Broken pipe
    BrokenPipe,
    /// Connection refused
    ConnectionRefused,
    /// Connection reset
    ConnectionReset,
    /// Connection aborted
    ConnectionAborted,
    /// Network unreachable
    NetworkUnreachable,
    /// Host unreachable
    HostUnreachable,
    /// Address in use
    AddressInUse,
    /// Address not available
    AddressNotAvailable,
    /// Operation cancelled
    Cancelled,
    /// Out of memory
    OutOfMemory,
    /// Invalid memory address
    InvalidAddress,
    /// Memory access violation
    AccessViolation,
    /// Memory region not mapped
    NotMapped,
    /// Memory region already mapped
    AlreadyMapped,
    /// Invalid memory alignment
    InvalidAlignment,
    /// Memory protection violation
    ProtectionViolation,
    /// Page fault
    PageFault,
    /// Segmentation fault
    SegmentationFault,
    /// Memory fragmentation
    Fragmented,
    /// Memory leak detected
    MemoryLeak,
    /// Invalid process ID
    InvalidProcessId,
    /// Process not found
    ProcessNotFound,
    /// Process already exists
    ProcessExists,
    /// Process not running
    ProcessNotRunning,
    /// Process already terminated
    ProcessTerminated,
    /// Process limit exceeded
    TooManyProcesses,
    /// Invalid thread ID
    InvalidThreadId,
    /// Thread not found
    ThreadNotFound,
    /// Deadlock detected
    Deadlock,
    /// Priority inversion
    PriorityInversion,
    /// Scheduler error
    SchedulerError,
    /// Invalid endpoint ID
    InvalidEndpoint,
    /// Endpoint not found
    EndpointNotFound,
    /// Endpoint already exists
    EndpointExists,
    /// No receiver waiting
    NoReceiver,
    /// No sender waiting
    NoSender,
    /// Message too large
    MessageTooLarge,
    /// Message queue full
    QueueFull,
    /// Message queue empty
    QueueEmpty,
    /// IPC timeout
    IpcTimeout,
    /// Invalid message type
    InvalidMessageType,
    /// Call without reply
    NoReply,
    /// Reply without call
    UnexpectedReply,
    /// IPC system overload
    IpcOverload,
    /// Invalid capability ID
    InvalidCapability,
    /// Capability not found
    CapabilityNotFound,
    /// Insufficient rights
    InsufficientRights,
    /// Cannot grant capability
    CannotGrant,
    /// Cannot revoke capability
    CannotRevoke,
    /// Capability limit exceeded
    TooManyCapabilities,
    /// Invalid capability type
    InvalidCapabilityType,
    /// Capability already granted
    CapabilityExists,
    /// Capability derivation failed
    DerivationFailed,
    /// Capability verification failed
    VerificationFailed,
    /// File not found
    FileNotFound,
    /// Directory not found
    DirectoryNotFound,
    /// File already exists
    FileExists,
    /// Directory not empty
    DirectoryNotEmpty,
    /// Not a directory
    NotADirectory,
    /// Is a directory
    IsADirectory,
    /// File too large
    FileTooLarge,
    /// Disk full
    DiskFull,
    /// Read-only filesystem
    ReadOnlyFilesystem,
    /// Invalid filename
    InvalidFilename,
    /// Too many open files
    TooManyOpenFiles,
    /// Cross-device link
    CrossDeviceLink,
    /// Invalid file descriptor
    InvalidFileDescriptor,
    /// File system corrupted
    FilesystemCorrupted,
    /// Mount point busy
    MountPointBusy,
    /// Not a mount point
    NotAMountPoint,
    /// Device not found
    DeviceNotFound,
    /// Device busy
    DeviceBusy,
    /// Device error
    DeviceError,
    /// Device not ready
    DeviceNotReady,
    /// Device offline
    DeviceOffline,
    /// Device removed
    DeviceRemoved,
    /// Invalid device operation
    InvalidDeviceOperation,
    /// Device timeout
    DeviceTimeout,
    /// Device overrun
    DeviceOverrun,
    /// Device underrun
    DeviceUnderrun,
    /// Device configuration error
    DeviceConfigError,
    /// Driver not found
    DriverNotFound,
    /// Driver error
    DriverError,
    /// Hardware error
    HardwareError,
    /// Firmware error
    FirmwareError,
    /// Network down
    NetworkDown,
    /// Host down
    HostDown,
    /// Protocol error
    ProtocolError,
    /// Invalid protocol
    InvalidProtocol,
    /// Protocol not supported
    ProtocolNotSupported,
    /// Socket error
    SocketError,
    /// Invalid socket type
    InvalidSocketType,
    /// Socket not connected
    NotConnected,
    /// Socket already connected
    AlreadyConnected,
    /// Connection in progress
    ConnectionInProgress,
    /// Message size too large
    MessageSize,
    /// No route to host
    NoRoute,
    /// System call failed
    SystemCallFailed,
    /// Kernel panic
    KernelPanic,
    /// System overload
    SystemOverload,
    /// Resource limit exceeded
    ResourceLimit,
    /// System configuration error
    ConfigurationError,
    /// Version mismatch
    VersionMismatch,
    /// System not initialized
    NotInitialized,
    /// System already initialized
    AlreadyInitialized,
    /// Shutdown in progress
    ShuttingDown,
    /// System suspended
    Suspended,
    /// Power management error
    PowerError,
    /// Clock error
    ClockError,
    /// Timer error
    TimerError,
    /// Authentication failed
    AuthenticationFailed,
    /// Authorization failed
    AuthorizationFailed,
    /// Security violation
    SecurityViolation,
    /// Encryption error
    EncryptionError,
    /// Decryption error
    DecryptionError,
    /// Certificate error
    CertificateError,
    /// Signature verification failed
    SignatureError,
    /// Key not found
    KeyNotFound,
    /// Key expired
    KeyExpired,
    /// Access denied
    AccessDenied,
    /// Audit log full
    AuditLogFull,
    /// Security policy violation
    PolicyViolation,
    /// Unknown
    Unknown,
}

/// The raw code of an error.
pub open spec fn error_code(e: Error) -> u32 {
    match e {
        Error::Success => 0,
        Error::InvalidParameter => 1,
        Error::PermissionDenied => 2,
        Error::NotFound => 3,
        Error::AlreadyExists => 4,
        Error::WouldBlock => 5,
        Error::Interrupted => 6,
        Error::InvalidOperation => 7,
        Error::NotSupported => 8,
        Error::TryAgain => 9,
        Error::TimedOut => 10,
        Error::EndOfFile => 11,
        Error::BrokenPipe => 12,
        Error::ConnectionRefused => 13,
        Error::ConnectionReset => 14,
        Error::ConnectionAborted => 15,
        Error::NetworkUnreachable => 16,
        Error::HostUnreachable => 17,
        Error::AddressInUse => 18,
        Error::AddressNotAvailable => 19,
        Error::Cancelled => 20,
        Error::OutOfMemory => 100,
        Error::InvalidAddress => 101,
        Error::AccessViolation => 102,
        Error::NotMapped => 103,
        Error::AlreadyMapped => 104,
        Error::InvalidAlignment => 105,
        Error::ProtectionViolation => 106,
        Error::PageFault => 107,
        Error::SegmentationFault => 108,
        Error::Fragmented => 109,
        Error::MemoryLeak => 110,
        Error::InvalidProcessId => 200,
        Error::ProcessNotFound => 201,
        Error::ProcessExists => 202,
        Error::ProcessNotRunning => 203,
        Error::ProcessTerminated => 204,
        Error::TooManyProcesses => 205,
        Error::InvalidThreadId => 206,
        Error::ThreadNotFound => 207,
        Error::Deadlock => 208,
        Error::PriorityInversion => 209,
        Error::SchedulerError => 210,
        Error::InvalidEndpoint => 300,
        Error::EndpointNotFound => 301,
        Error::EndpointExists => 302,
        Error::NoReceiver => 303,
        Error::NoSender => 304,
        Error::MessageTooLarge => 305,
        Error::QueueFull => 306,
        Error::QueueEmpty => 307,
        Error::IpcTimeout => 308,
        Error::InvalidMessageType => 309,
        Error::NoReply => 310,
        Error::UnexpectedReply => 311,
        Error::IpcOverload => 312,
        Error::InvalidCapability => 400,
        Error::CapabilityNotFound => 401,
        Error::InsufficientRights => 402,
        Error::CannotGrant => 403,
        Error::CannotRevoke => 404,
        Error::TooManyCapabilities => 405,
        Error::InvalidCapabilityType => 406,
        Error::CapabilityExists => 407,
        Error::DerivationFailed => 408,
        Error::VerificationFailed => 409,
        Error::FileNotFound => 500,
        Error::DirectoryNotFound => 501,
        Error::FileExists => 502,
        Error::DirectoryNotEmpty => 503,
        Error::NotADirectory => 504,
        Error::IsADirectory => 505,
        Error::FileTooLarge => 506,
        Error::DiskFull => 507,
        Error::ReadOnlyFilesystem => 508,
        Error::InvalidFilename => 509,
        Error::TooManyOpenFiles => 510,
        Error::CrossDeviceLink => 511,
        Error::InvalidFileDescriptor => 512,
        Error::FilesystemCorrupted => 513,
        Error::MountPointBusy => 514,
        Error::NotAMountPoint => 515,
        Error::DeviceNotFound => 600,
        Error::DeviceBusy => 601,
        Error::DeviceError => 602,
        Error::DeviceNotReady => 603,
        Error::DeviceOffline => 604,
        Error::DeviceRemoved => 605,
        Error::InvalidDeviceOperation => 606,
        Error::DeviceTimeout => 607,
        Error::DeviceOverrun => 608,
        Error::DeviceUnderrun => 609,
        Error::DeviceConfigError => 610,
        Error::DriverNotFound => 611,
        Error::DriverError => 612,
        Error::HardwareError => 613,
        Error::FirmwareError => 614,
        Error::NetworkDown => 700,
        Error::HostDown => 701,
        Error::ProtocolError => 702,
        Error::InvalidProtocol => 703,
        Error::ProtocolNotSupported => 704,
        Error::SocketError => 705,
        Error::InvalidSocketType => 706,
        Error::NotConnected => 707,
        Error::AlreadyConnected => 708,
        Error::ConnectionInProgress => 709,
        Error::MessageSize => 710,
        Error::NoRoute => 711,
        Error::SystemCallFailed => 800,
        Error::KernelPanic => 801,
        Error::SystemOverload => 802,
        Error::ResourceLimit => 803,
        Error::ConfigurationError => 804,
        Error::VersionMismatch => 805,
        Error::NotInitialized => 806,
        Error::AlreadyInitialized => 807,
        Error::ShuttingDown => 808,
        Error::Suspended => 809,
        Error::PowerError => 810,
        Error::ClockError => 811,
        Error::TimerError => 812,
        Error::AuthenticationFailed => 900,
        Error::AuthorizationFailed => 901,
        Error::SecurityViolation => 902,
        Error::EncryptionError => 903,
        Error::DecryptionError => 904,
        Error::CertificateError => 905,
        Error::SignatureError => 906,
        Error::KeyNotFound => 907,
        Error::KeyExpired => 908,
        Error::AccessDenied => 909,
        Error::AuditLogFull => 910,
        Error::PolicyViolation => 911,
        Error::Unknown => 4294967295,
    }
}

/// The error whose raw code is `code`, if any.
pub open spec fn error_of_code(code: u32) -> Option<Error> {
    if false {
        None
    } else if code == 0 {
        Some(Error::Success)
    } else if code == 1 {
        Some(Error::InvalidParameter)
    } else if code == 2 {
        Some(Error::PermissionDenied)
    } else if code == 3 {
        Some(Error::NotFound)
    } else if code == 4 {
        Some(Error::AlreadyExists)
    } else if code == 5 {
        Some(Error::WouldBlock)
    } else if code == 6 {
        Some(Error::Interrupted)
    } else if code == 7 {
        Some(Error::InvalidOperation)
    } else if code == 8 {
        Some(Error::NotSupported)
    } else if code == 9 {
        Some(Error::TryAgain)
    } else if code == 10 {
        Some(Error::TimedOut)
    } else if code == 11 {
        Some(Error::EndOfFile)
    } else if code == 12 {
        Some(Error::BrokenPipe)
    } else if code == 13 {
        Some(Error::ConnectionRefused)
    } else if code == 14 {
        Some(Error::ConnectionReset)
    } else if code == 15 {
        Some(Error::ConnectionAborted)
    } else if code == 16 {
        Some(Error::NetworkUnreachable)
    } else if code == 17 {
        Some(Error::HostUnreachable)
    } else if code == 18 {
        Some(Error::AddressInUse)
    } else if code == 19 {
        Some(Error::AddressNotAvailable)
    } else if code == 20 {
        Some(Error::Cancelled)
    } else if code == 100 {
        Some(Error::OutOfMemory)
    } else if code == 101 {
        Some(Error::InvalidAddress)
    } else if code == 102 {
        Some(Error::AccessViolation)
    } else if code == 103 {
        Some(Error::NotMapped)
    } else if code == 104 {
        Some(Error::AlreadyMapped)
    } else if code == 105 {
        Some(Error::InvalidAlignment)
    } else if code == 106 {
        Some(Error::ProtectionViolation)
    } else if code == 107 {
        Some(Error::PageFault)
    } else if code == 108 {
        Some(Error::SegmentationFault)
    } else if code == 109 {
        Some(Error::Fragmented)
    } else if code == 110 {
        Some(Error::MemoryLeak)
    } else if code == 200 {
        Some(Error::InvalidProcessId)
    } else if code == 201 {
        Some(Error::ProcessNotFound)
    } else if code == 202 {
        Some(Error::ProcessExists)
    } else if code == 203 {
        Some(Error::ProcessNotRunning)
    } else if code == 204 {
        Some(Error::ProcessTerminated)
    } else if code == 205 {
        Some(Error::TooManyProcesses)
    } else if code == 206 {
        Some(Error::InvalidThreadId)
    } else if code == 207 {
        Some(Error::ThreadNotFound)
    } else if code == 208 {
        Some(Error::Deadlock)
    } else if code == 209 {
        Some(Error::PriorityInversion)
    } else if code == 210 {
        Some(Error::SchedulerError)
    } else if code == 300 {
        Some(Error::InvalidEndpoint)
    } else if code == 301 {
        Some(Error::EndpointNotFound)
    } else if code == 302 {
        Some(Error::EndpointExists)
    } else if code == 303 {
        Some(Error::NoReceiver)
    } else if code == 304 {
        Some(Error::NoSender)
    } else if code == 305 {
        Some(Error::MessageTooLarge)
    } else if code == 306 {
        Some(Error::QueueFull)
    } else if code == 307 {
        Some(Error::QueueEmpty)
    } else if code == 308 {
        Some(Error::IpcTimeout)
    } else if code == 309 {
        Some(Error::InvalidMessageType)
    } else if code == 310 {
        Some(Error::NoReply)
    } else if code == 311 {
        Some(Error::UnexpectedReply)
    } else if code == 312 {
        Some(Error::IpcOverload)
    } else if code == 400 {
        Some(Error::InvalidCapability)
    } else if code == 401 {
        Some(Error::CapabilityNotFound)
    } else if code == 402 {
        Some(Error::InsufficientRights)
    } else if code == 403 {
        Some(Error::CannotGrant)
    } else if code == 404 {
        Some(Error::CannotRevoke)
    } else if code == 405 {
        Some(Error::TooManyCapabilities)
    } else if code == 406 {
        Some(Error::InvalidCapabilityType)
    } else if code == 407 {
        Some(Error::CapabilityExists)
    } else if code == 408 {
        Some(Error::DerivationFailed)
    } else if code == 409 {
        Some(Error::VerificationFailed)
    } else if code == 500 {
        Some(Error::FileNotFound)
    } else if code == 501 {
        Some(Error::DirectoryNotFound)
    } else if code == 502 {
        Some(Error::FileExists)
    } else if code == 503 {
        Some(Error::DirectoryNotEmpty)
    } else if code == 504 {
        Some(Error::NotADirectory)
    } else if code == 505 {
        Some(Error::IsADirectory)
    } else if code == 506 {
        Some(Error::FileTooLarge)
    } else if code == 507 {
        Some(Error::DiskFull)
    } else if code == 508 {
        Some(Error::ReadOnlyFilesystem)
    } else if code == 509 {
        Some(Error::InvalidFilename)
    } else if code == 510 {
        Some(Error::TooManyOpenFiles)
    } else if code == 511 {
        Some(Error::CrossDeviceLink)
    } else if code == 512 {
        Some(Error::InvalidFileDescriptor)
    } else if code == 513 {
        Some(Error::FilesystemCorrupted)
    } else if code == 514 {
        Some(Error::MountPointBusy)
    } else if code == 515 {
        Some(Error::NotAMountPoint)
    } else if code == 600 {
        Some(Error::DeviceNotFound)
    } else if code == 601 {
        Some(Error::DeviceBusy)
    } else if code == 602 {
        Some(Error::DeviceError)
    } else if code == 603 {
        Some(Error::DeviceNotReady)
    } else if code == 604 {
        Some(Error::DeviceOffline)
    } else if code == 605 {
        Some(Error::DeviceRemoved)
    } else if code == 606 {
        Some(Error::InvalidDeviceOperation)
    } else if code == 607 {
        Some(Error::DeviceTimeout)
    } else if code == 608 {
        Some(Error::DeviceOverrun)
    } else if code == 609 {
        Some(Error::DeviceUnderrun)
    } else if code == 610 {
        Some(Error::DeviceConfigError)
    } else if code == 611 {
        Some(Error::DriverNotFound)
    } else if code == 612 {
        Some(Error::DriverError)
    } else if code == 613 {
        Some(Error::HardwareError)
    } else if code == 614 {
        Some(Error::FirmwareError)
    } else if code == 700 {
        Some(Error::NetworkDown)
    } else if code == 701 {
        Some(Error::HostDown)
    } else if code == 702 {
        Some(Error::ProtocolError)
    } else if code == 703 {
        Some(Error::InvalidProtocol)
    } else if code == 704 {
        Some(Error::ProtocolNotSupported)
    } else if code == 705 {
        Some(Error::SocketError)
    } else if code == 706 {
        Some(Error::InvalidSocketType)
    } else if code == 707 {
        Some(Error::NotConnected)
    } else if code == 708 {
        Some(Error::AlreadyConnected)
    } else if code == 709 {
        Some(Error::ConnectionInProgress)
    } else if code == 710 {
        Some(Error::MessageSize)
    } else if code == 711 {
        Some(Error::NoRoute)
    } else if code == 800 {
        Some(Error::SystemCallFailed)
    } else if code == 801 {
        Some(Error::KernelPanic)
    } else if code == 802 {
        Some(Error::SystemOverload)
    } else if code == 803 {
        Some(Error::ResourceLimit)
    } else if code == 804 {
        Some(Error::ConfigurationError)
    } else if code == 805 {
        Some(Error::VersionMismatch)
    } else if code == 806 {
        Some(Error::NotInitialized)
    } else if code == 807 {
        Some(Error::AlreadyInitialized)
    } else if code == 808 {
        Some(Error::ShuttingDown)
    } else if code == 809 {
        Some(Error::Suspended)
    } else if code == 810 {
        Some(Error::PowerError)
    } else if code == 811 {
        Some(Error::ClockError)
    } else if code == 812 {
        Some(Error::TimerError)
    } else if code == 900 {
        Some(Error::AuthenticationFailed)
    } else if code == 901 {
        Some(Error::AuthorizationFailed)
    } else if code == 902 {
        Some(Error::SecurityViolation)
    } else if code == 903 {
        Some(Error::EncryptionError)
    } else if code == 904 {
        Some(Error::DecryptionError)
    } else if code == 905 {
        Some(Error::CertificateError)
    } else if code == 906 {
        Some(Error::SignatureError)
    } else if code == 907 {
        Some(Error::KeyNotFound)
    } else if code == 908 {
        Some(Error::KeyExpired)
    } else if code == 909 {
        Some(Error::AccessDenied)
    } else if code == 910 {
        Some(Error::AuditLogFull)
    } else if code == 911 {
        Some(Error::PolicyViolation)
    } else if code == 4294967295 {
        Some(Error::Unknown)
    } else {
        None
    }
}

/// The human-readable message of an error.
pub open spec fn error_message(e: Error) -> Seq<char> {
    match e {
        Error::Success => "Success"@,
        Error::InvalidParameter => "Invalid parameter"@,
        Error::PermissionDenied => "Permission denied"@,
        Error::NotFound => "Not found"@,
        Error::AlreadyExists => "Already exists"@,
        Error::WouldBlock => "Operation would block"@,
        Error::Interrupted => "Operation interrupted"@,
        Error::InvalidOperation => "Invalid operation"@,
        Error::NotSupported => "Operation not supported"@,
        Error::TryAgain => "Try again"@,
        Error::TimedOut => "Operation timed out"@,
        Error::EndOfFile => "End of file"@,
        Error::BrokenPipe => "Broken pipe"@,
        Error::ConnectionRefused => "Connection refused"@,
        Error::ConnectionReset => "Connection reset"@,
        Error::ConnectionAborted => "Connection aborted"@,
        Error::NetworkUnreachable => "Network unreachable"@,
        Error::HostUnreachable => "Host unreachable"@,
        Error::AddressInUse => "Address already in use"@,
        Error::AddressNotAvailable => "Address not available"@,
        Error::Cancelled => "Operation cancelled"@,
        Error::OutOfMemory => "Out of memory"@,
        Error::InvalidAddress => "Invalid memory address"@,
        Error::AccessViolation => "Memory access violation"@,
        Error::NotMapped => "Memory not mapped"@,
        Error::AlreadyMapped => "Memory already mapped"@,
        Error::InvalidAlignment => "Invalid memory alignment"@,
        Error::ProtectionViolation => "Memory protection violation"@,
        Error::PageFault => "Page fault"@,
        Error::SegmentationFault => "Segmentation fault"@,
        Error::Fragmented => "Memory fragmentation"@,
        Error::MemoryLeak => "Memory leak detected"@,
        Error::InvalidProcessId => "Invalid process ID"@,
        Error::ProcessNotFound => "Process not found"@,
        Error::ProcessExists => "Process already exists"@,
        Error::ProcessNotRunning => "Process not running"@,
        Error::ProcessTerminated => "Process terminated"@,
        Error::TooManyProcesses => "Too many processes"@,
        Error::InvalidThreadId => "Invalid thread ID"@,
        Error::ThreadNotFound => "Thread not found"@,
        Error::Deadlock => "Deadlock detected"@,
        Error::PriorityInversion => "Priority inversion"@,
        Error::SchedulerError => "Scheduler error"@,
        Error::InvalidEndpoint => "Invalid endpoint"@,
        Error::EndpointNotFound => "Endpoint not found"@,
        Error::EndpointExists => "Endpoint already exists"@,
        Error::NoReceiver => "No receiver waiting"@,
        Error::NoSender => "No sender waiting"@,
        Error::MessageTooLarge => "Message too large"@,
        Error::QueueFull => "Message queue full"@,
        Error::QueueEmpty => "Message queue empty"@,
        Error::IpcTimeout => "IPC timeout"@,
        Error::InvalidMessageType => "Invalid message type"@,
        Error::NoReply => "No reply received"@,
        Error::UnexpectedReply => "Unexpected reply"@,
        Error::IpcOverload => "IPC system overload"@,
        Error::InvalidCapability => "Invalid capability"@,
        Error::CapabilityNotFound => "Capability not found"@,
        Error::InsufficientRights => "Insufficient rights"@,
        Error::CannotGrant => "Cannot grant capability"@,
        Error::CannotRevoke => "Cannot revoke capability"@,
        Error::TooManyCapabilities => "Too many capabilities"@,
        Error::InvalidCapabilityType => "Invalid capability type"@,
        Error::CapabilityExists => "Capability already exists"@,
        Error::DerivationFailed => "Capability derivation failed"@,
        Error::VerificationFailed => "Capability verification failed"@,
        Error::FileNotFound => "File not found"@,
        Error::DirectoryNotFound => "Directory not found"@,
        Error::FileExists => "File already exists"@,
        Error::DirectoryNotEmpty => "Directory not empty"@,
        Error::NotADirectory => "Not a directory"@,
        Error::IsADirectory => "Is a directory"@,
        Error::FileTooLarge => "File too large"@,
        Error::DiskFull => "Disk full"@,
        Error::ReadOnlyFilesystem => "Read-only filesystem"@,
        Error::InvalidFilename => "Invalid filename"@,
        Error::TooManyOpenFiles => "Too many open files"@,
        Error::CrossDeviceLink => "Cross-device link"@,
        Error::InvalidFileDescriptor => "Invalid file descriptor"@,
        Error::FilesystemCorrupted => "Filesystem corrupted"@,
        Error::MountPointBusy => "Mount point busy"@,
        Error::NotAMountPoint => "Not a mount point"@,
        Error::DeviceNotFound => "Device not found"@,
        Error::DeviceBusy => "Device busy"@,
        Error::DeviceError => "Device error"@,
        Error::DeviceNotReady => "Device not ready"@,
        Error::DeviceOffline => "Device offline"@,
        Error::DeviceRemoved => "Device removed"@,
        Error::InvalidDeviceOperation => "Invalid device operation"@,
        Error::DeviceTimeout => "Device timeout"@,
        Error::DeviceOverrun => "Device overrun"@,
        Error::DeviceUnderrun => "Device underrun"@,
        Error::DeviceConfigError => "Device configuration error"@,
        Error::DriverNotFound => "Driver not found"@,
        Error::DriverError => "Driver error"@,
        Error::HardwareError => "Hardware error"@,
        Error::FirmwareError => "Firmware error"@,
        Error::NetworkDown => "Network down"@,
        Error::HostDown => "Host down"@,
        Error::ProtocolError => "Protocol error"@,
        Error::InvalidProtocol => "Invalid protocol"@,
        Error::ProtocolNotSupported => "Protocol not supported"@,
        Error::SocketError => "Socket error"@,
        Error::InvalidSocketType => "Invalid socket type"@,
        Error::NotConnected => "Not connected"@,
        Error::AlreadyConnected => "Already connected"@,
        Error::ConnectionInProgress => "Connection in progress"@,
        Error::MessageSize => "Message size error"@,
        Error::NoRoute => "No route to host"@,
        Error::SystemCallFailed => "System call failed"@,
        Error::KernelPanic => "Kernel panic"@,
        Error::SystemOverload => "System overload"@,
        Error::ResourceLimit => "Resource limit exceeded"@,
        Error::ConfigurationError => "Configuration error"@,
        Error::VersionMismatch => "Version mismatch"@,
        Error::NotInitialized => "Not initialized"@,
        Error::AlreadyInitialized => "Already initialized"@,
        Error::ShuttingDown => "System shutting down"@,
        Error::Suspended => "System suspended"@,
        Error::PowerError => "Power management error"@,
        Error::ClockError => "Clock error"@,
        Error::TimerError => "Timer error"@,
        Error::AuthenticationFailed => "Authentication failed"@,
        Error::AuthorizationFailed => "Authorization failed"@,
        Error::SecurityViolation => "Security violation"@,
        Error::EncryptionError => "Encryption error"@,
        Error::DecryptionError => "Decryption error"@,
        Error::CertificateError => "Certificate error"@,
        Error::SignatureError => "Signature verification failed"@,
        Error::KeyNotFound => "Key not found"@,
        Error::KeyExpired => "Key expired"@,
        Error::AccessDenied => "Access denied"@,
        Error::AuditLogFull => "Audit log full"@,
        Error::PolicyViolation => "Security policy violation"@,
        Error::Unknown => "Unknown error"@,
    }
}

/// Every error is found again from its raw code.
pub proof fn lemma_error_code_roundtrip(e: Error)
    ensures
        error_of_code(error_code(e)) == Some(e),
{
}

impl Error {
    /// The error with raw code `code`; `Unknown` for an unassigned code.
    pub fn from_u32(code: u32) -> (r: Self)
        ensures
            r == match error_of_code(code) {
                Some(e) => e,
                None => Error::Unknown,
            },
    {
        match code {
            0 => Error::Success,
            1 => Error::InvalidParameter,
            2 => Error::PermissionDenied,
            3 => Error::NotFound,
            4 => Error::AlreadyExists,
            5 => Error::WouldBlock,
            6 => Error::Interrupted,
            7 => Error::InvalidOperation,
            8 => Error::NotSupported,
            9 => Error::TryAgain,
            10 => Error::TimedOut,
            11 => Error::EndOfFile,
            12 => Error::BrokenPipe,
            13 => Error::ConnectionRefused,
            14 => Error::ConnectionReset,
            15 => Error::ConnectionAborted,
            16 => Error::NetworkUnreachable,
            17 => Error::HostUnreachable,
            18 => Error::AddressInUse,
            19 => Error::AddressNotAvailable,
            20 => Error::Cancelled,
            100 => Error::OutOfMemory,
            101 => Error::InvalidAddress,
            102 => Error::AccessViolation,
            103 => Error::NotMapped,
            104 => Error::AlreadyMapped,
            105 => Error::InvalidAlignment,
            106 => Error::ProtectionViolation,
            107 => Error::PageFault,
            108 => Error::SegmentationFault,
            109 => Error::Fragmented,
            110 => Error::MemoryLeak,
            200 => Error::InvalidProcessId,
            201 => Error::ProcessNotFound,
            202 => Error::ProcessExists,
            203 => Error::ProcessNotRunning,
            204 => Error::ProcessTerminated,
            205 => Error::TooManyProcesses,
            206 => Error::InvalidThreadId,
            207 => Error::ThreadNotFound,
            208 => Error::Deadlock,
            209 => Error::PriorityInversion,
            210 => Error::SchedulerError,
            300 => Error::InvalidEndpoint,
            301 => Error::EndpointNotFound,
            302 => Error::EndpointExists,
            303 => Error::NoReceiver,
            304 => Error::NoSender,
            305 => Error::MessageTooLarge,
            306 => Error::QueueFull,
            307 => Error::QueueEmpty,
            308 => Error::IpcTimeout,
            309 => Error::InvalidMessageType,
            310 => Error::NoReply,
            311 => Error::UnexpectedReply,
            312 => Error::IpcOverload,
            400 => Error::InvalidCapability,
            401 => Error::CapabilityNotFound,
            402 => Error::InsufficientRights,
            403 => Error::CannotGrant,
            404 => Error::CannotRevoke,
            405 => Error::TooManyCapabilities,
            406 => Error::InvalidCapabilityType,
            407 => Error::CapabilityExists,
            408 => Error::DerivationFailed,
            409 => Error::VerificationFailed,
            500 => Error::FileNotFound,
            501 => Error::DirectoryNotFound,
            502 => Error::FileExists,
            503 => Error::DirectoryNotEmpty,
            504 => Error::NotADirectory,
            505 => Error::IsADirectory,
            506 => Error::FileTooLarge,
            507 => Error::DiskFull,
            508 => Error::ReadOnlyFilesystem,
            509 => Error::InvalidFilename,
            510 => Error::TooManyOpenFiles,
            511 => Error::CrossDeviceLink,
            512 => Error::InvalidFileDescriptor,
            513 => Error::FilesystemCorrupted,
            514 => Error::MountPointBusy,
            515 => Error::NotAMountPoint,
            600 => Error::DeviceNotFound,
            601 => Error::DeviceBusy,
            602 => Error::DeviceError,
            603 => Error::DeviceNotReady,
            604 => Error::DeviceOffline,
            605 => Error::DeviceRemoved,
            606 => Error::InvalidDeviceOperation,
            607 => Error::DeviceTimeout,
            608 => Error::DeviceOverrun,
            609 => Error::DeviceUnderrun,
            610 => Error::DeviceConfigError,
            611 => Error::DriverNotFound,
            612 => Error::DriverError,
            613 => Error::HardwareError,
            614 => Error::FirmwareError,
            700 => Error::NetworkDown,
            701 => Error::HostDown,
            702 => Error::ProtocolError,
            703 => Error::InvalidProtocol,
            704 => Error::ProtocolNotSupported,
            705 => Error::SocketError,
            706 => Error::InvalidSocketType,
            707 => Error::NotConnected,
            708 => Error::AlreadyConnected,
            709 => Error::ConnectionInProgress,
            710 => Error::MessageSize,
            711 => Error::NoRoute,
            800 => Error::SystemCallFailed,
            801 => Error::KernelPanic,
            802 => Error::SystemOverload,
            803 => Error::ResourceLimit,
            804 => Error::ConfigurationError,
            805 => Error::VersionMismatch,
            806 => Error::NotInitialized,
            807 => Error::AlreadyInitialized,
            808 => Error::ShuttingDown,
            809 => Error::Suspended,
            810 => Error::PowerError,
            811 => Error::ClockError,
            812 => Error::TimerError,
            900 => Error::AuthenticationFailed,
            901 => Error::AuthorizationFailed,
            902 => Error::SecurityViolation,
            903 => Error::EncryptionError,
            904 => Error::DecryptionError,
            905 => Error::CertificateError,
            906 => Error::SignatureError,
            907 => Error::KeyNotFound,
            908 => Error::KeyExpired,
            909 => Error::AccessDenied,
            910 => Error::AuditLogFull,
            911 => Error::PolicyViolation,
            _ => Error::Unknown,
        }
    }

    /// The raw error code.
    pub fn as_u32(self) -> (r: u32)
        ensures
            r == error_code(self),
    {
        match self {
            Error::Success => 0,
            Error::InvalidParameter => 1,
            Error::PermissionDenied => 2,
            Error::NotFound => 3,
            Error::AlreadyExists => 4,
            Error::WouldBlock => 5,
            Error::Interrupted => 6,
            Error::InvalidOperation => 7,
            Error::NotSupported => 8,
            Error::TryAgain => 9,
            Error::TimedOut => 10,
            Error::EndOfFile => 11,
            Error::BrokenPipe => 12,
            Error::ConnectionRefused => 13,
            Error::ConnectionReset => 14,
            Error::ConnectionAborted => 15,
            Error::NetworkUnreachable => 16,
            Error::HostUnreachable => 17,
            Error::AddressInUse => 18,
            Error::AddressNotAvailable => 19,
            Error::Cancelled => 20,
            Error::OutOfMemory => 100,
            Error::InvalidAddress => 101,
            Error::AccessViolation => 102,
            Error::NotMapped => 103,
            Error::AlreadyMapped => 104,
            Error::InvalidAlignment => 105,
            Error::ProtectionViolation => 106,
            Error::PageFault => 107,
            Error::SegmentationFault => 108,
            Error::Fragmented => 109,
            Error::MemoryLeak => 110,
            Error::InvalidProcessId => 200,
            Error::ProcessNotFound => 201,
            Error::ProcessExists => 202,
            Error::ProcessNotRunning => 203,
            Error::ProcessTerminated => 204,
            Error::TooManyProcesses => 205,
            Error::InvalidThreadId => 206,
            Error::ThreadNotFound => 207,
            Error::Deadlock => 208,
            Error::PriorityInversion => 209,
            Error::SchedulerError => 210,
            Error::InvalidEndpoint => 300,
            Error::EndpointNotFound => 301,
            Error::EndpointExists => 302,
            Error::NoReceiver => 303,
            Error::NoSender => 304,
            Error::MessageTooLarge => 305,
            Error::QueueFull => 306,
            Error::QueueEmpty => 307,
            Error::IpcTimeout => 308,
            Error::InvalidMessageType => 309,
            Error::NoReply => 310,
            Error::UnexpectedReply => 311,
            Error::IpcOverload => 312,
            Error::InvalidCapability => 400,
            Error::CapabilityNotFound => 401,
            Error::InsufficientRights => 402,
            Error::CannotGrant => 403,
            Error::CannotRevoke => 404,
            Error::TooManyCapabilities => 405,
            Error::InvalidCapabilityType => 406,
            Error::CapabilityExists => 407,
            Error::DerivationFailed => 408,
            Error::VerificationFailed => 409,
            Error::FileNotFound => 500,
            Error::DirectoryNotFound => 501,
            Error::FileExists => 502,
            Error::DirectoryNotEmpty => 503,
            Error::NotADirectory => 504,
            Error::IsADirectory => 505,
            Error::FileTooLarge => 506,
            Error::DiskFull => 507,
            Error::ReadOnlyFilesystem => 508,
            Error::InvalidFilename => 509,
            Error::TooManyOpenFiles => 510,
            Error::CrossDeviceLink => 511,
            Error::InvalidFileDescriptor => 512,
            Error::FilesystemCorrupted => 513,
            Error::MountPointBusy => 514,
            Error::NotAMountPoint => 515,
            Error::DeviceNotFound => 600,
            Error::DeviceBusy => 601,
            Error::DeviceError => 602,
            Error::DeviceNotReady => 603,
            Error::DeviceOffline => 604,
            Error::DeviceRemoved => 605,
            Error::InvalidDeviceOperation => 606,
            Error::DeviceTimeout => 607,
            Error::DeviceOverrun => 608,
            Error::DeviceUnderrun => 609,
            Error::DeviceConfigError => 610,
            Error::DriverNotFound => 611,
            Error::DriverError => 612,
            Error::HardwareError => 613,
            Error::FirmwareError => 614,
            Error::NetworkDown => 700,
            Error::HostDown => 701,
            Error::ProtocolError => 702,
            Error::InvalidProtocol => 703,
            Error::ProtocolNotSupported => 704,
            Error::SocketError => 705,
            Error::InvalidSocketType => 706,
            Error::NotConnected => 707,
            Error::AlreadyConnected => 708,
            Error::ConnectionInProgress => 709,
            Error::MessageSize => 710,
            Error::NoRoute => 711,
            Error::SystemCallFailed => 800,
            Error::KernelPanic => 801,
            Error::SystemOverload => 802,
            Error::ResourceLimit => 803,
            Error::ConfigurationError => 804,
            Error::VersionMismatch => 805,
            Error::NotInitialized => 806,
            Error::AlreadyInitialized => 807,
            Error::ShuttingDown => 808,
            Error::Suspended => 809,
            Error::PowerError => 810,
            Error::ClockError => 811,
            Error::TimerError => 812,
            Error::AuthenticationFailed => 900,
            Error::AuthorizationFailed => 901,
            Error::SecurityViolation => 902,
            Error::EncryptionError => 903,
            Error::DecryptionError => 904,
            Error::CertificateError => 905,
            Error::SignatureError => 906,
            Error::KeyNotFound => 907,
            Error::KeyExpired => 908,
            Error::AccessDenied => 909,
            Error::AuditLogFull => 910,
            Error::PolicyViolation => 911,
            Error::Unknown => 4294967295,
        }
    }

    /// The human-readable message.
    pub fn message(&self) -> (r: &'static str)
        ensures
            r@ == error_message(*self),
    {
        match self {
            Error::Success => "Success",
            Error::InvalidParameter => "Invalid parameter",
            Error::PermissionDenied => "Permission denied",
            Error::NotFound => "Not found",
            Error::AlreadyExists => "Already exists",
            Error::WouldBlock => "Operation would block",
            Error::Interrupted => "Operation interrupted",
            Error::InvalidOperation => "Invalid operation",
            Error::NotSupported => "Operation not supported",
            Error::TryAgain => "Try again",
            Error::TimedOut => "Operation timed out",
            Error::EndOfFile => "End of file",
            Error::BrokenPipe => "Broken pipe",
            Error::ConnectionRefused => "Connection refused",
            Error::ConnectionReset => "Connection reset",
            Error::ConnectionAborted => "Connection aborted",
            Error::NetworkUnreachable => "Network unreachable",
            Error::HostUnreachable => "Host unreachable",
            Error::AddressInUse => "Address already in use",
            Error::AddressNotAvailable => "Address not available",
            Error::Cancelled => "Operation cancelled",
            Error::OutOfMemory => "Out of memory",
            Error::InvalidAddress => "Invalid memory address",
            Error::AccessViolation => "Memory access violation",
            Error::NotMapped => "Memory not mapped",
            Error::AlreadyMapped => "Memory already mapped",
            Error::InvalidAlignment => "Invalid memory alignment",
            Error::ProtectionViolation => "Memory protection violation",
            Error::PageFault => "Page fault",
            Error::SegmentationFault => "Segmentation fault",
            Error::Fragmented => "Memory fragmentation",
            Error::MemoryLeak => "Memory leak detected",
            Error::InvalidProcessId => "Invalid process ID",
            Error::ProcessNotFound => "Process not found",
            Error::ProcessExists => "Process already exists",
            Error::ProcessNotRunning => "Process not running",
            Error::ProcessTerminated => "Process terminated",
            Error::TooManyProcesses => "Too many processes",
            Error::InvalidThreadId => "Invalid thread ID",
            Error::ThreadNotFound => "Thread not found",
            Error::Deadlock => "Deadlock detected",
            Error::PriorityInversion => "Priority inversion",
            Error::SchedulerError => "Scheduler error",
            Error::InvalidEndpoint => "Invalid endpoint",
            Error::EndpointNotFound => "Endpoint not found",
            Error::EndpointExists => "Endpoint already exists",
            Error::NoReceiver => "No receiver waiting",
            Error::NoSender => "No sender waiting",
            Error::MessageTooLarge => "Message too large",
            Error::QueueFull => "Message queue full",
            Error::QueueEmpty => "Message queue empty",
            Error::IpcTimeout => "IPC timeout",
            Error::InvalidMessageType => "Invalid message type",
            Error::NoReply => "No reply received",
            Error::UnexpectedReply => "Unexpected reply",
            Error::IpcOverload => "IPC system overload",
            Error::InvalidCapability => "Invalid capability",
            Error::CapabilityNotFound => "Capability not found",
            Error::InsufficientRights => "Insufficient rights",
            Error::CannotGrant => "Cannot grant capability",
            Error::CannotRevoke => "Cannot revoke capability",
            Error::TooManyCapabilities => "Too many capabilities",
            Error::InvalidCapabilityType => "Invalid capability type",
            Error::CapabilityExists => "Capability already exists",
            Error::DerivationFailed => "Capability derivation failed",
            Error::VerificationFailed => "Capability verification failed",
            Error::FileNotFound => "File not found",
            Error::DirectoryNotFound => "Directory not found",
            Error::FileExists => "File already exists",
            Error::DirectoryNotEmpty => "Directory not empty",
            Error::NotADirectory => "Not a directory",
            Error::IsADirectory => "Is a directory",
            Error::FileTooLarge => "File too large",
            Error::DiskFull => "Disk full",
            Error::ReadOnlyFilesystem => "Read-only filesystem",
            Error::InvalidFilename => "Invalid filename",
            Error::TooManyOpenFiles => "Too many open files",
            Error::CrossDeviceLink => "Cross-device link",
            Error::InvalidFileDescriptor => "Invalid file descriptor",
            Error::FilesystemCorrupted => "Filesystem corrupted",
            Error::MountPointBusy => "Mount point busy",
            Error::NotAMountPoint => "Not a mount point",
            Error::DeviceNotFound => "Device not found",
            Error::DeviceBusy => "Device busy",
            Error::DeviceError => "Device error",
            Error::DeviceNotReady => "Device not ready",
            Error::DeviceOffline => "Device offline",
            Error::DeviceRemoved => "Device removed",
            Error::InvalidDeviceOperation => "Invalid device operation",
            Error::DeviceTimeout => "Device timeout",
            Error::DeviceOverrun => "Device overrun",
            Error::DeviceUnderrun => "Device underrun",
            Error::DeviceConfigError => "Device configuration error",
            Error::DriverNotFound => "Driver not found",
            Error::DriverError => "Driver error",
            Error::HardwareError => "Hardware error",
            Error::FirmwareError => "Firmware error",
            Error::NetworkDown => "Network down",
            Error::HostDown => "Host down",
            Error::ProtocolError => "Protocol error",
            Error::InvalidProtocol => "Invalid protocol",
            Error::ProtocolNotSupported => "Protocol not supported",
            Error::SocketError => "Socket error",
            Error::InvalidSocketType => "Invalid socket type",
            Error::NotConnected => "Not connected",
            Error::AlreadyConnected => "Already connected",
            Error::ConnectionInProgress => "Connection in progress",
            Error::MessageSize => "Message size error",
            Error::NoRoute => "No route to host",
            Error::SystemCallFailed => "System call failed",
            Error::KernelPanic => "Kernel panic",
            Error::SystemOverload => "System overload",
            Error::ResourceLimit => "Resource limit exceeded",
            Error::ConfigurationError => "Configuration error",
            Error::VersionMismatch => "Version mismatch",
            Error::NotInitialized => "Not initialized",
            Error::AlreadyInitialized => "Already initialized",
            Error::ShuttingDown => "System shutting down",
            Error::Suspended => "System suspended",
            Error::PowerError => "Power management error",
            Error::ClockError => "Clock error",
            Error::TimerError => "Timer error",
            Error::AuthenticationFailed => "Authentication failed",
            Error::AuthorizationFailed => "Authorization failed",
            Error::SecurityViolation => "Security violation",
            Error::EncryptionError => "Encryption error",
            Error::DecryptionError => "Decryption error",
            Error::CertificateError => "Certificate error",
            Error::SignatureError => "Signature verification failed",
            Error::KeyNotFound => "Key not found",
            Error::KeyExpired => "Key expired",
            Error::AccessDenied => "Access denied",
            Error::AuditLogFull => "Audit log full",
            Error::PolicyViolation => "Security policy violation",
            Error::Unknown => "Unknown error",
        }
    }

    /// Whether this is the success code.
    pub fn is_success(self) -> (r: bool)
        ensures
            r == (self == Error::Success),
    {
        match self {
            Error::Success => true,
            _ => false,
        }
    }

    /// Whether this is a failure code.
    pub fn is_error(self) -> (r: bool)
        ensures
            r == (self != Error::Success),
    {
        !self.is_success()
    }

    /// Whether the code lies in the memory range 100..=199.
    pub fn is_memory_error(self) -> (r: bool)
        ensures
            r == (100 <= error_code(self) <= 199),
    {
        let c = self.as_u32();
        100 <= c && c <= 199
    }

    /// Whether the code lies in the process range 200..=299.
    pub fn is_process_error(self) -> (r: bool)
        ensures
            r == (200 <= error_code(self) <= 299),
    {
        let c = self.as_u32();
        200 <= c && c <= 299
    }

    /// Whether the code lies in the IPC range 300..=399.
    pub fn is_ipc_error(self) -> (r: bool)
        ensures
            r == (300 <= error_code(self) <= 399),
    {
        let c = self.as_u32();
        300 <= c && c <= 399
    }

    /// Whether the code lies in the capability range 400..=499.
    pub fn is_capability_error(self) -> (r: bool)
        ensures
            r == (400 <= error_code(self) <= 499),
    {
        let c = self.as_u32();
        400 <= c && c <= 499
    }

    /// Whether the code lies in the filesystem range 500..=599.
    pub fn is_filesystem_error(self) -> (r: bool)
        ensures
            r == (500 <= error_code(self) <= 599),
    {
        let c = self.as_u32();
        500 <= c && c <= 599
    }

    /// Whether the code lies in the device range 600..=699.
    pub fn is_device_error(self) -> (r: bool)
        ensures
            r == (600 <= error_code(self) <= 699),
    {
        let c = self.as_u32();
        600 <= c && c <= 699
    }

    /// Whether the code lies in the network range 700..=799.
    pub fn is_network_error(self) -> (r: bool)
        ensures
            r == (700 <= error_code(self) <= 799),
    {
        let c = self.as_u32();
        700 <= c && c <= 799
    }

    /// Whether the code lies in the system range 800..=899.
    pub fn is_system_error(self) -> (r: bool)
        ensures
            r == (800 <= error_code(self) <= 899),
    {
        let c = self.as_u32();
        800 <= c && c <= 899
    }

    /// Whether the code lies in the security range 900..=999.
    pub fn is_security_error(self) -> (r: bool)
        ensures
            r == (900 <= error_code(self) <= 999),
    {
        let c = self.as_u32();
        900 <= c && c <= 999
    }

    /// Whether the operation should be retried.
    pub fn should_retry(self) -> (r: bool)
        ensures
            r == (self == Error::WouldBlock || self == Error::TryAgain || self == Error::Interrupted
                || self == Error::TimedOut || self == Error::DeviceBusy
                || self == Error::SystemOverload),
    {
        match self {
            Error::WouldBlock | Error::TryAgain | Error::Interrupted | Error::TimedOut
            | Error::DeviceBusy | Error::SystemOverload => true,
            _ => false,
        }
    }

    /// Whether the error is fatal.
    pub fn is_fatal(self) -> (r: bool)
        ensures
            r == (self == Error::KernelPanic || self == Error::SegmentationFault
                || self == Error::HardwareError || self == Error::OutOfMemory
                || self == Error::SystemCallFailed),
    {
        match self {
            Error::KernelPanic | Error::SegmentationFault | Error::HardwareError
            | Error::OutOfMemory | Error::SystemCallFailed => true,
            _ => false,
        }
    }

    /// The name of the subsystem range the code lies in.
    pub fn category(&self) -> (r: &'static str)
        ensures
            r@ == error_category(error_code(*self)),
    {
        if self.is_memory_error() {
            "Memory"
        } else if self.is_process_error() {
            "Process"
        } else if self.is_ipc_error() {
            "IPC"
        } else if self.is_capability_error() {
            "Capability"
        } else if self.is_filesystem_error() {
            "Filesystem"
        } else if self.is_device_error() {
            "Device"
        } else if self.is_network_error() {
            "Network"
        } else if self.is_system_error() {
            "System"
        } else if self.is_security_error() {
            "Security"
        } else {
            "Generic"
        }
    }
}

/// The category name of a raw code.
pub open spec fn error_category(code: u32) -> Seq<char> {
    if 100 <= code <= 199 {
        "Memory"@
    } else if 200 <= code <= 299 {
        "Process"@
    } else if 300 <= code <= 399 {
        "IPC"@
    } else if 400 <= code <= 499 {
        "Capability"@
    } else if 500 <= code <= 599 {
        "Filesystem"@
    } else if 600 <= code <= 699 {
        "Device"@
    } else if 700 <= code <= 799 {
        "Network"@
    } else if 800 <= code <= 899 {
        "System"@
    } else if 900 <= code <= 999 {
        "Security"@
    } else {
        "Generic"@
    }
}

/// A result that can be converted to and from a raw system call result.
#[derive(Debug, Clone, Copy, PartialEq, Eq)]
pub enum SystemResult<T> {
    /// Success with a value.
    Success(T),
    /// Failure with an error code.
    Failure(Error),
}

impl<T> SystemResult<T> {
    /// The standard `Result` with the same content.
    pub fn into_result(self) -> (r: Result<T, Error>)
        ensures
            self matches SystemResult::Success(v) ==> r == Ok::<T, Error>(v),
            self matches SystemResult::Failure(e) ==> r == Err::<T, Error>(e),
    {
        match self {
            SystemResult::Success(value) => Ok(value),
            SystemResult::Failure(error) => Err(error),
        }
    }

    /// The system result with the same content as `result`.
    pub fn from_result(result: Result<T, Error>) -> (r: Self)
        ensures
            result matches Ok(v) ==> r == SystemResult::<T>::Success(v),
            result matches Err(e) ==> r == SystemResult::<T>::Failure(e),
    {
        match result {
            Ok(value) => SystemResult::Success(value),
            Err(error) => SystemResult::Failure(error),
        }
    }

    /// Whether this is a success.
    pub fn is_ok(&self) -> (r: bool)
        ensures
            r == (*self is Success),
    {
        match self {
            SystemResult::Success(_) => true,
            SystemResult::Failure(_) => false,
        }
    }

    /// Whether this is a failure.
    pub fn is_err(&self) -> (r: bool)
        ensures
            r == (*self is Failure),
    {
        match self {
            SystemResult::Success(_) => false,
            SystemResult::Failure(_) => true,
        }
    }

    /// The value of a success.
    pub fn unwrap(self) -> (r: T)
        requires
            self is Success,
        ensures
            self == SystemResult::<T>::Success(r),
    {
        match self {
            SystemResult::Success(value) => value,
            SystemResult::Failure(_) => vstd::pervasive::unreached(),
        }
    }

    /// The error of a failure.
    pub fn unwrap_err(self) -> (r: Error)
        requires
            self is Failure,
        ensures
            self == SystemResult::<T>::Failure(r),
    {
        match self {
            SystemResult::Failure(error) => error,
            SystemResult::Success(_) => vstd::pervasive::unreached(),
        }
    }
}

/// Converting to a standard result and back gives the same system result.
pub proof fn lemma_system_result_roundtrip<T>(s: SystemResult<T>)
    ensures
        match s {
            SystemResult::Success(v) => SystemResult::<T>::Success(v) == s,
            SystemResult::Failure(e) => SystemResult::<T>::Failure(e) == s,
        },
{
}

/// Where an error occurred, for debugging.
#[derive(Debug, Clone)]
pub struct ErrorContext {
    /// The error that occurred.
    pub error: Error,
    /// Source file.
    pub file: &'static str,
    /// Line number.
    pub line: u32,
    /// Function name.
    pub function: &'static str,
    /// Additional message.
    pub message: Option<&'static str>,
}

impl ErrorContext {
    /// A context without a message.
    pub fn new(error: Error, file: &'static str, line: u32, function: &'static str) -> (r: Self)
        ensures
            r.error == error,
            r.file == file,
            r.line == line,
            r.function == function,
            r.message is None,
    {
        ErrorContext { error, file, line, function, message: None }
    }

    /// The context with a message added.
    pub fn with_message(self, message: &'static str) -> (r: Self)
        ensures
            r.error == self.error,
            r.file == self.file,
            r.line == self.line,
            r.function == self.function,
            r.message == Some(message),
    {
        let mut c = self;
        c.message = Some(message);
        c
    }
}

} // verus!
