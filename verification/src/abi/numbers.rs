//! System call numbers, grouped by subsystem in ranges of sixteen.
use vstd::prelude::*;

verus! {

/// System call number type.
pub type SyscallNumber = u64;

/// Send message to endpoint (async)
pub const SYSCALL_IPC_SEND: u64 = 0x00;

/// Receive message from endpoint (blocking)
pub const SYSCALL_IPC_RECEIVE: u64 = 0x01;

/// Call endpoint (send + receive in one operation)
pub const SYSCALL_IPC_CALL: u64 = 0x02;

/// Reply to received call
pub const SYSCALL_IPC_REPLY: u64 = 0x03;

/// Send notification (lightweight signal)
pub const SYSCALL_IPC_NOTIFY: u64 = 0x04;

/// Create new IPC endpoint
pub const SYSCALL_CREATE_ENDPOINT: u64 = 0x05;

/// Delete IPC endpoint
pub const SYSCALL_DELETE_ENDPOINT: u64 = 0x06;

/// Configure endpoint properties
pub const SYSCALL_CONFIGURE_ENDPOINT: u64 = 0x07;

/// Wait for multiple endpoints
pub const SYSCALL_IPC_WAIT_ANY: u64 = 0x08;

/// Set endpoint timeout
pub const SYSCALL_IPC_SET_TIMEOUT: u64 = 0x09;

/// Get endpoint statistics
pub const SYSCALL_IPC_GET_STATS: u64 = 0x0A;

/// Exit current process
pub const SYSCALL_EXIT: u64 = 0x10;

/// Yield CPU to scheduler
pub const SYSCALL_YIELD: u64 = 0x11;

/// Create new process (fork)
pub const SYSCALL_FORK: u64 = 0x12;

/// Execute new program
pub const SYSCALL_EXEC: u64 = 0x13;

/// Wait for child process
pub const SYSCALL_WAIT: u64 = 0x14;

/// Kill process by PID
pub const SYSCALL_KILL: u64 = 0x15;

/// Get process ID
pub const SYSCALL_GETPID: u64 = 0x16;

/// Get parent process ID
pub const SYSCALL_GETPPID: u64 = 0x17;

/// Set process priority
pub const SYSCALL_SET_PRIORITY: u64 = 0x18;

/// Get process priority
pub const SYSCALL_GET_PRIORITY: u64 = 0x19;

/// Set process name
pub const SYSCALL_SET_PROCESS_NAME: u64 = 0x1A;

/// Get process information
pub const SYSCALL_GET_PROCESS_INFO: u64 = 0x1B;

/// Suspend process
pub const SYSCALL_SUSPEND: u64 = 0x1C;

/// Resume process
pub const SYSCALL_RESUME: u64 = 0x1D;

/// Create thread
pub const SYSCALL_CREATE_THREAD: u64 = 0x1E;

/// Get thread ID
pub const SYSCALL_GET_THREAD_ID: u64 = 0x1F;

/// Map memory region
pub const SYSCALL_MAP_MEMORY: u64 = 0x20;

/// Unmap memory region
pub const SYSCALL_UNMAP_MEMORY: u64 = 0x21;

/// Change memory protection
pub const SYSCALL_PROTECT_MEMORY: u64 = 0x22;

/// Create shared memory object
pub const SYSCALL_CREATE_SHARED_MEM: u64 = 0x23;

/// Attach to shared memory
pub const SYSCALL_ATTACH_SHARED_MEM: u64 = 0x24;

/// Detach from shared memory
pub const SYSCALL_DETACH_SHARED_MEM: u64 = 0x25;

/// Allocate anonymous memory
pub const SYSCALL_ALLOC_MEMORY: u64 = 0x26;

/// Free allocated memory
pub const SYSCALL_FREE_MEMORY: u64 = 0x27;

/// Get memory statistics
pub const SYSCALL_GET_MEMORY_STATS: u64 = 0x28;

/// Lock memory pages
pub const SYSCALL_LOCK_MEMORY: u64 = 0x29;

/// Unlock memory pages
pub const SYSCALL_UNLOCK_MEMORY: u64 = 0x2A;

/// Advise memory usage pattern
pub const SYSCALL_MEMORY_ADVISE: u64 = 0x2B;

/// Synchronize memory
pub const SYSCALL_MEMORY_SYNC: u64 = 0x2C;

/// Copy memory between address spaces
pub const SYSCALL_COPY_MEMORY: u64 = 0x2D;

/// Map physical memory (privileged)
pub const SYSCALL_MAP_PHYSICAL: u64 = 0x2E;

/// Get physical address (privileged)
pub const SYSCALL_GET_PHYSICAL_ADDR: u64 = 0x2F;

/// Grant capability to another process
pub const SYSCALL_GRANT_CAPABILITY: u64 = 0x30;

/// Revoke capability from process
pub const SYSCALL_REVOKE_CAPABILITY: u64 = 0x31;

/// Derive new capability with reduced rights
pub const SYSCALL_DERIVE_CAPABILITY: u64 = 0x32;

/// Delete capability
pub const SYSCALL_DELETE_CAPABILITY: u64 = 0x33;

/// List capabilities
pub const SYSCALL_LIST_CAPABILITIES: u64 = 0x34;

/// Check capability rights
pub const SYSCALL_CHECK_CAPABILITY: u64 = 0x35;

/// Create capability from resource
pub const SYSCALL_CREATE_CAPABILITY: u64 = 0x36;

/// Set capability label
pub const SYSCALL_SET_CAPABILITY_LABEL: u64 = 0x37;

/// Get capability information
pub const SYSCALL_GET_CAPABILITY_INFO: u64 = 0x38;

/// Mint new capability
pub const SYSCALL_MINT_CAPABILITY: u64 = 0x39;

/// Mutate capability rights
pub const SYSCALL_MUTATE_CAPABILITY: u64 = 0x3A;

/// Copy capability
pub const SYSCALL_COPY_CAPABILITY: u64 = 0x3B;

/// Move capability
pub const SYSCALL_MOVE_CAPABILITY: u64 = 0x3C;

/// Invoke capability
pub const SYSCALL_INVOKE_CAPABILITY: u64 = 0x3D;

/// Request IRQ capability
pub const SYSCALL_REQUEST_IRQ: u64 = 0x40;

/// Release IRQ capability
pub const SYSCALL_RELEASE_IRQ: u64 = 0x41;

/// Wait for interrupt
pub const SYSCALL_WAIT_IRQ: u64 = 0x42;

/// Acknowledge interrupt
pub const SYSCALL_ACK_IRQ: u64 = 0x43;

/// Mask interrupt
pub const SYSCALL_MASK_IRQ: u64 = 0x44;

/// Unmask interrupt
pub const SYSCALL_UNMASK_IRQ: u64 = 0x45;

/// Set interrupt handler
pub const SYSCALL_SET_IRQ_HANDLER: u64 = 0x46;

/// Get interrupt statistics
pub const SYSCALL_GET_IRQ_STATS: u64 = 0x47;

/// Request I/O port access
pub const SYSCALL_REQUEST_IO_PORT: u64 = 0x50;

/// Release I/O port access
pub const SYSCALL_RELEASE_IO_PORT: u64 = 0x51;

/// Read from I/O port (8-bit)
pub const SYSCALL_IO_READ8: u64 = 0x52;

/// Write to I/O port (8-bit)
pub const SYSCALL_IO_WRITE8: u64 = 0x53;

/// Read from I/O port (16-bit)
pub const SYSCALL_IO_READ16: u64 = 0x54;

/// Write to I/O port (16-bit)
pub const SYSCALL_IO_WRITE16: u64 = 0x55;

/// Read from I/O port (32-bit)
pub const SYSCALL_IO_READ32: u64 = 0x56;

/// Write to I/O port (32-bit)
pub const SYSCALL_IO_WRITE32: u64 = 0x57;

/// Get current time
pub const SYSCALL_GET_TIME: u64 = 0x60;

/// Set current time (privileged)
pub const SYSCALL_SET_TIME: u64 = 0x61;

/// Sleep for duration
pub const SYSCALL_SLEEP: u64 = 0x62;

/// Get high-resolution timer
pub const SYSCALL_GET_TIMER: u64 = 0x63;

/// Create timer
pub const SYSCALL_CREATE_TIMER: u64 = 0x64;

/// Delete timer
pub const SYSCALL_DELETE_TIMER: u64 = 0x65;

/// Set timer
pub const SYSCALL_SET_TIMER: u64 = 0x66;

/// Cancel timer
pub const SYSCALL_CANCEL_TIMER: u64 = 0x67;

/// Get uptime
pub const SYSCALL_GET_UPTIME: u64 = 0x68;

/// Get CPU time
pub const SYSCALL_GET_CPU_TIME: u64 = 0x69;

/// Get system information
pub const SYSCALL_GET_SYSTEM_INFO: u64 = 0x70;

/// Get kernel version
pub const SYSCALL_GET_KERNEL_VERSION: u64 = 0x71;

/// Get CPU information
pub const SYSCALL_GET_CPU_INFO: u64 = 0x72;

/// Get memory information
pub const SYSCALL_GET_MEMORY_INFO: u64 = 0x73;

/// Get platform information
pub const SYSCALL_GET_PLATFORM_INFO: u64 = 0x74;

/// Get performance counters
pub const SYSCALL_GET_PERF_COUNTERS: u64 = 0x75;

/// Set system configuration
pub const SYSCALL_SET_SYSTEM_CONFIG: u64 = 0x76;

/// Get system configuration
pub const SYSCALL_GET_SYSTEM_CONFIG: u64 = 0x77;

/// Enumerate system resources
pub const SYSCALL_ENUM_RESOURCES: u64 = 0x78;

/// Get resource information
pub const SYSCALL_GET_RESOURCE_INFO: u64 = 0x79;

/// Set security context
pub const SYSCALL_SET_SECURITY_CONTEXT: u64 = 0x80;

/// Get security context
pub const SYSCALL_GET_SECURITY_CONTEXT: u64 = 0x81;

/// Audit event
pub const SYSCALL_AUDIT_EVENT: u64 = 0x82;

/// Get audit log
pub const SYSCALL_GET_AUDIT_LOG: u64 = 0x83;

/// Set audit policy
pub const SYSCALL_SET_AUDIT_POLICY: u64 = 0x84;

/// Authenticate
pub const SYSCALL_AUTHENTICATE: u64 = 0x85;

/// Create security token
pub const SYSCALL_CREATE_TOKEN: u64 = 0x86;

/// Validate security token
pub const SYSCALL_VALIDATE_TOKEN: u64 = 0x87;

/// Enumerate devices
pub const SYSCALL_ENUM_DEVICES: u64 = 0x90;

/// Get device information
pub const SYSCALL_GET_DEVICE_INFO: u64 = 0x91;

/// Open device
pub const SYSCALL_OPEN_DEVICE: u64 = 0x92;

/// Close device
pub const SYSCALL_CLOSE_DEVICE: u64 = 0x93;

/// Device I/O control
pub const SYSCALL_DEVICE_IOCTL: u64 = 0x94;

/// Register device driver
pub const SYSCALL_REGISTER_DRIVER: u64 = 0x95;

/// Unregister device driver
pub const SYSCALL_UNREGISTER_DRIVER: u64 = 0x96;

/// Device power management
pub const SYSCALL_DEVICE_POWER: u64 = 0x97;

/// Create event
pub const SYSCALL_CREATE_EVENT: u64 = 0xA0;

/// Delete event
pub const SYSCALL_DELETE_EVENT: u64 = 0xA1;

/// Signal event
pub const SYSCALL_SIGNAL_EVENT: u64 = 0xA2;

/// Wait for event
pub const SYSCALL_WAIT_EVENT: u64 = 0xA3;

/// Wait for multiple events
pub const SYSCALL_WAIT_EVENTS: u64 = 0xA4;

/// Reset event
pub const SYSCALL_RESET_EVENT: u64 = 0xA5;

/// Pulse event
pub const SYSCALL_PULSE_EVENT: u64 = 0xA6;

/// Get event state
pub const SYSCALL_GET_EVENT_STATE: u64 = 0xA7;

/// Create mutex
pub const SYSCALL_CREATE_MUTEX: u64 = 0xB0;

/// Delete mutex
pub const SYSCALL_DELETE_MUTEX: u64 = 0xB1;

/// Lock mutex
pub const SYSCALL_LOCK_MUTEX: u64 = 0xB2;

/// Unlock mutex
pub const SYSCALL_UNLOCK_MUTEX: u64 = 0xB3;

/// Try lock mutex
pub const SYSCALL_TRYLOCK_MUTEX: u64 = 0xB4;

/// Create semaphore
pub const SYSCALL_CREATE_SEMAPHORE: u64 = 0xB5;

/// Delete semaphore
pub const SYSCALL_DELETE_SEMAPHORE: u64 = 0xB6;

/// Wait on semaphore
pub const SYSCALL_WAIT_SEMAPHORE: u64 = 0xB7;

/// Signal semaphore
pub const SYSCALL_SIGNAL_SEMAPHORE: u64 = 0xB8;

/// Try wait semaphore
pub const SYSCALL_TRYWAIT_SEMAPHORE: u64 = 0xB9;

/// Create condition variable
pub const SYSCALL_CREATE_CONDVAR: u64 = 0xBA;

/// Delete condition variable
pub const SYSCALL_DELETE_CONDVAR: u64 = 0xBB;

/// Wait on condition variable
pub const SYSCALL_WAIT_CONDVAR: u64 = 0xBC;

/// Signal condition variable
pub const SYSCALL_SIGNAL_CONDVAR: u64 = 0xBD;

/// Broadcast condition variable
pub const SYSCALL_BROADCAST_CONDVAR: u64 = 0xBE;

/// Print debug message
pub const SYSCALL_DEBUG_PRINT: u64 = 0xF0;

/// Debug breakpoint
pub const SYSCALL_DEBUG_BREAK: u64 = 0xF1;

/// Get debug information
pub const SYSCALL_DEBUG_INFO: u64 = 0xF2;

/// Set debug level
pub const SYSCALL_DEBUG_SET_LEVEL: u64 = 0xF3;

/// Enable/disable tracing
pub const SYSCALL_DEBUG_TRACE: u64 = 0xF4;

/// Get trace buffer
pub const SYSCALL_DEBUG_GET_TRACE: u64 = 0xF5;

/// Performance profiling
pub const SYSCALL_DEBUG_PROFILE: u64 = 0xF6;

/// Memory dump
pub const SYSCALL_DEBUG_MEMDUMP: u64 = 0xF7;

/// Register dump
pub const SYSCALL_DEBUG_REGDUMP: u64 = 0xF8;

/// Stack trace
pub const SYSCALL_DEBUG_BACKTRACE: u64 = 0xF9;

/// Kernel statistics
pub const SYSCALL_DEBUG_KERNEL_STATS: u64 = 0xFA;

/// Test syscall (development only)
pub const SYSCALL_DEBUG_TEST: u64 = 0xFB;

/// Benchmark syscall
pub const SYSCALL_DEBUG_BENCHMARK: u64 = 0xFC;

/// Reset system (emergency)
pub const SYSCALL_DEBUG_RESET: u64 = 0xFD;

/// Halt system (emergency)
pub const SYSCALL_DEBUG_HALT: u64 = 0xFE;

/// Invalid syscall number
pub const SYSCALL_INVALID: u64 = 0xFF;

/// Maximum valid syscall number
pub const SYSCALL_MAX: u64 = 0xFE;

/// Total number of system call numbers.
pub const SYSCALL_COUNT: usize = 255;

/// Whether `number` names a system call.
pub fn is_valid_syscall(number: u64) -> (r: bool)
    ensures
        r == (number <= SYSCALL_MAX),
{
    number <= SYSCALL_MAX
}

/// Whether the system call needs specific capabilities: physical memory
/// mapping and lookup, setting the time or system configuration, driver
/// registration, and every debug operation.
pub fn is_privileged_syscall(number: u64) -> (r: bool)
    ensures
        r == (number == SYSCALL_MAP_PHYSICAL || number == SYSCALL_GET_PHYSICAL_ADDR
            || number == SYSCALL_SET_TIME || number == SYSCALL_SET_SYSTEM_CONFIG
            || number == SYSCALL_REGISTER_DRIVER || number == SYSCALL_UNREGISTER_DRIVER
            || (0xF0 <= number <= 0xFE)),
{
    number == SYSCALL_MAP_PHYSICAL || number == SYSCALL_GET_PHYSICAL_ADDR
        || number == SYSCALL_SET_TIME || number == SYSCALL_SET_SYSTEM_CONFIG
        || number == SYSCALL_REGISTER_DRIVER || number == SYSCALL_UNREGISTER_DRIVER
        || (0xF0 <= number && number <= 0xFE)
}

/// The subsystem name of a system call number.
pub open spec fn category_of(number: u64) -> Seq<char> {
    if number <= 0x0F {
        "IPC"@
    } else if number <= 0x1F {
        "Process"@
    } else if number <= 0x2F {
        "Memory"@
    } else if number <= 0x3F {
        "Capability"@
    } else if number <= 0x4F {
        "Interrupt"@
    } else if number <= 0x5F {
        "I/O Port"@
    } else if number <= 0x6F {
        "Time"@
    } else if number <= 0x7F {
        "System Info"@
    } else if number <= 0x8F {
        "Security"@
    } else if number <= 0x9F {
        "Device"@
    } else if number <= 0xAF {
        "Event"@
    } else if number <= 0xBF {
        "Synchronization"@
    } else if number <= 0xEF {
        "Reserved"@
    } else if number <= 0xFE {
        "Debug"@
    } else if number == 0xFF {
        "Invalid"@
    } else {
        "Unknown"@
    }
}

/// The subsystem name of a system call number.
pub fn syscall_category(number: u64) -> (r: &'static str)
    ensures
        r@ == category_of(number),
{
    if number <= 0x0F {
        "IPC"
    } else if number <= 0x1F {
        "Process"
    } else if number <= 0x2F {
        "Memory"
    } else if number <= 0x3F {
        "Capability"
    } else if number <= 0x4F {
        "Interrupt"
    } else if number <= 0x5F {
        "I/O Port"
    } else if number <= 0x6F {
        "Time"
    } else if number <= 0x7F {
        "System Info"
    } else if number <= 0x8F {
        "Security"
    } else if number <= 0x9F {
        "Device"
    } else if number <= 0xAF {
        "Event"
    } else if number <= 0xBF {
        "Synchronization"
    } else if number <= 0xEF {
        "Reserved"
    } else if number <= 0xFE {
        "Debug"
    } else if number == 0xFF {
        "Invalid"
    } else {
        "Unknown"
    }
}

} // verus!
