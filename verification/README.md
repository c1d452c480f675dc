# tanos

The verified core of TanOS, an x86-64 microkernel, written in Verus: the
data structures and rules of the kernel and of its build tools, each
function stated with a `requires`/`ensures` contract and proved.

## Layout

- `src/types`: identifiers, addresses, rights, capabilities, IPC messages
  and queues, error codes, and their text forms.
- `src/abi`: system-call numbers, argument packing and error codes.
- `src/kernel`: boot-information parsing (multiboot2 tags), the frame
  allocator and four-level page tables, ELF loading, processes and the
  scheduler, call/receive/reply IPC, capabilities, interrupts and system
  call dispatch, drivers, logging.
- `src/build_system`: build configuration, linker scripts, the emulator
  command line and test-log checking.
- `src/text.rs`: number formatting and text helpers.
- `app`: the side effects the library decides on (running cargo, writing
  files, driving QEMU).
- `tests`: tests of the library on concrete values.

Hardware access (port I/O, control registers, `iretq`, raw physical memory)
is not part of the library: it computes what to do, and the kernel's
hardware layer does it.
