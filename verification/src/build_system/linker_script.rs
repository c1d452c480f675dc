//! Linker scripts for the kernel and userspace images.
use vstd::prelude::*;
use vstd::string::*;
use crate::build_system::{Architecture, BuildError};
use crate::text::{hex_digits, push_hex, lower_hex_digits, push_lower_hex, replaced, replace_text};

verus! {

/// What a linker script links.
#[derive(Debug, Clone, Copy, PartialEq, Eq, Structural)]
pub enum TargetType {
    Kernel,
    Userspace,
}

/// Linker script configuration.
#[derive(Debug, Clone)]
pub struct LinkerConfig {
    pub arch: Architecture,
    pub target_type: TargetType,
    pub base_address: u64,
    pub stack_size: u64,
    pub heap_size: Option<u64>,
    pub output_path: String,
}

impl LinkerConfig {
    /// The kernel layout: higher-half base, 16KB stack, 1MB heap, written
    /// to "kernel.ld".
    pub fn kernel(arch: Architecture) -> (r: Self)
        ensures
            r.arch == arch,
            r.target_type == TargetType::Kernel,
            r.base_address == 0xFFFF_FFFF_8000_0000u64,
            r.stack_size == 16 * 1024,
            r.heap_size == Some(0x10_0000u64),
            r.output_path@ == "kernel.ld"@,
    {
        let base_address: u64 = match arch {
            Architecture::X86_64 => 0xFFFF_FFFF_8000_0000,
            Architecture::RiscV64 => 0xFFFF_FFFF_8000_0000,
        };
        LinkerConfig {
            arch,
            target_type: TargetType::Kernel,
            base_address,
            stack_size: 16 * 1024,
            heap_size: Some(1024 * 1024),
            output_path: String::from_str("kernel.ld"),
        }
    }

    /// The userspace layout: the conventional load address of the
    /// architecture, 64KB stack, no heap, written to "userspace.ld".
    pub fn userspace(arch: Architecture) -> (r: Self)
        ensures
            r.arch == arch,
            r.target_type == TargetType::Userspace,
            r.base_address == (match arch { Architecture::X86_64 => 0x40_0000u64, Architecture::RiscV64 => 0x1_0000u64 }),
            r.stack_size == 64 * 1024,
            r.heap_size is None,
            r.output_path@ == "userspace.ld"@,
    {
        let base_address: u64 = match arch {
            Architecture::X86_64 => 0x40_0000,
            Architecture::RiscV64 => 0x1_0000,
        };
        LinkerConfig {
            arch,
            target_type: TargetType::Userspace,
            base_address,
            stack_size: 64 * 1024,
            heap_size: None,
            output_path: String::from_str("userspace.ld"),
        }
    }

    /// The same configuration written to another path.
    pub fn with_output_path(self, path: String) -> (r: Self)
        ensures
            r == (LinkerConfig { output_path: path, ..self }),
    {
        LinkerConfig { output_path: path, ..self }
    }

    /// The same configuration with another stack size.
    pub fn with_stack_size(self, size: u64) -> (r: Self)
        ensures
            r == (LinkerConfig { stack_size: size, ..self }),
    {
        LinkerConfig { stack_size: size, ..self }
    }

    /// The same configuration with another heap size.
    pub fn with_heap_size(self, size: Option<u64>) -> (r: Self)
        ensures
            r == (LinkerConfig { heap_size: size, ..self }),
    {
        LinkerConfig { heap_size: size, ..self }
    }
}

/// The output format and architecture lines.
pub open spec fn arch_lines(a: Architecture) -> Seq<char> {
    match a {
        Architecture::X86_64 => "OUTPUT_FORMAT(elf64-x86-64)\nOUTPUT_ARCH(i386:x86-64)\n\n"@,
        Architecture::RiscV64 => "OUTPUT_FORMAT(elf64-littleriscv)\nOUTPUT_ARCH(riscv)\n\n"@,
    }
}

fn arch_lines_str(a: Architecture) -> (r: &'static str)
    ensures
        r@ == arch_lines(a),
{
    match a {
        Architecture::X86_64 => "OUTPUT_FORMAT(elf64-x86-64)\nOUTPUT_ARCH(i386:x86-64)\n\n",
        Architecture::RiscV64 => "OUTPUT_FORMAT(elf64-littleriscv)\nOUTPUT_ARCH(riscv)\n\n",
    }
}

/// The output sections of the kernel image up to and including `.bss`.
pub open spec fn kernel_sections() -> Seq<char> {
    "    .text ALIGN(4K) : {\n        _text_start = .;\n        KEEP(*(.text.boot))\n        *(.text .text.*)\n        . = ALIGN(4K);\n        _text_end = .;\n    } > RAM\n\n    .rodata ALIGN(4K) : {\n        _rodata_start = .;\n        *(.rodata .rodata.*)\n        *(.srodata .srodata.*)\n        . = ALIGN(4K);\n        _rodata_end = .;\n    } > RAM\n\n    .data ALIGN(4K) : {\n        _data_start = .;\n        *(.data .data.*)\n        *(.sdata .sdata.*)\n        . = ALIGN(4K);\n        _data_end = .;\n    } > RAM\n\n    .bss ALIGN(4K) : {\n        _bss_start = .;\n        *(.bss .bss.*)\n        *(.sbss .sbss.*)\n        *(COMMON)\n        . = ALIGN(4K);\n        _bss_end = .;\n    } > RAM\n\n"@
}

/// The closing part of the kernel script, after the stack size.
pub open spec fn kernel_tail() -> Seq<char> {
    ";\n        _stack_top = .;\n    } > RAM\n\n    _kernel_end = .;\n\n    /DISCARD/ : {\n        *(.debug*)\n        *(.comment)\n        *(.note*)\n        *(.eh_frame*)\n    }\n}\n"@
}

/// The kernel linker script of `c`.
pub open spec fn kernel_script(c: LinkerConfig) -> Seq<char> {
    let base = hex_digits(c.base_address as nat);
    let stack = hex_digits(c.stack_size as nat);
    let s1 = "ENTRY(_start)\n\n"@ + arch_lines(c.arch) + "MEMORY\n{\n    RAM : ORIGIN = 0x"@ + base
        + ", LENGTH = 256M\n}\n\nPROVIDE(_kernel_base = 0x"@ + base + ");\nPROVIDE(_stack_size = 0x"@ + stack + ");\n"@;
    let s2 = match c.heap_size {
        Some(h) => s1 + "PROVIDE(_heap_size = 0x"@ + hex_digits(h as nat) + ");\n"@,
        None => s1,
    };
    let s3 = s2 + "\nSECTIONS\n{\n    . = 0x"@ + base + ";\n\n"@ + kernel_sections();
    let s4 = match c.heap_size {
        Some(h) => s3 + "    .heap ALIGN(4K) : {\n        _heap_start = .;\n        . += 0x"@ + hex_digits(h as nat)
            + ";\n        _heap_end = .;\n    } > RAM\n\n"@,
        None => s3,
    };
    s4 + "    .stack ALIGN(4K) : {\n        _stack_bottom = .;\n        . += 0x"@ + stack + kernel_tail()
}

/// Generate the kernel linker script.
pub fn generate_kernel_linker_script(config: &LinkerConfig) -> (r: Result<String, BuildError>)
    ensures
        r matches Ok(s) && s@ == kernel_script(*config),
{
    let mut s = String::from_str("ENTRY(_start)\n\n");
    s.append(arch_lines_str(config.arch));
    s.append("MEMORY\n{\n    RAM : ORIGIN = 0x");
    push_hex(&mut s, config.base_address);
    s.append(", LENGTH = 256M\n}\n\nPROVIDE(_kernel_base = 0x");
    push_hex(&mut s, config.base_address);
    s.append(");\nPROVIDE(_stack_size = 0x");
    push_hex(&mut s, config.stack_size);
    s.append(");\n");
    if let Some(h) = config.heap_size {
        s.append("PROVIDE(_heap_size = 0x");
        push_hex(&mut s, h);
        s.append(");\n");
    }
    s.append("\nSECTIONS\n{\n    . = 0x");
    push_hex(&mut s, config.base_address);
    s.append(";\n\n");
    s.append("    .text ALIGN(4K) : {\n        _text_start = .;\n        KEEP(*(.text.boot))\n        *(.text .text.*)\n        . = ALIGN(4K);\n        _text_end = .;\n    } > RAM\n\n    .rodata ALIGN(4K) : {\n        _rodata_start = .;\n        *(.rodata .rodata.*)\n        *(.srodata .srodata.*)\n        . = ALIGN(4K);\n        _rodata_end = .;\n    } > RAM\n\n    .data ALIGN(4K) : {\n        _data_start = .;\n        *(.data .data.*)\n        *(.sdata .sdata.*)\n        . = ALIGN(4K);\n        _data_end = .;\n    } > RAM\n\n    .bss ALIGN(4K) : {\n        _bss_start = .;\n        *(.bss .bss.*)\n        *(.sbss .sbss.*)\n        *(COMMON)\n        . = ALIGN(4K);\n        _bss_end = .;\n    } > RAM\n\n");
    if let Some(h) = config.heap_size {
        s.append("    .heap ALIGN(4K) : {\n        _heap_start = .;\n        . += 0x");
        push_hex(&mut s, h);
        s.append(";\n        _heap_end = .;\n    } > RAM\n\n");
    }
    s.append("    .stack ALIGN(4K) : {\n        _stack_bottom = .;\n        . += 0x");
    push_hex(&mut s, config.stack_size);
    s.append(";\n        _stack_top = .;\n    } > RAM\n\n    _kernel_end = .;\n\n    /DISCARD/ : {\n        *(.debug*)\n        *(.comment)\n        *(.note*)\n        *(.eh_frame*)\n    }\n}\n");
    Ok(s)
}

/// The kernel script reserves the configured heap: with a heap size `h`,
/// the `.heap` section starts by marking `_heap_start` and then advances
/// the location counter by exactly `h` (in hexadecimal) before marking
/// `_heap_end`.
pub proof fn law_kernel_heap_reserved(c: LinkerConfig, s: Seq<char>, h: u64)
    requires
        s == kernel_script(c),
        c.heap_size == Some(h),
    ensures
        exists|i: int| 0 <= i && i + heap_reservation(h).len() <= s.len()
            && #[trigger] s.subrange(i, i + heap_reservation(h).len()) == heap_reservation(h),
{
    let base = hex_digits(c.base_address as nat);
    let stack = hex_digits(c.stack_size as nat);
    let s1 = "ENTRY(_start)\n\n"@ + arch_lines(c.arch) + "MEMORY\n{\n    RAM : ORIGIN = 0x"@ + base
        + ", LENGTH = 256M\n}\n\nPROVIDE(_kernel_base = 0x"@ + base + ");\nPROVIDE(_stack_size = 0x"@ + stack + ");\n"@;
    let s2 = s1 + "PROVIDE(_heap_size = 0x"@ + hex_digits(h as nat) + ");\n"@;
    let s3 = s2 + "\nSECTIONS\n{\n    . = 0x"@ + base + ";\n\n"@ + kernel_sections();
    let heap_open = "    .heap ALIGN(4K) : {\n        _heap_start = .;\n        . += 0x"@;
    let close = ";\n        _heap_end = .;\n    } > RAM\n\n"@;
    let rest = "    .stack ALIGN(4K) : {\n        _stack_bottom = .;\n        . += 0x"@ + stack + kernel_tail();
    let lead = "    .heap ALIGN(4K) : {\n        "@;
    reveal_strlit("    .heap ALIGN(4K) : {\n        _heap_start = .;\n        . += 0x");
    reveal_strlit("    .heap ALIGN(4K) : {\n        ");
    reveal_strlit("_heap_start = .;\n        . += 0x");
    reveal_strlit(";\n        _heap_end = .;\n    } > RAM\n\n");
    reveal_strlit(";\n        _heap_end = .;");
    assert(heap_open =~= lead + "_heap_start = .;\n        . += 0x"@);
    assert(close =~= ";\n        _heap_end = .;"@ + "\n    } > RAM\n\n"@) by {
        reveal_strlit("\n    } > RAM\n\n");
    }
    let pre = s3 + lead;
    let i = pre.len() as int;
    let tail2 = "\n    } > RAM\n\n"@ + rest;
    assert(s =~= pre + heap_reservation(h) + tail2);
    assert(s.subrange(i, i + heap_reservation(h).len()) =~= heap_reservation(h));
}

/// The part of the kernel's `.heap` section that reserves `h` bytes.
pub open spec fn heap_reservation(h: u64) -> Seq<char> {
    "_heap_start = .;\n        . += 0x"@ + hex_digits(h as nat) + ";\n        _heap_end = .;"@
}

/// The kernel script reserves the configured stack: its `.stack` section
/// marks `_stack_bottom`, advances the location counter by exactly the
/// stack size (in hexadecimal) and marks `_stack_top`.
pub proof fn law_kernel_stack_reserved(c: LinkerConfig, s: Seq<char>)
    requires
        s == kernel_script(c),
    ensures
        exists|i: int| 0 <= i && i + stack_reservation(c.stack_size).len() <= s.len()
            && #[trigger] s.subrange(i, i + stack_reservation(c.stack_size).len()) == stack_reservation(c.stack_size),
{
    let base = hex_digits(c.base_address as nat);
    let stack = hex_digits(c.stack_size as nat);
    let s1 = "ENTRY(_start)\n\n"@ + arch_lines(c.arch) + "MEMORY\n{\n    RAM : ORIGIN = 0x"@ + base
        + ", LENGTH = 256M\n}\n\nPROVIDE(_kernel_base = 0x"@ + base + ");\nPROVIDE(_stack_size = 0x"@ + stack + ");\n"@;
    let s2 = match c.heap_size {
        Some(h) => s1 + "PROVIDE(_heap_size = 0x"@ + hex_digits(h as nat) + ");\n"@,
        None => s1,
    };
    let s3 = s2 + "\nSECTIONS\n{\n    . = 0x"@ + base + ";\n\n"@ + kernel_sections();
    let s4 = match c.heap_size {
        Some(h) => s3 + "    .heap ALIGN(4K) : {\n        _heap_start = .;\n        . += 0x"@ + hex_digits(h as nat)
            + ";\n        _heap_end = .;\n    } > RAM\n\n"@,
        None => s3,
    };
    let lead = "    .stack ALIGN(4K) : {\n        "@;
    reveal_strlit("    .stack ALIGN(4K) : {\n        _stack_bottom = .;\n        . += 0x");
    reveal_strlit("    .stack ALIGN(4K) : {\n        ");
    reveal_strlit("_stack_bottom = .;\n        . += 0x");
    reveal_strlit(";\n        _stack_top = .;\n    } > RAM\n\n    _kernel_end = .;\n\n    /DISCARD/ : {\n        *(.debug*)\n        *(.comment)\n        *(.note*)\n        *(.eh_frame*)\n    }\n}\n");
    reveal_strlit(";\n        _stack_top = .;");
    reveal_strlit("\n    } > RAM\n\n    _kernel_end = .;\n\n    /DISCARD/ : {\n        *(.debug*)\n        *(.comment)\n        *(.note*)\n        *(.eh_frame*)\n    }\n}\n");
    let after = "\n    } > RAM\n\n    _kernel_end = .;\n\n    /DISCARD/ : {\n        *(.debug*)\n        *(.comment)\n        *(.note*)\n        *(.eh_frame*)\n    }\n}\n"@;
    assert("    .stack ALIGN(4K) : {\n        _stack_bottom = .;\n        . += 0x"@ =~= lead + "_stack_bottom = .;\n        . += 0x"@);
    assert(kernel_tail() =~= ";\n        _stack_top = .;"@ + after);
    let pre = s4 + lead;
    let i = pre.len() as int;
    assert(s =~= pre + stack_reservation(c.stack_size) + after);
    assert(s.subrange(i, i + stack_reservation(c.stack_size).len()) =~= stack_reservation(c.stack_size));
}

/// The part of the kernel's `.stack` section that reserves `n` bytes.
pub open spec fn stack_reservation(n: u64) -> Seq<char> {
    "_stack_bottom = .;\n        . += 0x"@ + hex_digits(n as nat) + ";\n        _stack_top = .;"@
}

/// The output sections of a userspace image.
pub open spec fn userspace_sections() -> Seq<char> {
    "    .text : {\n        _text_start = .;\n        KEEP(*(.text.start))\n        *(.text .text.*)\n        *(.gnu.linkonce.t.*)\n        . = ALIGN(16);\n        _text_end = .;\n    } > RAM\n\n    .rodata : {\n        _rodata_start = .;\n        *(.rodata .rodata.*)\n        *(.srodata .srodata.*)\n        *(.gnu.linkonce.r.*)\n        . = ALIGN(16);\n        _rodata_end = .;\n    } > RAM\n\n    .data : {\n        _data_start = .;\n        *(.data .data.*)\n        *(.sdata .sdata.*)\n        *(.gnu.linkonce.d.*)\n        . = ALIGN(16);\n        _data_end = .;\n    } > RAM\n\n    .bss : {\n        _bss_start = .;\n        *(.bss .bss.*)\n        *(.sbss .sbss.*)\n        *(.gnu.linkonce.b.*)\n        *(COMMON)\n        . = ALIGN(16);\n        _bss_end = .;\n    } > RAM\n\n    .tdata : {\n        _tdata_start = .;\n        *(.tdata .tdata.*)\n        *(.gnu.linkonce.td.*)\n        _tdata_end = .;\n    } > RAM\n\n    .tbss : {\n        _tbss_start = .;\n        *(.tbss .tbss.*)\n        *(.gnu.linkonce.tb.*)\n        _tbss_end = .;\n    } > RAM\n\n    .dynamic : {\n        *(.dynamic)\n    } > RAM\n\n    .got : {\n        *(.got.plt)\n        *(.got)\n    } > RAM\n\n    _end = .;\n    PROVIDE(end = .);\n\n"@
}

/// The debug sections and the end of a userspace script.
pub open spec fn userspace_tail() -> Seq<char> {
    ");\n\n    /* Debug sections */\n    .debug_info     0 : { *(.debug_info) }\n    .debug_abbrev   0 : { *(.debug_abbrev) }\n    .debug_line     0 : { *(.debug_line) }\n    .debug_frame    0 : { *(.debug_frame) }\n    .debug_str      0 : { *(.debug_str) }\n    .debug_loc      0 : { *(.debug_loc) }\n    .debug_ranges   0 : { *(.debug_ranges) }\n}\n"@
}

/// The top of the user stack.
pub const USER_STACK_TOP: u64 = 0x7FFF_FFFF;

/// The userspace linker script of `c`, its numbers in lower-case
/// hexadecimal (its stack lies just below `USER_STACK_TOP`).
pub open spec fn userspace_script(c: LinkerConfig) -> Seq<char> {
    let base = lower_hex_digits(c.base_address as nat);
    let stack = lower_hex_digits(c.stack_size as nat);
    "ENTRY(_start)\n\n"@ + arch_lines(c.arch) + "MEMORY\n{\n    RAM : ORIGIN = 0x"@ + base
        + ", LENGTH = 64M\n}\n\nPROVIDE(_base_address = 0x"@ + base + ");\nPROVIDE(_stack_size = 0x"@ + stack
        + ");\n\nSECTIONS\n{\n    . = 0x"@ + base + ";\n\n"@ + userspace_sections()
        + "    PROVIDE(_stack_bottom = 0x"@ + lower_hex_digits((USER_STACK_TOP - c.stack_size) as nat)
        + ");\n    PROVIDE(_stack_top = 0x"@ + lower_hex_digits(USER_STACK_TOP as nat) + userspace_tail()
}

/// Generate the userspace linker script; the stack must fit below
/// `USER_STACK_TOP`.
pub fn generate_userspace_linker_script(config: &LinkerConfig) -> (r: Result<String, BuildError>)
    requires
        config.stack_size <= USER_STACK_TOP,
    ensures
        r matches Ok(s) && s@ == userspace_script(*config),
{
    let mut s = String::from_str("ENTRY(_start)\n\n");
    s.append(arch_lines_str(config.arch));
    s.append("MEMORY\n{\n    RAM : ORIGIN = 0x");
    push_lower_hex(&mut s, config.base_address);
    s.append(", LENGTH = 64M\n}\n\nPROVIDE(_base_address = 0x");
    push_lower_hex(&mut s, config.base_address);
    s.append(");\nPROVIDE(_stack_size = 0x");
    push_lower_hex(&mut s, config.stack_size);
    s.append(");\n\nSECTIONS\n{\n    . = 0x");
    push_lower_hex(&mut s, config.base_address);
    s.append(";\n\n");
    s.append("    .text : {\n        _text_start = .;\n        KEEP(*(.text.start))\n        *(.text .text.*)\n        *(.gnu.linkonce.t.*)\n        . = ALIGN(16);\n        _text_end = .;\n    } > RAM\n\n    .rodata : {\n        _rodata_start = .;\n        *(.rodata .rodata.*)\n        *(.srodata .srodata.*)\n        *(.gnu.linkonce.r.*)\n        . = ALIGN(16);\n        _rodata_end = .;\n    } > RAM\n\n    .data : {\n        _data_start = .;\n        *(.data .data.*)\n        *(.sdata .sdata.*)\n        *(.gnu.linkonce.d.*)\n        . = ALIGN(16);\n        _data_end = .;\n    } > RAM\n\n    .bss : {\n        _bss_start = .;\n        *(.bss .bss.*)\n        *(.sbss .sbss.*)\n        *(.gnu.linkonce.b.*)\n        *(COMMON)\n        . = ALIGN(16);\n        _bss_end = .;\n    } > RAM\n\n    .tdata : {\n        _tdata_start = .;\n        *(.tdata .tdata.*)\n        *(.gnu.linkonce.td.*)\n        _tdata_end = .;\n    } > RAM\n\n    .tbss : {\n        _tbss_start = .;\n        *(.tbss .tbss.*)\n        *(.gnu.linkonce.tb.*)\n        _tbss_end = .;\n    } > RAM\n\n    .dynamic : {\n        *(.dynamic)\n    } > RAM\n\n    .got : {\n        *(.got.plt)\n        *(.got)\n    } > RAM\n\n    _end = .;\n    PROVIDE(end = .);\n\n");
    s.append("    PROVIDE(_stack_bottom = 0x");
    push_lower_hex(&mut s, USER_STACK_TOP - config.stack_size);
    s.append(");\n    PROVIDE(_stack_top = 0x");
    push_lower_hex(&mut s, USER_STACK_TOP);
    s.append(");\n\n    /* Debug sections */\n    .debug_info     0 : { *(.debug_info) }\n    .debug_abbrev   0 : { *(.debug_abbrev) }\n    .debug_line     0 : { *(.debug_line) }\n    .debug_frame    0 : { *(.debug_frame) }\n    .debug_str      0 : { *(.debug_str) }\n    .debug_loc      0 : { *(.debug_loc) }\n    .debug_ranges   0 : { *(.debug_ranges) }\n}\n");
    Ok(s)
}

/// The linker script for `c`'s target type.
pub open spec fn linker_script_of(c: LinkerConfig) -> Seq<char> {
    match c.target_type {
        TargetType::Kernel => kernel_script(c),
        TargetType::Userspace => userspace_script(c),
    }
}

/// Generate the linker script for the configured target type.
pub fn generate_linker_script(config: &LinkerConfig) -> (r: Result<String, BuildError>)
    requires
        config.target_type == TargetType::Userspace ==> config.stack_size <= USER_STACK_TOP,
    ensures
        r matches Ok(s) && s@ == linker_script_of(*config),
{
    match config.target_type {
        TargetType::Kernel => generate_kernel_linker_script(config),
        TargetType::Userspace => generate_userspace_linker_script(config),
    }
}

/// "0x" and `v` in lower-case hexadecimal.
pub open spec fn lower_hex_literal(v: u64) -> Seq<char> {
    "0x"@ + lower_hex_digits(v as nat)
}

/// What a template becomes for `c`: its placeholders for the base address,
/// stack size and heap size replaced by their values in lower-case
/// hexadecimal (a missing heap by "0"), and those for the output format and
/// architecture by the target's names, in that order.
pub open spec fn template_filled(t: Seq<char>, c: LinkerConfig) -> Seq<char> {
    let heap = match c.heap_size {
        Some(h) => lower_hex_literal(h),
        None => "0"@,
    };
    let format = match c.arch {
        Architecture::X86_64 => "elf64-x86-64"@,
        Architecture::RiscV64 => "elf64-littleriscv"@,
    };
    let arch = match c.arch {
        Architecture::X86_64 => "i386:x86-64"@,
        Architecture::RiscV64 => "riscv"@,
    };
    let a = replaced(t, "{{BASE_ADDRESS}}"@, lower_hex_literal(c.base_address));
    let b = replaced(a, "{{STACK_SIZE}}"@, lower_hex_literal(c.stack_size));
    let d = replaced(b, "{{HEAP_SIZE}}"@, heap);
    let e = replaced(d, "{{OUTPUT_FORMAT}}"@, format);
    replaced(e, "{{OUTPUT_ARCH}}"@, arch)
}

/// "0x" and `v` in lower-case hexadecimal.
fn lower_hex_string(v: u64) -> (r: String)
    ensures
        r@ == lower_hex_literal(v),
{
    let mut s = String::from_str("0x");
    push_lower_hex(&mut s, v);
    s
}

/// Fill the placeholders of the linker script template `template` for
/// `config`.
pub fn generate_from_template(template: &str, config: &LinkerConfig) -> (r: String)
    ensures
        r@ == template_filled(template@, *config),
{
    proof {
        reveal_strlit("{{BASE_ADDRESS}}");
        reveal_strlit("{{STACK_SIZE}}");
        reveal_strlit("{{HEAP_SIZE}}");
        reveal_strlit("{{OUTPUT_FORMAT}}");
        reveal_strlit("{{OUTPUT_ARCH}}");
    }
    let base = lower_hex_string(config.base_address);
    let stack = lower_hex_string(config.stack_size);
    let result = replace_text(template, "{{BASE_ADDRESS}}", base.as_str());
    let result = replace_text(result.as_str(), "{{STACK_SIZE}}", stack.as_str());
    let result = match config.heap_size {
        Some(h) => {
            let heap = lower_hex_string(h);
            replace_text(result.as_str(), "{{HEAP_SIZE}}", heap.as_str())
        },
        None => replace_text(result.as_str(), "{{HEAP_SIZE}}", "0"),
    };
    match config.arch {
        Architecture::X86_64 => {
            let result = replace_text(result.as_str(), "{{OUTPUT_FORMAT}}", "elf64-x86-64");
            replace_text(result.as_str(), "{{OUTPUT_ARCH}}", "i386:x86-64")
        },
        Architecture::RiscV64 => {
            let result = replace_text(result.as_str(), "{{OUTPUT_FORMAT}}", "elf64-littleriscv");
            replace_text(result.as_str(), "{{OUTPUT_ARCH}}", "riscv")
        },
    }
}

} // verus!
