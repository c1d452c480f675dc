use tanos::build_system::linker_script::{
    generate_kernel_linker_script, generate_linker_script, generate_userspace_linker_script,
    LinkerConfig, TargetType,
};
use tanos::build_system::qemu_runner::{
    missing_outputs, qemu_run_args, qemu_test_args, record_line, text_contains, QemuConfig, QemuTestRunner,
    SerialOutput, TestResult,
};
use tanos::text::push_hex;
use tanos::build_system::{join_path, Architecture, BuildConfig, BuildError, BuildProfile};

#[test]
fn test_architecture_target_triple() {
    assert_eq!(Architecture::X86_64.target_triple(), "x86_64-unknown-none");
    assert_eq!(Architecture::RiscV64.target_triple(), "riscv64imac-unknown-none-elf");
}

#[test]
fn test_architecture_from_str() {
    assert_eq!(Architecture::from_str("x86_64").unwrap(), Architecture::X86_64);
    assert_eq!(Architecture::from_str("riscv64").unwrap(), Architecture::RiscV64);
    assert!(Architecture::from_str("invalid").is_err());
}

#[test]
fn test_build_profile_str() {
    assert_eq!(BuildProfile::Debug.as_str(), "debug");
    assert_eq!(BuildProfile::Kernel.as_str(), "kernel");
}

#[test]
fn test_kernel_linker_config() {
    let config = LinkerConfig::kernel(Architecture::X86_64);
    assert_eq!(config.target_type, TargetType::Kernel);
    assert_eq!(config.base_address, 0xFFFFFFFF80000000);
    assert_eq!(config.stack_size, 16 * 1024);
    assert_eq!(config.heap_size, Some(1024 * 1024));
}

#[test]
fn test_userspace_linker_config() {
    let config = LinkerConfig::userspace(Architecture::X86_64);
    assert_eq!(config.target_type, TargetType::Userspace);
    assert_eq!(config.base_address, 0x400000);
    assert_eq!(config.stack_size, 64 * 1024);
    assert_eq!(config.heap_size, None);
}

#[test]
fn test_generate_kernel_linker_script() {
    let config = LinkerConfig::kernel(Architecture::X86_64);
    let script = generate_kernel_linker_script(&config).unwrap();

    assert!(script.contains("ENTRY(_start)"));
    assert!(script.contains("OUTPUT_FORMAT(elf64-x86-64)"));
    assert!(script.contains("0xFFFFFFFF80000000"));
    assert!(script.contains(".text"));
    assert!(script.contains(".data"));
    assert!(script.contains(".bss"));
}

#[test]
fn test_generate_userspace_linker_script() {
    let config = LinkerConfig::userspace(Architecture::X86_64);
    let script = generate_userspace_linker_script(&config).unwrap();

    assert!(script.contains("ENTRY(_start)"));
    assert!(script.contains("OUTPUT_FORMAT(elf64-x86-64)"));
    assert!(script.contains("0x400000"));
    assert!(script.contains(".text"));
    assert!(script.contains(".data"));
    assert!(script.contains(".bss"));
}

#[test]
fn test_qemu_config_creation() {
    let config = QemuConfig::new(Architecture::X86_64, "/path/to/kernel".to_string());
    assert_eq!(config.arch, Architecture::X86_64);
    assert_eq!(config.memory_mb, 256);
    assert_eq!(config.qemu_binary(), "qemu-system-x86_64");
}

#[test]
fn test_qemu_binary_selection() {
    assert_eq!(QemuConfig::new(Architecture::X86_64, String::new()).qemu_binary(), "qemu-system-x86_64");
    assert_eq!(QemuConfig::new(Architecture::RiscV64, String::new()).qemu_binary(), "qemu-system-riscv64");
}

#[test]
fn architecture_names_ignore_case_and_aliases() {
    assert_eq!(Architecture::from_str("AMD64").unwrap(), Architecture::X86_64);
    assert_eq!(Architecture::from_str("X86-64").unwrap(), Architecture::X86_64);
    assert_eq!(Architecture::from_str("Risc-V").unwrap(), Architecture::RiscV64);
    assert_eq!(Architecture::from_str("RISCV").unwrap(), Architecture::RiscV64);
    assert!(Architecture::from_str("x86").is_err());
    assert!(Architecture::from_str("").is_err());
}

#[test]
fn unsupported_architecture_keeps_the_name() {
    let e = Architecture::from_str("sparc").unwrap_err();
    assert_eq!(e, BuildError::UnsupportedArchitecture("sparc".to_string()));
    assert_eq!(e.message(), "Unsupported architecture: sparc");
}

#[test]
fn build_config_paths() {
    let c = BuildConfig::new(Architecture::X86_64, "/ws".to_string());
    assert_eq!(c.target_dir, "/ws/target/x86_64-unknown-none");
    assert_eq!(c.profile, BuildProfile::Release);
    assert_eq!(c.kernel_binary_path(), "/ws/target/x86_64-unknown-none/release/kernel");
    let c = c.with_profile(BuildProfile::Debug).with_verbose(true);
    assert!(c.verbose);
    assert_eq!(c.userspace_binary_path("shell"), "/ws/target/x86_64-unknown-none/debug/shell");
    assert_eq!(BuildProfile::Release.as_str(), "release");
    assert_eq!(BuildProfile::Userspace.as_str(), "userspace");
}

#[test]
fn path_joining() {
    assert_eq!(join_path("a/", "b"), "a/b");
    assert_eq!(join_path("", "b"), "b");
    assert_eq!(join_path("a", "/abs"), "/abs");
    assert_eq!(join_path("a", "b"), "a/b");
}

#[test]
fn hex_formatting() {
    let mut s = String::from("0x");
    push_hex(&mut s, 0);
    assert_eq!(s, "0x0");
    let mut s = String::new();
    push_hex(&mut s, 0xDEAD_BEEF);
    assert_eq!(s, "DEADBEEF");
}

#[test]
fn kernel_script_exact_parts() {
    let config = LinkerConfig::kernel(Architecture::RiscV64).with_heap_size(None).with_stack_size(0x2000);
    let script = generate_linker_script(&config).unwrap();
    assert!(script.starts_with("ENTRY(_start)\n\nOUTPUT_FORMAT(elf64-littleriscv)\nOUTPUT_ARCH(riscv)\n\n"));
    assert!(script.contains("PROVIDE(_stack_size = 0x2000);\n"));
    assert!(!script.contains("_heap"));
    assert!(script.ends_with("        *(.eh_frame*)\n    }\n}\n"));
}

#[test]
fn userspace_script_stack_below_top() {
    let config = LinkerConfig::userspace(Architecture::RiscV64).with_output_path("u.ld".to_string());
    assert_eq!(config.output_path, "u.ld");
    let script = generate_linker_script(&config).unwrap();
    assert!(script.contains("RAM : ORIGIN = 0x10000, LENGTH = 64M"));
    assert!(script.contains("PROVIDE(_stack_bottom = 0x7ffeffff);"));
    assert!(script.contains("PROVIDE(_stack_top = 0x7fffffff);"));
}

#[test]
fn qemu_command_line() {
    let config = QemuConfig::new(Architecture::X86_64, "k.elf".to_string())
        .with_initrd("i.img".to_string())
        .with_memory(512)
        .with_gdb(1234)
        .with_monitor(4444)
        .with_kvm(true);
    let args = qemu_run_args(&config, false);
    let expected: Vec<&str> = vec![
        "-machine", "q35", "-cpu", "qemu64,+x2apic,+fsgsbase", "-kernel", "k.elf", "-initrd", "i.img",
        "-append", "console=ttyS0 quiet", "-m", "512", "-nographic", "-serial", "stdio",
        "-monitor", "tcp::4444,server,nowait", "-gdb", "tcp::1234", "-S",
    ];
    assert_eq!(args, expected);
    let args = qemu_run_args(&config.clone().with_graphics(true), true);
    assert!(args.contains(&"-vga".to_string()));
    assert_eq!(&args[args.len() - 3..], &["-enable-kvm".to_string(), "-cpu".to_string(), "host".to_string()]);
    let mut c2 = QemuConfig::new(Architecture::RiscV64, "k".to_string());
    c2.serial_output = SerialOutput::File("out.txt".to_string());
    c2.extra_args.push("-smp".to_string());
    let args = qemu_run_args(&c2, false);
    assert_eq!(args, vec!["-machine", "virt", "-cpu", "rv64", "-kernel", "k", "-m", "256", "-nographic",
        "-serial", "file:out.txt", "-smp"]);
    assert_eq!(qemu_test_args(&c2), vec!["-machine", "virt", "-cpu", "rv64", "-kernel", "k", "-m", "256",
        "-nographic", "-serial", "stdio"]);
}

#[test]
fn console_output_matching() {
    assert!(text_contains("TanOS initialized ok", "initialized"));
    assert!(!text_contains("Tan", "TanOS"));
    assert!(text_contains("x", ""));
    let runner = QemuTestRunner::new(QemuConfig::new(Architecture::X86_64, "k".to_string()))
        .with_timeout(5)
        .expect_output("TanOS initialized".to_string())
        .expect_output("Shell ready".to_string());
    assert_eq!(runner.timeout_secs(), 5);
    let expected = runner.expected_output().clone();
    let mut found = vec![false; expected.len()];
    assert!(!record_line(&expected, &mut found, "boot: TanOS initialized"));
    assert_eq!(missing_outputs(&expected, &found), vec!["Shell ready".to_string()]);
    assert!(record_line(&expected, &mut found, "Shell ready >"));
    assert!(missing_outputs(&expected, &found).is_empty());
    let r = TestResult::Error { message: "x".to_string() };
    assert!(!r.is_success());
    let r = TestResult::Success { output: vec![], duration: std::time::Duration::from_secs(1) };
    assert!(r.is_success());
}
