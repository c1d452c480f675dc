use tanos::build_system::linker_script::{generate_from_template, LinkerConfig};
use tanos::build_system::manifest::{manifest_version, table_entry, version_from_manifest, version_or_unknown, TomlItem};
use tanos::build_system::qemu_runner::{create_qemu_runner, QemuConfig, QemuTestRunner, RunnerArgs, RunnerPlan};
use tanos::build_system::{
    check_kernel_size, check_rustc_version, init_config, initrd_destination, initrd_directories, required_tools,
    Architecture, BuildError,
};
use tanos::text::{parse_unsigned, push_decimal, replace_text, trim_text};

#[test]
fn template_placeholders_are_filled() {
    let template = "OUTPUT_FORMAT({{OUTPUT_FORMAT}})\nOUTPUT_ARCH({{OUTPUT_ARCH}})\n. = {{BASE_ADDRESS}};\nstack = {{STACK_SIZE}}; heap = {{HEAP_SIZE}}; again {{BASE_ADDRESS}}";
    let kernel = LinkerConfig::kernel(Architecture::X86_64);
    let out = generate_from_template(template, &kernel);
    assert_eq!(
        out,
        "OUTPUT_FORMAT(elf64-x86-64)\nOUTPUT_ARCH(i386:x86-64)\n. = 0xffffffff80000000;\nstack = 0x4000; heap = 0x100000; again 0xffffffff80000000"
    );
    let mut user = LinkerConfig::userspace(Architecture::RiscV64);
    user.heap_size = None;
    let out = generate_from_template(template, &user);
    assert_eq!(
        out,
        "OUTPUT_FORMAT(elf64-littleriscv)\nOUTPUT_ARCH(riscv)\n. = 0x10000;\nstack = 0x10000; heap = 0; again 0x10000"
    );
    assert_eq!(generate_from_template("no placeholders", &kernel), "no placeholders");
}

#[test]
fn replace_takes_leftmost_non_overlapping_matches() {
    assert_eq!(replace_text("aaaa", "aa", "b"), "bb");
    assert_eq!(replace_text("aaa", "aa", "b"), "ba");
    assert_eq!(replace_text("xyz", "q", "r"), "xyz");
    assert_eq!(replace_text("", "q", "r"), "");
    assert_eq!(replace_text("a-b-c", "-", "--"), "a--b--c");
    assert_eq!(replace_text("ünï-cödé", "-", "+"), "ünï+cödé");
}

#[test]
fn workspace_version_is_read() {
    let m = "[workspace]\nmembers = []\n[workspace.package]\nversion = \"3.0.0\"\n";
    assert_eq!(version_from_manifest(m).unwrap(), "3.0.0");
    assert_eq!(version_from_manifest("[package]\nname = \"x\"\n").unwrap(), "unknown");
    assert_eq!(version_from_manifest("[workspace.package]\nversion = 3\n").unwrap(), "unknown");
    match version_from_manifest("[workspace\nversion = ") {
        Err(BuildError::ManifestParse(msg)) => assert!(!msg.is_empty()),
        other => panic!("unexpected {:?}", other),
    }
    assert_eq!(version_or_unknown(None), "unknown");
    assert_eq!(version_or_unknown(Some("1.2".to_string())), "1.2");
}

fn args(arch: &str, memory: &str, test: bool) -> RunnerArgs {
    RunnerArgs {
        kernel: "k.elf".to_string(),
        initrd: None,
        arch: arch.to_string(),
        memory: memory.to_string(),
        kvm: true,
        graphics: false,
        gdb: None,
        monitor: None,
        test,
        timeout: "30".to_string(),
    }
}

#[test]
fn runner_plans() {
    match create_qemu_runner(args("x86_64", "512", false)).unwrap() {
        RunnerPlan::Run(c) => {
            assert_eq!(c.memory_mb, 512);
            assert_eq!(c.arch, Architecture::X86_64);
            assert_eq!(c.kernel_path, "k.elf");
            assert!(c.enable_kvm);
        },
        _ => panic!("expected a run"),
    }
    match create_qemu_runner(args("RISCV64", "128", true)).unwrap() {
        RunnerPlan::Test(r, secs) => {
            assert_eq!(secs, 30);
            assert_eq!(r.config().arch, Architecture::RiscV64);
            assert_eq!(r.expected_output(), &vec!["TanOS initialized".to_string(), "Shell ready".to_string()]);
            assert_eq!(r.timeout_secs(), 30);
        },
        _ => panic!("expected a test"),
    }
    assert_eq!(
        create_qemu_runner(args("mips", "512", false)).err(),
        Some(BuildError::UnsupportedArchitecture("mips".to_string()))
    );
    assert_eq!(create_qemu_runner(args("x86_64", "lots", false)).err(), Some(BuildError::InvalidNumber("lots".to_string())));
    let mut a = args("x86_64", "512", false);
    a.gdb = Some("70000".to_string());
    assert_eq!(create_qemu_runner(a).err(), Some(BuildError::InvalidNumber("70000".to_string())));
    let mut a = args("x86_64", "512", false);
    a.gdb = Some("1234".to_string());
    a.monitor = Some("4444".to_string());
    match create_qemu_runner(a).unwrap() {
        RunnerPlan::Run(c) => {
            assert_eq!(c.gdb_port, Some(1234));
            assert_eq!(c.monitor_port, Some(4444));
        },
        _ => panic!("expected a run"),
    }
}

#[test]
fn build_checks() {
    assert!(check_kernel_size(65536).is_ok());
    assert_eq!(check_kernel_size(65537), Err(BuildError::KernelTooLarge(65537)));
    assert_eq!(
        BuildError::KernelTooLarge(70000).message(),
        "Kernel too large: 70000 bytes (max: 64KB)"
    );
    assert!(check_rustc_version("rustc 1.77.0-nightly (abc 2024-01-15)").is_ok());
    assert_eq!(
        check_rustc_version("  rustc 1.75.0 (stable)\n"),
        Err(BuildError::NightlyRequired("rustc 1.75.0 (stable)".to_string()))
    );
    assert_eq!(BuildError::ToolNotFound("ld".to_string()).message(), "Required tool not found: ld");
}

#[test]
fn initrd_layout() {
    assert_eq!(initrd_destination("init"), "sbin");
    assert_eq!(initrd_destination("keyboard_driver"), "sbin");
    assert_eq!(initrd_destination("vfs_server"), "sbin");
    assert_eq!(initrd_destination("shell"), "bin");
    assert_eq!(initrd_destination("initx"), "bin");
    assert_eq!(initrd_directories(), vec!["bin", "sbin", "etc", "dev"]);
    assert!(init_config().starts_with("# TanOS Init Configuration\n"));
    assert_eq!(required_tools(), vec!["rustc", "cargo", "ld", "objcopy", "qemu-system-x86_64"]);
}

#[test]
fn numbers_and_trimming() {
    let mut s = String::new();
    push_decimal(&mut s, 0);
    push_decimal(&mut s, 1234567890);
    assert_eq!(s, "01234567890");
    assert_eq!(parse_unsigned("42", 100), Some(42));
    assert_eq!(parse_unsigned("101", 100), None);
    assert_eq!(parse_unsigned("", 100), None);
    assert_eq!(parse_unsigned("4x", 100), None);
    assert_eq!(parse_unsigned("+7", 100), Some(7));
    assert_eq!(parse_unsigned("+", 100), None);
    assert_eq!(parse_unsigned("18446744073709551615", u64::MAX), Some(u64::MAX));
    assert_eq!(parse_unsigned("18446744073709551616", u64::MAX), None);
    assert_eq!(trim_text("  a b \t\n"), "a b");
    assert_eq!(trim_text(" \n "), "");
}

#[test]
fn runner_rejects_bad_ports_and_timeout() {
    let mut a = args("x86_64", "512", false);
    a.monitor = Some("99999".to_string());
    assert_eq!(create_qemu_runner(a).err(), Some(BuildError::InvalidNumber("99999".to_string())));
    let mut a = args("x86_64", "512", true);
    a.timeout = "soon".to_string();
    assert_eq!(create_qemu_runner(a).err(), Some(BuildError::InvalidNumber("soon".to_string())));
    // Without the test flag the timeout is not read.
    let mut a = args("x86_64", "512", false);
    a.timeout = "soon".to_string();
    assert!(create_qemu_runner(a).is_ok());
}

#[test]
fn runner_keeps_the_requested_timeout() {
    let mut a = args("x86_64", "512", true);
    a.timeout = "45".to_string();
    match create_qemu_runner(a).unwrap() {
        RunnerPlan::Test(r, secs) => {
            assert_eq!(secs, 45);
            assert_eq!(r.timeout_secs(), 45);
        },
        _ => panic!("expected a test"),
    }
    let fresh = QemuTestRunner::new(QemuConfig::new(Architecture::X86_64, "k".to_string()));
    assert_eq!(fresh.timeout_secs(), 30);
}

fn table(entries: Vec<(&str, TomlItem)>) -> TomlItem {
    TomlItem::Table(entries.into_iter().map(|(k, v)| (k.to_string(), v)).collect())
}

#[test]
fn manifest_version_reads_the_workspace_package() {
    let doc = table(vec![
        ("package", table(vec![("version", TomlItem::Str("9.9.9".to_string()))])),
        ("workspace", table(vec![
            ("members", TomlItem::Other),
            ("package", table(vec![("version", TomlItem::Str("3.1.4".to_string()))])),
        ])),
    ]);
    assert_eq!(manifest_version(&doc), "3.1.4");
    let not_string = table(vec![("workspace", table(vec![("package", table(vec![("version", TomlItem::Other)]))]))]);
    assert_eq!(manifest_version(&not_string), "unknown");
    assert_eq!(manifest_version(&TomlItem::Other), "unknown");
    assert!(table_entry(&doc, "missing").is_none());
    assert!(table_entry(&TomlItem::Str("x".to_string()), "x").is_none());
    match table_entry(&doc, "workspace") {
        Some(TomlItem::Table(es)) => assert_eq!(es.len(), 2),
        _ => panic!("expected the workspace table"),
    }
}
