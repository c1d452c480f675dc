//! QEMU configuration, the emulator's command line, and the matching of
//! its console output against what a test expects.
use vstd::prelude::*;
use vstd::string::*;
use crate::build_system::{Architecture, BuildError, names_x86_64, names_riscv64};
use crate::text::{parses_unsigned, digits_value, unsigned_body, parse_unsigned};
use crate::text::{decimal_digits, push_decimal};
use core::time::Duration;

verus! {

/// Where the guest's serial port goes.
#[derive(Debug, Clone, PartialEq, Eq)]
pub enum SerialOutput {
    /// The emulator's standard streams.
    Stdio,
    /// A file at the given path.
    File(String),
    /// Nowhere.
    Disabled,
}

/// QEMU configuration.
#[derive(Debug, Clone)]
pub struct QemuConfig {
    pub arch: Architecture,
    pub memory_mb: u32,
    pub kernel_path: String,
    pub initrd_path: Option<String>,
    pub enable_kvm: bool,
    pub enable_graphics: bool,
    pub enable_networking: bool,
    pub monitor_port: Option<u16>,
    pub gdb_port: Option<u16>,
    pub serial_output: SerialOutput,
    pub extra_args: Vec<String>,
}

/// The emulator binary of an architecture.
pub open spec fn qemu_binary_of(a: Architecture) -> Seq<char> {
    match a {
        Architecture::X86_64 => "qemu-system-x86_64"@,
        Architecture::RiscV64 => "qemu-system-riscv64"@,
    }
}

impl QemuConfig {
    /// 256MB, serial on the standard streams, nothing else enabled.
    pub fn new(arch: Architecture, kernel_path: String) -> (r: Self)
        ensures
            r.arch == arch,
            r.memory_mb == 256,
            r.kernel_path == kernel_path,
            r.initrd_path is None,
            !r.enable_kvm,
            !r.enable_graphics,
            !r.enable_networking,
            r.monitor_port is None,
            r.gdb_port is None,
            r.serial_output == SerialOutput::Stdio,
            r.extra_args@.len() == 0,
    {
        QemuConfig {
            arch,
            memory_mb: 256,
            kernel_path,
            initrd_path: None,
            enable_kvm: false,
            enable_graphics: false,
            enable_networking: false,
            monitor_port: None,
            gdb_port: None,
            serial_output: SerialOutput::Stdio,
            extra_args: Vec::new(),
        }
    }

    /// The same configuration with an initial ramdisk.
    pub fn with_initrd(self, initrd_path: String) -> (r: Self)
        ensures
            r == (QemuConfig { initrd_path: Some(initrd_path), ..self }),
    {
        QemuConfig { initrd_path: Some(initrd_path), ..self }
    }

    /// The same configuration with another memory size.
    pub fn with_memory(self, memory_mb: u32) -> (r: Self)
        ensures
            r == (QemuConfig { memory_mb, ..self }),
    {
        QemuConfig { memory_mb, ..self }
    }

    /// The same configuration with KVM asked for or not.
    pub fn with_kvm(self, enable: bool) -> (r: Self)
        ensures
            r == (QemuConfig { enable_kvm: enable, ..self }),
    {
        QemuConfig { enable_kvm: enable, ..self }
    }

    /// The same configuration with graphics on or off.
    pub fn with_graphics(self, enable: bool) -> (r: Self)
        ensures
            r == (QemuConfig { enable_graphics: enable, ..self }),
    {
        QemuConfig { enable_graphics: enable, ..self }
    }

    /// The same configuration with a GDB server on `port`.
    pub fn with_gdb(self, port: u16) -> (r: Self)
        ensures
            r == (QemuConfig { gdb_port: Some(port), ..self }),
    {
        QemuConfig { gdb_port: Some(port), ..self }
    }

    /// The same configuration with a monitor on `port`.
    pub fn with_monitor(self, port: u16) -> (r: Self)
        ensures
            r == (QemuConfig { monitor_port: Some(port), ..self }),
    {
        QemuConfig { monitor_port: Some(port), ..self }
    }

    /// The emulator binary for the configured architecture.
    pub fn qemu_binary(&self) -> (r: &'static str)
        ensures
            r@ == qemu_binary_of(self.arch),
    {
        match self.arch {
            Architecture::X86_64 => "qemu-system-x86_64",
            Architecture::RiscV64 => "qemu-system-riscv64",
        }
    }
}

/// The contents of a list of strings.
pub open spec fn texts(v: Seq<String>) -> Seq<Seq<char>> {
    v.map_values(|s: String| s@)
}

/// Append the literal `a` as one more argument.
fn push_arg(v: &mut Vec<String>, a: &str)
    ensures
        texts(final(v)@) == texts(old(v)@).push(a@),
{
    v.push(String::from_str(a));
    assert(texts(final(v)@) =~= texts(old(v)@).push(a@));
}

/// Append `a` as one more argument.
fn push_owned(v: &mut Vec<String>, a: String)
    ensures
        texts(final(v)@) == texts(old(v)@).push(a@),
{
    let ghost g = a@;
    v.push(a);
    assert(texts(final(v)@) =~= texts(old(v)@).push(g));
}

/// The machine, CPU, kernel, ramdisk and boot-option arguments.
pub open spec fn machine_args(c: QemuConfig) -> Seq<Seq<char>> {
    let ramdisk = match c.initrd_path { Some(p) => seq!["-initrd"@, p@], None => Seq::empty() };
    match c.arch {
        Architecture::X86_64 => seq!["-machine"@, "q35"@, "-cpu"@, "qemu64,+x2apic,+fsgsbase"@, "-kernel"@, c.kernel_path@]
            + ramdisk + seq!["-append"@, "console=ttyS0 quiet"@],
        Architecture::RiscV64 => seq!["-machine"@, "virt"@, "-cpu"@, "rv64"@, "-kernel"@, c.kernel_path@] + ramdisk,
    }
}

/// The serial-port arguments.
pub open spec fn serial_args(s: SerialOutput) -> Seq<Seq<char>> {
    match s {
        SerialOutput::Stdio => seq!["-serial"@, "stdio"@],
        SerialOutput::File(p) => seq!["-serial"@, "file:"@ + p@],
        SerialOutput::Disabled => seq!["-serial"@, "null"@],
    }
}

/// The memory-size arguments.
pub open spec fn memory_args(c: QemuConfig) -> Seq<Seq<char>> {
    seq!["-m"@, decimal_digits(c.memory_mb as nat)]
}

/// The display arguments.
pub open spec fn display_args(c: QemuConfig) -> Seq<Seq<char>> {
    if c.enable_graphics { seq!["-vga"@, "std"@] } else { seq!["-nographic"@] }
}

/// The networking arguments.
pub open spec fn network_args(c: QemuConfig) -> Seq<Seq<char>> {
    if c.enable_networking { seq!["-netdev"@, "user,id=net0"@, "-device"@, "e1000,netdev=net0"@] } else { Seq::empty() }
}

/// The monitor and debugger arguments.
pub open spec fn debug_args(c: QemuConfig) -> Seq<Seq<char>> {
    (match c.monitor_port { Some(p) => seq!["-monitor"@, "tcp::"@ + decimal_digits(p as nat) + ",server,nowait"@], None => Seq::empty() })
        + (match c.gdb_port { Some(p) => seq!["-gdb"@, "tcp::"@ + decimal_digits(p as nat), "-S"@], None => Seq::empty() })
}

/// The acceleration arguments; `kvm_available` says whether the host
/// offers KVM.
pub open spec fn kvm_args(c: QemuConfig, kvm_available: bool) -> Seq<Seq<char>> {
    if c.enable_kvm && kvm_available { seq!["-enable-kvm"@, "-cpu"@, "host"@] } else { Seq::empty() }
}

/// The emulator's command line (after the binary) for an interactive run.
pub open spec fn run_args(c: QemuConfig, kvm_available: bool) -> Seq<Seq<char>> {
    machine_args(c) + memory_args(c) + display_args(c) + network_args(c) + serial_args(c.serial_output)
        + debug_args(c) + kvm_args(c, kvm_available) + texts(c.extra_args@)
}

/// With networking on, an interactive run gives the guest a network
/// card: the user-mode backend `net0` is declared and, right after it, an
/// e1000 device is attached to that backend.
pub proof fn law_networking_attaches_nic(c: QemuConfig, kvm_available: bool, args: Seq<Seq<char>>)
    requires
        args == run_args(c, kvm_available),
        c.enable_networking,
    ensures
        exists|k: int| 0 <= k && k + 4 <= args.len()
            && #[trigger] args[k] == "-netdev"@
            && args[k + 1] == "user,id=net0"@
            && args[k + 2] == "-device"@
            && args[k + 3] == "e1000,netdev=net0"@,
{
    let pre = machine_args(c) + memory_args(c) + display_args(c);
    let net = seq!["-netdev"@, "user,id=net0"@, "-device"@, "e1000,netdev=net0"@];
    let post = serial_args(c.serial_output) + debug_args(c) + kvm_args(c, kvm_available) + texts(c.extra_args@);
    assert(args =~= pre + net + post);
    let k = pre.len() as int;
    assert(args[k] == net[0]);
    assert(args[k + 1] == net[1]);
    assert(args[k + 2] == net[2]);
    assert(args[k + 3] == net[3]);
}

/// The emulator's command line for a test run, with the console on the
/// standard streams.
pub open spec fn test_args(c: QemuConfig) -> Seq<Seq<char>> {
    machine_args(c) + seq!["-m"@, decimal_digits(c.memory_mb as nat), "-nographic"@, "-serial"@, "stdio"@]
}

/// Append the machine arguments of `config`.
fn push_machine_args(v: &mut Vec<String>, config: &QemuConfig)
    ensures
        texts(final(v)@) == texts(old(v)@) + machine_args(*config),
{
    match config.arch {
        Architecture::X86_64 => {
            push_arg(v, "-machine");
            push_arg(v, "q35");
            push_arg(v, "-cpu");
            push_arg(v, "qemu64,+x2apic,+fsgsbase");
        },
        Architecture::RiscV64 => {
            push_arg(v, "-machine");
            push_arg(v, "virt");
            push_arg(v, "-cpu");
            push_arg(v, "rv64");
        },
    }
    push_arg(v, "-kernel");
    push_owned(v, config.kernel_path.clone());
    if let Some(p) = &config.initrd_path {
        push_arg(v, "-initrd");
        push_owned(v, p.clone());
    }
    if config.arch == Architecture::X86_64 {
        push_arg(v, "-append");
        push_arg(v, "console=ttyS0 quiet");
    }
    assert(texts(final(v)@) =~= texts(old(v)@) + machine_args(*config));
}

/// A string made of the literal `a` followed by `v` in decimal.
fn with_decimal(a: &str, v: u64) -> (r: String)
    ensures
        r@ == a@ + decimal_digits(v as nat),
{
    let mut s = String::from_str(a);
    push_decimal(&mut s, v);
    s
}

/// Append the memory-size arguments.
fn push_memory_args(v: &mut Vec<String>, config: &QemuConfig)
    ensures
        texts(final(v)@) == texts(old(v)@) + memory_args(*config),
{
    push_arg(v, "-m");
    proof { reveal_strlit(""); }
    push_owned(v, with_decimal("", config.memory_mb as u64));
    assert(texts(final(v)@) =~= texts(old(v)@) + memory_args(*config));
}

/// Append the display and networking arguments.
fn push_display_args(v: &mut Vec<String>, config: &QemuConfig)
    ensures
        texts(final(v)@) == texts(old(v)@) + display_args(*config) + network_args(*config),
{
    if config.enable_graphics {
        push_arg(v, "-vga");
        push_arg(v, "std");
    } else {
        push_arg(v, "-nographic");
    }
    if config.enable_networking {
        push_arg(v, "-netdev");
        push_arg(v, "user,id=net0");
        push_arg(v, "-device");
        push_arg(v, "e1000,netdev=net0");
    }
    assert(texts(final(v)@) =~= texts(old(v)@) + display_args(*config) + network_args(*config));
}

/// Append the serial-port arguments.
fn push_serial_args(v: &mut Vec<String>, config: &QemuConfig)
    ensures
        texts(final(v)@) == texts(old(v)@) + serial_args(config.serial_output),
{
    match &config.serial_output {
        SerialOutput::Stdio => {
            push_arg(v, "-serial");
            push_arg(v, "stdio");
        },
        SerialOutput::File(p) => {
            push_arg(v, "-serial");
            let mut f = String::from_str("file:");
            f.append(p.as_str());
            push_owned(v, f);
        },
        SerialOutput::Disabled => {
            push_arg(v, "-serial");
            push_arg(v, "null");
        },
    }
    assert(texts(final(v)@) =~= texts(old(v)@) + serial_args(config.serial_output));
}

/// Append the monitor, debugger and acceleration arguments.
fn push_debug_args(v: &mut Vec<String>, config: &QemuConfig, kvm_available: bool)
    ensures
        texts(final(v)@) == texts(old(v)@) + debug_args(*config) + kvm_args(*config, kvm_available),
{
    if let Some(port) = config.monitor_port {
        push_arg(v, "-monitor");
        let mut m = with_decimal("tcp::", port as u64);
        m.append(",server,nowait");
        push_owned(v, m);
    }
    if let Some(port) = config.gdb_port {
        push_arg(v, "-gdb");
        push_owned(v, with_decimal("tcp::", port as u64));
        push_arg(v, "-S");
    }
    if config.enable_kvm && kvm_available {
        push_arg(v, "-enable-kvm");
        push_arg(v, "-cpu");
        push_arg(v, "host");
    }
    assert(texts(final(v)@) =~= texts(old(v)@) + debug_args(*config) + kvm_args(*config, kvm_available));
}

/// Append copies of `extra`.
fn push_all(v: &mut Vec<String>, extra: &Vec<String>)
    ensures
        texts(final(v)@) == texts(old(v)@) + texts(extra@),
{
    let ghost start = texts(v@);
    let mut i: usize = 0;
    while i < extra.len()
        invariant
            i <= extra@.len(),
            texts(v@) == start + texts(extra@.subrange(0, i as int)),
        decreases extra@.len() - i,
    {
        push_owned(v, extra[i].clone());
        assert(texts(extra@.subrange(0, i + 1)) =~= texts(extra@.subrange(0, i as int)).push(extra@[i as int]@));
        assert(texts(v@) =~= start + texts(extra@.subrange(0, i + 1)));
        i = i + 1;
    }
    assert(extra@.subrange(0, i as int) =~= extra@);
}

/// Build the emulator's command line for an interactive run.
pub fn qemu_run_args(config: &QemuConfig, kvm_available: bool) -> (r: Vec<String>)
    ensures
        texts(r@) == run_args(*config, kvm_available),
{
    let mut v: Vec<String> = Vec::new();
    assert(texts(v@) =~= Seq::<Seq<char>>::empty());
    push_machine_args(&mut v, config);
    push_memory_args(&mut v, config);
    push_display_args(&mut v, config);
    push_serial_args(&mut v, config);
    push_debug_args(&mut v, config, kvm_available);
    push_all(&mut v, &config.extra_args);
    assert(texts(v@) =~= run_args(*config, kvm_available));
    v
}

/// Build the emulator's command line for a test run.
pub fn qemu_test_args(config: &QemuConfig) -> (r: Vec<String>)
    ensures
        texts(r@) == test_args(*config),
{
    let mut v: Vec<String> = Vec::new();
    assert(texts(v@) =~= Seq::<Seq<char>>::empty());
    push_machine_args(&mut v, config);
    push_memory_args(&mut v, config);
    push_arg(&mut v, "-nographic");
    push_arg(&mut v, "-serial");
    push_arg(&mut v, "stdio");
    assert(texts(v@) =~= test_args(*config));
    v
}

/// Whether `n` occurs in `h` as a contiguous run.
pub open spec fn contains_text(h: Seq<char>, n: Seq<char>) -> bool {
    exists|i: int| 0 <= i && i + n.len() <= h.len() && #[trigger] h.subrange(i, i + n.len()) == n
}

/// Whether `needle` occurs in `hay`.
pub fn text_contains(hay: &str, needle: &str) -> (r: bool)
    ensures
        r == contains_text(hay@, needle@),
{
    let n = hay.unicode_len();
    let m = needle.unicode_len();
    if m > n {
        return false;
    }
    if m == 0 {
        assert(hay@.subrange(0, 0 + needle@.len() as int) =~= needle@);
        return true;
    }
    let mut i: usize = 0;
    while i <= n - m
        invariant
            n == hay@.len(),
            m == needle@.len(),
            1 <= m <= n,
            i <= n - m + 1,
            forall|j: int| 0 <= j < i ==> #[trigger] hay@.subrange(j, j + m) != needle@,
        decreases n - i,
    {
        let mut k: usize = 0;
        let mut same = true;
        while k < m
            invariant
                n == hay@.len(),
                m == needle@.len(),
                i + m <= n,
                k <= m,
                same ==> forall|l: int| 0 <= l < k ==> hay@[i + l] == needle@[l],
                !same ==> hay@.subrange(i as int, i + m) != needle@,
            decreases m - k,
        {
            if same && hay.get_char(i + k) != needle.get_char(k) {
                same = false;
                assert(hay@.subrange(i as int, i + m)[k as int] != needle@[k as int]);
            }
            k = k + 1;
        }
        if same {
            assert(hay@.subrange(i as int, i + m) =~= needle@);
            return true;
        }
        i = i + 1;
    }
    proof {
        assert forall|j: int| 0 <= j && j + m <= n implies #[trigger] hay@.subrange(j, j + m) != needle@ by {}
    }
    false
}

/// Mark each expected text that occurs in `line` as found, and say
/// whether all of them have been found.
pub fn record_line(expected: &Vec<String>, found: &mut Vec<bool>, line: &str) -> (all: bool)
    requires
        old(found)@.len() == expected@.len(),
    ensures
        final(found)@.len() == expected@.len(),
        forall|i: int| 0 <= i < expected@.len() ==>
            #[trigger] final(found)@[i] == (old(found)@[i] || contains_text(line@, expected@[i]@)),
        all == forall|i: int| 0 <= i < expected@.len() ==> #[trigger] final(found)@[i],
{
    let mut i: usize = 0;
    while i < expected.len()
        invariant
            found@.len() == expected@.len(),
            i <= expected@.len(),
            forall|j: int| 0 <= j < i ==> #[trigger] found@[j] == (old(found)@[j] || contains_text(line@, expected@[j]@)),
            forall|j: int| i <= j < expected@.len() ==> #[trigger] found@[j] == old(found)@[j],
        decreases expected@.len() - i,
    {
        if text_contains(line, expected[i].as_str()) {
            found.set(i, true);
        }
        i = i + 1;
    }
    let mut all = true;
    let mut j: usize = 0;
    while j < found.len()
        invariant
            found@.len() == expected@.len(),
            j <= found@.len(),
            all == forall|l: int| 0 <= l < j ==> #[trigger] found@[l],
        decreases found@.len() - j,
    {
        if !found[j] {
            all = false;
        }
        j = j + 1;
    }
    all
}

/// The expected texts not marked found, in order.
pub open spec fn missing_of(expected: Seq<Seq<char>>, found: Seq<bool>) -> Seq<Seq<char>>
    decreases expected.len(),
{
    if expected.len() == 0 {
        Seq::empty()
    } else {
        let rest = missing_of(expected.drop_last(), found.take(expected.len() - 1));
        if found[expected.len() - 1] { rest } else { rest.push(expected.last()) }
    }
}

/// The expected texts not yet found.
pub fn missing_outputs(expected: &Vec<String>, found: &Vec<bool>) -> (r: Vec<String>)
    requires
        found@.len() == expected@.len(),
    ensures
        texts(r@) == missing_of(texts(expected@), found@),
{
    let mut r: Vec<String> = Vec::new();
    let mut i: usize = 0;
    while i < expected.len()
        invariant
            found@.len() == expected@.len(),
            i <= expected@.len(),
            texts(r@) == missing_of(texts(expected@.take(i as int)), found@.take(i as int)),
        decreases expected@.len() - i,
    {
        proof {
            assert(texts(expected@.take(i + 1)).drop_last() =~= texts(expected@.take(i as int)));
            assert(found@.take(i + 1).take(i as int) =~= found@.take(i as int));
        }
        if !found[i] {
            push_owned(&mut r, expected[i].clone());
        }
        i = i + 1;
    }
    assert(expected@.take(i as int) =~= expected@);
    assert(found@.take(i as int) =~= found@);
    r
}

/// Runs the kernel under QEMU and waits for expected console output.
pub struct QemuTestRunner {
    config: QemuConfig,
    timeout_secs: u64,
    expected_output: Vec<String>,
}

impl QemuTestRunner {
    /// The configuration the runner starts QEMU with.
    pub closed spec fn spec_config(&self) -> QemuConfig {
        self.config
    }

    /// How long the runner waits, in whole seconds.
    pub closed spec fn spec_timeout_secs(&self) -> u64 {
        self.timeout_secs
    }

    /// The texts the console must show, in the order they were added.
    pub closed spec fn spec_expected(&self) -> Seq<Seq<char>> {
        texts(self.expected_output@)
    }

    /// A runner for `config` with a 30-second timeout and nothing expected.
    pub fn new(config: QemuConfig) -> (r: Self)
        ensures
            r.spec_config() == config,
            r.spec_timeout_secs() == 30,
            r.spec_expected() == Seq::<Seq<char>>::empty(),
    {
        let r = QemuTestRunner { config, timeout_secs: 30, expected_output: Vec::new() };
        assert(r.spec_expected() =~= Seq::<Seq<char>>::empty());
        r
    }

    /// The same runner with a timeout of `secs` seconds.
    pub fn with_timeout(self, secs: u64) -> (r: Self)
        ensures
            r.spec_config() == self.spec_config(),
            r.spec_timeout_secs() == secs,
            r.spec_expected() == self.spec_expected(),
    {
        QemuTestRunner { timeout_secs: secs, ..self }
    }

    /// The same runner also expecting `output`.
    pub fn expect_output(self, output: String) -> (r: Self)
        ensures
            r.spec_config() == self.spec_config(),
            r.spec_timeout_secs() == self.spec_timeout_secs(),
            r.spec_expected() == self.spec_expected().push(output@),
    {
        let mut s = self;
        push_owned(&mut s.expected_output, output);
        s
    }

    /// The configuration.
    pub fn config(&self) -> (r: &QemuConfig)
        ensures
            *r == self.spec_config(),
    {
        &self.config
    }

    /// The timeout in whole seconds.
    pub fn timeout_secs(&self) -> (r: u64)
        ensures
            r == self.spec_timeout_secs(),
    {
        self.timeout_secs
    }

    /// The expected texts.
    pub fn expected_output(&self) -> (r: &Vec<String>)
        ensures
            texts(r@) == self.spec_expected(),
    {
        &self.expected_output
    }
}

/// Outcome of a test run.
#[derive(Debug)]
pub enum TestResult {
    /// Every expected text appeared.
    Success { output: Vec<String>, duration: Duration },
    /// Time ran out first.
    Timeout { output: Vec<String>, missing_outputs: Vec<String> },
    /// The run itself failed.
    Error { message: String },
}

impl TestResult {
    /// Whether the run succeeded.
    pub fn is_success(&self) -> (r: bool)
        ensures
            r == (self is Success),
    {
        match self {
            TestResult::Success { .. } => true,
            _ => false,
        }
    }
}

/// The values of the runner's command line.
pub struct RunnerArgs {
    pub kernel: String,
    pub initrd: Option<String>,
    pub arch: String,
    pub memory: String,
    pub kvm: bool,
    pub graphics: bool,
    pub gdb: Option<String>,
    pub monitor: Option<String>,
    pub test: bool,
    pub timeout: String,
}

/// What the runner does.
pub enum RunnerPlan {
    /// Run the kernel interactively.
    Run(QemuConfig),
    /// Run the boot test: the runner and its timeout in seconds.
    Test(QemuTestRunner, u64),
}

/// The value of a number argument, if it parses within `max`.
pub open spec fn number_arg(s: Seq<char>, max: nat) -> Option<nat> {
    if parses_unsigned(s, max) { Some(digits_value(unsigned_body(s))) } else { None }
}

/// Whether an optional port argument is absent or parses as a 16-bit
/// number.
pub open spec fn port_arg_ok(p: Option<String>) -> bool {
    match p { Some(v) => number_arg(v@, u16::MAX as nat) is Some, None => true }
}

/// Whether the architecture and the memory size of `args` are accepted.
pub open spec fn base_args_ok(args: RunnerArgs) -> bool {
    (names_x86_64(args.arch@) || names_riscv64(args.arch@)) && number_arg(args.memory@, u32::MAX as nat) is Some
}

/// Whether every argument of `args` the runner reads is accepted: the
/// architecture, the memory size, the ports, and the timeout of a test.
pub open spec fn runner_args_ok(args: RunnerArgs) -> bool {
    &&& base_args_ok(args)
    &&& port_arg_ok(args.gdb)
    &&& port_arg_ok(args.monitor)
    &&& args.test ==> number_arg(args.timeout@, u64::MAX as nat) is Some
}

/// Parse a number argument no larger than `max`.
fn parse_number_arg(s: &String, max: u64) -> (r: Result<u64, BuildError>)
    ensures
        number_arg(s@, max as nat) matches Some(v) ==> r == Ok::<u64, BuildError>(v as u64),
        number_arg(s@, max as nat) is None ==> (r matches Err(BuildError::InvalidNumber(t)) && t@ == s@),
{
    match parse_unsigned(s.as_str(), max) {
        Some(v) => Ok(v),
        None => Err(BuildError::InvalidNumber(s.clone())),
    }
}

/// Build the runner's plan from its command line: the architecture and
/// the numbers must parse (memory and the timeout as unsigned numbers,
/// ports as 16-bit ones); the boot test expects the kernel and the shell
/// to announce themselves.
pub fn create_qemu_runner(args: RunnerArgs) -> (r: Result<RunnerPlan, BuildError>)
    ensures
        !names_x86_64(args.arch@) && !names_riscv64(args.arch@) ==> (r matches Err(BuildError::UnsupportedArchitecture(t)) && t@ == args.arch@),
        (names_x86_64(args.arch@) || names_riscv64(args.arch@)) && number_arg(args.memory@, u32::MAX as nat) is None
            ==> (r matches Err(BuildError::InvalidNumber(t)) && t@ == args.memory@),
        base_args_ok(args) && !port_arg_ok(args.gdb)
            ==> (r matches Err(BuildError::InvalidNumber(t)) && t@ == args.gdb.unwrap()@),
        base_args_ok(args) && port_arg_ok(args.gdb) && !port_arg_ok(args.monitor)
            ==> (r matches Err(BuildError::InvalidNumber(t)) && t@ == args.monitor.unwrap()@),
        base_args_ok(args) && port_arg_ok(args.gdb) && port_arg_ok(args.monitor) && args.test
            && number_arg(args.timeout@, u64::MAX as nat) is None
            ==> (r matches Err(BuildError::InvalidNumber(t)) && t@ == args.timeout@),
        r is Ok <==> runner_args_ok(args),
        r is Ok ==> (names_x86_64(args.arch@) || names_riscv64(args.arch@))
            && number_arg(args.memory@, u32::MAX as nat) is Some
            && (args.gdb matches Some(g) ==> number_arg(g@, u16::MAX as nat) is Some)
            && (args.monitor matches Some(m) ==> number_arg(m@, u16::MAX as nat) is Some),
        r matches Ok(RunnerPlan::Run(c)) ==> !args.test && c.memory_mb == number_arg(args.memory@, u32::MAX as nat).unwrap()
            && c.kernel_path == args.kernel && c.enable_kvm == args.kvm && c.enable_graphics == args.graphics
            && c.arch == (if names_x86_64(args.arch@) { Architecture::X86_64 } else { Architecture::RiscV64 })
            && c.initrd_path == args.initrd
            && c.gdb_port == (match args.gdb { Some(g) => Some(number_arg(g@, u16::MAX as nat).unwrap() as u16), None => None })
            && c.monitor_port == (match args.monitor { Some(m) => Some(number_arg(m@, u16::MAX as nat).unwrap() as u16), None => None }),
        r matches Ok(RunnerPlan::Test(runner, secs)) ==> args.test
            && number_arg(args.timeout@, u64::MAX as nat) == Some(secs as nat)
            && runner.spec_timeout_secs() == secs
            && runner.spec_expected() == seq!["TanOS initialized"@, "Shell ready"@]
            && runner.spec_config().memory_mb == number_arg(args.memory@, u32::MAX as nat).unwrap()
            && runner.spec_config().kernel_path == args.kernel,
        r is Ok && args.test ==> (r matches Ok(RunnerPlan::Test(_, _))),
        r is Ok && !args.test ==> (r matches Ok(RunnerPlan::Run(_))),
{
    let arch = Architecture::from_str(args.arch.as_str())?;
    let memory_mb = parse_number_arg(&args.memory, 0xFFFF_FFFF)?;
    let mut config = QemuConfig::new(arch, args.kernel)
        .with_memory(memory_mb as u32)
        .with_kvm(args.kvm)
        .with_graphics(args.graphics);
    if let Some(initrd) = args.initrd {
        config = config.with_initrd(initrd);
    }
    if let Some(g) = &args.gdb {
        let port = parse_number_arg(g, 0xFFFF)?;
        config = config.with_gdb(port as u16);
    }
    if let Some(m) = &args.monitor {
        let port = parse_number_arg(m, 0xFFFF)?;
        config = config.with_monitor(port as u16);
    }
    if args.test {
        let secs = parse_number_arg(&args.timeout, 0xFFFF_FFFF_FFFF_FFFF)?;
        proof { reveal_strlit("TanOS initialized"); reveal_strlit("Shell ready"); }
        let runner = QemuTestRunner::new(config)
            .with_timeout(secs)
            .expect_output(String::from_str("TanOS initialized"))
            .expect_output(String::from_str("Shell ready"));
        assert(runner.spec_expected() =~= seq!["TanOS initialized"@, "Shell ready"@]);
        Ok(RunnerPlan::Test(runner, secs))
    } else {
        Ok(RunnerPlan::Run(config))
    }
}

} // verus!
