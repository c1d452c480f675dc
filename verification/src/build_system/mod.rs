//! Build configuration for the kernel and userspace images: target
//! architectures, build profiles and where the outputs land.
use vstd::prelude::*;
use vstd::string::*;

pub mod linker_script;
pub mod manifest;
pub mod qemu_runner;

verus! {

/// Supported target architectures.
#[derive(Debug, Clone, Copy, PartialEq, Eq, Structural)]
pub enum Architecture {
    X86_64,
    RiscV64,
}

/// The Rust target triple of an architecture.
pub open spec fn target_triple_of(a: Architecture) -> Seq<char> {
    match a {
        Architecture::X86_64 => "x86_64-unknown-none"@,
        Architecture::RiscV64 => "riscv64imac-unknown-none-elf"@,
    }
}

/// The code of `c` after ASCII lowercasing.
pub open spec fn lower_code(c: char) -> u32 {
    let v = c as u32;
    if 65 <= v <= 90 { (v + 32) as u32 } else { v }
}

/// Whether `s`, lowercased, is exactly `lit`.
pub open spec fn lower_matches(s: Seq<char>, lit: Seq<char>) -> bool {
    &&& s.len() == lit.len()
    &&& forall|i: int| 0 <= i < s.len() ==> lower_code(#[trigger] s[i]) == lit[i] as u32
}

/// Whether `s` names the x86_64 architecture, ignoring case.
pub open spec fn names_x86_64(s: Seq<char>) -> bool {
    lower_matches(s, "x86_64"@) || lower_matches(s, "x86-64"@) || lower_matches(s, "amd64"@)
}

/// Whether `s` names the RISC-V architecture, ignoring case.
pub open spec fn names_riscv64(s: Seq<char>) -> bool {
    lower_matches(s, "riscv64"@) || lower_matches(s, "risc-v"@) || lower_matches(s, "riscv"@)
}

/// Failures of build-configuration operations.
#[derive(Debug, Clone, PartialEq, Eq)]
pub enum BuildError {
    /// The named architecture is not supported.
    UnsupportedArchitecture(String),
    /// A command-line value is not a number in range.
    InvalidNumber(String),
    /// The kernel image exceeds the size limit (its size in bytes).
    KernelTooLarge(u64),
    /// A tool needed for the build is missing.
    ToolNotFound(String),
    /// The Rust toolchain is not a nightly one (its version line).
    NightlyRequired(String),
    /// The workspace manifest is not valid TOML (the parser's message).
    ManifestParse(String),
}

impl BuildError {
    /// The human-readable description of the error.
    pub fn message(&self) -> (r: String)
        ensures
            self matches BuildError::UnsupportedArchitecture(s) ==> r@ == "Unsupported architecture: "@ + s@,
            self matches BuildError::InvalidNumber(s) ==> r@ == "Invalid number: "@ + s@,
            self matches BuildError::KernelTooLarge(n) ==> r@ == "Kernel too large: "@ + crate::text::decimal_digits(n as nat)
                + " bytes (max: 64KB)"@,
            self matches BuildError::ToolNotFound(s) ==> r@ == "Required tool not found: "@ + s@,
            self matches BuildError::NightlyRequired(s) ==> r@ == "Nightly Rust toolchain required, found: "@ + s@,
            self matches BuildError::ManifestParse(s) ==> r@ == s@,
    {
        match self {
            BuildError::UnsupportedArchitecture(s) => {
                let mut r = String::from_str("Unsupported architecture: ");
                r.append(s.as_str());
                r
            },
            BuildError::InvalidNumber(s) => {
                let mut r = String::from_str("Invalid number: ");
                r.append(s.as_str());
                r
            },
            BuildError::KernelTooLarge(n) => {
                let mut r = String::from_str("Kernel too large: ");
                crate::text::push_decimal(&mut r, *n);
                r.append(" bytes (max: 64KB)");
                r
            },
            BuildError::ToolNotFound(s) => {
                let mut r = String::from_str("Required tool not found: ");
                r.append(s.as_str());
                r
            },
            BuildError::NightlyRequired(s) => {
                let mut r = String::from_str("Nightly Rust toolchain required, found: ");
                r.append(s.as_str());
                r
            },
            BuildError::ManifestParse(s) => s.clone(),
        }
    }
}

/// Whether `s`, lowercased, equals `lit`.
fn lowercase_equals(s: &str, lit: &str) -> (r: bool)
    ensures
        r == lower_matches(s@, lit@),
{
    let n = s.unicode_len();
    let m = lit.unicode_len();
    if n != m {
        return false;
    }
    let mut i: usize = 0;
    while i < n
        invariant
            n == s@.len(),
            m == lit@.len(),
            n == m,
            i <= n,
            forall|j: int| 0 <= j < i ==> lower_code(#[trigger] s@[j]) == lit@[j] as u32,
        decreases n - i,
    {
        let c = s.get_char(i);
        let d = lit.get_char(i);
        let v = c as u32;
        let lv: u32 = if 65 <= v && v <= 90 { v + 32 } else { v };
        if lv != d as u32 {
            assert(lower_code(s@[i as int]) != lit@[i as int] as u32);
            return false;
        }
        i = i + 1;
    }
    true
}

impl Architecture {
    /// The Rust target triple for this architecture.
    pub fn target_triple(&self) -> (r: &'static str)
        ensures
            r@ == target_triple_of(*self),
    {
        match self {
            Architecture::X86_64 => "x86_64-unknown-none",
            Architecture::RiscV64 => "riscv64imac-unknown-none-elf",
        }
    }

    /// Parse an architecture name, ignoring case: "x86_64", "x86-64" or
    /// "amd64" for x86_64; "riscv64", "risc-v" or "riscv" for RISC-V.
    pub fn from_str(s: &str) -> (r: Result<Architecture, BuildError>)
        ensures
            names_x86_64(s@) ==> r == Ok::<Architecture, BuildError>(Architecture::X86_64),
            !names_x86_64(s@) && names_riscv64(s@) ==> r == Ok::<Architecture, BuildError>(Architecture::RiscV64),
            !names_x86_64(s@) && !names_riscv64(s@) ==> (r matches Err(BuildError::UnsupportedArchitecture(t)) && t@ == s@),
    {
        if lowercase_equals(s, "x86_64") || lowercase_equals(s, "x86-64") || lowercase_equals(s, "amd64") {
            Ok(Architecture::X86_64)
        } else if lowercase_equals(s, "riscv64") || lowercase_equals(s, "risc-v") || lowercase_equals(s, "riscv") {
            Ok(Architecture::RiscV64)
        } else {
            Err(BuildError::UnsupportedArchitecture(String::from_str(s)))
        }
    }
}

/// Build profiles.
#[derive(Debug, Clone, Copy, PartialEq, Eq, Structural)]
pub enum BuildProfile {
    Debug,
    Release,
    Kernel,
    Userspace,
}

/// The name of a build profile, as cargo and the output tree spell it.
pub open spec fn profile_name(p: BuildProfile) -> Seq<char> {
    match p {
        BuildProfile::Debug => "debug"@,
        BuildProfile::Release => "release"@,
        BuildProfile::Kernel => "kernel"@,
        BuildProfile::Userspace => "userspace"@,
    }
}

impl BuildProfile {
    /// The profile's name.
    pub fn as_str(&self) -> (r: &'static str)
        ensures
            r@ == profile_name(*self),
    {
        match self {
            BuildProfile::Debug => "debug",
            BuildProfile::Release => "release",
            BuildProfile::Kernel => "kernel",
            BuildProfile::Userspace => "userspace",
        }
    }
}

/// `comp` appended to the path `base` as a Unix path buffer does it: an
/// absolute `comp` replaces `base`, otherwise a separator is put between
/// them unless `base` is empty or already ends in one.
pub open spec fn path_join(base: Seq<char>, comp: Seq<char>) -> Seq<char> {
    if comp.len() > 0 && comp[0] == '/' {
        comp
    } else if base.len() == 0 || base.last() == '/' {
        base + comp
    } else {
        base + seq!['/'] + comp
    }
}

/// The path `base` joined with `comp`.
pub fn join_path(base: &str, comp: &str) -> (r: String)
    ensures
        r@ == path_join(base@, comp@),
{
    let cl = comp.unicode_len();
    if cl > 0 && comp.get_char(0) == '/' {
        return String::from_str(comp);
    }
    let bl = base.unicode_len();
    let mut r = String::from_str(base);
    if bl != 0 && base.get_char(bl - 1) != '/' {
        proof { reveal_strlit("/"); }
        r.append("/");
    }
    r.append(comp);
    r
}

/// Build configuration.
#[derive(Debug, Clone)]
pub struct BuildConfig {
    pub arch: Architecture,
    pub profile: BuildProfile,
    pub workspace_root: String,
    pub target_dir: String,
    pub verbose: bool,
}

impl BuildConfig {
    /// A release configuration whose outputs go under
    /// `<workspace_root>/target/<target triple>`.
    pub fn new(arch: Architecture, workspace_root: String) -> (r: Self)
        ensures
            r.arch == arch,
            r.profile == BuildProfile::Release,
            r.workspace_root@ == workspace_root@,
            r.target_dir@ == path_join(path_join(workspace_root@, "target"@), target_triple_of(arch)),
            !r.verbose,
    {
        let t = join_path(workspace_root.as_str(), "target");
        let target_dir = join_path(t.as_str(), arch.target_triple());
        BuildConfig { arch, profile: BuildProfile::Release, workspace_root, target_dir, verbose: false }
    }

    /// The same configuration with another profile.
    pub fn with_profile(self, profile: BuildProfile) -> (r: Self)
        ensures
            r == (BuildConfig { profile, ..self }),
    {
        BuildConfig { profile, ..self }
    }

    /// The same configuration with verbosity set.
    pub fn with_verbose(self, verbose: bool) -> (r: Self)
        ensures
            r == (BuildConfig { verbose, ..self }),
    {
        BuildConfig { verbose, ..self }
    }

    /// Where the kernel binary lands: `<target_dir>/<profile>/kernel`.
    pub fn kernel_binary_path(&self) -> (r: String)
        ensures
            r@ == path_join(path_join(self.target_dir@, profile_name(self.profile)), "kernel"@),
    {
        let d = join_path(self.target_dir.as_str(), self.profile.as_str());
        join_path(d.as_str(), "kernel")
    }

    /// Where a userspace binary lands: `<target_dir>/<profile>/<name>`.
    pub fn userspace_binary_path(&self, name: &str) -> (r: String)
        ensures
            r@ == path_join(path_join(self.target_dir@, profile_name(self.profile)), name@),
    {
        let d = join_path(self.target_dir.as_str(), self.profile.as_str());
        join_path(d.as_str(), name)
    }
}

/// Largest kernel image accepted (bytes).
pub const MAX_KERNEL_SIZE: u64 = 65536;

/// Refuse a kernel image of `size` bytes above the limit.
pub fn check_kernel_size(size: u64) -> (r: Result<(), BuildError>)
    ensures
        size <= MAX_KERNEL_SIZE ==> r is Ok,
        size > MAX_KERNEL_SIZE ==> r == Err::<(), BuildError>(BuildError::KernelTooLarge(size)),
{
    if size > MAX_KERNEL_SIZE {
        Err(BuildError::KernelTooLarge(size))
    } else {
        Ok(())
    }
}

/// The cargo feature of an architecture.
pub open spec fn arch_feature(a: Architecture) -> Seq<char> {
    match a {
        Architecture::X86_64 => "x86_64"@,
        Architecture::RiscV64 => "riscv64"@,
    }
}

/// The contents of a list of strings.
pub open spec fn texts(v: Seq<String>) -> Seq<Seq<char>> {
    v.map_values(|s: String| s@)
}

/// Append the literal `a` as one more argument.
fn push_arg(v: &mut Vec<String>, a: &str)
    ensures
        texts(final(v)@) == texts(old(v)@).push(a@),
{
    v.push(String::from_str(a));
    assert(texts(final(v)@) =~= texts(old(v)@).push(a@));
}

/// The cargo arguments that build the kernel.
pub open spec fn kernel_build_args_of(c: BuildConfig) -> Seq<Seq<char>> {
    seq!["build"@, "--package"@, "kernel"@, "--target"@, target_triple_of(c.arch), "--profile"@, "kernel"@,
        "--features"@, arch_feature(c.arch)] + (if c.verbose { seq!["--verbose"@] } else { Seq::empty() })
}

/// The cargo arguments that build userspace component `name`.
pub open spec fn userspace_build_args_of(c: BuildConfig, name: Seq<char>) -> Seq<Seq<char>> {
    seq!["build"@, "--package"@, name, "--target"@, target_triple_of(c.arch), "--profile"@, "userspace"@]
        + (if c.verbose { seq!["--verbose"@] } else { Seq::empty() })
}

impl BuildConfig {
    /// The cargo arguments that build the kernel for this configuration.
    pub fn kernel_build_args(&self) -> (r: Vec<String>)
        ensures
            texts(r@) == kernel_build_args_of(*self),
    {
        let mut v: Vec<String> = Vec::new();
        push_arg(&mut v, "build");
        push_arg(&mut v, "--package");
        push_arg(&mut v, "kernel");
        push_arg(&mut v, "--target");
        push_arg(&mut v, self.arch.target_triple());
        push_arg(&mut v, "--profile");
        push_arg(&mut v, "kernel");
        push_arg(&mut v, "--features");
        match self.arch {
            Architecture::X86_64 => push_arg(&mut v, "x86_64"),
            Architecture::RiscV64 => push_arg(&mut v, "riscv64"),
        }
        if self.verbose {
            push_arg(&mut v, "--verbose");
        }
        assert(texts(v@) =~= kernel_build_args_of(*self));
        v
    }

    /// The cargo arguments that build userspace component `name`.
    pub fn userspace_build_args(&self, name: &str) -> (r: Vec<String>)
        ensures
            texts(r@) == userspace_build_args_of(*self, name@),
    {
        let mut v: Vec<String> = Vec::new();
        push_arg(&mut v, "build");
        push_arg(&mut v, "--package");
        push_arg(&mut v, name);
        push_arg(&mut v, "--target");
        push_arg(&mut v, self.arch.target_triple());
        push_arg(&mut v, "--profile");
        push_arg(&mut v, "userspace");
        if self.verbose {
            push_arg(&mut v, "--verbose");
        }
        assert(texts(v@) =~= userspace_build_args_of(*self, name@));
        v
    }
}

/// Whether `s` ends with `suffix`.
pub open spec fn ends_with(s: Seq<char>, suffix: Seq<char>) -> bool {
    s.len() >= suffix.len() && s.subrange(s.len() - suffix.len(), s.len() as int) == suffix
}

/// Whether `s` ends with `suffix`.
pub fn text_ends_with(s: &str, suffix: &str) -> (r: bool)
    ensures
        r == ends_with(s@, suffix@),
{
    let n = s.unicode_len();
    let m = suffix.unicode_len();
    if m > n {
        return false;
    }
    let mut k: usize = 0;
    while k < m
        invariant
            n == s@.len(),
            m == suffix@.len(),
            m <= n,
            k <= m,
            forall|j: int| 0 <= j < k ==> s@[n - m + j] == suffix@[j],
        decreases m - k,
    {
        if s.get_char(n - m + k) != suffix.get_char(k) {
            assert(s@.subrange(n - m, n as int)[k as int] != suffix@[k as int]);
            return false;
        }
        k = k + 1;
    }
    assert(s@.subrange(n - m, n as int) =~= suffix@);
    true
}

/// The initrd directory a binary called `name` goes to: the init process,
/// drivers and servers to "sbin", everything else to "bin".
pub open spec fn initrd_dir_of(name: Seq<char>) -> Seq<char> {
    if name == "init"@ || ends_with(name, "_driver"@) || ends_with(name, "_server"@) { "sbin"@ } else { "bin"@ }
}

/// The initrd directory a binary called `name` goes to.
pub fn initrd_destination(name: &str) -> (r: &'static str)
    ensures
        r@ == initrd_dir_of(name@),
{
    let is_init = name.unicode_len() == 4 && text_ends_with(name, "init");
    proof {
        reveal_strlit("init");
        if name@.len() == 4 {
            assert(name@.subrange(0, 4) =~= name@);
        }
        if name@ == "init"@ {
            assert(name@.subrange(name@.len() - 4, name@.len() as int) =~= "init"@);
        }
        assert(is_init == (name@ == "init"@));
    }
    if is_init || text_ends_with(name, "_driver") || text_ends_with(name, "_server") {
        "sbin"
    } else {
        "bin"
    }
}

/// The directories created in the initrd.
pub fn initrd_directories() -> (r: Vec<&'static str>)
    ensures
        r@.len() == 4,
        r@[0]@ == "bin"@,
        r@[1]@ == "sbin"@,
        r@[2]@ == "etc"@,
        r@[3]@ == "dev"@,
{
    let mut v: Vec<&'static str> = Vec::new();
    v.push("bin");
    v.push("sbin");
    v.push("etc");
    v.push("dev");
    v
}

/// The init configuration written to `etc/init.toml` in the initrd.
pub open spec fn init_config_text() -> Seq<char> {
    "# TanOS Init Configuration\n[processes]\nkeyboard_driver = { path = \"/sbin/keyboard_driver\", restart = true }\nvga_driver = { path = \"/sbin/vga_driver\", restart = true }\nprocess_server = { path = \"/sbin/process_server\", restart = true }\nvfs_server = { path = \"/sbin/vfs_server\", restart = true }\n\n[boot]\nshell = \"/bin/shell\"\n"@
}

/// The init configuration of the initrd.
pub fn init_config() -> (r: &'static str)
    ensures
        r@ == init_config_text(),
{
    "# TanOS Init Configuration\n[processes]\nkeyboard_driver = { path = \"/sbin/keyboard_driver\", restart = true }\nvga_driver = { path = \"/sbin/vga_driver\", restart = true }\nprocess_server = { path = \"/sbin/process_server\", restart = true }\nvfs_server = { path = \"/sbin/vfs_server\", restart = true }\n\n[boot]\nshell = \"/bin/shell\"\n"
}

/// The tools a build needs on the path.
pub fn required_tools() -> (r: Vec<&'static str>)
    ensures
        r@.len() == 5,
        r@[0]@ == "rustc"@,
        r@[1]@ == "cargo"@,
        r@[2]@ == "ld"@,
        r@[3]@ == "objcopy"@,
        r@[4]@ == "qemu-system-x86_64"@,
{
    let mut v: Vec<&'static str> = Vec::new();
    v.push("rustc");
    v.push("cargo");
    v.push("ld");
    v.push("objcopy");
    v.push("qemu-system-x86_64");
    v
}

/// Whether `s` holds `n` as a contiguous run.
pub open spec fn has_text(s: Seq<char>, n: Seq<char>) -> bool {
    crate::build_system::qemu_runner::contains_text(s, n)
}

/// Accept only a nightly toolchain: `version` is what `rustc --version`
/// printed; the error carries it trimmed.
pub fn check_rustc_version(version: &str) -> (r: Result<(), BuildError>)
    ensures
        has_text(version@, "nightly"@) ==> r is Ok,
        !has_text(version@, "nightly"@) ==> (r matches Err(BuildError::NightlyRequired(t)) && t@ == crate::text::trimmed(version@)),
{
    if crate::build_system::qemu_runner::text_contains(version, "nightly") {
        Ok(())
    } else {
        Err(BuildError::NightlyRequired(crate::text::trim_text(version)))
    }
}

} // verus!
