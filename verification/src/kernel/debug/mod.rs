//! Kernel diagnostics: the log and stack walking.
use vstd::prelude::*;
use crate::kernel::debug::log::LogLevel;

pub mod backtrace;
pub mod log;

verus! {

/// Diagnostic settings.
pub struct DebugManager {
    log_level: LogLevel,
}

impl DebugManager {
    /// Info level.
    pub fn new() -> (r: Self)
        ensures
            r.spec_log_level() == LogLevel::Info,
    {
        DebugManager { log_level: LogLevel::Info }
    }

    /// The log level.
    pub closed spec fn spec_log_level(&self) -> LogLevel {
        self.log_level
    }

    /// Set the log level.
    pub fn set_log_level(&mut self, level: LogLevel)
        ensures
            final(self).spec_log_level() == level,
    {
        self.log_level = level;
    }

    /// The log level.
    pub fn log_level(&self) -> (r: LogLevel)
        ensures
            r == self.spec_log_level(),
    {
        self.log_level
    }

    /// The text `data` puts on the debug output: its characters when it is
    /// valid UTF-8, nothing otherwise.
    pub fn write(&self, data: &[u8]) -> (r: String)
        ensures
            r@ == debug_text(data@),
    {
        write(data)
    }
}

/// The text debug output shows for `bytes`.
pub open spec fn debug_text(bytes: Seq<u8>) -> Seq<char> {
    if vstd::utf8::valid_utf8(bytes) { vstd::utf8::decode_utf8(bytes) } else { Seq::empty() }
}

/// The text of `bytes` by `std::str::from_utf8`: present exactly when the
/// bytes are valid UTF-8, and then their decoding.
#[verifier::external_body]
fn utf8_text(bytes: &[u8]) -> (r: Option<String>)
    ensures
        (r is Some) == vstd::utf8::valid_utf8(bytes@),
        r is Some ==> r->Some_0@ == vstd::utf8::decode_utf8(bytes@),
{
    match std::str::from_utf8(bytes) {
        Ok(s) => Some(s.to_string()),
        Err(_) => None,
    }
}

/// The text `data` puts on the debug output: its characters when it is
/// valid UTF-8, nothing otherwise.
pub fn write(data: &[u8]) -> (r: String)
    ensures
        r@ == debug_text(data@),
{
    match utf8_text(data) {
        Some(s) => s,
        None => String::new(),
    }
}

} // verus!
