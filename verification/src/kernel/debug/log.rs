//! Kernel log: severity levels, filtering and the layout of a log line.
use vstd::prelude::*;
use vstd::string::*;
use crate::text::{decimal_digits, pad_left, push_decimal, push_decimal_padded};

verus! {

/// Log severities, most severe first.
#[derive(Debug, Clone, Copy, PartialEq, Eq, Structural)]
pub enum LogLevel {
    Error,
    Warn,
    Info,
    Debug,
    Trace,
}

/// The rank of a level: 0 for errors up to 4 for traces.
pub open spec fn level_rank(l: LogLevel) -> nat {
    match l {
        LogLevel::Error => 0,
        LogLevel::Warn => 1,
        LogLevel::Info => 2,
        LogLevel::Debug => 3,
        LogLevel::Trace => 4,
    }
}

/// The levels from most to least severe: Error, Warn, Info, Debug, Trace.
pub open spec fn severity_order() -> Seq<LogLevel> {
    seq![LogLevel::Error, LogLevel::Warn, LogLevel::Info, LogLevel::Debug, LogLevel::Trace]
}

/// Each level is ranked by its place from the most severe: the five
/// levels have distinct ranks that rise from Error to Trace.
pub proof fn law_level_ranks_follow_severity(a: LogLevel, b: LogLevel, i: int, j: int)
    requires
        0 <= i < 5,
        0 <= j < 5,
        severity_order()[i] == a,
        severity_order()[j] == b,
    ensures
        level_rank(a) == i,
        i < j <==> level_rank(a) < level_rank(b),
        a != b ==> level_rank(a) != level_rank(b),
{
    assert(severity_order()[0] == LogLevel::Error);
    assert(severity_order()[1] == LogLevel::Warn);
    assert(severity_order()[2] == LogLevel::Info);
    assert(severity_order()[3] == LogLevel::Debug);
    assert(severity_order()[4] == LogLevel::Trace);
}

/// A logger keeps a message exactly when the message's level is at least
/// as severe as the logger's, in the order Error, Warn, Info, Debug,
/// Trace: a logger at Warn keeps errors and warnings and drops Info and
/// everything less severe.
pub proof fn law_log_keeps_the_severe(logger: Logger, level: LogLevel, i: int, j: int, r: Option<String>,
    ts: u64, file: Seq<char>, line: u32, msg: Seq<char>)
    requires
        0 <= i < 5,
        0 <= j < 5,
        severity_order()[i] == level,
        severity_order()[j] == logger.level,
        level_rank(level) > level_rank(logger.level) ==> r is None,
        level_rank(level) <= level_rank(logger.level) ==> (r matches Some(s)
            && s@ == log_line(level, logger.use_colors, ts, file, line, msg)),
    ensures
        r is Some <==> i <= j,
        r matches Some(s) ==> s@ == log_line(level, logger.use_colors, ts, file, line, msg),
{
    law_level_ranks_follow_severity(level, logger.level, i, j);
}

/// The five-character tag of a level.
pub open spec fn level_tag(l: LogLevel) -> Seq<char> {
    match l {
        LogLevel::Error => "ERROR"@,
        LogLevel::Warn => "WARN "@,
        LogLevel::Info => "INFO "@,
        LogLevel::Debug => "DEBUG"@,
        LogLevel::Trace => "TRACE"@,
    }
}

/// The terminal colour sequence of a level.
pub open spec fn level_color(l: LogLevel) -> Seq<char> {
    match l {
        LogLevel::Error => "\x1b[31m"@,
        LogLevel::Warn => "\x1b[33m"@,
        LogLevel::Info => "\x1b[32m"@,
        LogLevel::Debug => "\x1b[36m"@,
        LogLevel::Trace => "\x1b[37m"@,
    }
}

impl LogLevel {
    /// The level's rank.
    pub fn rank(&self) -> (r: u8)
        ensures
            r == level_rank(*self),
    {
        match self {
            LogLevel::Error => 0,
            LogLevel::Warn => 1,
            LogLevel::Info => 2,
            LogLevel::Debug => 3,
            LogLevel::Trace => 4,
        }
    }

    /// The level's five-character tag.
    pub fn as_str(&self) -> (r: &'static str)
        ensures
            r@ == level_tag(*self),
    {
        match self {
            LogLevel::Error => "ERROR",
            LogLevel::Warn => "WARN ",
            LogLevel::Info => "INFO ",
            LogLevel::Debug => "DEBUG",
            LogLevel::Trace => "TRACE",
        }
    }

    /// The level's terminal colour sequence.
    pub fn color_code(&self) -> (r: &'static str)
        ensures
            r@ == level_color(*self),
    {
        match self {
            LogLevel::Error => "\x1b[31m",
            LogLevel::Warn => "\x1b[33m",
            LogLevel::Info => "\x1b[32m",
            LogLevel::Debug => "\x1b[36m",
            LogLevel::Trace => "\x1b[37m",
        }
    }
}

/// The line logged for a message `msg` of level `level` from `file` at
/// `line`, `ts` milliseconds after start-up: seconds padded to eight,
/// milliseconds to three digits; in colour when `colors`.
pub open spec fn log_line(level: LogLevel, colors: bool, ts: u64, file: Seq<char>, line: u32, msg: Seq<char>) -> Seq<char> {
    let body = "["@ + pad_left(decimal_digits((ts / 1000) as nat), 8, ' ') + "."@ + pad_left(decimal_digits((ts % 1000) as nat), 3, '0')
        + "] "@ + level_tag(level) + " "@ + file + ":"@ + decimal_digits(line as nat) + " - "@ + msg;
    if colors { level_color(level) + body + "\x1b[0m\n"@ } else { body + "\n"@ }
}

/// The kernel logger: messages above its level are dropped.
pub struct Logger {
    pub level: LogLevel,
    pub use_colors: bool,
}

impl Logger {
    /// Info level, in colour.
    pub fn new() -> (r: Self)
        ensures
            r.level == LogLevel::Info,
            r.use_colors,
    {
        Logger { level: LogLevel::Info, use_colors: true }
    }

    /// The line to write for a message of `level`, or `None` when the
    /// level is filtered out; `uptime_ms` stamps it.
    pub fn log(&self, level: LogLevel, msg: &str, file: &str, line: u32, uptime_ms: u64) -> (r: Option<String>)
        ensures
            level_rank(level) > level_rank(self.level) ==> r is None,
            level_rank(level) <= level_rank(self.level) ==> (r matches Some(s)
                && s@ == log_line(level, self.use_colors, uptime_ms, file@, line, msg@)),
    {
        if level.rank() > self.level.rank() {
            return None;
        }
        let mut s = String::new();
        if self.use_colors {
            s.append(level.color_code());
        }
        let ghost start = s@;
        s.append("[");
        proof { reveal_strlit(" "); reveal_strlit("0"); }
        push_decimal_padded(&mut s, uptime_ms / 1000, 8, " ");
        s.append(".");
        push_decimal_padded(&mut s, uptime_ms % 1000, 3, "0");
        s.append("] ");
        s.append(level.as_str());
        s.append(" ");
        s.append(file);
        s.append(":");
        push_decimal(&mut s, line as u64);
        s.append(" - ");
        s.append(msg);
        if self.use_colors {
            s.append("\x1b[0m\n");
        } else {
            s.append("\n");
        }
        proof {
            if !self.use_colors { assert(start =~= Seq::<char>::empty()); }
        }
        assert(s@ =~= log_line(level, self.use_colors, uptime_ms, file@, line, msg@));
        Some(s)
    }

    /// Set the most verbose level that is kept.
    pub fn set_level(&mut self, level: LogLevel)
        ensures
            final(self).level == level,
            final(self).use_colors == old(self).use_colors,
    {
        self.level = level;
    }

    /// Turn colours on or off.
    pub fn set_colors(&mut self, use_colors: bool)
        ensures
            final(self).use_colors == use_colors,
            final(self).level == old(self).level,
    {
        self.use_colors = use_colors;
    }

    /// The most verbose level kept.
    pub fn level(&self) -> (r: LogLevel)
        ensures
            r == self.level,
    {
        self.level
    }
}

} // verus!
