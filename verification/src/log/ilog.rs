//! Leveled logging policy: which messages are emitted, on which stream, and
//! with which text. Writing the line out is left to the caller.

use vstd::prelude::*;

use crate::text::{push_str_chars, string_from_chars};

verus! {

/// Severity of a log message, from the most to the least important.
#[derive(Debug, Clone, Copy, PartialEq, Eq, Structural, PartialOrd, Ord)]
pub enum LogLevel {
    Error,
    Info,
    Warn,
    Debug,
    Verbose,
}

impl LogLevel {
    /// Position of the level: `Error` is 0 and `Verbose` is 4.
    pub open spec fn rank(self) -> nat {
        match self {
            LogLevel::Error => 0,
            LogLevel::Info => 1,
            LogLevel::Warn => 2,
            LogLevel::Debug => 3,
            LogLevel::Verbose => 4,
        }
    }

    /// The position of the level as a number.
    pub fn value(self) -> (r: u8)
        ensures
            r as nat == self.rank(),
    {
        match self {
            LogLevel::Error => 0,
            LogLevel::Info => 1,
            LogLevel::Warn => 2,
            LogLevel::Debug => 3,
            LogLevel::Verbose => 4,
        }
    }

    /// The label that starts every line of this level.
    pub fn label(self) -> (r: &'static str)
        ensures
            r@ == self.label_spec(),
    {
        match self {
            LogLevel::Error => "ERR",
            LogLevel::Info => "INFO",
            LogLevel::Warn => "WARN",
            LogLevel::Debug => "DEBUG",
            LogLevel::Verbose => "VERBOSE",
        }
    }

    pub open spec fn label_spec(self) -> Seq<char> {
        match self {
            LogLevel::Error => "ERR"@,
            LogLevel::Info => "INFO"@,
            LogLevel::Warn => "WARN"@,
            LogLevel::Debug => "DEBUG"@,
            LogLevel::Verbose => "VERBOSE"@,
        }
    }
}

/// A log line ready to be written: its text, and whether it belongs on the
/// error stream rather than on standard output.
#[derive(Debug, Clone, PartialEq, Eq)]
pub struct LogLine {
    pub to_stderr: bool,
    pub text: String,
}

/// The logger's fixed configuration and its entry points.
pub struct ILog;

/// Whether logging is switched on at all.
pub const ENABLE_LOGGING: bool = true;

/// The most detailed level that is still emitted.
pub open spec fn configured_level() -> LogLevel {
    LogLevel::Debug
}

/// Whether a message of `level` is emitted.
pub open spec fn emits(level: LogLevel) -> bool {
    ENABLE_LOGGING && level.rank() <= configured_level().rank()
}

/// The text of a line: `LEVEL::tag: msg`.
pub open spec fn line_text(level: LogLevel, tag: Seq<char>, msg: Seq<char>) -> Seq<char> {
    level.label_spec() + "::"@ + tag + ": "@ + msg
}

/// What logging `msg` under `tag` at `level` produces.
pub open spec fn log_outcome(level: LogLevel, tag: Seq<char>, msg: Seq<char>, r: Option<LogLine>) -> bool {
    &&& r is Some <==> emits(level)
    &&& r matches Some(line) ==> {
        &&& line.text@ == line_text(level, tag, msg)
        &&& line.to_stderr == (level == LogLevel::Error)
    }
}

impl ILog {
    /// The most detailed level that is still emitted.
    pub fn log_level() -> (r: LogLevel)
        ensures
            r == configured_level(),
    {
        LogLevel::Debug
    }

    /// A debug message.
    pub fn d(tag: &str, msg: &str) -> (r: Option<LogLine>)
        ensures
            log_outcome(LogLevel::Debug, tag@, msg@, r),
    {
        Self::print(LogLevel::Debug, tag, msg)
    }

    /// An informational message.
    pub fn i(tag: &str, msg: &str) -> (r: Option<LogLine>)
        ensures
            log_outcome(LogLevel::Info, tag@, msg@, r),
    {
        Self::print(LogLevel::Info, tag, msg)
    }

    /// A warning.
    pub fn w(tag: &str, msg: &str) -> (r: Option<LogLine>)
        ensures
            log_outcome(LogLevel::Warn, tag@, msg@, r),
    {
        Self::print(LogLevel::Warn, tag, msg)
    }

    /// An error.
    pub fn e(tag: &str, msg: &str) -> (r: Option<LogLine>)
        ensures
            log_outcome(LogLevel::Error, tag@, msg@, r),
    {
        Self::print(LogLevel::Error, tag, msg)
    }

    /// A verbose message, emitted only when the configured level reaches
    /// `Verbose`.
    pub fn v(tag: &str, msg: &str) -> (r: Option<LogLine>)
        ensures
            log_outcome(LogLevel::Verbose, tag@, msg@, r),
    {
        if !ENABLE_LOGGING {
            return None;
        }
        if Self::log_level().value() < LogLevel::Verbose.value() {
            return None;
        }
        Self::print(LogLevel::Verbose, tag, msg)
    }

    fn print(level: LogLevel, tag: &str, msg: &str) -> (r: Option<LogLine>)
        ensures
            log_outcome(level, tag@, msg@, r),
    {
        if !ENABLE_LOGGING {
            return None;
        }
        if Self::log_level().value() < level.value() {
            return None;
        }
        let mut text: Vec<char> = Vec::new();
        push_str_chars(&mut text, level.label());
        push_str_chars(&mut text, "::");
        push_str_chars(&mut text, tag);
        push_str_chars(&mut text, ": ");
        push_str_chars(&mut text, msg);
        let to_stderr = match level {
            LogLevel::Error => true,
            _ => false,
        };
        Some(LogLine { to_stderr, text: string_from_chars(text.as_slice()) })
    }
}

/// Verbose messages are never emitted under the configured level, and every
/// other level is.
pub proof fn verbose_is_silenced(level: LogLevel)
    ensures
        emits(level) <==> level != LogLevel::Verbose,
{
}

} // verus!
