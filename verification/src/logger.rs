//! Log levels and the gating rule of the process-wide logger.
//!
//! The logger itself — timestamping, the console and file sinks, the shared
//! singleton — lives outside this crate; what is specified here is the
//! severity order of the levels, the rule deciding which messages a
//! configured level lets through, and the level names that appear in every
//! log line.

use vstd::prelude::*;

verus! {

/// Message severities, least severe first.
#[allow(non_camel_case_types)]
#[derive(PartialEq, Eq, Structural, Clone, Copy, Debug)]
pub enum LogLevel {
    DEBUG,
    INFO,
    WARNING,
    ERROR,
    CRITICAL,
}

/// The rank of a level in the severity order.
pub open spec fn spec_severity(level: LogLevel) -> int {
    match level {
        LogLevel::DEBUG => 0,
        LogLevel::INFO => 1,
        LogLevel::WARNING => 2,
        LogLevel::ERROR => 3,
        LogLevel::CRITICAL => 4,
    }
}

/// The rank of a level in the severity order.
pub fn severity(level: LogLevel) -> (s: u8)
    ensures
        s == spec_severity(level),
{
    match level {
        LogLevel::DEBUG => 0,
        LogLevel::INFO => 1,
        LogLevel::WARNING => 2,
        LogLevel::ERROR => 3,
        LogLevel::CRITICAL => 4,
    }
}

/// Whether a message at `level` is written when the logger is configured at
/// `current`: exactly the messages at least as severe as the configuration.
pub fn should_log(level: LogLevel, current: LogLevel) -> (write: bool)
    ensures
        write <==> spec_severity(level) >= spec_severity(current),
{
    severity(level) >= severity(current)
}

/// The name a level prints under.
pub fn level_to_string(level: LogLevel) -> (name: &'static str)
    ensures
        match level {
            LogLevel::DEBUG => name@ == "DEBUG"@,
            LogLevel::INFO => name@ == "INFO"@,
            LogLevel::WARNING => name@ == "WARNING"@,
            LogLevel::ERROR => name@ == "ERROR"@,
            LogLevel::CRITICAL => name@ == "CRITICAL"@,
        },
{
    match level {
        LogLevel::DEBUG => "DEBUG",
        LogLevel::INFO => "INFO",
        LogLevel::WARNING => "WARNING",
        LogLevel::ERROR => "ERROR",
        LogLevel::CRITICAL => "CRITICAL",
    }
}

} // verus!
