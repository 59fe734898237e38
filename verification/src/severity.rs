//! Severities of Cloud Logging and how an event gets one.

use vstd::prelude::*;
use crate::text::{eq_ignore_ascii_case, lowered};
use crate::value::{FieldValue, Scalar};

verus! {

/// The verbosity level that the instrumentation gives an event.
#[derive(Clone, Copy, Debug, PartialEq, Eq, Structural)]
pub enum Level {
    Trace,
    Debug,
    Info,
    Warn,
    Error,
}

/// The severity of a log entry, as Cloud Logging names it.
#[derive(Clone, Copy, Debug, PartialEq, Eq, Structural)]
pub enum LogSeverity {
    /// The entry has no assigned severity.
    Default,
    /// Debug or trace information.
    Debug,
    /// Routine information, such as ongoing status or performance.
    Info,
    /// Normal but significant events.
    Notice,
    /// Events that might cause problems.
    Warning,
    /// Events that are likely to cause problems.
    Error,
    /// Events that cause more severe problems or outages.
    Critical,
    /// A person must take an action immediately.
    Alert,
    /// One or more systems are unusable.
    Emergency,
}

impl LogSeverity {
    /// The severity of each level: trace and debug are both `Debug`.
    pub open spec fn of_level(level: Level) -> LogSeverity {
        match level {
            Level::Trace => LogSeverity::Debug,
            Level::Debug => LogSeverity::Debug,
            Level::Info => LogSeverity::Info,
            Level::Warn => LogSeverity::Warning,
            Level::Error => LogSeverity::Error,
        }
    }

    /// The name of the severity, in capitals.
    pub open spec fn name(self) -> Seq<char> {
        match self {
            LogSeverity::Default => "DEFAULT"@,
            LogSeverity::Debug => "DEBUG"@,
            LogSeverity::Info => "INFO"@,
            LogSeverity::Notice => "NOTICE"@,
            LogSeverity::Warning => "WARNING"@,
            LogSeverity::Error => "ERROR"@,
            LogSeverity::Critical => "CRITICAL"@,
            LogSeverity::Alert => "ALERT"@,
            LogSeverity::Emergency => "EMERGENCY"@,
        }
    }

    /// Whether `text` is the name of `self` in some mix of upper and lower
    /// case.
    pub open spec fn is_named(self, text: Seq<char>) -> bool {
        lowered(text) == lowered(self.name())
    }

    /// The severity that `text` names, whatever its case; `Default` where it
    /// names none.
    pub open spec fn parsed(text: Seq<char>) -> LogSeverity {
        if LogSeverity::Debug.is_named(text) {
            LogSeverity::Debug
        } else if LogSeverity::Info.is_named(text) {
            LogSeverity::Info
        } else if LogSeverity::Notice.is_named(text) {
            LogSeverity::Notice
        } else if LogSeverity::Warning.is_named(text) {
            LogSeverity::Warning
        } else if LogSeverity::Error.is_named(text) {
            LogSeverity::Error
        } else if LogSeverity::Critical.is_named(text) {
            LogSeverity::Critical
        } else if LogSeverity::Alert.is_named(text) {
            LogSeverity::Alert
        } else if LogSeverity::Emergency.is_named(text) {
            LogSeverity::Emergency
        } else {
            LogSeverity::Default
        }
    }

    /// The severity that an overriding field value asks for: the one that a
    /// string names, `Default` for any other value.
    pub open spec fn of_value(value: Scalar) -> LogSeverity {
        match value {
            Scalar::Str(s) => LogSeverity::parsed(s),
            _ => LogSeverity::Default,
        }
    }

    /// The severity of an event of the given level whose fields hold the
    /// given override, if any. The override takes precedence over the level.
    pub open spec fn resolved(level: Level, overriding: Option<Scalar>) -> LogSeverity {
        match overriding {
            Some(value) => LogSeverity::of_value(value),
            None => LogSeverity::of_level(level),
        }
    }

    /// See [`LogSeverity::of_level`].
    pub fn from_level(level: Level) -> (r: LogSeverity)
        ensures
            r == LogSeverity::of_level(level),
    {
        match level {
            Level::Trace => LogSeverity::Debug,
            Level::Debug => LogSeverity::Debug,
            Level::Info => LogSeverity::Info,
            Level::Warn => LogSeverity::Warning,
            Level::Error => LogSeverity::Error,
        }
    }

    /// See [`LogSeverity::name`].
    pub fn as_str(&self) -> (r: &'static str)
        ensures
            r@ == self.name(),
    {
        match self {
            LogSeverity::Default => "DEFAULT",
            LogSeverity::Debug => "DEBUG",
            LogSeverity::Info => "INFO",
            LogSeverity::Notice => "NOTICE",
            LogSeverity::Warning => "WARNING",
            LogSeverity::Error => "ERROR",
            LogSeverity::Critical => "CRITICAL",
            LogSeverity::Alert => "ALERT",
            LogSeverity::Emergency => "EMERGENCY",
        }
    }

    /// See [`LogSeverity::parsed`].
    pub fn parse(text: &str) -> (r: LogSeverity)
        ensures
            r == LogSeverity::parsed(text@),
    {
        if eq_ignore_ascii_case(text, "DEBUG") {
            LogSeverity::Debug
        } else if eq_ignore_ascii_case(text, "INFO") {
            LogSeverity::Info
        } else if eq_ignore_ascii_case(text, "NOTICE") {
            LogSeverity::Notice
        } else if eq_ignore_ascii_case(text, "WARNING") {
            LogSeverity::Warning
        } else if eq_ignore_ascii_case(text, "ERROR") {
            LogSeverity::Error
        } else if eq_ignore_ascii_case(text, "CRITICAL") {
            LogSeverity::Critical
        } else if eq_ignore_ascii_case(text, "ALERT") {
            LogSeverity::Alert
        } else if eq_ignore_ascii_case(text, "EMERGENCY") {
            LogSeverity::Emergency
        } else {
            LogSeverity::Default
        }
    }

    /// See [`LogSeverity::of_value`].
    pub fn from_value(value: &FieldValue) -> (r: LogSeverity)
        ensures
            r == LogSeverity::of_value(value@),
    {
        match value {
            FieldValue::Str(s) => LogSeverity::parse(s.as_str()),
            _ => LogSeverity::Default,
        }
    }

    /// See [`LogSeverity::resolved`].
    pub fn resolve(level: Level, overriding: Option<&FieldValue>) -> (r: LogSeverity)
        ensures
            r == LogSeverity::resolved(
                level,
                match overriding {
                    Some(v) => Some(v@),
                    None => None,
                },
            ),
    {
        match overriding {
            Some(value) => LogSeverity::from_value(value),
            None => LogSeverity::from_level(level),
        }
    }
}

/// Parsing the name of a severity gives that severity back.
pub proof fn lemma_parse_name(severity: LogSeverity)
    ensures
        LogSeverity::parsed(severity.name()) == severity,
{
    reveal_strlit("DEFAULT");
    reveal_strlit("DEBUG");
    reveal_strlit("INFO");
    reveal_strlit("NOTICE");
    reveal_strlit("WARNING");
    reveal_strlit("ERROR");
    reveal_strlit("CRITICAL");
    reveal_strlit("ALERT");
    reveal_strlit("EMERGENCY");
    let n = severity.name();
    assert(lowered("DEFAULT"@).len() == 7);
    assert(lowered("DEBUG"@).len() == 5);
    assert(lowered("INFO"@).len() == 4);
    assert(lowered("NOTICE"@).len() == 6);
    assert(lowered("WARNING"@).len() == 7);
    assert(lowered("ERROR"@).len() == 5);
    assert(lowered("CRITICAL"@).len() == 8);
    assert(lowered("ALERT"@).len() == 5);
    assert(lowered("EMERGENCY"@).len() == 9);
    assert(lowered("DEFAULT"@)[2] == 'f');
    assert(lowered("WARNING"@)[2] == 'r');
    assert(lowered("DEBUG"@)[0] == 'd');
    assert(lowered("ERROR"@)[0] == 'e');
    assert(lowered("ALERT"@)[0] == 'a');
}

} // verus!
