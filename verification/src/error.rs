//! The ways in which formatting an event can fail.

use vstd::prelude::*;

verus! {

/// Why an event could not be formatted. Whatever the kind, no part of the
/// line has been handed out.
#[derive(Clone, Copy, Debug, PartialEq, Eq, Structural)]
pub enum FormatError {
    /// The formatter that receives the line reported a fault.
    Formatting,
    /// A value could not be encoded as JSON.
    Serialization,
    /// Writing to the output sink failed.
    Io,
    /// The timestamp could not be rendered.
    Time,
}

impl FormatError {
    /// The text that describes each kind of failure.
    pub open spec fn description(self) -> Seq<char> {
        match self {
            FormatError::Formatting => "formatting error"@,
            FormatError::Serialization => "JSON serialization error"@,
            FormatError::Io => "I/O error"@,
            FormatError::Time => "Time formatting error"@,
        }
    }

    /// A short description of the failure.
    pub fn message(&self) -> (r: &'static str)
        ensures
            r@ == self.description(),
    {
        match self {
            FormatError::Formatting => "formatting error",
            FormatError::Serialization => "JSON serialization error",
            FormatError::Io => "I/O error",
            FormatError::Time => "Time formatting error",
        }
    }
}

} // verus!
