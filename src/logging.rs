//! Severity levels of the kernel's serial log.

use vstd::prelude::*;

verus! {

#[derive(Debug, Clone, Copy, PartialEq, Eq, Structural)]
pub enum SerialLoggingLevel {
    Debug,
    Info,
    Warning,
    Error,
    Panic,
}

impl SerialLoggingLevel {
    /// The tag printed before a message of this level.
    pub fn as_str(&self) -> (r: &'static str)
        ensures
            *self is Debug ==> r@ == "DEBUG"@,
            *self is Info ==> r@ == "INFO"@,
            *self is Warning ==> r@ == "WARNING"@,
            *self is Error ==> r@ == "ERROR"@,
            *self is Panic ==> r@ == "PANIC"@,
    {
        match self {
            SerialLoggingLevel::Debug => "DEBUG",
            SerialLoggingLevel::Info => "INFO",
            SerialLoggingLevel::Warning => "WARNING",
            SerialLoggingLevel::Error => "ERROR",
            SerialLoggingLevel::Panic => "PANIC",
        }
    }
}

} // verus!
