//! Severity levels for the driver's diagnostics. Formatting and printing
//! belong to the driver; the core only names the level.

use vstd::prelude::*;
use vstd::string::StringExecFns;

verus! {

#[derive(Debug, PartialEq, Eq, Structural, Clone, Copy)]
pub enum MessageType {
    Warning,
    Info,
    Error,
}

/// The label of a severity level.
pub open spec fn message_label(m: MessageType) -> Seq<char> {
    match m {
        MessageType::Warning => "Warning"@,
        MessageType::Info => "Info"@,
        MessageType::Error => "Error"@,
    }
}

impl MessageType {
    /// The label this level prints as.
    pub fn text(&self) -> (r: String)
        ensures
            r@ == message_label(*self),
    {
        match self {
            MessageType::Warning => String::from_str("Warning"),
            MessageType::Info => String::from_str("Info"),
            MessageType::Error => String::from_str("Error"),
        }
    }
}

} // verus!
