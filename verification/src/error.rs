//! The error type of the shared layer. Failures that come from outside the
//! library (an I/O error, a TOML parse error) arrive as their rendered
//! messages.

use vstd::prelude::*;

verus! {

/// One error type for the shared layer.
#[derive(Debug)]
pub enum CoreError {
    /// `$HOME` could not be resolved.
    NoHome,
    /// An I/O failure at a path.
    Io { path: String, message: String },
    /// A config file that is not valid TOML.
    ConfigParse { path: String, message: String },
    /// A config that could not be serialised.
    ConfigSerialize(String),
    /// A wire-protocol failure.
    Ipc(String),
    /// A validation failure with a message already written for the user.
    Message(String),
    /// A JSON failure.
    Json(String),
}

impl CoreError {
    /// Attach a path to an I/O failure message.
    pub fn io(path: String, message: String) -> (r: CoreError)
        ensures
            r == (CoreError::Io { path, message }),
    {
        CoreError::Io { path, message }
    }
}

} // verus!
