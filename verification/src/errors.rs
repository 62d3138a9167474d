//! The failures the library reports. Every failure is terminal for the
//! current invocation and carries a human-readable description.

use vstd::prelude::*;
use vstd::string::*;

verus! {

/// The failure kinds of the environment resolution core.
#[derive(Debug)]
pub enum EnvyError {
    /// An operand path does not exist; carries the path.
    FileNotFound(String),
    /// A file could not be opened or decoded as text; carries the path.
    FileReadError(String),
    /// A path cannot be represented as interpreter-compatible text.
    InvalidPathEncoding,
    /// The persisted allow-list is present but malformed; carries detail.
    ConfigDeserializeError(String),
    /// The script interpreter is missing on this host.
    InterpreterUnavailable,
    /// A context script exited with non-zero status; carries the captured
    /// diagnostic text.
    ScriptExecutionError(String),
    /// The requested output dialect is not implemented; carries its name.
    UnsupportedShell(String),
}

impl EnvyError {
    /// The human-readable description of the failure.
    pub open spec fn message_spec(&self) -> Seq<char> {
        match self {
            EnvyError::FileNotFound(p) => "File does not exist: "@ + p@,
            EnvyError::FileReadError(p) => "Cannot read env file: "@ + p@,
            EnvyError::InvalidPathEncoding => "Invalid path encoding for .envrc file"@,
            EnvyError::ConfigDeserializeError(d) => "Cannot deserialize config: "@ + d@,
            EnvyError::InterpreterUnavailable => "bash is not available on this system"@,
            EnvyError::ScriptExecutionError(d) => "Bash script execution failed: "@ + d@,
            EnvyError::UnsupportedShell(s) => s@ + " is currently not supported"@,
        }
    }

    /// Renders the failure as text.
    pub fn message(&self) -> (r: String)
        ensures
            r@ == self.message_spec(),
    {
        match self {
            EnvyError::FileNotFound(p) => String::from_str("File does not exist: ").concat(
                p.as_str(),
            ),
            EnvyError::FileReadError(p) => String::from_str("Cannot read env file: ").concat(
                p.as_str(),
            ),
            EnvyError::InvalidPathEncoding => String::from_str(
                "Invalid path encoding for .envrc file",
            ),
            EnvyError::ConfigDeserializeError(d) => String::from_str(
                "Cannot deserialize config: ",
            ).concat(d.as_str()),
            EnvyError::InterpreterUnavailable => String::from_str(
                "bash is not available on this system",
            ),
            EnvyError::ScriptExecutionError(d) => String::from_str(
                "Bash script execution failed: ",
            ).concat(d.as_str()),
            EnvyError::UnsupportedShell(s) => s.clone().concat(" is currently not supported"),
        }
    }
}

} // verus!
