//! The command set of the tool: what an invocation asks for, as plain data.
//! Argument parsing lives outside the library and hands one of these in.

use vstd::prelude::*;

verus! {

/// One invocation's request.
#[derive(Debug)]
pub struct Envy {
    pub cmd: Command,
}

/// The commands the tool understands.
#[derive(Debug)]
pub enum Command {
    /// Export environment variables based on the current directory.
    Export { shell: String },
    /// Print the hook to activate the tool for a shell.
    Hook { shell: String },
    /// Edit the config file.
    Edit,
    /// Show the config for the current directory.
    Show,
    /// Find a single environment variable and print its value.
    Find { variable: String },
    /// Print the path to the config file.
    Path,
    /// Load environment variables from a given `.env` file, for the current
    /// session only.
    Load { env_file: String },
    /// Grant loading of the given `.env` file.
    Allow { env_file: String },
    /// Revoke the authorization of a given `.env` file.
    Deny { env_file: String },
}

} // verus!
