//! The command-line surface the engine is driven by, as plain data. Parsing
//! the process arguments into these values belongs to the caller.

use vstd::prelude::*;

verus! {

/// One invocation's sub-command.
pub enum Command {
    /// Wire the script directory into the shell or the user environment.
    Init {},
    /// Bind an alias to a command in a group.
    SetCmd { alias: String, command: String, group: String },
    /// Unbind an alias from a group.
    RemoveCmd { alias: String, group: String },
    /// Show every alias.
    List {},
    /// Empty the settings document.
    Clear {},
    /// Write the whole document to an external file.
    Export { export_path: String },
    /// Replace the whole document from an external file and rebuild.
    Import { import_path: String },
    /// Regenerate every alias script from the settings document, read from
    /// the given path where one is named.
    Rebuild { path: Option<String> },
}

/// The parsed command line: the sub-command, an optional settings path, and
/// the repeatable `key=value` runtime variable definitions.
pub struct Cli {
    pub command: Command,
    pub setting_path: Option<String>,
    pub runtime_variables: Vec<String>,
}

} // verus!
