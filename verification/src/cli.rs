use vstd::prelude::*;

verus! {

/// The command line of the vault tool.
pub struct Cli {
    pub cmd: Cmd,
}

/// The subcommands of the vault tool.
pub enum Cmd {
    /// Initialize a new vault
    Init,
    /// Add a new password to the vault
    Add { service: String, password: String },
    /// Retrieve a password from the vault
    Get { service: String },
    /// List all the services stored in the vault
    List,
}

} // verus!
