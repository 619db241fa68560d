//! What can be asked for on the command line.

use vstd::prelude::*;

verus! {

/// The command line as a whole. Without a command the server runs.
#[derive(Debug)]
pub struct Cli {
    pub command: Option<Command>,
}

/// The commands.
#[derive(Debug)]
pub enum Command {
    /// User management.
    Users { action: UserAction },
    /// Print the reference of the configuration files.
    Config,
}

/// The actions of user management.
#[derive(Debug)]
pub enum UserAction {
    /// Add a user with a password.
    Add { name: String },
    /// Add a user whose password is set by the first login.
    AddInit { name: String },
    /// Change a password.
    SetPassword { name: String },
    /// Remove a user; `yes` skips the confirmation.
    Remove { name: String, yes: bool },
    /// List the users, never the hashes.
    List,
    /// Let a user log in again.
    Enable { name: String },
    /// Refuse a user, indistinguishably from an unknown one.
    Disable { name: String },
    /// Let a user's traffic leave from this server.
    Direct { name: String },
    /// Send a user's traffic through the upstream proxies.
    Pool { name: String },
}

} // verus!
