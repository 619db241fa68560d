//! The command line: user management and the choice of what to run.
//!
//! Passwords are never taken as flags, only from a prompt without echo, so
//! that they do not end up in the shell history or a process listing.

pub mod app;
pub mod run_user_command;
pub mod user_op;

pub use app::{Cli, Command, UserAction};
pub use run_user_command::run_user_command;
