//! The command-line surface, as the verified core sees it: a plain record of
//! the choices the user made. The argument parsing itself is an unverified
//! shim around the crate; it fills this record and hands it over.

use vstd::prelude::*;

verus! {

/// Available subcommands.
#[derive(Clone, Copy, Debug, PartialEq, Eq, Structural)]
pub enum Commands {
    /// Initialize an example config.
    Init,
}

/// The command-line choices: an optional path to a different configuration
/// file, and an optional subcommand.
#[derive(Debug)]
pub struct Cli {
    /// Path to a different configuration file.
    pub config: Option<String>,
    /// Subcommand to run instead of the viewer.
    pub command: Option<Commands>,
}

} // verus!
