//! The command-line surface of the program: which subcommand was asked
//! for. Argument parsing itself happens outside the library; the parsed
//! result is handed over in these types.

use vstd::prelude::*;

verus! {

/// The parsed command line.
#[derive(Debug)]
pub struct Cli {
    pub command: Option<Command>,
}

/// A subcommand of the program.
#[derive(Debug, PartialEq, Eq, Structural, Clone, Copy)]
pub enum Command {
    /// Initialize configuration.
    Init,
}

} // verus!
