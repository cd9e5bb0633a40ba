//! The command-line surface as plain data. Flag parsing itself lives with
//! the command-line layer; these are the values it hands over.

use vstd::prelude::*;

verus! {

/// One invocation's parsed command line.
#[derive(Debug)]
pub struct Cli {
    pub command: Commands,
}

/// The commands and their flags.
#[derive(Debug)]
pub enum Commands {
    Generate { dry_run: bool, overwrite: bool, force: bool, watch: bool },
    Init { from: Option<String> },
    Merge { from: Option<String> },
    Diff { tool: Option<String> },
    Validate,
}

} // verus!
