//! Writing the index as a tree.

use vstd::prelude::*;

verus! {

/// The arguments of the command.
#[derive(Debug, Clone, PartialEq, Eq)]
pub struct WriteTreeArgs {
    pub missing_ok: bool,
    pub prefix: Option<String>,
}

/// The command.
#[derive(Debug, Clone, Copy, PartialEq, Eq, Structural)]
pub struct WriteTreeCommand {}

impl WriteTreeCommand {
    /// The command for the arguments.
    pub fn new(_args: WriteTreeArgs) -> (cmd: WriteTreeCommand)
        ensures
            cmd == (WriteTreeCommand {  }),
    {
        WriteTreeCommand {  }
    }
}

} // verus!
