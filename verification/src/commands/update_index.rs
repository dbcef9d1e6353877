//! Registering the contents of files in the index.

use crate::options::ChmodFlag;
use vstd::prelude::*;

verus! {

/// The arguments of the command.
#[derive(Debug, Clone, PartialEq, Eq)]
pub struct UpdateIndexArgs {
    pub add: bool,
    pub remove: bool,
    pub refresh: bool,
    pub quiet: bool,
    pub chmod: Option<ChmodFlag>,
    pub files: Vec<String>,
}

/// The command.
#[derive(Debug, Clone, PartialEq, Eq)]
pub struct UpdateIndexCommand {
    pub args: UpdateIndexArgs,
}

impl UpdateIndexCommand {
    /// The command for the arguments.
    pub fn new(args: UpdateIndexArgs) -> (cmd: UpdateIndexCommand)
        ensures
            cmd.args == args,
    {
        UpdateIndexCommand { args }
    }

    /// The files that the command is to register.
    pub fn files(&self) -> (files: &Vec<String>)
        ensures
            files@ == self.args.files@,
    {
        &self.args.files
    }
}

} // verus!
