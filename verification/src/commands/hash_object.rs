//! Computing the id of an object and storing it.

use crate::error::GitErrorKind;
use crate::error::RustGitError;
use crate::object::id::GitObjectId;
use crate::object::raw::object_id_of;
use crate::object::raw::GitObjectType;
use crate::object_store::can_store;
use crate::object_store::STORE_ERR;
use crate::object_store::LooseObject;
use crate::repo::GitRepo;
use vstd::prelude::*;

verus! {

/// The arguments of the command.
#[derive(Debug, Clone, PartialEq, Eq)]
pub struct HashObjectArgs {
    pub object_type: GitObjectType,
    /// Write the object into the object store.
    pub write: bool,
    /// Read the object from the standard input.
    pub stdin: bool,
    /// Read the names of the files from the standard input.
    pub stdin_paths: bool,
    pub path: Option<String>,
    pub no_filters: bool,
    pub literally: bool,
    pub files: Vec<String>,
}

/// The command.
#[derive(Debug, Clone, PartialEq, Eq)]
pub struct HashObjectCommand {
    pub args: HashObjectArgs,
}

/// From where the command takes what it hashes, in order.
#[derive(Debug, Clone, Copy, PartialEq, Eq, Structural)]
pub struct HashSources {
    /// The files that the standard input names, one a line.
    pub files_named_on_stdin: bool,
    /// The standard input itself.
    pub stdin: bool,
    /// The files among the arguments, always.
    pub files: bool,
}

/// The option that stands in the way of the command, if one does.
pub open spec fn unsupported_option(args: HashObjectArgs) -> bool {
    args.no_filters || args.path is Some || args.literally
}

/// What the refusal of the command says: the first option that is not
/// implemented.
pub open spec fn unsupported_text(args: HashObjectArgs) -> Seq<char> {
    if args.no_filters {
        "--no-filters not supported"@
    } else if args.path is Some {
        "--path not supported"@
    } else {
        "--literally not supported"@
    }
}

impl HashObjectCommand {
    /// The command for the arguments.
    pub fn new(args: HashObjectArgs) -> (cmd: HashObjectCommand)
        ensures
            cmd.args == args,
    {
        HashObjectCommand { args }
    }

    /// Refuses the options that are not implemented.
    pub fn execute(&self) -> (r: Result<(), RustGitError>)
        ensures
            match r {
                Ok(()) => !unsupported_option(self.args),
                Err(e) => unsupported_option(self.args) && e.kind == GitErrorKind::Unsupported
                    && e.error@ == unsupported_text(self.args),
            },
    {
        if self.args.no_filters {
            return Err(RustGitError::with_kind(GitErrorKind::Unsupported, "--no-filters not supported"));
        }
        if self.args.path.is_some() {
            return Err(RustGitError::with_kind(GitErrorKind::Unsupported, "--path not supported"));
        }
        if self.args.literally {
            return Err(RustGitError::with_kind(GitErrorKind::Unsupported, "--literally not supported"));
        }
        Ok(())
    }

    /// From where the command takes what it hashes: the files that the
    /// standard input names where that is asked for, else the standard
    /// input where that is asked for; and the files among the arguments.
    pub fn collect_items_to_hash(&self) -> (sources: HashSources)
        ensures
            sources.files_named_on_stdin == self.args.stdin_paths,
            sources.stdin == (!self.args.stdin_paths && self.args.stdin),
            sources.files,
    {
        HashSources {
            files_named_on_stdin: self.args.stdin_paths,
            stdin: !self.args.stdin_paths && self.args.stdin,
            files: true,
        }
    }

    /// The id of one item and, where it is to be written, its file. It
    /// fails where the item is to be written and cannot be stored, and only
    /// there.
    pub fn hash_one(&self, repo: &GitRepo, contents: Vec<u8>) -> (r: Result<
        (GitObjectId, Option<LooseObject>),
        RustGitError,
    >)
        ensures
            match r {
                Ok((id, file)) => {
                    &&& id@ == object_id_of(self.args.object_type, contents@)
                    &&& id.is_valid()
                    &&& match file {
                        None => !self.args.write,
                        Some(f) => self.args.write && f.is_file_of(
                            repo.obj_store.obj_dir@,
                            self.args.object_type,
                            contents@,
                        ),
                    }
                },
                Err(e) => self.args.write && e.kind == GitErrorKind::Io && e.error@ == STORE_ERR@
                    && !can_store(self.args.object_type, contents@),
            },
    {
        repo.hash_obj(self.args.object_type, contents, self.args.write)
    }
}

} // verus!
