//! Listing, creating, renaming and deleting branches.

use crate::error::GitErrorKind;
use crate::error::RustGitError;
use crate::object::id::GitObjectId;
use crate::path::joined;
use crate::refs::branch_ref;
use crate::refs::head_name;
use crate::refs::is_valid_name;
use crate::refs::invalid_name_text;
use crate::refs::no_branch_text;
use crate::refs::symbolic_mark;
use crate::refs::GitRefs;
use crate::refs::RefWrite;
use vstd::prelude::*;
use vstd::string::*;
use vstd::utf8::*;

verus! {

/// The arguments of the command.
#[derive(Debug, Clone, PartialEq, Eq)]
pub struct BranchArgs {
    pub branch_name: Option<String>,
    pub new_branch: Option<String>,
    pub delete: bool,
    pub move_flag: bool,
}

/// A branch of this name is made at the commit of HEAD.
#[derive(Debug, Clone, PartialEq, Eq)]
pub struct CreateBranch {
    pub branch_name: String,
}

/// The branch of HEAD gets this name.
#[derive(Debug, Clone, PartialEq, Eq)]
pub struct RenameBranch {
    pub new_branch_name: String,
}

/// The branch of this name is deleted.
#[derive(Debug, Clone, PartialEq, Eq)]
pub struct DeleteBranch {
    pub branch_name: String,
}

/// The command.
#[derive(Debug, Clone, PartialEq, Eq)]
pub enum BranchCommand {
    ListBranches(),
    CreateBranch(CreateBranch),
    RenameBranch(RenameBranch),
    DeleteBranch(DeleteBranch),
}

/// What the command does to the references.
#[derive(Debug, Clone, PartialEq, Eq)]
pub enum BranchAction {
    /// The names of the branches are printed.
    List,
    /// A reference is written.
    Write(RefWrite),
    /// The file of a reference is moved from the first path to the second,
    /// and HEAD is written.
    Rename(Vec<u8>, Vec<u8>, RefWrite),
    /// The file of a reference is removed.
    Delete(Vec<u8>),
}

impl BranchCommand {
    /// `r` is what the arguments make: deleting and renaming need the
    /// name of a branch; with a name alone a branch is created, and without
    /// one the branches are listed.
    pub open spec fn made(args: BranchArgs, r: Result<BranchCommand, RustGitError>) -> bool {
        match r {
            Ok(cmd) => cmd == (match args.branch_name {
                Some(branch_name) => if args.delete {
                    BranchCommand::DeleteBranch(DeleteBranch { branch_name })
                } else if args.move_flag {
                    BranchCommand::RenameBranch(RenameBranch { new_branch_name: branch_name })
                } else {
                    BranchCommand::CreateBranch(CreateBranch { branch_name })
                },
                None => BranchCommand::ListBranches(),
            }) && (args.branch_name is None ==> !args.delete && !args.move_flag),
            Err(e) => args.branch_name is None && (args.delete || args.move_flag) && e.kind
                == GitErrorKind::Usage && e.error@ == (if args.delete {
                "expected branch name for deletion"@
            } else {
                "expected branch name for move"@
            }),
        }
    }

    /// The command for the arguments.
    pub fn new(args: BranchArgs) -> (r: Result<BranchCommand, RustGitError>)
        ensures
            Self::made(args, r),
    {
        if args.delete {
            if let Some(branch_name) = args.branch_name {
                return Ok(BranchCommand::DeleteBranch(DeleteBranch { branch_name }));
            } else {
                return Err(
                    RustGitError::with_kind(GitErrorKind::Usage, "expected branch name for deletion"),
                );
            }
        }
        if args.move_flag {
            if let Some(branch_name) = args.branch_name {
                return Ok(
                    BranchCommand::RenameBranch(RenameBranch { new_branch_name: branch_name }),
                );
            } else {
                return Err(RustGitError::with_kind(GitErrorKind::Usage, "expected branch name for move"));
            }
        }
        if let Some(branch_name) = args.branch_name {
            Ok(BranchCommand::CreateBranch(CreateBranch { branch_name }))
        } else {
            Ok(BranchCommand::ListBranches())
        }
    }

    /// What the command does to the references, given the branch of HEAD
    /// and the commit that it holds, where there are such, and whether the
    /// branch to delete exists. A new branch points to the commit of HEAD
    /// and needs one; renaming moves the branch of HEAD, needs one, and
    /// points HEAD at the new name.
    pub fn execute(
        &self,
        refs: &GitRefs,
        head_branch: Option<&Vec<u8>>,
        head_ref: Option<&GitObjectId>,
        exists: bool,
    ) -> (r: Result<BranchAction, RustGitError>)
        ensures
            match (*self, r) {
                (BranchCommand::ListBranches(), Ok(BranchAction::List)) => true,
                (BranchCommand::CreateBranch(c), Ok(BranchAction::Write(w))) => {
                    &&& head_ref is Some
                    &&& is_valid_name(encode_utf8(c.branch_name@))
                    &&& w.path@ == joined(refs.heads_dir@, encode_utf8(c.branch_name@))
                    &&& w.value@ == head_ref->0@
                },
                (BranchCommand::CreateBranch(c), Err(e)) => if head_ref is None {
                    e.kind == GitErrorKind::UnknownRef && e.error@ == "failed to load HEAD"@
                } else {
                    !is_valid_name(encode_utf8(c.branch_name@)) && e.kind
                        == GitErrorKind::InvalidName && e.says(
                        invalid_name_text(encode_utf8(c.branch_name@)),
                    )
                },
                (BranchCommand::RenameBranch(c), Ok(BranchAction::Rename(from, to, head))) => {
                    &&& head_branch is Some
                    &&& is_valid_name(encode_utf8(c.new_branch_name@))
                    &&& from@ == joined(refs.git_dir@, head_branch->0@)
                    &&& to@ == joined(refs.heads_dir@, encode_utf8(c.new_branch_name@))
                    &&& head.path@ == joined(refs.git_dir@, head_name())
                    &&& head.value@ == symbolic_mark() + branch_ref(
                        encode_utf8(c.new_branch_name@),
                    )
                },
                (BranchCommand::RenameBranch(c), Err(e)) => if head_branch is None {
                    e.kind == GitErrorKind::UnknownRef && e.error@ == "failed to load HEAD"@
                } else {
                    !is_valid_name(encode_utf8(c.new_branch_name@)) && e.kind
                        == GitErrorKind::InvalidName && e.says(
                        invalid_name_text(encode_utf8(c.new_branch_name@)),
                    )
                },
                (BranchCommand::DeleteBranch(c), Ok(BranchAction::Delete(path))) => {
                    &&& is_valid_name(encode_utf8(c.branch_name@))
                    &&& exists
                    &&& path@ == joined(refs.heads_dir@, encode_utf8(c.branch_name@))
                },
                (BranchCommand::DeleteBranch(c), Err(e)) => if !is_valid_name(
                    encode_utf8(c.branch_name@),
                ) {
                    e.kind == GitErrorKind::InvalidName && e.says(
                        invalid_name_text(encode_utf8(c.branch_name@)),
                    )
                } else {
                    !exists && e.kind == GitErrorKind::UnknownRef && e.says(
                        no_branch_text(encode_utf8(c.branch_name@)),
                    )
                },
                _ => false,
            },
    {
        match self {
            BranchCommand::ListBranches() => Ok(BranchAction::List),
            BranchCommand::CreateBranch(create_cmd) => {
                match head_ref {
                    Some(id) => match refs.create_ref(create_cmd.branch_name.as_str().as_bytes(), id) {
                        Ok(w) => Ok(BranchAction::Write(w)),
                        Err(e) => Err(e),
                    },
                    None => Err(RustGitError::with_kind(GitErrorKind::UnknownRef, "failed to load HEAD")),
                }
            },
            BranchCommand::RenameBranch(rename_cmd) => {
                match head_branch {
                    Some(old_branch_name) => match refs.rename_ref(
                        old_branch_name.as_slice(),
                        rename_cmd.new_branch_name.as_str().as_bytes(),
                    ) {
                        Ok((from, to, head)) => Ok(BranchAction::Rename(from, to, head)),
                        Err(e) => Err(e),
                    },
                    None => Err(RustGitError::with_kind(GitErrorKind::UnknownRef, "failed to load HEAD")),
                }
            },
            BranchCommand::DeleteBranch(delete_cmd) => {
                match refs.delete_ref(delete_cmd.branch_name.as_str().as_bytes(), exists) {
                    Ok(path) => Ok(BranchAction::Delete(path)),
                    Err(e) => Err(e),
                }
            },
        }
    }
}

} // verus!
