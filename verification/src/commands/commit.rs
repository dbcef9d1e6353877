//! Recording the index as a commit on the current branch.

use crate::config::GitConfig;
use crate::error::GitErrorKind;
use crate::error::RustGitError;
use crate::object::commit::ids_view;
use crate::object::id::GitObjectId;
use crate::repo::IDENTITY_ERR;
use crate::text::join_lines;
use crate::text::joined_lines;
use crate::text::texts_bytes;
use vstd::prelude::*;

verus! {

/// The arguments of the command.
#[derive(Debug, Clone, PartialEq, Eq)]
pub struct CommitArgs {
    pub messages: Vec<String>,
}

/// The command.
#[derive(Debug, Clone, PartialEq, Eq)]
pub struct CommitCommand {
    pub message: Vec<u8>,
}

impl CommitCommand {
    /// `r` is what the arguments make: the command with the message made
    /// of the given messages, one a line; or the refusal of an empty
    /// message.
    pub open spec fn made(args: CommitArgs, r: Result<CommitCommand, RustGitError>) -> bool {
        match r {
            Ok(cmd) => cmd.message@ == joined_lines(texts_bytes(args.messages@)) && cmd.message@.len()
                > 0,
            Err(e) => joined_lines(texts_bytes(args.messages@)).len() == 0 && e.kind
                == GitErrorKind::Usage && e.error@ == "commit message cannot be empty"@,
        }
    }

    /// The command for the arguments.
    pub fn new(args: CommitArgs) -> (r: Result<CommitCommand, RustGitError>)
        ensures
            Self::made(args, r),
    {
        let message = join_lines(&args.messages);
        if message.len() == 0 {
            return Err(RustGitError::with_kind(GitErrorKind::Usage, "commit message cannot be empty"));
        }
        Ok(CommitCommand { message })
    }

    /// The branch that the commit goes to and the parents it gets, given
    /// what HEAD points to: the branch of HEAD, and the commit of that
    /// branch where it has one. Without a configured name and email there
    /// is no commit, and before anything is written; nor is there one
    /// without a branch.
    pub fn execute(
        &self,
        config: &GitConfig,
        head_branch: Option<Vec<u8>>,
        head_ref: Option<GitObjectId>,
    ) -> (r: Result<(Vec<u8>, Vec<GitObjectId>), RustGitError>)
        ensures
            match r {
                Ok((branch, parents)) => {
                    &&& config.user.name is Some
                    &&& config.user.email is Some
                    &&& head_branch == Some(branch)
                    &&& ids_view(parents@) == (match head_ref {
                        Some(id) => seq![id@],
                        None => Seq::<Seq<u8>>::empty(),
                    })
                },
                Err(e) => if config.user.name is None || config.user.email is None {
                    e.kind == GitErrorKind::IdentityUnset && e.error@ == IDENTITY_ERR@
                } else {
                    head_branch is None && e.kind == GitErrorKind::DetachedHead && e.error@
                        == "couldn't load HEAD"@
                },
            },
    {
        if config.identity().is_none() {
            return Err(RustGitError::with_kind(GitErrorKind::IdentityUnset, IDENTITY_ERR));
        }
        let branch = match head_branch {
            Some(b) => b,
            None => {
                return Err(RustGitError::with_kind(GitErrorKind::DetachedHead, "couldn't load HEAD"));
            },
        };
        let mut parents: Vec<GitObjectId> = Vec::new();
        match head_ref {
            Some(id) => {
                let ghost text = id@;
                parents.push(id);
                assert(ids_view(parents@) =~= seq![text]);
            },
            None => {
                assert(ids_view(parents@) =~= Seq::<Seq<u8>>::empty());
            },
        }
        Ok((branch, parents))
    }
}

} // verus!
