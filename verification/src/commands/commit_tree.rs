//! Making a commit of a tree.

use crate::error::GitErrorKind;
use crate::error::RustGitError;
use crate::object::commit::ids_view;
use crate::object::id::GitObjectId;
use crate::object_store::LooseObject;
use crate::repo::GitRepo;
use crate::text::join_lines;
use crate::text::joined_lines;
use crate::text::texts_bytes;
use vstd::prelude::*;
use vstd::string::*;
use vstd::utf8::*;

verus! {

/// The arguments of the command.
#[derive(Debug, Clone, PartialEq, Eq)]
pub struct CommitTreeArgs {
    pub tree: String,
    pub parents: Vec<String>,
    pub messages: Vec<String>,
}

/// The command.
#[derive(Debug, Clone, PartialEq, Eq)]
pub struct CommitTreeCommand {
    pub tree: GitObjectId,
    pub parents: Vec<GitObjectId>,
    pub message: Vec<u8>,
}

impl CommitTreeCommand {
    /// `r` is what the arguments make: the command of the tree, the
    /// parents and the message made of the given messages, one a line; or
    /// the refusal of an empty message.
    pub open spec fn made(args: CommitTreeArgs, r: Result<CommitTreeCommand, RustGitError>) -> bool {
        match r {
            Ok(cmd) => {
                &&& cmd.tree@ == encode_utf8(args.tree@)
                &&& ids_view(cmd.parents@) == texts_bytes(args.parents@)
                &&& cmd.message@ == joined_lines(texts_bytes(args.messages@))
                &&& cmd.message@.len() > 0
            },
            Err(e) => joined_lines(texts_bytes(args.messages@)).len() == 0 && e.kind
                == GitErrorKind::Usage && e.error@ == "commit message cannot be empty"@,
        }
    }

    /// The command for the arguments.
    pub fn new(args: CommitTreeArgs) -> (r: Result<CommitTreeCommand, RustGitError>)
        ensures
            Self::made(args, r),
    {
        let tree = GitObjectId::new(args.tree.as_str());
        let mut parents: Vec<GitObjectId> = Vec::new();
        let n = args.parents.len();
        let mut i: usize = 0;
        assert(ids_view(parents@) =~= texts_bytes(args.parents@).take(0));
        while i < n
            invariant
                i <= n,
                n == args.parents@.len(),
                ids_view(parents@) == texts_bytes(args.parents@).take(i as int),
            decreases n - i,
        {
            let ghost so_far = ids_view(parents@);
            let id = GitObjectId::new(args.parents[i].as_str());
            parents.push(id);
            assert(ids_view(parents@) =~= so_far.push(encode_utf8(args.parents@[i as int]@)));
            assert(texts_bytes(args.parents@).take(i + 1) =~= so_far.push(
                encode_utf8(args.parents@[i as int]@),
            ));
            i += 1;
        }
        assert(texts_bytes(args.parents@).take(n as int) =~= texts_bytes(args.parents@));
        let message = join_lines(&args.messages);
        if message.len() == 0 {
            return Err(RustGitError::with_kind(GitErrorKind::Usage, "commit message cannot be empty"));
        }
        Ok(CommitTreeCommand { tree, parents, message })
    }

    /// The id and the file of the commit that the command makes in the
    /// repository, given whether the tree and each parent are in the
    /// store, and the moment.
    pub fn execute(
        &self,
        repo: &GitRepo,
        tree_exists: bool,
        parents_exist: &Vec<bool>,
        timestamp: u128,
    ) -> (r: Result<(GitObjectId, LooseObject), RustGitError>)
        requires
            parents_exist@.len() == self.parents@.len(),
        ensures
            repo.commit_written(
                self.tree@,
                ids_view(self.parents@),
                self.message@,
                tree_exists,
                parents_exist@,
                timestamp,
                r,
            ),
    {
        repo.write_commit(
            &self.tree,
            &self.parents,
            self.message.as_slice(),
            tree_exists,
            parents_exist,
            timestamp,
        )
    }
}

} // verus!
