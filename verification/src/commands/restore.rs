//! Restoring files of the working directory from the index.

use crate::error::GitErrorKind;
use crate::error::RustGitError;
use crate::index::entries_under;
use crate::index::entry::EntryView;
use crate::index::refs_view;
use crate::object::id::GitObjectId;
use crate::object::raw::GitObjectRaw;
use crate::repo::repo_path;
use crate::repo::outside_text;
use crate::repo::GitRepo;
use vstd::prelude::*;
use vstd::string::*;
use vstd::utf8::*;

verus! {

/// The arguments of the command.
#[derive(Debug, Clone, PartialEq, Eq)]
pub struct RestoreArgs {
    pub files: Vec<String>,
}

/// The command.
#[derive(Debug, Clone, PartialEq, Eq)]
pub struct RestoreCommand {
    pub args: RestoreArgs,
}

/// A file to restore: its path in the repository and the blob that holds
/// its contents.
#[derive(Debug, Clone, PartialEq, Eq)]
pub struct RestoreTarget {
    pub path: Vec<u8>,
    pub obj_id: GitObjectId,
}

/// The values of a list of files to restore.
pub open spec fn targets_view(targets: Seq<RestoreTarget>) -> Seq<(Seq<u8>, Seq<u8>)> {
    Seq::new(targets.len(), |i: int| (targets[i].path@, targets[i].obj_id@))
}

/// The path and the blob of each of the entries.
pub open spec fn entry_targets(entries: Seq<EntryView>) -> Seq<(Seq<u8>, Seq<u8>)> {
    Seq::new(entries.len(), |i: int| (entries[i].path_name, entries[i].name))
}

impl RestoreCommand {
    /// The command for the arguments.
    pub fn new(args: RestoreArgs) -> (cmd: RestoreCommand)
        ensures
            cmd.args == args,
    {
        RestoreCommand { args }
    }

    /// The files to restore for one of the arguments: every entry of the
    /// index whose path lies under the path that the argument names. An
    /// argument that names a path outside the repository is refused.
    pub fn execute(&self, repo: &GitRepo, file: &str) -> (r: Result<Vec<RestoreTarget>, RustGitError>)
        ensures
            match r {
                Ok(targets) => repo_path(repo.working_dir@, file.spec_bytes()) is Some
                    && targets_view(targets@) == entry_targets(
                    entries_under(
                        repo.index@.entries,
                        repo_path(repo.working_dir@, file.spec_bytes())->0,
                    ),
                ),
                Err(e) => repo_path(repo.working_dir@, file.spec_bytes()) is None && e.kind
                    == GitErrorKind::OutsideRepo && e.says(outside_text(file.spec_bytes())),
            },
    {
        let file_repo_path = match repo.path_to_git_repo_path(file.as_bytes()) {
            Ok(p) => p,
            Err(e) => {
                return Err(e);
            },
        };
        let index_entries = repo.index.entry_range_by_path(file_repo_path.as_bytes());
        let ghost all = entry_targets(refs_view(index_entries@));
        let mut targets: Vec<RestoreTarget> = Vec::new();
        let n = index_entries.len();
        let mut i: usize = 0;
        assert(targets_view(targets@) =~= all.take(0));
        while i < n
            invariant
                i <= n,
                n == index_entries@.len(),
                all == entry_targets(refs_view(index_entries@)),
                targets_view(targets@) == all.take(i as int),
            decreases n - i,
        {
            let entry = index_entries[i];
            let ghost so_far = targets_view(targets@);
            assert(refs_view(index_entries@)[i as int] == entry@);
            targets.push(
                RestoreTarget { path: entry.path_name.clone(), obj_id: entry.name.duplicate() },
            );
            assert(targets_view(targets@) =~= so_far.push(all[i as int]));
            assert(all.take(i + 1) =~= so_far.push(all[i as int]));
            i += 1;
        }
        assert(all.take(n as int) =~= all);
        Ok(targets)
    }

    /// The contents to write for a file, given the object that was read
    /// for it: none where the object is missing.
    pub fn contents(object: Option<GitObjectRaw>) -> (r: Option<Vec<u8>>)
        ensures
            match (object, r) {
                (Some(o), Some(c)) => c@ == o.object.content@,
                (None, None) => true,
                _ => false,
            },
    {
        match object {
            Some(o) => Some(o.object.content),
            None => None,
        }
    }
}

} // verus!
