//! Switching to a branch: its tree is written to the working directory,
//! and HEAD is pointed at it.

use crate::error::GitErrorKind;
use crate::error::RustGitError;
use crate::object::commit::GitCommitObject;
use crate::object::id::GitObjectId;
use crate::object::tree::GitTreeEntryType;
use crate::object::tree::GitTreeObject;
use crate::object::tree::TreeEntryView;
use crate::object::GitObject;
use crate::path::join_paths;
use crate::path::joined;
use crate::refs::branch_ref;
use crate::refs::head_name;
use crate::refs::symbolic_mark;
use crate::refs::GitRefs;
use crate::refs::RefWrite;
use vstd::prelude::*;
use vstd::string::*;
use vstd::utf8::*;

verus! {

/// The arguments of the command.
#[derive(Debug, Clone, PartialEq, Eq)]
pub struct SwitchArgs {
    pub branch: String,
}

/// The command.
#[derive(Debug, Clone, PartialEq, Eq)]
pub struct SwitchCommand {
    pub branch: String,
}

/// What is to be done for one entry of a tree.
#[derive(Debug, Clone, PartialEq, Eq)]
pub struct SwitchStep {
    /// Where the entry goes in the working directory.
    pub path: Vec<u8>,
    /// The object to read for it.
    pub obj_id: GitObjectId,
    /// What the object must be: a blob to write to the path, or a tree to
    /// write below the path, which is to be a directory.
    pub entry_type: GitTreeEntryType,
}

/// The mathematical value of a step.
pub struct SwitchStepView {
    pub path: Seq<u8>,
    pub obj_id: Seq<u8>,
    pub entry_type: GitTreeEntryType,
}

impl View for SwitchStep {
    type V = SwitchStepView;

    open spec fn view(&self) -> SwitchStepView {
        SwitchStepView { path: self.path@, obj_id: self.obj_id@, entry_type: self.entry_type }
    }
}

/// The values of a list of steps.
pub open spec fn steps_view(steps: Seq<SwitchStep>) -> Seq<SwitchStepView> {
    Seq::new(steps.len(), |i: int| steps[i]@)
}

/// The steps for the entries of a tree that is written to `dir`: one for
/// each entry, in order, at the name of the entry in `dir`.
pub open spec fn tree_steps(entries: Seq<TreeEntryView>, dir: Seq<u8>) -> Seq<SwitchStepView> {
    Seq::new(
        entries.len(),
        |i: int|
            SwitchStepView {
                path: joined(dir, entries[i].name),
                obj_id: entries[i].obj_id,
                entry_type: entries[i].entry_type,
            },
    )
}

/// `no ref `, then the name
pub open spec fn no_ref_text(name: Seq<u8>) -> Seq<u8> {
    "no ref ".spec_bytes() + name
}

/// `invalid ref `, the name, `, expected commit`
pub open spec fn no_commit_text(name: Seq<u8>) -> Seq<u8> {
    "invalid ref ".spec_bytes() + name + ", expected commit".spec_bytes()
}

impl SwitchCommand {
    /// The command for the arguments.
    pub fn new(args: SwitchArgs) -> (cmd: SwitchCommand)
        ensures
            cmd.branch == args.branch,
    {
        SwitchCommand { branch: args.branch }
    }

    /// The file of the reference of the branch.
    pub fn ref_path(&self, refs: &GitRefs) -> (path: Vec<u8>)
        ensures
            path@ == joined(refs.heads_dir@, encode_utf8(self.branch@)),
    {
        refs.branch_path(self.branch.as_str().as_bytes())
    }

    /// The commit that the branch points to, given the value of its
    /// reference if it has one. A branch without a reference is unknown.
    pub fn commit_id(&self, ref_value: Option<GitObjectId>) -> (r: Result<GitObjectId, RustGitError>)
        ensures
            match r {
                Ok(id) => ref_value == Some(id),
                Err(e) => ref_value is None && e.kind == GitErrorKind::UnknownRef && e.says(
                    no_ref_text(encode_utf8(self.branch@)),
                ),
            },
    {
        match ref_value {
            Some(id) => Ok(id),
            None => Err(
                RustGitError::prefixed(
                    GitErrorKind::UnknownRef,
                    "no ref ",
                    self.branch.as_str().as_bytes(),
                ),
            ),
        }
    }

    /// The commit among what was read for the id of the branch: it must be
    /// there and be a commit.
    pub fn expect_commit(&self, object: Option<GitObject>) -> (r: Result<GitCommitObject, RustGitError>)
        ensures
            match r {
                Ok(c) => object == Some(GitObject::Commit(c)),
                Err(e) => !(object matches Some(GitObject::Commit(_))) && e.kind == (if object is None {
                    GitErrorKind::UnknownObject
                } else {
                    GitErrorKind::TypeParseError
                }) && e.says(no_commit_text(encode_utf8(self.branch@))),
            },
    {
        match object {
            Some(GitObject::Commit(c)) => Ok(c),
            Some(_) => Err(
                RustGitError::framed(
                    GitErrorKind::TypeParseError,
                    "invalid ref ",
                    self.branch.as_str().as_bytes(),
                    ", expected commit",
                ),
            ),
            None => Err(
                RustGitError::framed(
                    GitErrorKind::UnknownObject,
                    "invalid ref ",
                    self.branch.as_str().as_bytes(),
                    ", expected commit",
                ),
            ),
        }
    }

    /// The tree among what was read for an id: it must be there and be a
    /// tree.
    pub fn expect_tree(object: Option<GitObject>) -> (r: Result<GitTreeObject, RustGitError>)
        ensures
            match r {
                Ok(t) => object == Some(GitObject::Tree(t)),
                Err(e) => !(object matches Some(GitObject::Tree(_))) && e.kind == (if object is None {
                    GitErrorKind::UnknownObject
                } else {
                    GitErrorKind::TypeParseError
                }) && e.error@ == "expected tree object"@,
            },
    {
        match object {
            Some(GitObject::Tree(t)) => Ok(t),
            Some(_) => Err(RustGitError::with_kind(GitErrorKind::TypeParseError, "expected tree object")),
            None => Err(RustGitError::with_kind(GitErrorKind::UnknownObject, "expected tree object")),
        }
    }

    /// The contents to write to the file of a blob: the blob is what was
    /// read for the id; it must be there and be a blob.
    pub fn write_blob_obj(object: Option<GitObject>) -> (r: Result<Vec<u8>, RustGitError>)
        ensures
            match r {
                Ok(contents) => object matches Some(GitObject::Blob(b)) && b@ == contents@,
                Err(e) => !(object matches Some(GitObject::Blob(_))) && e.kind == (if object is None {
                    GitErrorKind::UnknownObject
                } else {
                    GitErrorKind::TypeParseError
                }) && e.error@ == "expected blob object"@,
            },
    {
        match object {
            Some(GitObject::Blob(b)) => Ok(b.contents),
            Some(_) => Err(RustGitError::with_kind(GitErrorKind::TypeParseError, "expected blob object")),
            None => Err(RustGitError::with_kind(GitErrorKind::UnknownObject, "expected blob object")),
        }
    }

    /// What is to be done to write a tree to the directory `path`: one
    /// step for each of its entries.
    pub fn write_tree_obj(&self, path: &[u8], tree_obj: &GitTreeObject) -> (steps: Vec<SwitchStep>)
        ensures
            steps_view(steps@) == tree_steps(tree_obj@, path@),
    {
        let mut steps: Vec<SwitchStep> = Vec::new();
        let n = tree_obj.entries.len();
        let mut i: usize = 0;
        let ghost all = tree_steps(tree_obj@, path@);
        assert(steps_view(steps@) =~= all.take(0));
        while i < n
            invariant
                i <= n,
                n == tree_obj.entries@.len(),
                all == tree_steps(tree_obj@, path@),
                steps_view(steps@) == all.take(i as int),
            decreases n - i,
        {
            let entry = &tree_obj.entries[i];
            let ghost so_far = steps_view(steps@);
            assert(tree_obj@[i as int] == entry@);
            steps.push(
                SwitchStep {
                    path: join_paths(path, entry.name.as_slice()),
                    obj_id: entry.obj_id.duplicate(),
                    entry_type: entry.entry_type,
                },
            );
            assert(steps_view(steps@) =~= so_far.push(all[i as int]));
            assert(all.take(i + 1) =~= so_far.push(all[i as int]));
            i += 1;
        }
        assert(all.take(n as int) =~= all);
        steps
    }

    /// The write that points HEAD at the branch.
    pub fn execute(&self, refs: &GitRefs) -> (w: RefWrite)
        ensures
            w.path@ == joined(refs.git_dir@, head_name()),
            w.value@ == symbolic_mark() + branch_ref(encode_utf8(self.branch@)),
    {
        refs.point_head_at(self.branch.as_str().as_bytes())
    }
}

} // verus!
